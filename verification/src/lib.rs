//! Decision logic of a garden temperature node: a DS18B20 sensor is read over
//! 1-wire, its readings are filtered and averaged, and the average is
//! published over MQTT for Home Assistant.

pub mod window;
pub mod reading;
pub mod sensor;
pub mod mqtt;
pub mod wifi;
pub mod text;
pub mod dotenv;
pub mod linker;
