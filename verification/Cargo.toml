[package]
name = "garden_esp"
version = "0.1.0"
edition = "2021"
publish = false

[dependencies]
defmt = "*"
embassy-executor = "*"
embassy-net = { version = "*", features = ["tcp", "dns", "proto-ipv4", "dhcpv4", "medium-ethernet"] }
embassy-time = "*"
embedded-io-async = "*"
esp-alloc = "*"
esp-bootloader-esp-idf = "*"
esp-hal = { version = "*", features = ["esp32c3", "unstable"] }
esp-radio = { version = "*", features = ["esp32c3", "wifi", "unstable"] }
esp-rtos = { version = "*", features = ["esp32c3", "embassy", "esp-radio"] }
onewire = "*"
panic-rtt-target = "*"
rtt-target = "*"
rust-mqtt = "*"
smoltcp = { version = "*", default-features = false, features = ["proto-ipv4", "socket-dns"] }
static_cell = "*"
