# garden_esp

Firmware for an ESP32-C3 garden sensor: a DS18B20 on 1-wire measures the
ground temperature, the readings are filtered and averaged, and the average is
published over MQTT with a Home Assistant discovery message.

- `src/` is the verified library (Verus): the reading window with its spike
  filter and truncated mean (`window`), the raw-reading conversion (`reading`),
  the decision functions of the temperature, MQTT and Wi-Fi tasks (`sensor`,
  `mqtt`, `wifi`), the `.env` line parser and the link-error advice used at
  build time (`dotenv`, `linker`), and small text operations (`text`).
- `app/` is the firmware around it: hardware setup, the async tasks that
  perform the actions the library decides, and the build-time helpers.
- `tests/` runs the library on concrete values.
