use garden_esp::reading::centi_from_raw;

#[test]
fn positive_readings_convert_to_hundredths() {
    assert_eq!(centi_from_raw(0x07d0), 12500); // 125 degrees
    assert_eq!(centi_from_raw(0x0550), 8500); // 85 degrees
    assert_eq!(centi_from_raw(0x0191), 2506); // 25.0625 degrees
    assert_eq!(centi_from_raw(0x00A2), 1012); // 10.125 degrees
    assert_eq!(centi_from_raw(0x0008), 50); // 0.5 degrees
    assert_eq!(centi_from_raw(0x0000), 0);
    assert_eq!(centi_from_raw(0x0001), 6); // 0.0625 degrees
}

#[test]
fn negative_readings_round_toward_zero() {
    assert_eq!(centi_from_raw(0xfff8), -50); // -0.5 degrees
    assert_eq!(centi_from_raw(0xFF5E), -1012); // -10.125 degrees
    assert_eq!(centi_from_raw(0xFE6F), -2506); // -25.0625 degrees
    assert_eq!(centi_from_raw(0xFC90), -5500); // -55 degrees
    assert_eq!(centi_from_raw(0xffff), -6); // -0.0625 degrees
}

#[test]
fn conversion_matches_the_floating_point_formula() {
    // integer + fraction / 10000, times 100, truncated: what the sensor task
    // computed in f32.
    for raw in (0u16..=0xffff).filter(|&r| r != 0x8000) {
        let (integer, fraction) = onewire::ds18b20::split_temp(raw);
        let temperature = (integer as f32) + (fraction as f32 / 10000.0);
        let expected = (temperature * 100.0) as i32;
        assert_eq!(centi_from_raw(raw), expected, "raw {:#06x}", raw);
    }
}

#[test]
fn extreme_readings_stay_in_range() {
    assert_eq!(centi_from_raw(0x7fff), 204793);
    assert_eq!(centi_from_raw(0x8001), -204793);
}
