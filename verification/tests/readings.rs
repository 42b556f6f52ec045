use amdgpu_sensors::{DiscoveryError, Gpu, ParseError, PciDevice};

fn gpu() -> Gpu {
    let names = vec!["amdgpu\n".to_string()];
    let devices = vec![PciDevice {
        path: "/sys/bus/pci/devices/0000:03:00.0".to_string(),
        uevent: Some("DRIVER=amdgpu\nPCI_CLASS=30000\n".to_string()),
    }];
    Gpu::new(&names, &devices).unwrap()
}

#[test]
fn temperature_in_celsius() {
    assert_eq!(gpu().get_temp("45000", false), Ok(45));
    assert_eq!(gpu().get_temp("45000\n", false), Ok(45));
}

#[test]
fn temperature_in_fahrenheit() {
    assert_eq!(gpu().get_temp("45000", true), Ok(113));
    assert_eq!(gpu().get_temp("45000\n", true), Ok(113));
}

#[test]
fn fahrenheit_division_drops_the_remainder() {
    // 1 * 9 / 5 + 32000 = 32001, which is 32 degrees.
    assert_eq!(gpu().get_temp("1", true), Ok(32));
    // 36943 * 9 / 5 = 66497 (not 66497.4); 98497 rounds to 98.
    assert_eq!(gpu().get_temp("36943", true), Ok(98));
    // 36944 * 9 / 5 = 66499; 98499 still rounds to 98.
    assert_eq!(gpu().get_temp("36944", true), Ok(98));
    // 36945 * 9 / 5 = 66501; 98501 rounds to 99.
    assert_eq!(gpu().get_temp("36945", true), Ok(99));
}

#[test]
fn usage_is_read_as_written() {
    assert_eq!(gpu().get_usage("37"), Ok(37));
    assert_eq!(gpu().get_usage("37\n"), Ok(37));
    assert_eq!(gpu().get_usage("0\n"), Ok(0));
    assert_eq!(gpu().get_usage("100\n"), Ok(100));
}

#[test]
fn usage_above_one_hundred_is_not_refused() {
    assert_eq!(gpu().get_usage("101\n"), Ok(101));
    assert_eq!(gpu().get_usage("255\n"), Ok(255));
}

#[test]
fn half_a_degree_rounds_up() {
    assert_eq!(gpu().get_temp("45500", false), Ok(46));
    assert_eq!(gpu().get_temp("45499", false), Ok(45));
    assert_eq!(gpu().get_temp("45501", false), Ok(46));
    assert_eq!(gpu().get_temp("500", false), Ok(1));
    assert_eq!(gpu().get_temp("499", false), Ok(0));
    assert_eq!(gpu().get_temp("0", false), Ok(0));
}

#[test]
fn degrees_stop_at_the_largest_value() {
    assert_eq!(gpu().get_temp("254499", false), Ok(254));
    assert_eq!(gpu().get_temp("254500", false), Ok(255));
    assert_eq!(gpu().get_temp("300000", false), Ok(255));
    assert_eq!(gpu().get_temp("4294967295", false), Ok(255));
    assert_eq!(gpu().get_temp("4294967295", true), Ok(255));
    assert_eq!(gpu().get_temp("124000", true), Ok(255));
}

#[test]
fn trailing_whitespace_is_dropped() {
    assert_eq!(gpu().get_temp("45000 \t\r\n\n", false), Ok(45));
    assert_eq!(gpu().get_temp("45000\u{00A0}\u{3000}", false), Ok(45));
    assert_eq!(gpu().get_usage("37 \n"), Ok(37));
}

#[test]
fn leading_whitespace_is_not_a_number() {
    assert_eq!(gpu().get_temp(" 45000", false), Err(ParseError::InvalidDigit));
    assert_eq!(gpu().get_usage("\n37"), Err(ParseError::InvalidDigit));
}

#[test]
fn empty_reading_is_refused() {
    assert_eq!(gpu().get_temp("", false), Err(ParseError::Empty));
    assert_eq!(gpu().get_temp("\n", true), Err(ParseError::Empty));
    assert_eq!(gpu().get_usage(" \n"), Err(ParseError::Empty));
}

#[test]
fn reading_with_other_characters_is_refused() {
    assert_eq!(gpu().get_temp("45000C", false), Err(ParseError::InvalidDigit));
    assert_eq!(gpu().get_temp("45 000", false), Err(ParseError::InvalidDigit));
    assert_eq!(gpu().get_temp("-45000", false), Err(ParseError::InvalidDigit));
    assert_eq!(gpu().get_temp("45.5", false), Err(ParseError::InvalidDigit));
    assert_eq!(gpu().get_temp("+", false), Err(ParseError::InvalidDigit));
    assert_eq!(gpu().get_temp("++1", false), Err(ParseError::InvalidDigit));
    assert_eq!(gpu().get_temp("٤٥", false), Err(ParseError::InvalidDigit));
    assert_eq!(gpu().get_usage("37%"), Err(ParseError::InvalidDigit));
    assert_eq!(gpu().get_usage("1_0"), Err(ParseError::InvalidDigit));
}

#[test]
fn reading_out_of_range_is_refused() {
    assert_eq!(gpu().get_temp("4294967296", false), Err(ParseError::Overflow));
    assert_eq!(
        gpu().get_temp("99999999999999999999999999999999", true),
        Err(ParseError::Overflow)
    );
    assert_eq!(gpu().get_usage("256"), Err(ParseError::Overflow));
    assert_eq!(gpu().get_usage("45000"), Err(ParseError::Overflow));
}

#[test]
fn a_plus_sign_and_leading_zeros_are_accepted() {
    assert_eq!(gpu().get_temp("+45000", false), Ok(45));
    assert_eq!(gpu().get_temp("00000000000000045000", false), Ok(45));
    assert_eq!(gpu().get_usage("+037\n"), Ok(37));
}

#[test]
fn readings_agree_with_the_standard_parser() {
    let samples = [
        "", " ", "\n", "0", "7", "37", "100", "255", "256", "999", "45000", "45000\n",
        "4294967295", "4294967296", "42949672950", "18446744073709551616", "+", "-", "+5",
        "-5", "+-5", "5+", "0x10", "1e3", "12a", "a12", "1 2", " 12", "12 ", "12\r\n",
        "12\u{2003}", "\u{2003}12", "１２", "000", "+000255", "0000256",
    ];
    for text in samples {
        let as_u32 = text.trim_end().parse::<u32>().ok();
        let as_u8 = text.trim_end().parse::<u8>().ok();
        assert_eq!(
            gpu().get_temp(text, false).ok().map(u32::from),
            as_u32.map(|milli| ((u64::from(milli) + 500) / 1000).min(255) as u32),
            "temperature from {text:?}"
        );
        assert_eq!(gpu().get_usage(text).ok(), as_u8, "usage from {text:?}");
    }
}

#[test]
fn degrees_agree_with_rounding_in_floating_point() {
    let mut milli: u32 = 0;
    while milli < 400_000 {
        let celsius = (milli as f32 / 1000.0).round() as u8;
        let fahrenheit = ((milli * 9 / 5 + 32000) as f32 / 1000.0).round() as u8;
        assert_eq!(amdgpu_sensors::temperature::to_degrees(milli, false), celsius);
        assert_eq!(amdgpu_sensors::temperature::to_degrees(milli, true), fahrenheit);
        milli += 1;
    }
    for milli in [16_777_215u32, 16_777_216, 16_777_217, 100_000_000, 477_218_588] {
        let celsius = (milli as f32 / 1000.0).round() as u8;
        let fahrenheit = ((milli * 9 / 5 + 32000) as f32 / 1000.0).round() as u8;
        assert_eq!(amdgpu_sensors::temperature::to_degrees(milli, false), celsius);
        assert_eq!(amdgpu_sensors::temperature::to_degrees(milli, true), fahrenheit);
    }
}

#[test]
fn messages_name_what_was_not_found() {
    assert_eq!(
        DiscoveryError::TempSensorNotFound.message(),
        "AMD GPU temperature sensor not found!"
    );
    assert_eq!(DiscoveryError::PciDataNotFound.message(), "AMD PCI data not found!");
}
