use bgp_config::as_number::AsNumber;

#[test]
fn should_yield_small_as_number() {
    match AsNumber::from(4096u16) {
        AsNumber::Small(port_number) => assert_eq!(port_number, 4096),
        AsNumber::Extended(_) => panic!("Should yield small AS number"),
    }
}

#[test]
fn should_yield_large_as_number_from_u32_number() {
    match AsNumber::from(131072u32) {
        AsNumber::Small(_) => panic!("Should yield small AS number"),
        AsNumber::Extended(port_number) => assert_eq!(port_number, 131072),
    }
}

#[test]
fn should_yield_small_as_number_from_u16_number() {
    match AsNumber::from(4096u32) {
        AsNumber::Small(port_number) => assert_eq!(port_number, 4096),
        AsNumber::Extended(_) => panic!("Should yield small AS number"),
    }
}

#[test]
fn normalization_boundary() {
    assert_eq!(AsNumber::from(65535u32), AsNumber::Small(65535));
    assert_eq!(AsNumber::from(65536u32), AsNumber::Extended(65536));
    assert_eq!(AsNumber::from(0u32), AsNumber::Small(0));
    assert_eq!(AsNumber::from(u32::MAX), AsNumber::Extended(u32::MAX));
}

#[test]
fn display_renders_numeric_value() {
    assert_eq!(AsNumber::from(100u16).to_display_string(), "100");
    assert_eq!(AsNumber::from(100u32).to_display_string(), "100");
    assert_eq!(AsNumber::from(0u16).to_display_string(), "0");
    assert_eq!(AsNumber::from(131072u32).to_display_string(), "131072");
    assert_eq!(AsNumber::from(u32::MAX).to_display_string(), "4294967295");
}

#[test]
fn value_ignores_variant() {
    assert_eq!(AsNumber::Small(23456).value(), 23456);
    assert_eq!(AsNumber::from(65000u32).value(), 65000);
    assert_eq!(AsNumber::from(4200000000u32).value(), 4200000000);
}
