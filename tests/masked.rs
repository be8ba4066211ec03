use ratatui::masked::Masked;

#[test]
fn test_masked_value() {
    let masked = Masked::new("12345", 'x');
    assert_eq!(masked.value(), "xxxxx");
}

#[test]
fn test_masked_debug() {
    let masked = Masked::new("12345", 'x');
    assert_eq!(masked.debug_string(), "12345");
}

#[test]
fn test_masked_display() {
    let masked = Masked::new("12345", 'x');
    assert_eq!(masked.to_string(), "xxxxx");
}

#[test]
fn test_masked_conversions() {
    let masked = Masked::new("12345", 'x');

    let text: String = (&masked).into();
    assert_eq!(text, "xxxxx");

    let text: String = masked.clone().into();
    assert_eq!(text, "xxxxx");

    let cow: String = String::from(&masked);
    assert_eq!(cow, "xxxxx");

    let cow: String = String::from(masked.clone());
    assert_eq!(cow, "xxxxx");
}

#[test]
fn masked_value_counts_characters_not_bytes() {
    let masked = Masked::new("p\u{e4}ss", '*');
    assert_eq!(masked.value(), "****");
    assert_eq!(masked.mask_char(), '*');
}

#[test]
fn masked_empty_string_is_empty() {
    let masked = Masked::new("", '*');
    assert_eq!(masked.value(), "");
}
