use minivector::color::Color;

#[test]
fn hex_round_trip() {
    let c = Color::new(0x28, 0x28, 0x28);
    assert_eq!(c.to_hex(), 0x282828);
    assert_eq!(Color::from_hex(0x282828), c);
    let c = Color::new(51, 255, 100);
    assert_eq!(Color::from_hex(c.to_hex()), c);
}

#[test]
fn from_hex_unpacks_channels() {
    let c = Color::from_hex(0x33FF64);
    assert_eq!((c.r, c.g, c.b), (0x33, 0xFF, 0x64));
}

#[test]
fn to_hex_str_is_uppercase_with_mark() {
    assert_eq!(Color::new(40, 40, 40).to_hex_str(), "#282828");
    assert_eq!(Color::new(51, 255, 100).to_hex_str(), "#33FF64");
    assert_eq!(Color::new(0, 0, 0).to_hex_str(), "#000000");
}

#[test]
fn from_hex_str_accepts_with_and_without_mark() {
    assert_eq!(Color::from_hex_str("#33ff64"), Some(Color::new(51, 255, 100)));
    assert_eq!(Color::from_hex_str("33FF64"), Some(Color::new(51, 255, 100)));
    assert_eq!(Color::from_hex_str("282828"), Some(Color::new(40, 40, 40)));
}

#[test]
fn from_hex_str_short_values_are_low_bits() {
    assert_eq!(Color::from_hex_str("ff"), Some(Color::new(0, 0, 255)));
    assert_eq!(Color::from_hex_str("0"), Some(Color::new(0, 0, 0)));
}

#[test]
fn from_hex_str_rejects_bad_input() {
    assert_eq!(Color::from_hex_str(""), None);
    assert_eq!(Color::from_hex_str("#"), None);
    assert_eq!(Color::from_hex_str("xyz"), None);
    assert_eq!(Color::from_hex_str("12g4"), None);
    // Nine hex digits overflow 32 bits.
    assert_eq!(Color::from_hex_str("100000000"), None);
    // Leading zeros keep it in range.
    assert_eq!(Color::from_hex_str("0000000001"), Some(Color::new(0, 0, 1)));
}

#[test]
fn hex_str_round_trip() {
    for c in [Color::new(0, 0, 0), Color::new(255, 255, 255), Color::new(18, 52, 86)] {
        let s = c.to_hex_str();
        assert_eq!(Color::from_hex_str(&s), Some(c));
    }
}
