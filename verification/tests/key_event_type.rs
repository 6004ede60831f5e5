use macrokey::key_event_type::KeyEventType;

#[test]
fn from_value_names_the_three_known_values() {
    assert!(matches!(KeyEventType::from_value(0), KeyEventType::RELEASED));
    assert!(matches!(KeyEventType::from_value(1), KeyEventType::PRESSED));
    assert!(matches!(KeyEventType::from_value(2), KeyEventType::REPEAT));
    assert!(matches!(KeyEventType::from_value(7), KeyEventType::UNKNOWN(7)));
    assert!(matches!(KeyEventType::from_value(-1), KeyEventType::UNKNOWN(-1)));
}
