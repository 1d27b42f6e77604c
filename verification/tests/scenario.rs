use string_property::BoundsError;
use string_property::StringProperty;

#[test]
fn two_characters_three_bytes() {
    let text = "aé";
    let mut property = StringProperty::new(text, 0u8);
    assert_eq!(property.len(), 3);
    assert_eq!(property.get_all(), &[0, 0, 0]);

    assert_eq!(property.set(0, 'a', 5), Ok(()));
    assert_eq!(property.get_all(), &[5, 0, 0]);

    assert_eq!(property.set(1, 'é', 7), Ok(()));
    assert_eq!(property.get_all(), &[5, 7, 7]);

    assert_eq!(property.get(1), Ok(7));
    assert_eq!(property.get_range(1..3), Ok(&[7u8, 7][..]));
    assert_eq!(property.get_all(), &[5, 7, 7]);

    assert_eq!(property.get(3), Err(BoundsError::PastEnd));
}

#[test]
fn new_has_one_default_slot_per_byte() {
    let text = "na\u{ef}ve \u{20ac}5 \u{1f600}";
    assert_eq!(text.len(), 16);
    let property = StringProperty::new(text, 'x');
    assert_eq!(property.len(), 16);
    assert_eq!(property.get_all(), &['x'; 16]);
    for offset in 0..16 {
        assert_eq!(property.get(offset), Ok('x'));
    }
}

#[test]
fn new_on_empty_text_has_no_slot() {
    let property = StringProperty::new("", 1i32);
    assert_eq!(property.len(), 0);
    assert!(property.get_all().is_empty());
    assert_eq!(property.get(0), Err(BoundsError::PastEnd));
    assert_eq!(property.get_range(0..0), Ok(&[][..]));
}

#[test]
fn from_values_keeps_the_values_as_given() {
    let property = StringProperty::from_values("ab", vec![4u16, 9, 2]);
    assert_eq!(property.len(), 3);
    assert_eq!(property.get_all(), &[4, 9, 2]);
    assert_eq!(property.get(2), Ok(2));
}
