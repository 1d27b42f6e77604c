use string_property::BoundsError;
use string_property::StringProperty;

#[test]
fn set_writes_one_byte_for_ascii() {
    let mut property = StringProperty::new("abc", 0u8);
    assert_eq!(property.set(1, 'b', 9), Ok(()));
    assert_eq!(property.get_all(), &[0, 9, 0]);
}

#[test]
fn set_writes_two_bytes_for_latin_supplement() {
    let mut property = StringProperty::new("a\u{e9}b", 0u8);
    assert_eq!(property.set(1, '\u{e9}', 9), Ok(()));
    assert_eq!(property.get_all(), &[0, 9, 9, 0]);
}

#[test]
fn set_writes_three_bytes_for_euro_sign() {
    let mut property = StringProperty::new("a\u{20ac}b", 0u8);
    assert_eq!(property.set(1, '\u{20ac}', 9), Ok(()));
    assert_eq!(property.get_all(), &[0, 9, 9, 9, 0]);
}

#[test]
fn set_writes_four_bytes_beyond_the_basic_plane() {
    let mut property = StringProperty::new("a\u{1f600}b", 0u8);
    assert_eq!(property.set(1, '\u{1f600}', 9), Ok(()));
    assert_eq!(property.get_all(), &[0, 9, 9, 9, 9, 0]);
}

#[test]
fn set_width_changes_at_the_code_point_thresholds() {
    let cases = [
        ('\u{0}', 1usize),
        ('\u{7f}', 1),
        ('\u{80}', 2),
        ('\u{7ff}', 2),
        ('\u{800}', 3),
        ('\u{ffff}', 3),
        ('\u{10000}', 4),
        ('\u{10ffff}', 4),
    ];
    for (ch, width) in cases {
        let mut property = StringProperty::from_values("", vec![0u8; 6]);
        assert_eq!(property.set(1, ch, 3), Ok(()));
        let mut wanted = vec![0u8; 6];
        for slot in wanted.iter_mut().skip(1).take(width) {
            *slot = 3;
        }
        assert_eq!(property.get_all(), &wanted[..]);
    }
}

#[test]
fn set_makes_every_slot_of_the_span_read_the_value() {
    let mut property = StringProperty::new("x\u{20ac}y", 'n');
    assert_eq!(property.set(1, '\u{20ac}', 'y'), Ok(()));
    for offset in 1..4 {
        assert_eq!(property.get(offset), Ok('y'));
        assert_eq!(property[offset], 'y');
    }
    assert_eq!(property[0], 'n');
    assert_eq!(property[4], 'n');
}

#[test]
fn set_up_to_the_last_slot_is_accepted() {
    let mut property = StringProperty::new("a\u{e9}", 0u8);
    assert_eq!(property.set(1, '\u{e9}', 2), Ok(()));
    assert_eq!(property.get_all(), &[0, 2, 2]);
}

#[test]
fn set_past_the_end_is_refused_and_writes_nothing() {
    let mut property = StringProperty::from_values("a\u{e9}", vec![1u8, 2, 3]);
    assert_eq!(property.set(2, '\u{e9}', 9), Err(BoundsError::PastEnd));
    assert_eq!(property.get_all(), &[1, 2, 3]);
    assert_eq!(property.set(3, 'a', 9), Err(BoundsError::PastEnd));
    assert_eq!(property.get_all(), &[1, 2, 3]);
    assert_eq!(property.set(usize::MAX, '\u{1f600}', 9), Err(BoundsError::PastEnd));
    assert_eq!(property.get_all(), &[1, 2, 3]);
}

#[test]
fn set_twice_is_as_set_once() {
    let mut once = StringProperty::new("a\u{e9}b", 0u8);
    assert_eq!(once.set(1, '\u{e9}', 7), Ok(()));
    let mut twice = StringProperty::new("a\u{e9}b", 0u8);
    assert_eq!(twice.set(1, '\u{e9}', 7), Ok(()));
    assert_eq!(twice.set(1, '\u{e9}', 7), Ok(()));
    assert_eq!(once.get_all(), twice.get_all());
    assert_eq!(twice.get_all(), &[0, 7, 7, 0]);
}

#[test]
fn get_past_the_end_is_refused() {
    let property = StringProperty::new("abc", 0u8);
    assert_eq!(property.get(2), Ok(0));
    assert_eq!(property.get(3), Err(BoundsError::PastEnd));
    assert_eq!(property.get(4), Err(BoundsError::PastEnd));
    assert_eq!(property.get(usize::MAX), Err(BoundsError::PastEnd));
}

#[test]
fn get_range_is_the_slice_of_get_all() {
    let property = StringProperty::from_values("abcde", vec![10u32, 11, 12, 13, 14]);
    for start in 0..=5 {
        for end in start..=5 {
            let all = property.get_all();
            assert_eq!(property.get_range(start..end), Ok(&all[start..end]));
        }
    }
    assert_eq!(property.get_range(1..4), Ok(&[11u32, 12, 13][..]));
    assert_eq!(property.get_range(5..5), Ok(&[][..]));
}

#[test]
fn get_range_past_the_end_is_refused() {
    let property = StringProperty::new("abc", 0u8);
    assert_eq!(property.get_range(0..4), Err(BoundsError::PastEnd));
    assert_eq!(property.get_range(3..4), Err(BoundsError::PastEnd));
    assert_eq!(property.get_range(4..4), Err(BoundsError::PastEnd));
    assert_eq!(property.get_range(0..usize::MAX), Err(BoundsError::PastEnd));
}

#[test]
fn get_range_that_ends_before_it_starts_is_refused() {
    let property = StringProperty::new("abc", 0u8);
    let (start, end) = (2usize, 1usize);
    assert_eq!(property.get_range(start..end), Err(BoundsError::Inverted));
    let (start, end) = (9usize, 8usize);
    assert_eq!(property.get_range(start..end), Err(BoundsError::Inverted));
}

#[test]
fn index_reads_one_slot() {
    let property = StringProperty::from_values("abc", vec![7u8, 8, 9]);
    assert_eq!(property[0], 7);
    assert_eq!(property[1], 8);
    assert_eq!(property[2], 9);
}

#[test]
fn index_mut_writes_one_slot_alone() {
    let mut property = StringProperty::new("a\u{e9}", 0u8);
    *property.index_mut(1) = 4;
    assert_eq!(property.get_all(), &[0, 4, 0]);
    assert_eq!(property.len(), 3);
}
