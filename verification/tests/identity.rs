use ruche::fixed_string::{FixedSizeString, Puuid, RiotMatchId};

#[test]
fn short_value_is_padded_with_zeros() {
    let id: FixedSizeString<8> = FixedSizeString::new("abc");
    assert_eq!(id.trim_end_zeros(), &[b'a', b'b', b'c'][..]);
    assert_eq!(id, FixedSizeString::<8>::new("abc\0\0\0\0\0"));
    assert_eq!(id, FixedSizeString::<8>::new("abc\0"));
    assert_ne!(id, FixedSizeString::<8>::new("abc\0d"));
    assert_eq!(id.as_ref(), "abc");
    assert_eq!(id.to_string(), "abc");
}

#[test]
fn long_value_is_cut_at_capacity() {
    let id: FixedSizeString<4> = FixedSizeString::new("abcdefgh");
    assert_eq!(id.trim_end_zeros(), &[b'a', b'b', b'c', b'd'][..]);
    assert_eq!(id.as_ref(), "abcd");
    assert_eq!(id, FixedSizeString::<4>::new("abcd"));
}

#[test]
fn value_of_exact_capacity_is_kept() {
    let id = RiotMatchId::new("EUW1_712345678901");
    assert_eq!(id.as_ref(), "EUW1_712345678901");
    assert_eq!(id.trim_end_zeros().len(), 17);
}

#[test]
fn empty_value_has_empty_content() {
    let id = Puuid::new("");
    assert_eq!(id.trim_end_zeros().len(), 0);
    assert_eq!(id.as_ref(), "");
    assert_eq!(id, Puuid::new("\0\0"));
}

#[test]
fn equal_values_are_equal_identities() {
    let a = Puuid::new("player-one");
    let b = Puuid::new("player-one");
    let c = Puuid::new("player-two");
    assert!(a == b);
    assert!(a != c);
    assert_eq!(a, b);
}

#[test]
fn values_that_differ_past_the_capacity_are_equal_identities() {
    let a: FixedSizeString<3> = FixedSizeString::new("abcX");
    let b: FixedSizeString<3> = FixedSizeString::new("abcY");
    assert!(a == b);
}

#[test]
fn value_cut_inside_a_character_reads_with_a_replacement() {
    let id: FixedSizeString<2> = FixedSizeString::new("a\u{e9}");
    assert_eq!(id.trim_end_zeros(), &[b'a', 0xc3][..]);
    assert_eq!(id.to_string(), "a\u{fffd}");
}
