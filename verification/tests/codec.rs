use gaufre::codec::{alpha_nth, n_alpha};

#[test]
fn label_round_trip_all_ordinals() {
    for n in 0u16..=675 {
        let label = n_alpha(n);
        assert_eq!(alpha_nth(label), Some(n));
    }
}

#[test]
fn encode_first_and_last_labels() {
    assert_eq!(n_alpha(0), ('a', 'a'));
    assert_eq!(n_alpha(25), ('a', 'z'));
    assert_eq!(n_alpha(26), ('b', 'a'));
    assert_eq!(n_alpha(27), ('b', 'b'));
    assert_eq!(n_alpha(675), ('z', 'z'));
}

#[test]
fn decode_concrete_labels() {
    assert_eq!(alpha_nth(('a', 'a')), Some(0));
    assert_eq!(alpha_nth(('a', 'b')), Some(1));
    assert_eq!(alpha_nth(('c', 'a')), Some(52));
    assert_eq!(alpha_nth(('z', 'z')), Some(675));
}

#[test]
fn decode_rejects_non_lowercase() {
    assert_eq!(alpha_nth(('A', 'a')), None);
    assert_eq!(alpha_nth(('a', 'Z')), None);
    assert_eq!(alpha_nth(('0', 'a')), None);
    assert_eq!(alpha_nth(('a', '{')), None);
    assert_eq!(alpha_nth(('`', 'a')), None);
    assert_eq!(alpha_nth((' ', ' ')), None);
}
