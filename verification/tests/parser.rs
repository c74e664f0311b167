use gaufre::error::GaufreError;
use gaufre::item::ItemKind;
use gaufre::parser::get_listing;

#[test]
fn parses_single_directory_line() {
    let raw = b"1Home\tselectorA\texample.org\t70\r\n.\r\n";
    let items = get_listing(raw).unwrap();
    assert_eq!(items.len(), 1);
    assert_eq!(items[0].kind, ItemKind::Directory);
    assert_eq!(items[0].display, "Home");
    assert_eq!(items[0].selector, "selectorA");
    assert_eq!(items[0].host, "example.org");
    assert_eq!(items[0].port, 70);
}

#[test]
fn fail_fast_discards_valid_lines() {
    let raw = b"1Home\tselectorA\texample.org\t70\r\nZbad\tsel\thost\t70\r\n.\r\n";
    let r = get_listing(raw);
    assert_eq!(r, Err(GaufreError::Malformed));
}

#[test]
fn parses_several_kinds_in_order() {
    let raw = b"iWelcome here\t\terror.host\t1\r\n0About\t/about\texample.org\t70\r\n9Data\t/data\tother.org\t7070\r\n.\r\n";
    let items = get_listing(raw).unwrap();
    assert_eq!(items.len(), 3);
    assert_eq!(items[0].kind, ItemKind::Info);
    assert_eq!(items[0].display, "Welcome here");
    assert_eq!(items[1].kind, ItemKind::PlainText);
    assert_eq!(items[1].selector, "/about");
    assert_eq!(items[2].kind, ItemKind::Binary);
    assert_eq!(items[2].port, 7070);
}

#[test]
fn rejects_invalid_text_encoding() {
    let raw = [0xffu8, 0xfe, 0x31, 0x0d, 0x0a];
    assert_eq!(get_listing(&raw), Err(GaufreError::Decode));
}

#[test]
fn rejects_wrong_field_count() {
    let raw = b"1Home\tselectorA\texample.org\r\n.\r\n";
    assert_eq!(get_listing(raw), Err(GaufreError::Malformed));
    let raw5 = b"1Home\tselectorA\texample.org\t70\textra\r\n.\r\n";
    assert_eq!(get_listing(raw5), Err(GaufreError::Malformed));
}

#[test]
fn rejects_bad_port() {
    let raw = b"1Home\tsel\texample.org\tseventy\r\n.\r\n";
    assert_eq!(get_listing(raw), Err(GaufreError::InvalidPort));
    let raw_big = b"1Home\tsel\texample.org\t65536\r\n.\r\n";
    assert_eq!(get_listing(raw_big), Err(GaufreError::InvalidPort));
    let raw_neg = b"1Home\tsel\texample.org\t-70\r\n.\r\n";
    assert_eq!(get_listing(raw_neg), Err(GaufreError::InvalidPort));
}

#[test]
fn accepts_port_edge_values() {
    let raw = b"1Home\tsel\texample.org\t65535\r\n.\r\n";
    assert_eq!(get_listing(raw).unwrap()[0].port, 65535);
    let raw_plus = b"1Home\tsel\texample.org\t+70\r\n.\r\n";
    assert_eq!(get_listing(raw_plus).unwrap()[0].port, 70);
    let raw_zeros = b"1Home\tsel\texample.org\t070\r\n.\r\n";
    assert_eq!(get_listing(raw_zeros).unwrap()[0].port, 70);
}

#[test]
fn rejects_short_line() {
    let raw = b"1\ta\tb\t7\r\n.\r\n";
    assert_eq!(get_listing(raw), Err(GaufreError::Malformed));
}

#[test]
fn rejects_unknown_code() {
    let raw = b"xLabel\tsel\thost\t70\r\n.\r\n";
    assert_eq!(get_listing(raw), Err(GaufreError::Malformed));
}

#[test]
fn empty_response_is_empty_listing() {
    assert_eq!(get_listing(b"").unwrap().len(), 0);
    assert_eq!(get_listing(b".\r\n").unwrap().len(), 0);
    assert_eq!(get_listing(b"\r\n\r\n.\r\n").unwrap().len(), 0);
}

#[test]
fn parses_line_without_trailing_terminator() {
    let raw = b"1Home\tselectorA\texample.org\t70";
    let items = get_listing(raw).unwrap();
    assert_eq!(items.len(), 1);
    assert_eq!(items[0].display, "Home");
}

#[test]
fn parses_multibyte_display_text() {
    let raw = "1Caf\u{e9} corner\t/cafe\texample.org\t70\r\n.\r\n".as_bytes();
    let items = get_listing(raw).unwrap();
    assert_eq!(items[0].display, "Caf\u{e9} corner");
}

#[test]
fn sentinel_between_lines_is_dropped() {
    let raw = b"1One\t/1\th\t70\r\n.\r\n1Two\t/2\th\t70\r\n";
    let items = get_listing(raw).unwrap();
    assert_eq!(items.len(), 2);
    assert_eq!(items[1].display, "Two");
}

#[test]
fn minimum_length_is_counted_in_bytes() {
    // Seven characters but nine bytes: long enough.
    let raw = "1\u{e9}\u{e9}\t\t\t7\r\n.\r\n".as_bytes();
    let items = get_listing(raw).unwrap();
    assert_eq!(items.len(), 1);
    assert_eq!(items[0].display, "\u{e9}\u{e9}");
    assert_eq!(items[0].selector, "");
    assert_eq!(items[0].host, "");
    assert_eq!(items[0].port, 7);
}
