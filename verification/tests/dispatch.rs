use gaufre::dispatch::{
    display_labels, get_fname, getline, is_download, nth_selectable, parse_host, Action,
};
use gaufre::error::GaufreError;
use gaufre::item::{Item, ItemKind};
use gaufre::session::Session;

fn item(kind: ItemKind, display: &str, selector: &str, host: &str, port: u16) -> Item {
    Item {
        kind,
        display: display.to_string(),
        selector: selector.to_string(),
        host: host.to_string(),
        port,
    }
}

fn session_with_items(items: Vec<Item>) -> Session {
    let mut s = Session::new("example.org".to_string(), 70);
    s.items = items;
    s
}

#[test]
fn selection_skips_informational_items() {
    let mut s = session_with_items(vec![
        item(ItemKind::Info, "About this server", "", "x", 1),
        item(ItemKind::Directory, "First", "/first", "example.org", 70),
        item(ItemKind::Directory, "Second", "/second", "example.org", 70),
    ]);
    let act = getline(&mut s, '/', "aa");
    assert_eq!(act, Action::Fetch);
    assert_eq!(s.current.selector, "/first");

    let mut s2 = session_with_items(vec![
        item(ItemKind::Info, "About this server", "", "x", 1),
        item(ItemKind::Directory, "First", "/first", "example.org", 70),
        item(ItemKind::Directory, "Second", "/second", "example.org", 70),
    ]);
    let act2 = getline(&mut s2, '/', "ab");
    assert_eq!(act2, Action::Fetch);
    assert_eq!(s2.current.selector, "/second");
}

#[test]
fn set_server_command_moves_current() {
    let mut s = Session::new("example.org".to_string(), 70);
    let act = getline(&mut s, '/', "/s example.org:105");
    assert_eq!(act, Action::Fetch);
    let r = s.apply_listing(b".\r\n");
    assert_eq!(r, Ok(()));
    assert_eq!(s.current.host, "example.org");
    assert_eq!(s.current.port, 105);
    assert_eq!(s.current.selector, "");
    assert_eq!(s.history.len(), 1);
    assert_eq!(s.position, 0);
}

#[test]
fn set_server_without_args_shows_server() {
    let mut s = Session::new("example.org".to_string(), 70);
    assert_eq!(getline(&mut s, '/', "/s"), Action::ShowServer);
    assert_eq!(s.current.host, "example.org");
}

#[test]
fn set_server_with_bad_args_reports_and_keeps_state() {
    let mut s = Session::new("example.org".to_string(), 70);
    let act = getline(&mut s, '/', "/s bad:port");
    assert_eq!(act, Action::InvalidServer("bad:port".to_string()));
    assert_eq!(s.current.host, "example.org");
    assert_eq!(s.current.port, 70);
}

#[test]
fn back_and_forward_commands_move_pointer() {
    let mut s = Session::new("example.org".to_string(), 70);
    s.visit(gaufre::session::Location {
        host: "a.org".to_string(),
        port: 70,
        selector: "/a".to_string(),
    });
    assert_eq!(getline(&mut s, '/', "/b"), Action::Fetch);
    assert_eq!(s.position, 0);
    assert_eq!(getline(&mut s, '/', "/b"), Action::Nothing);
    assert_eq!(s.position, 0);
    assert_eq!(getline(&mut s, '/', "/f"), Action::Fetch);
    assert_eq!(s.position, 1);
    assert_eq!(getline(&mut s, '/', "/f"), Action::Nothing);
    assert_eq!(s.position, 1);
}

#[test]
fn reload_command_fetches_without_moving() {
    let mut s = Session::new("example.org".to_string(), 70);
    assert_eq!(getline(&mut s, '/', "/r"), Action::Fetch);
    assert_eq!(s.position, 0);
    assert_eq!(s.history.len(), 1);
}

#[test]
fn quit_help_and_unknown_commands() {
    let mut s = Session::new("example.org".to_string(), 70);
    assert_eq!(getline(&mut s, '/', "/q"), Action::Quit);
    assert_eq!(getline(&mut s, '/', "/h"), Action::Help);
    assert_eq!(getline(&mut s, '/', "/wat now"), Action::Help);
    assert_eq!(getline(&mut s, '/', "help"), Action::Help);
}

#[test]
fn short_or_long_lines_are_ignored() {
    let mut s = session_with_items(vec![item(
        ItemKind::Directory,
        "First",
        "/first",
        "example.org",
        70,
    )]);
    assert_eq!(getline(&mut s, '/', ""), Action::Nothing);
    assert_eq!(getline(&mut s, '/', "a"), Action::Nothing);
    assert_eq!(getline(&mut s, '/', "aaa"), Action::Nothing);
    assert_eq!(s.current.selector, "");
}

#[test]
fn bad_label_or_missing_item_is_ignored() {
    let mut s = session_with_items(vec![item(
        ItemKind::Directory,
        "First",
        "/first",
        "example.org",
        70,
    )]);
    assert_eq!(getline(&mut s, '/', "A!"), Action::Nothing);
    assert_eq!(getline(&mut s, '/', "ab"), Action::Nothing);
    assert_eq!(s.current.selector, "");
}

#[test]
fn service_and_content_items_dispatch() {
    let search = item(ItemKind::Search, "Find", "/search", "s.org", 7000);
    let telnet = item(ItemKind::Interactive, "Shell", "", "t.org", 23);
    let ccso = item(ItemKind::NameQuery, "Phone", "", "c.org", 105);
    let text = item(ItemKind::PlainText, "About", "/about", "x.org", 70);
    let mut s = session_with_items(vec![
        search.clone(),
        telnet.clone(),
        ccso.clone(),
        text.clone(),
    ]);
    assert_eq!(getline(&mut s, '/', "aa"), Action::PromptSearch(search));
    assert_eq!(getline(&mut s, '/', "ab"), Action::Telnet("t.org".to_string(), 23));
    assert_eq!(getline(&mut s, '/', "ac"), Action::Unsupported);
    assert_eq!(getline(&mut s, '/', "ad"), Action::Content(text));
    assert_eq!(s.history.len(), 1);
}

#[test]
fn error_items_are_not_selectable() {
    let mut s = session_with_items(vec![item(ItemKind::Error, "Broken!!", "", "x", 1)]);
    assert_eq!(getline(&mut s, '/', "aa"), Action::Nothing);
    assert_eq!(s.history.len(), 1);
}

#[test]
fn nth_selectable_skips_informational_and_error() {
    let items = vec![
        item(ItemKind::Info, "a note", "", "x", 1),
        item(ItemKind::Error, "an error", "", "x", 1),
        item(ItemKind::Directory, "dir", "/d", "x", 70),
    ];
    assert_eq!(nth_selectable(&items, 0), Some(2));
    assert_eq!(nth_selectable(&items, 1), None);
}

#[test]
fn displayed_label_selects_the_item_it_stands_beside() {
    let listing = vec![
        item(ItemKind::Error, "Broken!!", "", "x", 1),
        item(ItemKind::Directory, "First", "/first", "example.org", 70),
    ];
    let labels = display_labels(&listing);
    assert_eq!(labels, vec![None, Some(('a', 'a'))]);
    let mut s = session_with_items(listing);
    assert_eq!(getline(&mut s, '/', "aa"), Action::Fetch);
    assert_eq!(s.current.selector, "/first");
}

#[test]
fn display_labels_skip_informational_and_error() {
    let items = vec![
        item(ItemKind::Info, "a note", "", "x", 1),
        item(ItemKind::Directory, "dir", "/d", "x", 70),
        item(ItemKind::Error, "an error", "", "x", 1),
        item(ItemKind::PlainText, "text", "/t", "x", 70),
    ];
    let labels = display_labels(&items);
    assert_eq!(labels, vec![None, Some(('a', 'a')), None, Some(('a', 'b'))]);
}

#[test]
fn parse_host_defaults_and_splits() {
    assert_eq!(parse_host("example.org"), Ok(("example.org".to_string(), 70)));
    assert_eq!(parse_host("example.org:105"), Ok(("example.org".to_string(), 105)));
    assert_eq!(parse_host("example.org:0"), Ok(("example.org".to_string(), 0)));
    assert_eq!(parse_host("a:1:2"), Err(GaufreError::InvalidLocation));
    assert_eq!(parse_host("example.org:"), Err(GaufreError::InvalidLocation));
    assert_eq!(parse_host("example.org:port"), Err(GaufreError::InvalidLocation));
    assert_eq!(parse_host("example.org:65536"), Err(GaufreError::InvalidLocation));
}

#[test]
fn download_answer_is_y_in_either_case() {
    assert!(is_download("y"));
    assert!(is_download("Y"));
    assert!(!is_download("yes"));
    assert!(!is_download(""));
    assert!(!is_download("n"));
}

#[test]
fn fname_candidates() {
    assert_eq!(get_fname(None, "file.txt", "/tmp/out"), Some("/tmp/out".to_string()));
    assert_eq!(get_fname(None, "file.txt", ""), None);
    assert_eq!(
        get_fname(Some("/downloads"), "file.txt", "ignored"),
        Some("/downloads/file.txt".to_string())
    );
    assert_eq!(
        get_fname(Some("/downloads"), "", "typed.txt"),
        Some("/downloads/typed.txt".to_string())
    );
    assert_eq!(get_fname(Some("/downloads"), "", ""), Some("/downloads/".to_string()));
}

#[test]
fn multibyte_input_lines_are_counted_in_characters() {
    let mut s = session_with_items(vec![item(
        ItemKind::Directory,
        "First",
        "/first",
        "example.org",
        70,
    )]);
    // One character, two bytes: not a two-character selection line.
    assert_eq!(getline(&mut s, '/', "\u{e9}"), Action::Nothing);
    // Two characters outside the lowercase alphabet: label decoding fails.
    assert_eq!(getline(&mut s, '/', "\u{e9}\u{e9}"), Action::Nothing);
    assert_eq!(s.current.selector, "");
}

#[test]
fn container_selection_pushes_history() {
    let mut s = session_with_items(vec![item(
        ItemKind::Mirror,
        "Mirror",
        "/mirror",
        "mirror.org",
        7070,
    )]);
    assert_eq!(getline(&mut s, '/', "aa"), Action::Fetch);
    assert_eq!(s.history.len(), 2);
    assert_eq!(s.position, 1);
    assert_eq!(s.current.host, "mirror.org");
    assert_eq!(s.current.port, 7070);
    assert_eq!(s.current.selector, "/mirror");
}
