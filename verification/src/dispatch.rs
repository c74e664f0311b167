//! The command dispatcher: one round of the read-eval loop.
//!
//! A line of input is either a prefixed command, the bare word `"help"`,
//! or a two-letter selection label.  The dispatcher mutates the session as
//! the line demands and hands the caller an [`Action`] naming the outside
//! work still owed: a fetch of the now current location, a prompt, a
//! hand-off to an external program, or nothing.

use vstd::prelude::*;

use crate::codec::{alpha_nth, decode_label, encode_label, n_alpha};
use crate::error::GaufreError;
use crate::item::{Item, ItemKind, ItemView};
use crate::parser::items_view;
use crate::session::{
    back_spec, forward_spec, jump_spec, visit_spec, Location, LocationView, Session, SessionView,
};
use crate::text::{
    find_char, find_first, lemma_find_first_at, lemma_find_first_none, parse_port, parse_u16,
    str_eq,
};

verus! {

/// The outside work a dispatched line leaves to the caller.
#[derive(Debug, PartialEq, Eq)]
pub enum Action {
    /// Fetch the session's current location and hand the response to
    /// [`Session::apply_listing`].
    Fetch,
    /// Print the current host and port.
    ShowServer,
    /// Report the carried text as an invalid server argument.
    InvalidServer(String),
    /// Terminate the program.
    Quit,
    /// Print the usage text.
    Help,
    /// Prompt for a query, then follow the carried search item.
    PromptSearch(Item),
    /// Hand the carried host and port to an external session program.
    Telnet(String, u16),
    /// Fetch the carried item's content and hand it to a content handler.
    Content(Item),
    /// Report the carried item's service as unsupported.
    Unsupported,
    /// Do nothing.
    Nothing,
}

/// The mathematical value of an [`Action`].
#[verifier::ext_equal]
pub ghost enum ActionView {
    Fetch,
    ShowServer,
    InvalidServer(Seq<char>),
    Quit,
    Help,
    PromptSearch(ItemView),
    Telnet(Seq<char>, u16),
    Content(ItemView),
    Unsupported,
    Nothing,
}

impl View for Action {
    type V = ActionView;

    open spec fn view(&self) -> ActionView {
        match self {
            Action::Fetch => ActionView::Fetch,
            Action::ShowServer => ActionView::ShowServer,
            Action::InvalidServer(args) => ActionView::InvalidServer(args@),
            Action::Quit => ActionView::Quit,
            Action::Help => ActionView::Help,
            Action::PromptSearch(item) => ActionView::PromptSearch(item@),
            Action::Telnet(host, port) => ActionView::Telnet(host@, *port),
            Action::Content(item) => ActionView::Content(item@),
            Action::Unsupported => ActionView::Unsupported,
            Action::Nothing => ActionView::Nothing,
        }
    }
}

/// A `HOST[:PORT]` argument, split at its first colon.  Without a colon
/// the port defaults to 70; with one, the rest must be a port number.
pub open spec fn parse_host_spec(s: Seq<char>) -> Option<(Seq<char>, u16)> {
    match find_first(s, ':') {
        None => Some((s, 70u16)),
        Some(i) => match parse_u16(s.skip(i + 1)) {
            None => None,
            Some(p) => Some((s.take(i), p)),
        },
    }
}

/// Reads a `HOST[:PORT]` argument.
pub fn parse_host(host: &str) -> (r: Result<(String, u16), GaufreError>)
    ensures
        match r {
            Ok(hp) => parse_host_spec(host@) == Some((hp.0@, hp.1)),
            Err(e) => parse_host_spec(host@) is None && e == GaufreError::InvalidLocation,
        },
{
    let n = host.unicode_len();
    match find_char(host, 0, ':') {
        None => {
            proof {
                lemma_find_first_none(host@, ':');
            }
            Ok((host.to_owned(), 70))
        },
        Some(i) => {
            proof {
                lemma_find_first_at(host@, ':', i as int);
            }
            let port_text = host.substring_char(i + 1, n);
            proof {
                assert(port_text@ =~= host@.skip(i + 1));
            }
            match parse_port(port_text) {
                None => Err(GaufreError::InvalidLocation),
                Some(p) => {
                    let h = host.substring_char(0, i).to_owned();
                    proof {
                        assert(h@ =~= host@.take(i as int));
                    }
                    Ok((h, p))
                },
            }
        },
    }
}

/// The index of the `id`-th numbered item of a listing, in listing order.
/// Informational and error entries carry no ordinal and are skipped, so
/// selection counts exactly the items the displayed numbering counts.
pub open spec fn nth_selectable_spec(items: Seq<ItemView>, id: int) -> Option<int>
    decreases items.len(),
{
    if items.len() == 0 {
        None
    } else if !numbered(items[0].kind) {
        match nth_selectable_spec(items.drop_first(), id) {
            None => None,
            Some(i) => Some(i + 1),
        }
    } else if id == 0 {
        Some(0)
    } else {
        match nth_selectable_spec(items.drop_first(), id - 1) {
            None => None,
            Some(i) => Some(i + 1),
        }
    }
}

/// Putting one item in front of a listing raises the numbered count by
/// one exactly when that item is numbered.
pub proof fn lemma_count_numbered_prepend(head: ItemView, items: Seq<ItemView>)
    ensures
        count_numbered(seq![head] + items) == (if numbered(head.kind) {
            1int
        } else {
            0int
        }) + count_numbered(items),
    decreases items.len(),
{
    let s = seq![head] + items;
    if items.len() == 0 {
        assert(s.drop_last() =~= Seq::<ItemView>::empty());
        assert(count_numbered(Seq::<ItemView>::empty()) == 0);
        assert(s.last() == head);
        assert(count_numbered(s) == count_numbered(s.drop_last()) + (if numbered(s.last().kind) {
            1int
        } else {
            0int
        }));
    } else {
        assert(s.drop_last() =~= seq![head] + items.drop_last());
        assert(s.last() == items.last());
        lemma_count_numbered_prepend(head, items.drop_last());
        assert(count_numbered(s) == count_numbered(s.drop_last()) + (if numbered(s.last().kind) {
            1int
        } else {
            0int
        }));
        assert(count_numbered(items) == count_numbered(items.drop_last()) + (if numbered(
            items.last().kind,
        ) {
            1int
        } else {
            0int
        }));
    }
}

/// Selection maps an ordinal to the item it names: the selected index is
/// always a numbered item with exactly `id` numbered items before it — so
/// it is the item shown under the label that encodes `id` — and an
/// ordinal past the end of the listing selects nothing.
pub proof fn lemma_nth_selectable_is_nth(items: Seq<ItemView>, id: int)
    requires
        id >= 0,
    ensures
        nth_selectable_spec(items, id) matches Some(ix) ==> 0 <= ix < items.len() && numbered(
            items[ix].kind,
        ) && count_numbered(items.take(ix)) == id,
        nth_selectable_spec(items, id) is None ==> count_numbered(items) <= id,
    decreases items.len(),
{
    if items.len() == 0 {
    } else {
        assert(items =~= seq![items[0]] + items.drop_first());
        lemma_count_numbered_prepend(items[0], items.drop_first());
        if !numbered(items[0].kind) {
            lemma_nth_selectable_is_nth(items.drop_first(), id);
            match nth_selectable_spec(items.drop_first(), id) {
                Some(i) => {
                    assert(items.take(i + 1) =~= seq![items[0]] + items.drop_first().take(i));
                    lemma_count_numbered_prepend(items[0], items.drop_first().take(i));
                },
                None => {},
            }
        } else if id == 0 {
            assert(items.take(0) =~= Seq::<ItemView>::empty());
        } else {
            lemma_nth_selectable_is_nth(items.drop_first(), id - 1);
            match nth_selectable_spec(items.drop_first(), id - 1) {
                Some(i) => {
                    assert(items.take(i + 1) =~= seq![items[0]] + items.drop_first().take(i));
                    lemma_count_numbered_prepend(items[0], items.drop_first().take(i));
                },
                None => {},
            }
        }
    }
}

/// Finds the `id`-th numbered item at or after `j`, by index into the
/// whole listing.
fn nth_selectable_from(items: &Vec<Item>, j: usize, id: u16) -> (r: Option<usize>)
    requires
        j <= items@.len(),
    ensures
        match r {
            Some(ix) => j <= ix < items@.len() && nth_selectable_spec(
                items_view(items@).skip(j as int),
                id as int,
            ) == Some(ix - j),
            None => nth_selectable_spec(items_view(items@).skip(j as int), id as int) is None,
        },
    decreases items@.len() - j,
{
    let ghost tail = items_view(items@).skip(j as int);
    if j == items.len() {
        return None;
    }
    proof {
        assert(tail[0] == items@[j as int]@);
        assert(tail.drop_first() =~= items_view(items@).skip(j + 1));
    }
    let kind = items[j].kind;
    if kind == ItemKind::Info || kind == ItemKind::Error {
        nth_selectable_from(items, j + 1, id)
    } else if id == 0 {
        Some(j)
    } else {
        nth_selectable_from(items, j + 1, id - 1)
    }
}

/// Finds the item a decoded label ordinal selects: the `id`-th numbered
/// item of the listing.
pub fn nth_selectable(items: &Vec<Item>, id: u16) -> (r: Option<usize>)
    ensures
        match r {
            Some(ix) => ix < items@.len() && nth_selectable_spec(items_view(items@), id as int)
                == Some(ix as int),
            None => nth_selectable_spec(items_view(items@), id as int) is None,
        },
{
    proof {
        assert(items_view(items@).skip(0) =~= items_view(items@));
    }
    nth_selectable_from(items, 0, id)
}

/// The location a listed item points at.
pub open spec fn link_location(item: ItemView) -> LocationView {
    LocationView { host: item.host, port: item.port, selector: item.selector }
}

/// Dispatching a selected item: only a container is visited; every other
/// kind leaves the session alone.
pub open spec fn link_transition(s: SessionView, item: ItemView) -> SessionView {
    if item.kind.is_container() {
        visit_spec(s, link_location(item))
    } else {
        s
    }
}

/// The outside work a selected item calls for, by dispatch category.
pub open spec fn link_action(item: ItemView) -> ActionView {
    match item.kind {
        ItemKind::Directory => ActionView::Fetch,
        ItemKind::Mirror => ActionView::Fetch,
        ItemKind::Search => ActionView::PromptSearch(item),
        ItemKind::Interactive => ActionView::Telnet(item.host, item.port),
        ItemKind::NameQuery => ActionView::Unsupported,
        ItemKind::Error => ActionView::Nothing,
        ItemKind::Info => ActionView::Nothing,
        _ => ActionView::Content(item),
    }
}

/// Dispatches one selected item.
pub fn link(session: &mut Session, item: &Item) -> (r: Action)
    requires
        old(session)@.wf(),
    ensures
        final(session)@ == link_transition(old(session)@, item@),
        r@ == link_action(item@),
        final(session)@.wf(),
{
    match item.kind {
        ItemKind::Directory | ItemKind::Mirror => {
            let loc = Location {
                host: item.host.clone(),
                port: item.port,
                selector: item.selector.clone(),
            };
            proof {
                assert(loc@ =~= link_location(item@));
            }
            session.visit(loc);
            Action::Fetch
        },
        ItemKind::Search => Action::PromptSearch(item.clone()),
        ItemKind::Interactive => Action::Telnet(item.host.clone(), item.port),
        ItemKind::NameQuery => Action::Unsupported,
        ItemKind::Error | ItemKind::Info => Action::Nothing,
        _ => Action::Content(item.clone()),
    }
}

/// What a recognized or unrecognized command does to the session.
pub open spec fn command_transition(s: SessionView, cmd: Seq<char>, args: Seq<char>) -> SessionView {
    if cmd == "b"@ {
        back_spec(s)
    } else if cmd == "f"@ {
        forward_spec(s)
    } else if cmd == "r"@ {
        s
    } else if cmd == "s"@ {
        if args.len() == 0 {
            s
        } else {
            match parse_host_spec(args) {
                Some(hp) => jump_spec(s, hp.0, hp.1),
                None => s,
            }
        }
    } else {
        s
    }
}

/// The outside work a command leaves to the caller.
pub open spec fn command_action(s: SessionView, cmd: Seq<char>, args: Seq<char>) -> ActionView {
    if cmd == "b"@ {
        if s.position > 0 {
            ActionView::Fetch
        } else {
            ActionView::Nothing
        }
    } else if cmd == "f"@ {
        if s.position + 1 < s.history.len() {
            ActionView::Fetch
        } else {
            ActionView::Nothing
        }
    } else if cmd == "r"@ {
        ActionView::Fetch
    } else if cmd == "s"@ {
        if args.len() == 0 {
            ActionView::ShowServer
        } else {
            match parse_host_spec(args) {
                Some(_) => ActionView::Fetch,
                None => ActionView::InvalidServer(args),
            }
        }
    } else if cmd == "q"@ {
        ActionView::Quit
    } else {
        ActionView::Help
    }
}

/// Runs one command with its argument text.
pub fn command(session: &mut Session, cmd: &str, args: &str) -> (r: Action)
    requires
        old(session)@.wf(),
    ensures
        final(session)@ == command_transition(old(session)@, cmd@, args@),
        r@ == command_action(old(session)@, cmd@, args@),
        final(session)@.wf(),
{
    if str_eq(cmd, "b") {
        let moved = session.back();
        if moved {
            Action::Fetch
        } else {
            Action::Nothing
        }
    } else if str_eq(cmd, "f") {
        let moved = session.forward();
        if moved {
            Action::Fetch
        } else {
            Action::Nothing
        }
    } else if str_eq(cmd, "r") {
        Action::Fetch
    } else if str_eq(cmd, "s") {
        if args.unicode_len() == 0 {
            Action::ShowServer
        } else {
            match parse_host(args) {
                Ok(hp) => {
                    let (h, p) = hp;
                    session.jump_to_server(h, p);
                    Action::Fetch
                },
                Err(_) => Action::InvalidServer(args.to_owned()),
            }
        }
    } else if str_eq(cmd, "q") {
        Action::Quit
    } else {
        Action::Help
    }
}

/// What a two-character selection line does to the session.
pub open spec fn selection_transition(s: SessionView, line: Seq<char>) -> SessionView {
    match decode_label(line[0], line[1]) {
        None => s,
        Some(id) => match nth_selectable_spec(s.items, id as int) {
            None => s,
            Some(ix) => link_transition(s, s.items[ix]),
        },
    }
}

/// The outside work a two-character selection line calls for.
pub open spec fn selection_action(s: SessionView, line: Seq<char>) -> ActionView {
    match decode_label(line[0], line[1]) {
        None => ActionView::Nothing,
        Some(id) => match nth_selectable_spec(s.items, id as int) {
            None => ActionView::Nothing,
            Some(ix) => link_action(s.items[ix]),
        },
    }
}

/// What one line of input does to the session: a prefixed command, the
/// bare word `"help"`, a two-character selection, or nothing.
pub open spec fn getline_transition(s: SessionView, prefix: char, line: Seq<char>) -> SessionView {
    if line.len() > 0 && line[0] == prefix {
        let rest = line.drop_first();
        match find_first(rest, ' ') {
            None => command_transition(s, rest, Seq::<char>::empty()),
            Some(i) => command_transition(s, rest.take(i), rest.skip(i + 1)),
        }
    } else if line == "help"@ {
        command_transition(s, "h"@, Seq::<char>::empty())
    } else if line.len() == 2 {
        selection_transition(s, line)
    } else {
        s
    }
}

/// The outside work one line of input leaves to the caller.
pub open spec fn getline_action(s: SessionView, prefix: char, line: Seq<char>) -> ActionView {
    if line.len() > 0 && line[0] == prefix {
        let rest = line.drop_first();
        match find_first(rest, ' ') {
            None => command_action(s, rest, Seq::<char>::empty()),
            Some(i) => command_action(s, rest.take(i), rest.skip(i + 1)),
        }
    } else if line == "help"@ {
        command_action(s, "h"@, Seq::<char>::empty())
    } else if line.len() == 2 {
        selection_action(s, line)
    } else {
        ActionView::Nothing
    }
}

/// Dispatches one line of input read from the user.
pub fn getline(session: &mut Session, prefix: char, line: &str) -> (r: Action)
    requires
        old(session)@.wf(),
    ensures
        final(session)@ == getline_transition(old(session)@, prefix, line@),
        r@ == getline_action(old(session)@, prefix, line@),
        final(session)@.wf(),
{
    let n = line.unicode_len();
    if n > 0 && line.get_char(0) == prefix {
        let rest = line.substring_char(1, n);
        proof {
            assert(rest@ =~= line@.drop_first());
        }
        let rn = n - 1;
        match find_char(rest, 0, ' ') {
            None => {
                proof {
                    lemma_find_first_none(rest@, ' ');
                    reveal_strlit("");
                    assert(""@ =~= Seq::<char>::empty());
                }
                command(session, rest, "")
            },
            Some(i) => {
                proof {
                    lemma_find_first_at(rest@, ' ', i as int);
                }
                let cmd = rest.substring_char(0, i);
                let args = rest.substring_char(i + 1, rn);
                proof {
                    assert(cmd@ =~= rest@.take(i as int));
                    assert(args@ =~= rest@.skip(i + 1));
                }
                command(session, cmd, args)
            },
        }
    } else if str_eq(line, "help") {
        proof {
            reveal_strlit("");
            assert(""@ =~= Seq::<char>::empty());
        }
        command(session, "h", "")
    } else if n == 2 {
        let c1 = line.get_char(0);
        let c2 = line.get_char(1);
        match alpha_nth((c1, c2)) {
            None => Action::Nothing,
            Some(id) => {
                match nth_selectable(&session.items, id) {
                    None => Action::Nothing,
                    Some(ix) => {
                        let item = session.items[ix].clone();
                        link(session, &item)
                    },
                }
            },
        }
    } else {
        Action::Nothing
    }
}

/// True for the kinds that receive a display ordinal and can be selected
/// by it: informational and error entries are excluded both from the
/// numbering shown to the user and from selection.
pub open spec fn numbered(k: ItemKind) -> bool {
    !k.is_informational()
}

/// How many items of a listing receive a display ordinal.
pub open spec fn count_numbered(items: Seq<ItemView>) -> int
    decreases items.len(),
{
    if items.len() == 0 {
        0
    } else {
        count_numbered(items.drop_last()) + if numbered(items.last().kind) {
            1int
        } else {
            0int
        }
    }
}

/// The label shown next to item `i` of a listing: the encoding of its
/// display ordinal, where the item is numbered and the ordinal is still
/// representable.
pub open spec fn label_of(items: Seq<ItemView>, i: int) -> Option<(char, char)> {
    if numbered(items[i].kind) && count_numbered(items.take(i)) <= 675 {
        Some(encode_label(count_numbered(items.take(i)) as u16))
    } else {
        None
    }
}

/// The two-letter labels shown next to a listing, one entry per item;
/// items without an ordinal get none.
pub fn display_labels(items: &Vec<Item>) -> (r: Vec<Option<(char, char)>>)
    ensures
        r@.len() == items@.len(),
        forall|i: int| 0 <= i < items@.len() ==> r@[i] == label_of(items_view(items@), i),
{
    let ghost views = items_view(items@);
    let mut labels: Vec<Option<(char, char)>> = Vec::new();
    let mut count: usize = 0;
    let n = items.len();
    let mut i: usize = 0;
    while i < n
        invariant
            i <= n,
            n == items@.len(),
            views == items_view(items@),
            labels@.len() == i,
            count == count_numbered(views.take(i as int)),
            count <= i,
            forall|j: int| 0 <= j < i ==> labels@[j] == label_of(views, j),
        decreases n - i,
    {
        proof {
            assert(views.take(i + 1 as int).drop_last() =~= views.take(i as int));
            assert(views.take(i + 1 as int).last() == views[i as int]);
        }
        let kind = items[i].kind;
        if kind != ItemKind::Info && kind != ItemKind::Error {
            if count <= 675 {
                labels.push(Some(n_alpha(count as u16)));
            } else {
                labels.push(None);
            }
            count = count + 1;
        } else {
            labels.push(None);
        }
        i += 1;
    }
    labels
}

/// True when a prompt answer means yes: the letter `y` in either case.
pub open spec fn affirmative(s: Seq<char>) -> bool {
    s.len() == 1 && (s[0] == 'y' || s[0] == 'Y')
}

/// Whether a prompt answer asks for a download.
pub fn is_download(answer: &str) -> (r: bool)
    ensures
        r == affirmative(answer@),
{
    let n = answer.unicode_len();
    if n == 1 {
        let c = answer.get_char(0);
        c == 'y' || c == 'Y'
    } else {
        false
    }
}

/// The view of an optional borrowed string.
pub open spec fn opt_str_view(o: Option<&str>) -> Option<Seq<char>> {
    match o {
        None => None,
        Some(f) => Some(f@),
    }
}

/// The destination a download is written to.  Without a configured
/// folder, the prompt answer is the whole destination; with one, the
/// suggested name, or the prompt answer in its absence, goes under the
/// folder.
pub open spec fn fname_candidate(
    folder: Option<Seq<char>>,
    name: Seq<char>,
    response: Seq<char>,
) -> Seq<char> {
    match folder {
        None => response,
        Some(f) => if name.len() == 0 {
            f + seq!['/'] + response
        } else {
            f + seq!['/'] + name
        },
    }
}

/// Builds the destination for a download from the configured folder, the
/// item's suggested name and the prompt answer; an empty destination
/// means the user cancelled.
pub fn get_fname(folder: Option<&str>, name: &str, response: &str) -> (r: Option<String>)
    ensures
        match r {
            Some(link) => link@ == fname_candidate(opt_str_view(folder), name@, response@)
                && link@.len() > 0,
            None => fname_candidate(opt_str_view(folder), name@, response@).len() == 0,
        },
{
    let link: String = match folder {
        None => response.to_owned(),
        Some(f) => {
            let mut l = f.to_owned();
            l.append("/");
            if name.unicode_len() == 0 {
                l.append(response);
            } else {
                l.append(name);
            }
            proof {
                reveal_strlit("/");
                assert("/"@ =~= seq!['/']);
            }
            l
        },
    };
    if link.as_str().unicode_len() == 0 {
        None
    } else {
        Some(link)
    }
}

} // verus!
