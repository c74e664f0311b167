//! The navigation engine: the current location, the history stack with its
//! position pointer, and the most recently parsed items.
//!
//! Every operation commits its state change first and leaves the network
//! round trip to the caller: an operation that needs a fetch returns with
//! the new location already current, and the fetched response is handed
//! back through [`Session::apply_listing`].  On a fetch or parse failure
//! the items stay as they were, while the location keeps its already
//! committed value.

use vstd::prelude::*;

use crate::error::GaufreError;
use crate::item::{Item, ItemView};
use crate::parser::{get_listing, items_view, parse_listing};

verus! {

/// A `(host, port, selector)` triple identifying a listing to fetch.
#[derive(Debug, PartialEq, Eq)]
pub struct Location {
    pub host: String,
    pub port: u16,
    pub selector: String,
}

/// The mathematical value of a [`Location`].
#[verifier::ext_equal]
pub ghost struct LocationView {
    pub host: Seq<char>,
    pub port: u16,
    pub selector: Seq<char>,
}

impl View for Location {
    type V = LocationView;

    open spec fn view(&self) -> LocationView {
        LocationView { host: self.host@, port: self.port, selector: self.selector@ }
    }
}

impl Clone for Location {
    /// A clone carries exactly the same fields.
    fn clone(&self) -> (r: Self)
        ensures
            r == *self,
    {
        Location {
            host: self.host.clone(),
            port: self.port,
            selector: self.selector.clone(),
        }
    }
}

/// The mathematical value of a [`Session`].
#[verifier::ext_equal]
pub ghost struct SessionView {
    pub current: LocationView,
    pub history: Seq<LocationView>,
    pub position: int,
    pub items: Seq<ItemView>,
}

impl SessionView {
    /// The position pointer always stays inside the history.
    pub open spec fn wf(self) -> bool {
        0 <= self.position < self.history.len()
    }
}

/// The mutable navigation state.
pub struct Session {
    /// The active location.
    pub current: Location,
    /// Every location visited, in order.
    pub history: Vec<Location>,
    /// The index of the current entry within `history`.
    pub position: usize,
    /// The most recently fetched and parsed items for `current`.
    pub items: Vec<Item>,
}

impl View for Session {
    type V = SessionView;

    open spec fn view(&self) -> SessionView {
        SessionView {
            current: self.current@,
            history: Seq::new(self.history@.len(), |i: int| self.history@[i]@),
            position: self.position as int,
            items: items_view(self.items@),
        }
    }
}

/// Appending a location: it becomes current and the last history entry.
pub open spec fn visit_spec(s: SessionView, loc: LocationView) -> SessionView {
    SessionView {
        current: loc,
        history: s.history.push(loc),
        position: s.history.len() as int,
        items: s.items,
    }
}

/// Stepping back: one position earlier, where there is one.
pub open spec fn back_spec(s: SessionView) -> SessionView {
    if s.position > 0 {
        SessionView { current: s.history[s.position - 1], position: s.position - 1, ..s }
    } else {
        s
    }
}

/// Stepping forward: one position later, where there is one.
pub open spec fn forward_spec(s: SessionView) -> SessionView {
    if s.position + 1 < s.history.len() {
        SessionView { current: s.history[s.position + 1], position: s.position + 1, ..s }
    } else {
        s
    }
}

/// Re-reading the current location from the history entry under the
/// position pointer.
pub open spec fn reboot_spec(s: SessionView) -> SessionView {
    SessionView { current: s.history[s.position], ..s }
}

/// Changing the server directly: the current location becomes the root of
/// the given server, and the history does not move.
pub open spec fn jump_spec(s: SessionView, host: Seq<char>, port: u16) -> SessionView {
    SessionView {
        current: LocationView { host, port, selector: Seq::<char>::empty() },
        ..s
    }
}

/// The selector sent to a full-text search service: the item's own
/// selector, the field separator, and the query.
pub open spec fn search_selector(selector: Seq<char>, query: Seq<char>) -> Seq<char> {
    selector + seq!['\t'] + query
}

/// Following a search item: a visit of the item's server under the
/// query-carrying selector.
pub open spec fn follow_search_spec(s: SessionView, item: ItemView, query: Seq<char>) -> SessionView {
    visit_spec(
        s,
        LocationView {
            host: item.host,
            port: item.port,
            selector: search_selector(item.selector, query),
        },
    )
}

impl Session {
    /// A fresh session at the given server's root, with one history entry.
    pub fn new(host: String, port: u16) -> (r: Session)
        ensures
            r@.wf(),
            r@.current == (LocationView { host: host@, port, selector: Seq::<char>::empty() }),
            r@.history =~= seq![r@.current],
            r@.position == 0,
            r@.items =~= Seq::<ItemView>::empty(),
    {
        let current = Location { host, port, selector: String::new() };
        let mut history: Vec<Location> = Vec::new();
        history.push(current.clone());
        let r = Session { current, history, position: 0, items: Vec::new() };
        proof {
            assert(r@.history =~= seq![r@.current]);
            assert(r@.items =~= Seq::<ItemView>::empty());
        }
        r
    }

    /// Whether the position pointer lies inside the history.
    pub fn is_wf(&self) -> (r: bool)
        ensures
            r == self@.wf(),
    {
        self.position < self.history.len()
    }

    /// Appends `loc` to the history and makes it current.  The caller owes
    /// a fetch of the new location; the items are untouched until then.
    pub fn visit(&mut self, loc: Location)
        requires
            old(self)@.wf(),
        ensures
            final(self)@ == visit_spec(old(self)@, loc@),
            final(self)@.wf(),
    {
        self.history.push(loc.clone());
        self.position = self.history.len() - 1;
        self.current = loc;
        proof {
            assert(self@ =~~= visit_spec(old(self)@, loc@));
        }
    }

    /// Makes the history entry under the position pointer current again.
    pub fn reboot(&mut self)
        requires
            old(self)@.wf(),
        ensures
            final(self)@ == reboot_spec(old(self)@),
            final(self)@.wf(),
    {
        let loc = self.history[self.position].clone();
        self.current = loc;
        proof {
            assert(self@ =~~= reboot_spec(old(self)@));
        }
    }

    /// Steps one position back where possible; reports whether it moved.
    /// A move commits the earlier location; the caller owes a re-fetch.
    pub fn back(&mut self) -> (moved: bool)
        requires
            old(self)@.wf(),
        ensures
            final(self)@ == back_spec(old(self)@),
            moved == (old(self)@.position > 0),
            final(self)@.wf(),
    {
        if self.position > 0 {
            self.position = self.position - 1;
            self.reboot();
            proof {
                assert(self@ =~~= back_spec(old(self)@));
            }
            true
        } else {
            false
        }
    }

    /// Steps one position forward where possible; reports whether it
    /// moved.  A move commits the later location; the caller owes a
    /// re-fetch.
    pub fn forward(&mut self) -> (moved: bool)
        requires
            old(self)@.wf(),
        ensures
            final(self)@ == forward_spec(old(self)@),
            moved == (old(self)@.position + 1 < old(self)@.history.len()),
            final(self)@.wf(),
    {
        if self.position < self.history.len() - 1 {
            self.position = self.position + 1;
            self.reboot();
            proof {
                assert(self@ =~~= forward_spec(old(self)@));
            }
            true
        } else {
            false
        }
    }

    /// The location to fetch again on a reload: the current one.  Neither
    /// the history nor the position moves.
    pub fn reload(&self) -> (loc: Location)
        ensures
            loc@ == self@.current,
    {
        self.current.clone()
    }

    /// Sets the current location to the root of the given server.  The
    /// history and the position stay as they are, so the entry under the
    /// position pointer no longer matches the current location.
    pub fn jump_to_server(&mut self, host: String, port: u16)
        requires
            old(self)@.wf(),
        ensures
            final(self)@ == jump_spec(old(self)@, host@, port),
            final(self)@.wf(),
    {
        self.current = Location { host, port, selector: String::new() };
        proof {
            assert(self@ =~~= jump_spec(old(self)@, host@, port));
        }
    }

    /// Visits the search service behind `item` with the given query
    /// appended to its selector.
    pub fn follow_search(&mut self, item: &Item, query: &str)
        requires
            old(self)@.wf(),
        ensures
            final(self)@ == follow_search_spec(old(self)@, item@, query@),
            final(self)@.wf(),
    {
        let mut selector = item.selector.clone();
        selector.append("\t");
        selector.append(query);
        proof {
            reveal_strlit("\t");
            assert("\t"@ =~= seq!['\t']);
            assert(selector@ == search_selector(item@.selector, query@));
        }
        let loc = Location { host: item.host.clone(), port: item.port, selector };
        self.visit(loc);
        proof {
            assert(self@ =~~= follow_search_spec(old(self)@, item@, query@));
        }
    }

    /// Takes a raw response for the current location: on a well-formed
    /// listing the items are replaced, on any error everything stays as it
    /// was and the error is surfaced.
    pub fn apply_listing(&mut self, raw: &[u8]) -> (r: Result<(), GaufreError>)
        requires
            old(self)@.wf(),
        ensures
            final(self)@.wf(),
            match parse_listing(raw@) {
                Ok(its) => r is Ok && final(self)@ == (SessionView { items: its, ..old(self)@ }),
                Err(e) => r == Err::<(), GaufreError>(e) && final(self)@ == old(self)@,
            },
    {
        match get_listing(raw) {
            Ok(v) => {
                self.items = v;
                proof {
                    assert(self@ =~~= (SessionView { items: parse_listing(raw@)->Ok_0, ..old(self)@ }));
                }
                Ok(())
            },
            Err(e) => Err(e),
        }
    }
}

/// Going back and then forward restores both the position and the current
/// location, provided the position pointer had somewhere to go back to and
/// the current location matched its history entry.
pub proof fn lemma_back_forward(s: SessionView)
    requires
        s.wf(),
        s.position > 0,
        s.history[s.position] == s.current,
    ensures
        forward_spec(back_spec(s)) == s,
{
    assert(forward_spec(back_spec(s)) =~~= s);
}

/// Changing the server directly moves neither the history, nor the
/// position, nor the items; only the current location changes.
pub proof fn lemma_jump_keeps_history(s: SessionView, host: Seq<char>, port: u16)
    ensures
        jump_spec(s, host, port).history == s.history,
        jump_spec(s, host, port).position == s.position,
        jump_spec(s, host, port).items == s.items,
        jump_spec(s, host, port).current == (LocationView {
            host,
            port,
            selector: Seq::<char>::empty(),
        }),
{
}

} // verus!

