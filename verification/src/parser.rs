//! The listing parser: decodes a raw response into an ordered sequence of
//! typed items.
//!
//! A response is text, split on `"\r\n"`.  The sentinel line `"."` and
//! empty lines are dropped.  Every other line must be at least eight
//! bytes long, start with a known one-letter item code, and carry exactly
//! four tab-separated fields: display text, selector, host and port.  The
//! first malformed line fails the whole listing; there are no partial
//! results.

use vstd::prelude::*;

use crate::error::GaufreError;
use crate::item::{kind_of_code, Item, ItemKind, ItemView};
use crate::text::{
    find_char, find_crlf, lemma_split_on_len, lemma_split_on_none, lemma_split_on_step,
    lemma_split_crlf_none, lemma_split_crlf_step, parse_port, parse_u16, split_crlf, split_on,
};

verus! {

/// True for the lines a response may carry without contributing an item:
/// the sentinel terminator `"."` and empty lines.
pub open spec fn dropped_line(l: Seq<char>) -> bool {
    l.len() == 0 || (l.len() == 1 && l[0] == '.')
}

/// One line of a listing, parsed into an item.  The minimum length is
/// counted over the line's UTF-8 bytes.
pub open spec fn parse_line(l: Seq<char>) -> Result<ItemView, GaufreError> {
    if vstd::utf8::encode_utf8(l).len() < 8 {
        Err(GaufreError::Malformed)
    } else {
        match kind_of_code(l[0]) {
            None => Err(GaufreError::Malformed),
            Some(kind) => {
                let fields = split_on(l.drop_first(), '\t');
                if fields.len() != 4 {
                    Err(GaufreError::Malformed)
                } else {
                    match parse_u16(fields[3]) {
                        None => Err(GaufreError::InvalidPort),
                        Some(port) => Ok(
                            ItemView {
                                kind,
                                display: fields[0],
                                selector: fields[1],
                                host: fields[2],
                                port,
                            },
                        ),
                    }
                }
            },
        }
    }
}

/// A sequence of lines, parsed in order; the first bad line fails the
/// whole listing.
pub open spec fn parse_lines(lines: Seq<Seq<char>>) -> Result<Seq<ItemView>, GaufreError>
    decreases lines.len(),
{
    if lines.len() == 0 {
        Ok(Seq::empty())
    } else if dropped_line(lines[0]) {
        parse_lines(lines.drop_first())
    } else {
        match parse_line(lines[0]) {
            Err(e) => Err(e),
            Ok(item) => match parse_lines(lines.drop_first()) {
                Err(e) => Err(e),
                Ok(items) => Ok(seq![item] + items),
            },
        }
    }
}

/// A whole raw response, parsed into its items.  A response that is not
/// valid text fails as a decode error before any line is looked at.
pub open spec fn parse_listing(raw: Seq<u8>) -> Result<Seq<ItemView>, GaufreError> {
    if !vstd::utf8::valid_utf8(raw) {
        Err(GaufreError::Decode)
    } else {
        parse_lines(split_crlf(vstd::utf8::decode_utf8(raw)))
    }
}

/// The values of a sequence of items.
pub open spec fn items_view(v: Seq<Item>) -> Seq<ItemView> {
    v.map_values(|it: Item| it@)
}

/// Items already parsed, put in front of the outcome for the remaining
/// lines.
spec fn prepend_items(prefix: Seq<ItemView>, r: Result<Seq<ItemView>, GaufreError>) -> Result<
    Seq<ItemView>,
    GaufreError,
> {
    match r {
        Ok(items) => Ok(prefix + items),
        Err(e) => Err(e),
    }
}

/// Relies on `str::from_utf8`: it succeeds exactly on valid UTF-8 input,
/// and the characters of the result are the decoded scalar values of the
/// bytes.
#[verifier::external_body]
fn utf8_to_str(raw: &[u8]) -> (r: Option<&str>)
    ensures
        r is Some <==> vstd::utf8::valid_utf8(raw@),
        r matches Some(s) ==> s@ == vstd::utf8::decode_utf8(raw@),
{
    core::str::from_utf8(raw).ok()
}

/// Parses one non-dropped listing line.
fn parse_element(line: &str) -> (r: Result<Item, GaufreError>)
    ensures
        match r {
            Ok(item) => parse_line(line@) == Ok::<ItemView, GaufreError>(item@),
            Err(e) => parse_line(line@) == Err::<ItemView, GaufreError>(e),
        },
{
    if line.as_bytes().len() < 8 {
        return Err(GaufreError::Malformed);
    }
    proof {
        if line@.len() == 0 {
            assert(vstd::utf8::encode_utf8(line@) =~= Seq::<u8>::empty());
        }
    }
    let n = line.unicode_len();
    let code = line.get_char(0);
    let kind = match ItemKind::try_from(code) {
        None => {
            return Err(GaufreError::Malformed);
        },
        Some(k) => k,
    };
    let rest = line.substring_char(1, n);
    proof {
        assert(rest@ =~= line@.drop_first());
    }
    let rn = n - 1;
    let ghost fields = split_on(rest@, '\t');
    let t1 = match find_char(rest, 0, '\t') {
        None => {
            proof {
                lemma_split_on_none(rest@, '\t');
            }
            return Err(GaufreError::Malformed);
        },
        Some(t) => t,
    };
    proof {
        lemma_split_on_step(rest@, '\t', t1 as int);
    }
    let ghost rest2 = rest@.skip(t1 + 1);
    let t2 = match find_char(rest, t1 + 1, '\t') {
        None => {
            proof {
                assert forall|j: int| 0 <= j < rest2.len() implies rest2[j] != '\t' by {
                    assert(rest@[j + t1 + 1] != '\t');
                }
                lemma_split_on_none(rest2, '\t');
                assert(fields.len() == 2);
            }
            return Err(GaufreError::Malformed);
        },
        Some(t) => t,
    };
    proof {
        assert forall|j: int| 0 <= j < t2 - t1 - 1 implies rest2[j] != '\t' by {
            assert(rest@[j + t1 + 1] != '\t');
        }
        assert(rest2[t2 - t1 - 1] == '\t');
        lemma_split_on_step(rest2, '\t', t2 - t1 - 1);
        assert(rest2.take(t2 - t1 - 1) =~= rest@.subrange(t1 + 1, t2 as int));
        assert(rest2.skip(t2 - t1) =~= rest@.skip(t2 + 1));
    }
    let ghost rest3 = rest@.skip(t2 + 1);
    let t3 = match find_char(rest, t2 + 1, '\t') {
        None => {
            proof {
                assert forall|j: int| 0 <= j < rest3.len() implies rest3[j] != '\t' by {
                    assert(rest@[j + t2 + 1] != '\t');
                }
                lemma_split_on_none(rest3, '\t');
                assert(fields.len() == 3);
            }
            return Err(GaufreError::Malformed);
        },
        Some(t) => t,
    };
    proof {
        assert forall|j: int| 0 <= j < t3 - t2 - 1 implies rest3[j] != '\t' by {
            assert(rest@[j + t2 + 1] != '\t');
        }
        assert(rest3[t3 - t2 - 1] == '\t');
        lemma_split_on_step(rest3, '\t', t3 - t2 - 1);
        assert(rest3.take(t3 - t2 - 1) =~= rest@.subrange(t2 + 1, t3 as int));
        assert(rest3.skip(t3 - t2) =~= rest@.skip(t3 + 1));
    }
    let ghost rest4 = rest@.skip(t3 + 1);
    match find_char(rest, t3 + 1, '\t') {
        Some(t4) => {
            proof {
                assert forall|j: int| 0 <= j < t4 - t3 - 1 implies rest4[j] != '\t' by {
                    assert(rest@[j + t3 + 1] != '\t');
                }
                assert(rest4[t4 - t3 - 1] == '\t');
                lemma_split_on_step(rest4, '\t', t4 - t3 - 1);
                lemma_split_on_len(rest4.skip(t4 - t3), '\t');
                assert(fields.len() >= 5);
            }
            return Err(GaufreError::Malformed);
        },
        None => {
            proof {
                assert forall|j: int| 0 <= j < rest4.len() implies rest4[j] != '\t' by {
                    assert(rest@[j + t3 + 1] != '\t');
                }
                lemma_split_on_none(rest4, '\t');
                assert(fields.len() == 4);
                assert(fields[3] =~= rest@.subrange(t3 + 1, rn as int));
            }
        },
    }
    let port_text = rest.substring_char(t3 + 1, rn);
    let port = match parse_port(port_text) {
        None => {
            return Err(GaufreError::InvalidPort);
        },
        Some(p) => p,
    };
    let display = rest.substring_char(0, t1).to_owned();
    let selector = rest.substring_char(t1 + 1, t2).to_owned();
    let host = rest.substring_char(t2 + 1, t3).to_owned();
    let item = Item { kind, display, selector, host, port };
    proof {
        assert(fields[0] =~= rest@.take(t1 as int));
        assert(fields[1] =~= rest@.subrange(t1 + 1, t2 as int));
        assert(fields[2] =~= rest@.subrange(t2 + 1, t3 as int));
        assert(parse_line(line@) == Ok::<ItemView, GaufreError>(item@));
    }
    Ok(item)
}

/// Sorts one line into dropped, parsed or failing.
fn classify_line(line: &str) -> (r: Result<Option<Item>, GaufreError>)
    ensures
        match r {
            Ok(opt) => match opt {
                None => dropped_line(line@),
                Some(item) => !dropped_line(line@) && parse_line(line@) == Ok::<
                    ItemView,
                    GaufreError,
                >(item@),
            },
            Err(e) => !dropped_line(line@) && parse_line(line@) == Err::<ItemView, GaufreError>(e),
        },
{
    let n = line.unicode_len();
    if n == 0 {
        return Ok(None);
    }
    if n == 1 && line.get_char(0) == '.' {
        return Ok(None);
    }
    match parse_element(line) {
        Ok(item) => Ok(Some(item)),
        Err(e) => Err(e),
    }
}

/// Parses a raw response into its items, in line order, failing on the
/// first malformed line.
pub fn get_listing(raw: &[u8]) -> (r: Result<Vec<Item>, GaufreError>)
    ensures
        match r {
            Ok(v) => parse_listing(raw@) == Ok::<Seq<ItemView>, GaufreError>(items_view(v@)),
            Err(e) => parse_listing(raw@) == Err::<Seq<ItemView>, GaufreError>(e),
        },
{
    let text = match utf8_to_str(raw) {
        None => {
            return Err(GaufreError::Decode);
        },
        Some(t) => t,
    };
    let n = text.unicode_len();
    let ghost full = text@;
    let mut items: Vec<Item> = Vec::new();
    let mut start: usize = 0;
    proof {
        assert(full.skip(0) =~= full);
        assert(items_view(items@) =~= Seq::<ItemView>::empty());
    }
    loop
        invariant
            start <= n,
            n == full.len(),
            full == text@,
            vstd::utf8::valid_utf8(raw@),
            vstd::utf8::decode_utf8(raw@) == full,
            parse_listing(raw@) == prepend_items(
                items_view(items@),
                parse_lines(split_crlf(full.skip(start as int))),
            ),
        decreases n - start,
    {
        let ghost tail = full.skip(start as int);
        let found = find_crlf(text, start);
        let (line_end, next_start) = match found {
            Some(i) => (i, i + 2),
            None => (n, n),
        };
        let line = text.substring_char(start, line_end);
        let ghost rest_lines = match found {
            Some(i) => split_crlf(full.skip(i + 2 as int)),
            None => Seq::<Seq<char>>::empty(),
        };
        proof {
            match found {
                Some(i) => {
                    assert forall|j: int| 0 <= j < i - start implies !((#[trigger] tail[j]) == '\r'
                        && tail[j + 1] == '\n') by {
                        assert(!(full[j + start] == '\r' && full[j + start + 1] == '\n'));
                    }
                    assert(tail[i - start] == '\r' && tail[i - start + 1] == '\n');
                    lemma_split_crlf_step(tail, i - start);
                    assert(tail.take(i - start) =~= line@);
                    assert(tail.skip(i - start + 2) =~= full.skip(i + 2 as int));
                    assert(split_crlf(tail) == seq![line@] + rest_lines);
                },
                None => {
                    assert forall|j: int| 0 <= j && j + 1 < tail.len() implies !((
                    #[trigger] tail[j]) == '\r' && tail[j + 1] == '\n') by {
                        assert(!(full[j + start] == '\r' && full[j + start + 1] == '\n'));
                    }
                    lemma_split_crlf_none(tail);
                    assert(tail =~= line@);
                    assert(split_crlf(tail) == seq![line@] + rest_lines);
                },
            }
            assert((seq![line@] + rest_lines)[0] == line@);
            assert((seq![line@] + rest_lines).drop_first() =~= rest_lines);
        }
        match classify_line(line) {
            Err(e) => {
                proof {
                    assert(parse_lines(split_crlf(tail)) == Err::<Seq<ItemView>, GaufreError>(e));
                }
                return Err(e);
            },
            Ok(None) => {
                proof {
                    assert(parse_lines(split_crlf(tail)) == parse_lines(rest_lines));
                }
            },
            Ok(Some(item)) => {
                let ghost old_items = items@;
                items.push(item);
                proof {
                    assert(items_view(items@) =~= items_view(old_items) + seq![item@]);
                    match parse_lines(rest_lines) {
                        Ok(its) => {
                            assert(parse_lines(split_crlf(tail)) == Ok::<
                                Seq<ItemView>,
                                GaufreError,
                            >(seq![item@] + its));
                            assert(items_view(old_items) + (seq![item@] + its) =~= items_view(
                                items@,
                            ) + its);
                        },
                        Err(_) => {},
                    }
                }
            },
        }
        match found {
            Some(_) => {
                proof {
                    assert(rest_lines == split_crlf(full.skip(next_start as int)));
                }
                start = next_start;
            },
            None => {
                proof {
                    assert(parse_lines(rest_lines) == Ok::<Seq<ItemView>, GaufreError>(
                        Seq::empty(),
                    ));
                    assert(items_view(items@) + Seq::<ItemView>::empty() =~= items_view(items@));
                }
                return Ok(items);
            },
        }
    }
}

} // verus!
