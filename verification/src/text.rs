//! Small verified text utilities: character search, splitting on a
//! delimiter, and decimal parsing of port numbers.
//!
//! The splitting functions mirror leftmost, non-overlapping splitting with
//! empty fields kept, the shape the listing parser and the command
//! dispatcher rely on.

use vstd::prelude::*;

verus! {

/// Splits `s` on every occurrence of `c`, keeping empty fields.
/// The result always has one more field than `s` has delimiters.
pub open spec fn split_on(s: Seq<char>, c: char) -> Seq<Seq<char>>
    decreases s.len(),
{
    if s.len() == 0 {
        seq![s]
    } else if s[0] == c {
        seq![Seq::<char>::empty()] + split_on(s.drop_first(), c)
    } else {
        let rest = split_on(s.drop_first(), c);
        seq![seq![s[0]] + rest[0]] + rest.drop_first()
    }
}

/// Splits `s` on every occurrence of the two-character line terminator
/// `"\r\n"`, leftmost first, keeping empty lines.
pub open spec fn split_crlf(s: Seq<char>) -> Seq<Seq<char>>
    decreases s.len(),
{
    if s.len() >= 2 && s[0] == '\r' && s[1] == '\n' {
        seq![Seq::<char>::empty()] + split_crlf(s.skip(2))
    } else if s.len() == 0 {
        seq![s]
    } else {
        let rest = split_crlf(s.drop_first());
        seq![seq![s[0]] + rest[0]] + rest.drop_first()
    }
}

/// A split result is never empty.
pub proof fn lemma_split_on_len(s: Seq<char>, c: char)
    ensures
        split_on(s, c).len() >= 1,
    decreases s.len(),
{
    if s.len() == 0 {
    } else if s[0] == c {
        lemma_split_on_len(s.drop_first(), c);
    } else {
        lemma_split_on_len(s.drop_first(), c);
    }
}

/// A line split result is never empty.
pub proof fn lemma_split_crlf_len(s: Seq<char>)
    ensures
        split_crlf(s).len() >= 1,
    decreases s.len(),
{
    if s.len() >= 2 && s[0] == '\r' && s[1] == '\n' {
        lemma_split_crlf_len(s.skip(2));
    } else if s.len() == 0 {
    } else {
        lemma_split_crlf_len(s.drop_first());
    }
}

/// Where `s` has no delimiter at all, it is its own single field.
pub proof fn lemma_split_on_none(s: Seq<char>, c: char)
    requires
        forall|j: int| 0 <= j < s.len() ==> s[j] != c,
    ensures
        split_on(s, c) =~~= seq![s],
    decreases s.len(),
{
    if s.len() > 0 {
        lemma_split_on_none(s.drop_first(), c);
        assert(seq![s[0]] + s.drop_first() =~= s);
    }
}

/// Where the first delimiter of `s` stands at `k`, the first field is
/// everything before it and the rest splits on its own.
pub proof fn lemma_split_on_step(s: Seq<char>, c: char, k: int)
    requires
        0 <= k < s.len(),
        s[k] == c,
        forall|j: int| 0 <= j < k ==> s[j] != c,
    ensures
        split_on(s, c) =~~= seq![s.take(k)] + split_on(s.skip(k + 1), c),
    decreases k,
{
    if k == 0 {
        assert(s.take(0) =~= Seq::<char>::empty());
        assert(s.skip(1) =~= s.drop_first());
    } else {
        lemma_split_on_step(s.drop_first(), c, k - 1);
        lemma_split_on_len(s.drop_first().skip(k), c);
        assert(seq![s[0]] + s.drop_first().take(k - 1) =~= s.take(k));
        assert(s.drop_first().skip(k) =~= s.skip(k + 1));
    }
}

/// Where `s` holds no line terminator, it is a single line.
pub proof fn lemma_split_crlf_none(s: Seq<char>)
    requires
        forall|j: int| 0 <= j && j + 1 < s.len() ==> !((#[trigger] s[j]) == '\r' && s[j + 1] == '\n'),
    ensures
        split_crlf(s) =~~= seq![s],
    decreases s.len(),
{
    if s.len() >= 2 && s[0] == '\r' && s[1] == '\n' {
        assert(false);
    } else if s.len() > 0 {
        lemma_split_crlf_none(s.drop_first());
        assert(seq![s[0]] + s.drop_first() =~= s);
    }
}

/// Where the first line terminator of `s` starts at `k`, the first line is
/// everything before it and the rest splits on its own.
pub proof fn lemma_split_crlf_step(s: Seq<char>, k: int)
    requires
        0 <= k,
        k + 1 < s.len(),
        s[k] == '\r' && s[k + 1] == '\n',
        forall|j: int| 0 <= j < k ==> !((#[trigger] s[j]) == '\r' && s[j + 1] == '\n'),
    ensures
        split_crlf(s) =~~= seq![s.take(k)] + split_crlf(s.skip(k + 2)),
    decreases k,
{
    if k == 0 {
        assert(s.take(0) =~= Seq::<char>::empty());
    } else {
        assert(!(s[0] == '\r' && s[1] == '\n'));
        lemma_split_crlf_step(s.drop_first(), k - 1);
        lemma_split_crlf_len(s.drop_first().skip(k + 1));
        assert(seq![s[0]] + s.drop_first().take(k - 1) =~= s.take(k));
        assert(s.drop_first().skip(k + 1) =~= s.skip(k + 2));
    }
}

/// The position of the first occurrence of `c` in `s`.
pub open spec fn find_first(s: Seq<char>, c: char) -> Option<int>
    decreases s.len(),
{
    if s.len() == 0 {
        None
    } else if s[0] == c {
        Some(0)
    } else {
        match find_first(s.drop_first(), c) {
            None => None,
            Some(i) => Some(i + 1),
        }
    }
}

/// Where `s` holds no `c`, there is no first occurrence.
pub proof fn lemma_find_first_none(s: Seq<char>, c: char)
    requires
        forall|j: int| 0 <= j < s.len() ==> s[j] != c,
    ensures
        find_first(s, c) is None,
    decreases s.len(),
{
    if s.len() > 0 {
        lemma_find_first_none(s.drop_first(), c);
    }
}

/// Where `c` stands at `k` and nowhere earlier, `k` is the first
/// occurrence.
pub proof fn lemma_find_first_at(s: Seq<char>, c: char, k: int)
    requires
        0 <= k < s.len(),
        s[k] == c,
        forall|j: int| 0 <= j < k ==> s[j] != c,
    ensures
        find_first(s, c) == Some(k),
    decreases k,
{
    if k > 0 {
        lemma_find_first_at(s.drop_first(), c, k - 1);
    }
}

/// True when `s` is one or more decimal digits.
pub open spec fn is_digits(s: Seq<char>) -> bool {
    s.len() > 0 && (forall|i: int| 0 <= i < s.len() ==> '0' <= s[i] && s[i] <= '9')
}

/// The number written by a digit string, most significant digit first.
pub open spec fn digits_val(s: Seq<char>) -> int
    decreases s.len(),
{
    if s.len() == 0 {
        0
    } else {
        digits_val(s.drop_last()) * 10 + (s.last() as int - '0' as int)
    }
}

/// A digit string never denotes a negative number.
pub proof fn lemma_digits_val_nonneg(s: Seq<char>)
    requires
        forall|i: int| 0 <= i < s.len() ==> '0' <= s[i] && s[i] <= '9',
    ensures
        digits_val(s) >= 0,
    decreases s.len(),
{
    if s.len() > 0 {
        lemma_digits_val_nonneg(s.drop_last());
    }
}

/// Dropping trailing digits never increases the value.
pub proof fn lemma_digits_val_prefix_le(s: Seq<char>, k: int)
    requires
        0 <= k <= s.len(),
        forall|i: int| 0 <= i < s.len() ==> '0' <= s[i] && s[i] <= '9',
    ensures
        digits_val(s.take(k)) <= digits_val(s),
    decreases s.len(),
{
    if k == s.len() {
        assert(s.take(k) =~= s);
    } else {
        assert(s.drop_last().take(k) =~= s.take(k));
        lemma_digits_val_prefix_le(s.drop_last(), k);
        lemma_digits_val_nonneg(s.drop_last());
    }
}

/// The digits of an unsigned decimal literal: a single leading `'+'` sign
/// is allowed and ignored.
pub open spec fn unsigned_digits(s: Seq<char>) -> Seq<char> {
    if s.len() > 0 && s[0] == '+' {
        s.drop_first()
    } else {
        s
    }
}

/// An unsigned 16-bit integer read from decimal text, `None` where the
/// text is not `[+]digits` or the value does not fit.
pub open spec fn parse_u16(s: Seq<char>) -> Option<u16> {
    if is_digits(unsigned_digits(s)) && digits_val(unsigned_digits(s)) <= 65535 {
        Some(digits_val(unsigned_digits(s)) as u16)
    } else {
        None
    }
}

/// Compares two string slices character by character.
pub fn str_eq(a: &str, b: &str) -> (r: bool)
    ensures
        r == (a@ == b@),
{
    let an = a.unicode_len();
    let bn = b.unicode_len();
    if an != bn {
        return false;
    }
    let mut i: usize = 0;
    while i < an
        invariant
            i <= an,
            an == a@.len(),
            bn == b@.len(),
            an == bn,
            forall|j: int| 0 <= j < i ==> a@[j] == b@[j],
        decreases an - i,
    {
        if a.get_char(i) != b.get_char(i) {
            return false;
        }
        i += 1;
    }
    proof {
        assert(a@ =~= b@);
    }
    true
}

/// Finds the first occurrence of `c` in `s` at or after `from`.
pub fn find_char(s: &str, from: usize, c: char) -> (r: Option<usize>)
    requires
        from <= s@.len(),
    ensures
        match r {
            Some(i) => from <= i && i < s@.len() && s@[i as int] == c && (forall|j: int|
                from <= j < i ==> s@[j] != c),
            None => forall|j: int| from <= j < s@.len() ==> s@[j] != c,
        },
{
    let n = s.unicode_len();
    let mut i: usize = from;
    while i < n
        invariant
            from <= i <= n,
            n == s@.len(),
            forall|j: int| from <= j < i ==> s@[j] != c,
        decreases n - i,
    {
        if s.get_char(i) == c {
            return Some(i);
        }
        i += 1;
    }
    None
}

/// Finds the first line terminator `"\r\n"` in `s` starting at or after
/// `from`, returning the index of its `'\r'`.
pub fn find_crlf(s: &str, from: usize) -> (r: Option<usize>)
    requires
        from <= s@.len(),
    ensures
        match r {
            Some(i) => from <= i && i + 1 < s@.len() && s@[i as int] == '\r' && s@[i + 1]
                == '\n' && (forall|j: int|
                from <= j < i ==> !((#[trigger] s@[j]) == '\r' && s@[j + 1] == '\n')),
            None => forall|j: int|
                from <= j && j + 1 < s@.len() ==> !((#[trigger] s@[j]) == '\r' && s@[j + 1] == '\n'),
        },
{
    let n = s.unicode_len();
    if n == 0 {
        return None;
    }
    let mut i: usize = from;
    while i < n - 1
        invariant
            from <= i,
            i <= n,
            n >= 1,
            n == s@.len(),
            forall|j: int| from <= j < i ==> !((#[trigger] s@[j]) == '\r' && s@[j + 1] == '\n'),
        decreases n - i,
    {
        if s.get_char(i) == '\r' && s.get_char(i + 1) == '\n' {
            return Some(i);
        }
        i += 1;
    }
    None
}

/// Reads an unsigned 16-bit integer from decimal text.
pub fn parse_port(s: &str) -> (r: Option<u16>)
    ensures
        r == parse_u16(s@),
{
    let n = s.unicode_len();
    let start: usize = if n > 0 && s.get_char(0) == '+' {
        1
    } else {
        0
    };
    let ghost d = unsigned_digits(s@);
    proof {
        assert(d =~= s@.skip(start as int));
    }
    if start == n {
        return None;
    }
    let mut val: u32 = 0;
    let mut i: usize = start;
    while i < n
        invariant
            start <= i <= n,
            n == s@.len(),
            start < n,
            d == unsigned_digits(s@),
            d =~= s@.skip(start as int),
            forall|j: int| start <= j < i ==> '0' <= s@[j] && s@[j] <= '9',
            val <= 65535,
            val == digits_val(s@.subrange(start as int, i as int)),
        decreases n - i,
    {
        let c = s.get_char(i);
        if !('0' <= c && c <= '9') {
            proof {
                let jj = i - start as int;
                assert(d[jj] == s@[i as int]);
                assert(!('0' <= d[jj] && d[jj] <= '9'));
                assert(!is_digits(d));
            }
            return None;
        }
        let dv: u32 = (c as u32) - 48;
        let nv: u32 = val * 10 + dv;
        proof {
            let ext = s@.subrange(start as int, i + 1 as int);
            assert(ext.drop_last() =~= s@.subrange(start as int, i as int));
            assert(ext.last() == s@[i as int]);
            assert(digits_val(ext) == val * 10 + dv);
        }
        if nv > 65535 {
            proof {
                if is_digits(d) {
                    assert(d.take(i + 1 - start as int) =~= s@.subrange(start as int, i + 1));
                    assert(digits_val(d.take(i + 1 - start as int)) == nv);
                    lemma_digits_val_prefix_le(d, i + 1 - start as int);
                    assert(digits_val(d) > 65535);
                }
            }
            return None;
        }
        val = nv;
        i += 1;
    }
    proof {
        assert(s@.subrange(start as int, n as int) =~= d);
        assert(forall|j: int| 0 <= j < d.len() ==> '0' <= #[trigger] d[j] && d[j] <= '9');
    }
    Some(val as u16)
}

} // verus!
