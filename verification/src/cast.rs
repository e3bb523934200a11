//! Asciicast v2 parts that carry no timing: the header's theme and the
//! `<cols>x<rows>` text of resize events.

use vstd::prelude::*;
use crate::text::{
    chars_of, dec, digits_value, find_char, is_digit, lemma_dec_digits, lemma_find_char_bounds, lemma_find_char_prefix,
    parse_digits, parse_unsigned, parse_unsigned_vec, push_dec, string_from, string_of_range,
};

verus! {

/// Color theme for rendering.
#[derive(Debug, Clone, PartialEq, Eq)]
pub struct Theme {
    /// Foreground color (hex format: "#RRGGBB").
    pub fg: Option<String>,
    /// Background color (hex format: "#RRGGBB").
    pub bg: Option<String>,
    /// 16-color palette (ANSI colors 0-15).
    pub palette: Option<String>,
}

/// The text of a resize event's dimensions: `<cols>x<rows>`.
pub open spec fn dims_text(cols: u16, rows: u16) -> Seq<char> {
    dec(cols as nat) + seq!['x'] + dec(rows as nat)
}

/// Write a resize event's dimensions.
pub fn format_resize_dims(cols: u16, rows: u16) -> (s: String)
    ensures
        s@ == dims_text(cols, rows),
{
    let mut s = String::new();
    push_dec(&mut s, cols as u64);
    s.append("x");
    push_dec(&mut s, rows as u64);
    proof {
        reveal_strlit("x");
        assert("x"@ =~= seq!['x']);
    }
    assert(s@ =~= dims_text(cols, rows));
    s
}

/// The dimensions a resize event's text gives: exactly one `x` between two
/// numbers that fit in 16 bits.
pub open spec fn dims_of(s: Seq<char>) -> Option<(u16, u16)> {
    let i = find_char(s, 'x');
    if i >= s.len() {
        None
    } else {
        let rest = s.skip(i + 1 as int);
        if find_char(rest, 'x') < rest.len() {
            None
        } else {
            match (parse_unsigned(s.take(i as int), u16::MAX as nat), parse_unsigned(rest, u16::MAX as nat)) {
                (Some(c), Some(r)) => Some((c as u16, r as u16)),
                _ => None,
            }
        }
    }
}

fn find_x(v: &Vec<char>, from: usize) -> (i: usize)
    requires
        from <= v@.len(),
    ensures
        i == from + find_char(v@.skip(from as int), 'x'),
{
    let mut i = from;
    proof {
        lemma_find_char_bounds(v@.skip(from as int), 'x');
    }
    while i < v.len() && v[i] != 'x'
        invariant
            from <= i <= v@.len(),
            find_char(v@.skip(from as int), 'x') == (i - from) + find_char(v@.skip(i as int), 'x'),
        decreases v@.len() - i,
    {
        assert(v@.skip(i as int)[0] == v@[i as int]);
        assert(v@.skip(i as int).skip(1) =~= v@.skip(i + 1));
        i = i + 1;
    }
    proof {
        if i < v@.len() {
            assert(v@.skip(i as int)[0] == v@[i as int]);
        }
    }
    i
}

/// Read a resize event's dimensions.
pub fn parse_resize_dims(s: &str) -> (r: Option<(u16, u16)>)
    ensures
        r == dims_of(s@),
{
    let v = chars_of(s);
    assert(v@.skip(0) =~= v@);
    let i = find_x(&v, 0);
    if i >= v.len() {
        return None;
    }
    let j = find_x(&v, i + 1);
    assert(v@.skip(i + 1) =~= v@.skip(i + 1));
    if j < v.len() {
        return None;
    }
    let head = chars_of(string_of_range(&v, 0, i).as_str());
    let tail = chars_of(string_of_range(&v, i + 1, v.len()).as_str());
    assert(head@ =~= v@.take(i as int));
    assert(tail@ =~= v@.skip(i + 1));
    match (parse_unsigned_vec(&head, 65535), parse_unsigned_vec(&tail, 65535)) {
        (Some(c), Some(r)) => Some((c as u16, r as u16)),
        _ => None,
    }
}

/// A resize event's dimensions read back as written.
pub proof fn lemma_resize_dims_roundtrip(cols: u16, rows: u16)
    ensures
        dims_of(dims_text(cols, rows)) == Some((cols, rows)),
{
    let a = dec(cols as nat);
    let b = dec(rows as nat);
    lemma_dec_digits(cols as nat);
    lemma_dec_digits(rows as nat);
    let s = dims_text(cols, rows);
    assert forall|j: int| 0 <= j < a.len() implies #[trigger] a[j] != 'x' by {
        assert(is_digit(a[j]));
    }
    assert forall|j: int| 0 <= j < b.len() implies #[trigger] b[j] != 'x' by {
        assert(is_digit(b[j]));
    }
    assert(s =~= a + (seq!['x'] + b));
    lemma_find_char_prefix(a, seq!['x'] + b, 'x');
    assert((seq!['x'] + b)[0] == 'x');
    assert(find_char(seq!['x'] + b, 'x') == 0);
    assert(find_char(s, 'x') == a.len());
    assert(s.skip(a.len() + 1 as int) =~= b);
    assert(s.take(a.len() as int) =~= a);
    lemma_find_char_prefix(b, Seq::<char>::empty(), 'x');
    assert(b + Seq::<char>::empty() =~= b);
    assert(find_char(Seq::<char>::empty(), 'x') == 0);
    assert(a[0] != '+' && b[0] != '+');
}

} // verus!
