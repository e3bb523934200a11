//! Character-sequence helpers shared by the rest of the crate.

use vstd::prelude::*;
use vstd::std_specs::iter::IteratorSpec;

verus! {

/// The ASCII digit for `d` (which must be below ten).
pub open spec fn digit_char(d: nat) -> char {
    ((d + 48) as u8) as char
}

/// Decimal rendering of a natural number, most significant digit first,
/// without leading zeros (zero renders as "0").
pub open spec fn dec(n: nat) -> Seq<char>
    decreases n,
{
    if n < 10 {
        seq![digit_char(n)]
    } else {
        dec(n / 10).push(digit_char(n % 10))
    }
}

/// Appends one character to a string.
#[verifier::external_body]
pub(crate) fn push_char(s: &mut String, c: char)
    ensures
        final(s)@ == old(s)@.push(c),
{
    s.push(c);
}

/// Appends the decimal rendering of `n` to `s`.
pub fn push_dec(s: &mut String, n: u64)
    ensures
        final(s)@ == old(s)@ + dec(n as nat),
    decreases n,
{
    if n < 10 {
        let c = digit(n);
        push_char(s, c);
        assert(dec(n as nat) =~= seq![digit_char(n as nat)]);
    } else {
        push_dec(s, n / 10);
        let c = digit(n % 10);
        push_char(s, c);
    }
}

fn digit(d: u64) -> (c: char)
    requires
        d < 10,
    ensures
        c == digit_char(d as nat),
{
    let b: u8 = (d as u8) + 48;
    b as char
}

} // verus!

verus! {

// ---------------------------------------------------------------------------
// Conversions between strings and character vectors
// ---------------------------------------------------------------------------

/// The characters of `s`.
pub fn chars_of(s: &str) -> (v: Vec<char>)
    ensures
        v@ == s@,
{
    broadcast use vstd::string::group_string_axioms;
    let mut v: Vec<char> = Vec::new();
    for c in it: s.chars()
        invariant
            it.seq() == s@,
            v@ == s@.take(it.index()),
    {
        v.push(c);
        assert(v@ =~= s@.take(it.index() + 1));
    }
    assert(s@.take(s@.len() as int) =~= s@);
    v
}

/// A string holding the characters `v[from..to]`.
pub fn string_of_range(v: &Vec<char>, from: usize, to: usize) -> (s: String)
    requires
        from <= to <= v@.len(),
    ensures
        s@ == v@.subrange(from as int, to as int),
{
    let mut s = String::new();
    let mut i = from;
    while i < to
        invariant
            from <= i <= to <= v@.len(),
            s@ == v@.subrange(from as int, i as int),
        decreases to - i,
    {
        push_char(&mut s, v[i]);
        i = i + 1;
        assert(s@ =~= v@.subrange(from as int, i as int));
    }
    s
}

/// A string holding the characters of `v`.
pub fn string_of(v: &Vec<char>) -> (s: String)
    ensures
        s@ == v@,
{
    let s = string_of_range(v, 0, v.len());
    assert(v@.subrange(0, v@.len() as int) =~= v@);
    s
}

/// Appends the characters of `v` to `s`.
pub fn push_chars(s: &mut String, v: &Vec<char>)
    ensures
        final(s)@ == old(s)@ + v@,
{
    let t = string_of(v);
    s.append(t.as_str());
}

// ---------------------------------------------------------------------------
// Whitespace
// ---------------------------------------------------------------------------

/// The Unicode `White_Space` property, as `char::is_whitespace` defines it.
pub open spec fn is_ws(c: char) -> bool {
    ||| ('\u{9}' <= c && c <= '\u{d}')
    ||| c == ' '
    ||| c == '\u{85}'
    ||| c == '\u{a0}'
    ||| c == '\u{1680}'
    ||| ('\u{2000}' <= c && c <= '\u{200a}')
    ||| c == '\u{2028}'
    ||| c == '\u{2029}'
    ||| c == '\u{202f}'
    ||| c == '\u{205f}'
    ||| c == '\u{3000}'
}

/// Executable `is_ws`.
pub fn is_whitespace(c: char) -> (b: bool)
    ensures
        b == is_ws(c),
{
    ('\u{9}' <= c && c <= '\u{d}') || c == ' ' || c == '\u{85}' || c == '\u{a0}' || c == '\u{1680}'
        || ('\u{2000}' <= c && c <= '\u{200a}') || c == '\u{2028}' || c == '\u{2029}' || c
        == '\u{202f}' || c == '\u{205f}' || c == '\u{3000}'
}

/// Length of the longest prefix of `s` without whitespace.
pub open spec fn find_ws(s: Seq<char>) -> nat
    decreases s.len(),
{
    if s.len() == 0 || is_ws(s[0]) {
        0
    } else {
        1 + find_ws(s.skip(1))
    }
}

pub proof fn lemma_find_ws_bounds(s: Seq<char>)
    ensures
        find_ws(s) <= s.len(),
        find_ws(s) < s.len() ==> is_ws(s[find_ws(s) as int]),
        forall|j: int| 0 <= j < find_ws(s) ==> !is_ws(#[trigger] s[j]),
    decreases s.len(),
{
    if s.len() > 0 && !is_ws(s[0]) {
        lemma_find_ws_bounds(s.skip(1));
        assert forall|j: int| 0 <= j < find_ws(s) implies !is_ws(#[trigger] s[j]) by {
            if j > 0 {
                assert(s[j] == s.skip(1)[j - 1]);
            }
        }
    }
}

/// The maximal runs of non-whitespace characters of `s`, in order
/// (what `str::split_whitespace` yields).
pub open spec fn words(s: Seq<char>) -> Seq<Seq<char>>
    decreases s.len(),
{
    if s.len() == 0 {
        seq![]
    } else if is_ws(s[0]) {
        words(s.skip(1))
    } else {
        let i = find_ws(s);
        proof {
            lemma_find_ws_bounds(s);
        }
        seq![s.take(i as int)] + words(s.skip(i as int))
    }
}

proof fn lemma_find_ws_prefix(cur: Seq<char>, rest: Seq<char>)
    requires
        forall|j: int| 0 <= j < cur.len() ==> !is_ws(#[trigger] cur[j]),
    ensures
        find_ws(cur + rest) == cur.len() + find_ws(rest),
    decreases cur.len(),
{
    if cur.len() > 0 {
        assert((cur + rest)[0] == cur[0]);
        assert((cur + rest).skip(1) =~= cur.skip(1) + rest);
        assert forall|j: int| 0 <= j < cur.skip(1).len() implies !is_ws(#[trigger] cur.skip(1)[j]) by {
            assert(cur.skip(1)[j] == cur[j + 1]);
        }
        lemma_find_ws_prefix(cur.skip(1), rest);
    } else {
        assert(cur + rest =~= rest);
    }
}

proof fn lemma_words_step(cur: Seq<char>, c: char, rest: Seq<char>)
    requires
        forall|j: int| 0 <= j < cur.len() ==> !is_ws(#[trigger] cur[j]),
    ensures
        !is_ws(c) ==> cur + seq![c] + rest =~= cur.push(c) + rest,
        is_ws(c) && cur.len() > 0 ==> words(cur + seq![c] + rest) == seq![cur] + words(rest),
        is_ws(c) && cur.len() == 0 ==> words(cur + seq![c] + rest) == words(rest),
{
    let s = cur + seq![c] + rest;
    if is_ws(c) {
        assert(s =~= cur + (seq![c] + rest));
        if cur.len() > 0 {
            lemma_find_ws_prefix(cur, seq![c] + rest);
            assert((seq![c] + rest)[0] == c);
            assert(find_ws(seq![c] + rest) == 0);
            assert(s[0] == cur[0]);
            assert(s.take(cur.len() as int) =~= cur);
            assert(s.skip(cur.len() as int) =~= seq![c] + rest);
            assert((seq![c] + rest).skip(1) =~= rest);
            assert(words(seq![c] + rest) == words(rest));
        } else {
            assert(s =~= seq![c] + rest);
            assert(s.skip(1) =~= rest);
        }
    }
}

proof fn lemma_words_of_word(cur: Seq<char>)
    requires
        forall|j: int| 0 <= j < cur.len() ==> !is_ws(#[trigger] cur[j]),
    ensures
        words(cur) == if cur.len() == 0 {
            Seq::<Seq<char>>::empty()
        } else {
            seq![cur]
        },
{
    if cur.len() > 0 {
        lemma_find_ws_prefix(cur, Seq::<char>::empty());
        assert(cur + Seq::<char>::empty() =~= cur);
        assert(cur.take(cur.len() as int) =~= cur);
        assert(cur.skip(cur.len() as int) =~= Seq::<char>::empty());
        assert(!is_ws(cur[0]));
        assert(find_ws(cur) == cur.len());
        assert(words(Seq::<char>::empty()) =~= Seq::<Seq<char>>::empty());
        assert(seq![cur] + Seq::<Seq<char>>::empty() =~= seq![cur]);
    } else {
        assert(words(cur) =~= Seq::<Seq<char>>::empty());
    }
}

/// The whitespace-separated words of `s`, as character vectors.
pub fn split_words(s: &Vec<char>) -> (ws: Vec<Vec<char>>)
    ensures
        ws@.map_values(|w: Vec<char>| w@) == words(s@),
{
    let mut done: Vec<Vec<char>> = Vec::new();
    let mut cur: Vec<char> = Vec::new();
    let mut i: usize = 0;
    assert(cur@ + s@.skip(0) =~= s@);
    assert(done@.map_values(|w: Vec<char>| w@) + words(s@) =~= words(s@));
    while i < s.len()
        invariant
            i <= s@.len(),
            forall|j: int| 0 <= j < cur@.len() ==> !is_ws(#[trigger] cur@[j]),
            words(s@) == done@.map_values(|w: Vec<char>| w@) + words(cur@ + s@.skip(i as int)),
        decreases s@.len() - i,
    {
        let c = s[i];
        let ghost rest = s@.skip(i + 1);
        assert(s@.skip(i as int) =~= seq![c] + rest);
        assert(cur@ + s@.skip(i as int) =~= cur@ + seq![c] + rest);
        proof {
            lemma_words_step(cur@, c, rest);
        }
        if is_whitespace(c) {
            if cur.len() > 0 {
                let ghost old_done = done@.map_values(|w: Vec<char>| w@);
                let ghost cv = cur@;
                done.push(cur);
                cur = Vec::new();
                assert(done@.map_values(|w: Vec<char>| w@) =~= old_done.push(cv));
                assert(cur@ + rest =~= rest);
                assert(old_done + (seq![cv] + words(rest)) =~= old_done.push(cv) + words(rest));
            } else {
                assert(cur@ + rest =~= rest);
            }
        } else {
            cur.push(c);
        }
        i = i + 1;
    }
    assert(s@.skip(i as int) =~= Seq::<char>::empty());
    assert(cur@ + Seq::<char>::empty() =~= cur@);
    proof {
        lemma_words_of_word(cur@);
    }
    if cur.len() > 0 {
        let ghost old_done = done@.map_values(|w: Vec<char>| w@);
        let ghost cv = cur@;
        done.push(cur);
        assert(done@.map_values(|w: Vec<char>| w@) =~= old_done + seq![cv]);
    } else {
        assert(done@.map_values(|w: Vec<char>| w@) + Seq::<Seq<char>>::empty() =~= done@.map_values(|w: Vec<char>| w@));
    }
    done
}

} // verus!

verus! {

// ---------------------------------------------------------------------------
// Lines
// ---------------------------------------------------------------------------

/// Length of the longest prefix of `s` without the character `c`.
pub open spec fn find_char(s: Seq<char>, c: char) -> nat
    decreases s.len(),
{
    if s.len() == 0 || s[0] == c {
        0
    } else {
        1 + find_char(s.skip(1), c)
    }
}

pub proof fn lemma_find_char_bounds(s: Seq<char>, c: char)
    ensures
        find_char(s, c) <= s.len(),
        find_char(s, c) < s.len() ==> s[find_char(s, c) as int] == c,
        forall|j: int| 0 <= j < find_char(s, c) ==> #[trigger] s[j] != c,
    decreases s.len(),
{
    if s.len() > 0 && s[0] != c {
        lemma_find_char_bounds(s.skip(1), c);
        assert forall|j: int| 0 <= j < find_char(s, c) implies #[trigger] s[j] != c by {
            if j > 0 {
                assert(s[j] == s.skip(1)[j - 1]);
            }
        }
    }
}

pub proof fn lemma_find_char_prefix(cur: Seq<char>, rest: Seq<char>, c: char)
    requires
        forall|j: int| 0 <= j < cur.len() ==> #[trigger] cur[j] != c,
    ensures
        find_char(cur + rest, c) == cur.len() + find_char(rest, c),
    decreases cur.len(),
{
    if cur.len() > 0 {
        assert((cur + rest)[0] == cur[0]);
        assert((cur + rest).skip(1) =~= cur.skip(1) + rest);
        assert forall|j: int| 0 <= j < cur.skip(1).len() implies #[trigger] cur.skip(1)[j] != c by {
            assert(cur.skip(1)[j] == cur[j + 1]);
        }
        lemma_find_char_prefix(cur.skip(1), rest, c);
    } else {
        assert(cur + rest =~= rest);
    }
}

/// `s` without one trailing carriage return.
pub open spec fn strip_cr(s: Seq<char>) -> Seq<char> {
    if s.len() > 0 && s.last() == '\r' {
        s.drop_last()
    } else {
        s
    }
}

/// The lines of `s` as `str::lines` yields them: split at `\n`, a `\r`
/// directly before a `\n` dropped, and no empty last line after a final `\n`.
pub open spec fn lines(s: Seq<char>) -> Seq<Seq<char>>
    decreases s.len(),
{
    if s.len() == 0 {
        seq![]
    } else {
        let i = find_char(s, '\n');
        proof {
            lemma_find_char_bounds(s, '\n');
        }
        if i == s.len() {
            seq![s]
        } else {
            seq![strip_cr(s.take(i as int))] + lines(s.skip(i + 1 as int))
        }
    }
}

proof fn lemma_lines_step(cur: Seq<char>, c: char, rest: Seq<char>)
    requires
        forall|j: int| 0 <= j < cur.len() ==> #[trigger] cur[j] != '\n',
    ensures
        c == '\n' ==> lines(cur + seq![c] + rest) == seq![strip_cr(cur)] + lines(rest),
{
    if c == '\n' {
        let s = cur + seq![c] + rest;
        assert(s =~= cur + (seq![c] + rest));
        lemma_find_char_prefix(cur, seq![c] + rest, '\n');
        assert((seq![c] + rest)[0] == c);
        assert(find_char(seq![c] + rest, '\n') == 0);
        assert(s.take(cur.len() as int) =~= cur);
        assert(s.skip(cur.len() + 1 as int) =~= rest);
    }
}

proof fn lemma_lines_of_line(cur: Seq<char>)
    requires
        forall|j: int| 0 <= j < cur.len() ==> #[trigger] cur[j] != '\n',
    ensures
        lines(cur) == if cur.len() == 0 {
            Seq::<Seq<char>>::empty()
        } else {
            seq![cur]
        },
{
    if cur.len() > 0 {
        lemma_find_char_prefix(cur, Seq::<char>::empty(), '\n');
        assert(cur + Seq::<char>::empty() =~= cur);
        assert(find_char(Seq::<char>::empty(), '\n') == 0);
    }
}

/// Two lines, each ended by `\n`, split back into those lines (a line
/// that ends in `\r` loses it).
pub proof fn lemma_lines_two(a: Seq<char>, b: Seq<char>)
    requires
        forall|j: int| 0 <= j < a.len() ==> #[trigger] a[j] != '\n',
        forall|j: int| 0 <= j < b.len() ==> #[trigger] b[j] != '\n',
    ensures
        lines(a + seq!['\n'] + b + seq!['\n']) == seq![strip_cr(a), strip_cr(b)],
{
    let rest = b + seq!['\n'];
    assert(a + seq!['\n'] + b + seq!['\n'] =~= a + seq!['\n'] + rest);
    lemma_lines_step(a, '\n', rest);
    lemma_lines_step(b, '\n', Seq::<char>::empty());
    assert(b + seq!['\n'] + Seq::<char>::empty() =~= rest);
    assert(lines(Seq::<char>::empty()) =~= Seq::<Seq<char>>::empty());
    assert(seq![strip_cr(a)] + (seq![strip_cr(b)] + Seq::<Seq<char>>::empty()) =~= seq![strip_cr(a), strip_cr(b)]);
}

/// Executable `strip_cr`.
pub fn strip_cr_vec(v: Vec<char>) -> (r: Vec<char>)
    ensures
        r@ == strip_cr(v@),
{
    let mut v = v;
    let ghost v0 = v@;
    let n = v.len();
    if n > 0 && v[n - 1] == '\r' {
        v.pop();
        assert(v@ =~= v0.drop_last());
    }
    v
}

/// The lines of `s`.
pub fn split_lines(s: &Vec<char>) -> (ls: Vec<Vec<char>>)
    ensures
        ls@.map_values(|w: Vec<char>| w@) == lines(s@),
{
    let mut done: Vec<Vec<char>> = Vec::new();
    let mut cur: Vec<char> = Vec::new();
    let mut i: usize = 0;
    assert(cur@ + s@.skip(0) =~= s@);
    assert(done@.map_values(|w: Vec<char>| w@) + lines(s@) =~= lines(s@));
    while i < s.len()
        invariant
            i <= s@.len(),
            forall|j: int| 0 <= j < cur@.len() ==> #[trigger] cur@[j] != '\n',
            lines(s@) == done@.map_values(|w: Vec<char>| w@) + lines(cur@ + s@.skip(i as int)),
        decreases s@.len() - i,
    {
        let c = s[i];
        let ghost rest = s@.skip(i + 1);
        assert(s@.skip(i as int) =~= seq![c] + rest);
        assert(cur@ + s@.skip(i as int) =~= cur@ + seq![c] + rest);
        proof {
            lemma_lines_step(cur@, c, rest);
        }
        if c == '\n' {
            let ghost old_done = done@.map_values(|w: Vec<char>| w@);
            let ghost cv = cur@;
            let line = strip_cr_vec(cur);
            done.push(line);
            cur = Vec::new();
            assert(done@.map_values(|w: Vec<char>| w@) =~= old_done.push(strip_cr(cv)));
            assert(cur@ + rest =~= rest);
            assert(old_done + (seq![strip_cr(cv)] + lines(rest)) =~= old_done.push(strip_cr(cv)) + lines(rest));
        } else {
            assert(cur@ + seq![c] + rest =~= cur@.push(c) + rest);
            cur.push(c);
        }
        i = i + 1;
    }
    assert(s@.skip(i as int) =~= Seq::<char>::empty());
    assert(cur@ + Seq::<char>::empty() =~= cur@);
    proof {
        lemma_lines_of_line(cur@);
    }
    if cur.len() > 0 {
        let ghost old_done = done@.map_values(|w: Vec<char>| w@);
        let ghost cv = cur@;
        done.push(cur);
        assert(done@.map_values(|w: Vec<char>| w@) =~= old_done + seq![cv]);
    } else {
        assert(done@.map_values(|w: Vec<char>| w@) + Seq::<Seq<char>>::empty() =~= done@.map_values(|w: Vec<char>| w@));
    }
    done
}

// ---------------------------------------------------------------------------
// Trimming, searching
// ---------------------------------------------------------------------------

/// Number of leading whitespace characters.
pub open spec fn lead_ws(s: Seq<char>) -> nat
    decreases s.len(),
{
    if s.len() > 0 && is_ws(s[0]) {
        1 + lead_ws(s.skip(1))
    } else {
        0
    }
}

/// Number of trailing whitespace characters.
pub open spec fn trail_ws(s: Seq<char>) -> nat
    decreases s.len(),
{
    if s.len() > 0 && is_ws(s.last()) {
        1 + trail_ws(s.drop_last())
    } else {
        0
    }
}

pub proof fn lemma_lead_ws_bound(s: Seq<char>)
    ensures
        lead_ws(s) <= s.len(),
    decreases s.len(),
{
    if s.len() > 0 && is_ws(s[0]) {
        lemma_lead_ws_bound(s.skip(1));
    }
}

pub proof fn lemma_trail_ws_bound(s: Seq<char>)
    ensures
        trail_ws(s) <= s.len(),
    decreases s.len(),
{
    if s.len() > 0 && is_ws(s.last()) {
        lemma_trail_ws_bound(s.drop_last());
    }
}

/// `s` without trailing whitespace (`str::trim_end`).
pub open spec fn trim_end(s: Seq<char>) -> Seq<char> {
    s.take(s.len() - trail_ws(s))
}

/// `s` without leading whitespace (`str::trim_start`).
pub open spec fn trim_start(s: Seq<char>) -> Seq<char> {
    s.skip(lead_ws(s) as int)
}

/// `s` without leading and trailing whitespace (`str::trim`).
pub open spec fn trim(s: Seq<char>) -> Seq<char> {
    trim_end(trim_start(s))
}

/// Executable `trim`.
pub fn trim_vec(s: &Vec<char>) -> (r: Vec<char>)
    ensures
        r@ == trim(s@),
{
    let mut a: usize = 0;
    assert(s@.skip(0) =~= s@);
    while a < s.len() && is_whitespace(s[a])
        invariant
            a <= s@.len(),
            lead_ws(s@) == a + lead_ws(s@.skip(a as int)),
        decreases s@.len() - a,
    {
        assert(s@.skip(a as int).skip(1) =~= s@.skip(a + 1));
        a = a + 1;
    }
    assert(lead_ws(s@.skip(a as int)) == 0);
    let ghost t = s@.skip(a as int);
    let mut k = s.len();
    proof {
        lemma_trail_ws_bound(t);
    }
    while k > a && is_whitespace(s[k - 1])
        invariant
            a <= k <= s@.len(),
            t == s@.skip(a as int),
            trail_ws(t) == (s@.len() - k) + trail_ws(s@.subrange(a as int, k as int)),
        decreases k,
    {
        assert(s@.subrange(a as int, k as int).drop_last() =~= s@.subrange(a as int, k - 1));
        k = k - 1;
    }
    assert(s@.subrange(a as int, s@.len() as int) =~= t);
    let mut r: Vec<char> = Vec::new();
    let mut i = a;
    while i < k
        invariant
            a <= i <= k <= s@.len(),
            r@ == s@.subrange(a as int, i as int),
        decreases k - i,
    {
        r.push(s[i]);
        i = i + 1;
        assert(r@ =~= s@.subrange(a as int, i as int));
    }
    assert(trim(s@) =~= s@.subrange(a as int, k as int));
    r
}

/// `s` holds `p` as a contiguous part.
pub open spec fn contains_seq(s: Seq<char>, p: Seq<char>) -> bool {
    exists|i: int| 0 <= i && i + p.len() <= s.len() && #[trigger] s.subrange(i, i + p.len()) == p
}

/// `s` starts with `p`.
pub open spec fn starts_with(s: Seq<char>, p: Seq<char>) -> bool {
    p.len() <= s.len() && s.take(p.len() as int) == p
}

/// Whether `s[at..]` starts with `p`.
pub fn matches_at(s: &Vec<char>, at: usize, p: &Vec<char>) -> (b: bool)
    requires
        at <= s@.len(),
    ensures
        b == (at + p@.len() <= s@.len() && s@.subrange(at as int, at + p@.len()) == p@),
{
    let sl = s.len();
    if p.len() > sl - at {
        return false;
    }
    let mut j: usize = 0;
    while j < p.len()
        invariant
            sl == s@.len(),
            j <= p@.len(),
            at <= s@.len(),
            at + p@.len() <= s@.len(),
            forall|k: int| 0 <= k < j ==> s@[at + k] == #[trigger] p@[k],
        decreases p@.len() - j,
    {
        assert(at + j < s@.len());
        if s[at + j] != p[j] {
            assert(s@.subrange(at as int, at + p@.len())[j as int] != p@[j as int]);
            return false;
        }
        j = j + 1;
    }
    assert(s@.subrange(at as int, at + p@.len()) =~= p@);
    true
}

/// Executable `starts_with`.
pub fn starts_with_vec(s: &Vec<char>, p: &Vec<char>) -> (b: bool)
    ensures
        b == starts_with(s@, p@),
{
    let b = matches_at(s, 0, p);
    assert(b ==> s@.subrange(0, p@.len() as int) =~= s@.take(p@.len() as int));
    assert(starts_with(s@, p@) ==> s@.subrange(0, p@.len() as int) =~= s@.take(p@.len() as int));
    b
}

/// Executable `contains_seq`.
pub fn contains_vec(s: &Vec<char>, p: &Vec<char>) -> (b: bool)
    ensures
        b == contains_seq(s@, p@),
{
    if p.len() > s.len() {
        return false;
    }
    let mut i: usize = 0;
    let last = s.len() - p.len();
    loop
        invariant
            p@.len() <= s@.len(),
            last == s@.len() - p@.len(),
            i <= last,
            forall|k: int| 0 <= k < i ==> #[trigger] s@.subrange(k, k + p@.len()) != p@,
        ensures
            forall|k: int| 0 <= k <= last ==> #[trigger] s@.subrange(k, k + p@.len()) != p@,
        decreases last - i,
    {
        if matches_at(s, i, p) {
            return true;
        }
        if i == last {
            break;
        }
        i = i + 1;
    }
    assert forall|k: int| 0 <= k && k + p@.len() <= s@.len() implies #[trigger] s@.subrange(k, k + p@.len()) != p@ by {}
    false
}

// ---------------------------------------------------------------------------
// Integers
// ---------------------------------------------------------------------------

/// An ASCII decimal digit.
pub open spec fn is_digit(c: char) -> bool {
    '0' <= c && c <= '9'
}

/// The value of a run of decimal digits.
pub open spec fn digits_value(d: Seq<char>) -> nat
    decreases d.len(),
{
    if d.len() == 0 {
        0
    } else {
        digits_value(d.drop_last()) * 10 + ((d.last() as nat) - 48) as nat
    }
}

/// One or more ASCII digits whose value is at most `max`.
pub open spec fn parse_digits(d: Seq<char>, max: nat) -> Option<nat> {
    if d.len() == 0 || !(forall|i: int| 0 <= i < d.len() ==> is_digit(#[trigger] d[i])) || digits_value(d) > max {
        None
    } else {
        Some(digits_value(d))
    }
}

/// `s` as `str::parse` reads an unsigned integer whose largest value is
/// `max`: an optional `+`, then one or more ASCII digits, the value at most `max`.
pub open spec fn parse_unsigned(s: Seq<char>, max: nat) -> Option<nat> {
    if s.len() > 0 && s[0] == '+' {
        parse_digits(s.skip(1), max)
    } else {
        parse_digits(s, max)
    }
}

/// A digit's character is its value plus the code of `0`.
pub proof fn lemma_digit_char(d: nat)
    requires
        d < 10,
    ensures
        digit_char(d) as int == d + 48,
{
    let b: u8 = (d + 48) as u8;
    assert(b as int == d + 48);
    assert((b as char) as int == b as int);
}

/// A number's decimal rendering is a nonempty run of digits that reads back
/// as the number.
pub proof fn lemma_dec_digits(n: nat)
    ensures
        dec(n).len() > 0,
        forall|i: int| 0 <= i < dec(n).len() ==> is_digit(#[trigger] dec(n)[i]),
        digits_value(dec(n)) == n,
    decreases n,
{
    if n >= 10 {
        lemma_dec_digits(n / 10);
        let d = dec(n / 10);
        let c = digit_char(n % 10);
        lemma_digit_char(n % 10);
        assert(dec(n) == d.push(c));
        assert(d.push(c).drop_last() =~= d);
        assert(digits_value(dec(n)) == digits_value(d) * 10 + ((c as nat) - 48) as nat);
        assert((n / 10) * 10 + n % 10 == n) by (nonlinear_arith);
        assert forall|i: int| 0 <= i < dec(n).len() implies is_digit(#[trigger] dec(n)[i]) by {
            if i < d.len() {
                assert(dec(n)[i] == d[i]);
            }
        }
    } else {
        let c = digit_char(n);
        lemma_digit_char(n);
        assert(dec(n) == seq![c]);
        assert(seq![c].drop_last() =~= Seq::<char>::empty());
        assert(digits_value(dec(n)) == digits_value(Seq::<char>::empty()) * 10 + ((c as nat) - 48) as nat);
    }
}

proof fn lemma_digits_value_mono(d: Seq<char>, k: int)
    requires
        0 <= k <= d.len(),
        forall|i: int| 0 <= i < d.len() ==> is_digit(#[trigger] d[i]),
    ensures
        digits_value(d.take(k)) <= digits_value(d),
    decreases d.len() - k,
{
    if k < d.len() {
        lemma_digits_value_mono(d, k + 1);
        assert(d.take(k + 1).drop_last() =~= d.take(k));
        assert(d.take(k + 1).last() == d[k]);
    } else {
        assert(d.take(k) =~= d);
    }
}

/// Value of `d[from..]` read as digits, or `None` when some character is not
/// a digit, the digits are missing, or the value exceeds `max`.
pub(crate) fn digits_upto(d: &Vec<char>, from: usize, max: u64) -> (r: Option<u64>)
    requires
        from <= d@.len(),
    ensures
        r == match parse_digits(d@.skip(from as int), max as nat) {
            Some(v) => Some(v as u64),
            None => None,
        },
{
    let ghost t = d@.skip(from as int);
    if from == d.len() {
        return None;
    }
    let mut i = from;
    let mut value: u64 = 0;
    let mut over = false;
    while i < d.len()
        invariant
            from <= i <= d@.len(),
            t == d@.skip(from as int),
            forall|k: int| 0 <= k < i - from ==> is_digit(#[trigger] t[k]),
            !over ==> value == digits_value(t.take(i - from)) && value <= max,
            over ==> digits_value(t.take(i - from)) > max,
        decreases d@.len() - i,
    {
        let c = d[i];
        if !('0' <= c && c <= '9') {
            assert(!is_digit(t[i - from]));
            return None;
        }
        let dv: u64 = (c as u32 - 48) as u64;
        proof {
            assert(t.take(i - from + 1).drop_last() =~= t.take(i - from));
            assert(t.take(i - from + 1).last() == c);
        }
        if !over {
            let nv: u128 = value as u128 * 10 + dv as u128;
            if nv > max as u128 {
                over = true;
            } else {
                value = nv as u64;
            }
        } else {
            assert(digits_value(t.take(i - from + 1)) >= digits_value(t.take(i - from)));
        }
        i = i + 1;
    }
    assert(t.take(i - from) =~= t);
    if over {
        None
    } else {
        Some(value)
    }
}

/// Executable `parse_unsigned`.
pub fn parse_unsigned_vec(s: &Vec<char>, max: u64) -> (r: Option<u64>)
    ensures
        r == match parse_unsigned(s@, max as nat) {
            Some(v) => Some(v as u64),
            None => None,
        },
{
    if s.len() > 0 && s[0] == '+' {
        digits_upto(s, 1, max)
    } else {
        let r = digits_upto(s, 0, max);
        assert(s@.skip(0) =~= s@);
        r
    }
}

} // verus!

verus! {

/// Whether the characters of `v` are exactly those of `lit`.
pub fn eq_str(v: &Vec<char>, lit: &str) -> (b: bool)
    ensures
        b == (v@ == lit@),
{
    let w = chars_of(lit);
    if v.len() != w.len() {
        return false;
    }
    let mut i: usize = 0;
    while i < v.len()
        invariant
            i <= v@.len(),
            v@.len() == w@.len(),
            w@ == lit@,
            forall|k: int| 0 <= k < i ==> v@[k] == #[trigger] w@[k],
        decreases v@.len() - i,
    {
        if v[i] != w[i] {
            return false;
        }
        i = i + 1;
    }
    assert(v@ =~= w@);
    true
}

/// A string holding the characters of `lit`.
pub fn string_from(lit: &str) -> (s: String)
    ensures
        s@ == lit@,
{
    String::from_str(lit)
}

} // verus!

verus! {

// ---------------------------------------------------------------------------
// Lists of strings (command lines)
// ---------------------------------------------------------------------------

/// The characters of each string.
pub open spec fn strs(v: Seq<String>) -> Seq<Seq<char>> {
    v.map_values(|s: String| s@)
}

/// `flag` when `cond` holds, else nothing.
pub open spec fn flag_if(cond: bool, flag: Seq<char>) -> Seq<Seq<char>> {
    if cond {
        seq![flag]
    } else {
        seq![]
    }
}

/// `flag` and the value, when there is a value.
pub open spec fn opt_pair(flag: Seq<char>, v: Option<String>) -> Seq<Seq<char>> {
    match v {
        Some(s) => seq![flag, s@],
        None => seq![],
    }
}

/// `s`, or `default` when there is none.
pub open spec fn or_default(s: Option<String>, default: Seq<char>) -> Seq<char> {
    match s {
        Some(v) => v@,
        None => default,
    }
}

/// Appends a string holding `lit`.
pub fn push_lit(args: &mut Vec<String>, lit: &str)
    ensures
        strs(final(args)@) == strs(old(args)@).push(lit@),
{
    let ghost a0 = args@;
    args.push(string_from(lit));
    assert(strs(args@) =~= strs(a0).push(lit@));
}

/// Appends a copy of `s`.
pub fn push_str(args: &mut Vec<String>, s: &String)
    ensures
        strs(final(args)@) == strs(old(args)@).push(s@),
{
    let ghost a0 = args@;
    args.push(s.clone());
    assert(strs(args@) =~= strs(a0).push(s@));
}

/// Appends `flag` when `cond` holds.
pub fn push_flag_if(args: &mut Vec<String>, cond: bool, flag: &str)
    ensures
        strs(final(args)@) == strs(old(args)@) + flag_if(cond, flag@),
{
    if cond {
        push_lit(args, flag);
        assert(strs(old(args)@).push(flag@) =~= strs(old(args)@) + flag_if(cond, flag@));
    } else {
        assert(strs(args@) =~= strs(args@) + flag_if(cond, flag@));
    }
}

/// Appends `flag` and the value, when there is a value.
pub fn push_opt_pair(args: &mut Vec<String>, flag: &str, v: &Option<String>)
    ensures
        strs(final(args)@) == strs(old(args)@) + opt_pair(flag@, *v),
{
    let ghost a0 = strs(args@);
    match v {
        Some(s) => {
            push_lit(args, flag);
            push_str(args, s);
            assert(a0.push(flag@).push(s@) =~= a0 + opt_pair(flag@, *v));
        },
        None => {
            assert(a0 =~= a0 + opt_pair(flag@, *v));
        },
    }
}

/// A copy of `s`, or a string holding `default` when there is none.
pub fn string_or(s: &Option<String>, default: &str) -> (r: String)
    ensures
        r@ == or_default(*s, default@),
{
    match s {
        Some(v) => v.clone(),
        None => string_from(default),
    }
}

/// A copy of an optional string.
pub fn copy_opt(s: &Option<String>) -> (r: Option<String>)
    ensures
        r == *s,
{
    match s {
        Some(v) => Some(v.clone()),
        None => None,
    }
}

// ---------------------------------------------------------------------------
// Listings
// ---------------------------------------------------------------------------

/// The words of each line of `ls` that has at least `n` of them.
pub open spec fn rows_with(ls: Seq<Seq<char>>, n: nat) -> Seq<Seq<Seq<char>>>
    decreases ls.len(),
{
    if ls.len() == 0 {
        seq![]
    } else {
        let r = rows_with(ls.drop_last(), n);
        let w = words(ls.last());
        if w.len() >= n {
            r.push(w)
        } else {
            r
        }
    }
}

/// The words of the lines of `stdout` that have at least `n` words.
pub fn listing_rows(stdout: &str, n: usize) -> (rows: Vec<Vec<Vec<char>>>)
    ensures
        rows@.len() == rows_with(lines(stdout@), n as nat).len(),
        forall|i: int| 0 <= i < rows@.len() ==> (#[trigger] rows@[i])@.map_values(|w: Vec<char>| w@) == rows_with(lines(stdout@), n as nat)[i],
        forall|i: int| 0 <= i < rows@.len() ==> (#[trigger] rows@[i])@.len() >= n,
{
    let text = chars_of(stdout);
    let ls = split_lines(&text);
    let ghost lv = ls@.map_values(|w: Vec<char>| w@);
    let mut rows: Vec<Vec<Vec<char>>> = Vec::new();
    let mut i: usize = 0;
    while i < ls.len()
        invariant
            i <= ls@.len(),
            lv == ls@.map_values(|w: Vec<char>| w@),
            lv == lines(stdout@),
            rows@.len() == rows_with(lv.take(i as int), n as nat).len(),
            forall|j: int| 0 <= j < rows@.len() ==> (#[trigger] rows@[j])@.map_values(|w: Vec<char>| w@) == rows_with(lv.take(i as int), n as nat)[j],
            forall|j: int| 0 <= j < rows@.len() ==> (#[trigger] rows@[j])@.len() >= n,
        decreases ls@.len() - i,
    {
        let f = split_words(&ls[i]);
        let ghost prev = rows_with(lv.take(i as int), n as nat);
        assert(lv.take(i + 1).drop_last() =~= lv.take(i as int));
        assert(lv.take(i + 1).last() == ls@[i as int]@);
        if f.len() >= n {
            let ghost r0 = rows@;
            rows.push(f);
            assert forall|j: int| 0 <= j < rows@.len() implies (#[trigger] rows@[j])@.map_values(|w: Vec<char>| w@) == rows_with(lv.take(i + 1), n as nat)[j] by {
                if j < rows@.len() - 1 {
                    assert(rows@[j] == r0[j]);
                }
            }
        }
        i = i + 1;
    }
    assert(lv.take(i as int) =~= lv);
    rows
}

} // verus!

verus! {

// ---------------------------------------------------------------------------
// Signed numbers, joining lines
// ---------------------------------------------------------------------------

/// `s` as `str::parse` reads a signed integer in `-max_neg ..= max_pos`: an
/// optional sign, then one or more ASCII digits.
pub open spec fn parse_signed(s: Seq<char>, max_pos: nat, max_neg: nat) -> Option<int> {
    if s.len() > 0 && s[0] == '-' {
        match parse_digits(s.skip(1), max_neg) {
            Some(v) => Some(-v),
            None => None,
        }
    } else {
        match parse_unsigned(s, max_pos) {
            Some(v) => Some(v as int),
            None => None,
        }
    }
}

/// `s` read as an `i32`.
pub fn parse_i32_vec(s: &Vec<char>) -> (r: Option<i32>)
    ensures
        r == match parse_signed(s@, 2147483647, 2147483648) {
            Some(v) => Some(v as i32),
            None => None,
        },
{
    if s.len() > 0 && s[0] == '-' {
        match digits_upto(s, 1, 2147483648) {
            Some(v) => {
                let n: i64 = 0 - (v as i64);
                Some(n as i32)
            },
            None => None,
        }
    } else {
        match parse_unsigned_vec(s, 2147483647) {
            Some(v) => Some(v as i32),
            None => None,
        }
    }
}

/// The lines joined with `\n` between them.
pub open spec fn join_lines(ls: Seq<Seq<char>>) -> Seq<char>
    decreases ls.len(),
{
    if ls.len() == 0 {
        seq![]
    } else if ls.len() == 1 {
        ls[0]
    } else {
        join_lines(ls.drop_last()) + seq!['\n'] + ls.last()
    }
}

/// The lines of `ls` from `from` on, joined with `\n` between them.
pub fn join_from(ls: &Vec<Vec<char>>, from: usize) -> (r: String)
    requires
        from <= ls@.len(),
    ensures
        r@ == join_lines(ls@.map_values(|w: Vec<char>| w@).skip(from as int)),
{
    let ghost lv = ls@.map_values(|w: Vec<char>| w@);
    let mut r = String::new();
    let mut i: usize = from;
    assert(lv.skip(from as int).take(0) =~= Seq::<Seq<char>>::empty());
    while i < ls.len()
        invariant
            from <= i <= ls@.len(),
            lv == ls@.map_values(|w: Vec<char>| w@),
            r@ == join_lines(lv.skip(from as int).take(i - from)),
        decreases ls@.len() - i,
    {
        let ghost done = lv.skip(from as int).take(i - from);
        let ghost next = lv.skip(from as int).take(i + 1 - from);
        assert(next.drop_last() =~= done);
        assert(next.last() == ls@[i as int]@);
        if i > from {
            push_char(&mut r, '\n');
        }
        push_chars(&mut r, &ls[i]);
        proof {
            if i == from {
                assert(next.len() == 1);
                assert(r@ =~= next[0]);
            } else {
                assert(r@ =~= join_lines(done) + seq!['\n'] + next.last());
            }
        }
        i = i + 1;
    }
    assert(lv.skip(from as int).take(i - from) =~= lv.skip(from as int));
    r
}

} // verus!
