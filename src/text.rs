//! Character-level helpers on strings: whitespace trimming, slicing by
//! character positions, and decimal rendering.

use vstd::prelude::*;
use vstd::string::StringExecFns;
use vstd::utf8::{encode_utf8, is_char_boundary};

verus! {

/// Unicode `White_Space`, the property that `char::is_whitespace` and
/// `str::trim` go by.
pub open spec fn is_white(c: char) -> bool {
    ||| c == ' '
    ||| '\t' <= c <= '\r'
    ||| c == '\u{85}'
    ||| c == '\u{a0}'
    ||| c == '\u{1680}'
    ||| '\u{2000}' <= c <= '\u{200a}'
    ||| c == '\u{2028}'
    ||| c == '\u{2029}'
    ||| c == '\u{202f}'
    ||| c == '\u{205f}'
    ||| c == '\u{3000}'
}

pub fn is_white_char(c: char) -> (r: bool)
    ensures
        r == is_white(c),
{
    c == ' ' || ('\t' <= c && c <= '\r') || c == '\u{85}' || c == '\u{a0}' || c == '\u{1680}' || (
    '\u{2000}' <= c && c <= '\u{200a}') || c == '\u{2028}' || c == '\u{2029}' || c == '\u{202f}'
        || c == '\u{205f}' || c == '\u{3000}'
}

/// `s` without its leading whitespace.
pub open spec fn trim_front(s: Seq<char>) -> Seq<char>
    decreases s.len(),
{
    if s.len() > 0 && is_white(s[0]) {
        trim_front(s.drop_first())
    } else {
        s
    }
}

/// `s` without its trailing whitespace.
pub open spec fn trim_back(s: Seq<char>) -> Seq<char>
    decreases s.len(),
{
    if s.len() > 0 && is_white(s.last()) {
        trim_back(s.drop_last())
    } else {
        s
    }
}

/// `s` without leading and trailing whitespace, as `str::trim` gives it.
pub open spec fn trimmed(s: Seq<char>) -> Seq<char> {
    trim_back(trim_front(s))
}

/// Whether `s` begins with `p`.
pub open spec fn has_prefix(s: Seq<char>, p: Seq<char>) -> bool {
    p.len() <= s.len() && s.take(p.len() as int) == p
}

/// Whether `s` ends with `p`.
pub open spec fn has_suffix(s: Seq<char>, p: Seq<char>) -> bool {
    p.len() <= s.len() && s.skip(s.len() - p.len()) == p
}

/// Relies on `str::chars`, collected: the characters of `s`, one element each.
#[verifier::external_body]
pub(crate) fn chars_of(s: &str) -> (r: Vec<char>)
    ensures
        r@ == s@,
{
    s.chars().collect()
}

/// Relies on `String::push`: appends one character.
#[verifier::external_body]
pub(crate) fn push_char(s: &mut String, c: char)
    ensures
        final(s)@ == old(s)@.push(c),
{
    s.push(c)
}

/// Appends `t` to `s`.
pub fn push_str(s: &mut String, t: &str)
    ensures
        final(s)@ == old(s)@ + t@,
{
    s.append(t);
}

/// The string made of `cs[from..to]`.
pub fn string_of(cs: &Vec<char>, from: usize, to: usize) -> (r: String)
    requires
        from <= to <= cs@.len(),
    ensures
        r@ == cs@.subrange(from as int, to as int),
{
    let mut out = String::new();
    let mut i = from;
    while i < to
        invariant
            from <= i <= to <= cs@.len(),
            out@ == cs@.subrange(from as int, i as int),
        decreases to - i,
    {
        push_char(&mut out, cs[i]);
        i = i + 1;
        assert(out@ =~= cs@.subrange(from as int, i as int));
    }
    out
}

proof fn lemma_trim_front_at(s: Seq<char>, a: int)
    requires
        0 <= a <= s.len(),
        forall|i: int| 0 <= i < a ==> is_white(#[trigger] s[i]),
        a == s.len() || !is_white(s[a]),
    ensures
        trim_front(s) == s.subrange(a, s.len() as int),
    decreases a,
{
    if a == 0 {
        assert(s.subrange(0, s.len() as int) =~= s);
    } else {
        assert forall|i: int| 0 <= i < a - 1 implies is_white(#[trigger] s.drop_first()[i]) by {
            assert(s.drop_first()[i] == s[i + 1]);
        }
        lemma_trim_front_at(s.drop_first(), a - 1);
        assert(s.drop_first().subrange(a - 1, s.len() - 1) =~= s.subrange(a, s.len() as int));
    }
}

proof fn lemma_trim_back_at(s: Seq<char>, b: int)
    requires
        0 <= b <= s.len(),
        forall|i: int| b <= i < s.len() ==> is_white(#[trigger] s[i]),
        b == 0 || !is_white(s[b - 1]),
    ensures
        trim_back(s) == s.subrange(0, b),
    decreases s.len() - b,
{
    if b == s.len() {
        assert(s.subrange(0, b) =~= s);
    } else {
        assert forall|i: int| b <= i < s.len() - 1 implies is_white(#[trigger] s.drop_last()[i]) by {
            assert(s.drop_last()[i] == s[i]);
        }
        lemma_trim_back_at(s.drop_last(), b);
        assert(s.drop_last().subrange(0, b) =~= s.subrange(0, b));
    }
}

/// The bounds `(a, b)` of `trimmed(cs[from..to])` within `cs`.
pub fn trim_bounds(cs: &Vec<char>, from: usize, to: usize) -> (r: (usize, usize))
    requires
        from <= to <= cs@.len(),
    ensures
        from <= r.0 <= r.1 <= to,
        cs@.subrange(r.0 as int, r.1 as int) == trimmed(cs@.subrange(from as int, to as int)),
{
    let ghost s = cs@.subrange(from as int, to as int);
    let mut a = from;
    while a < to && is_white_char(cs[a])
        invariant
            from <= a <= to <= cs@.len(),
            forall|i: int| from <= i < a ==> is_white(#[trigger] cs@[i]),
        decreases to - a,
    {
        a = a + 1;
    }
    proof {
        assert forall|i: int| 0 <= i < a - from implies is_white(#[trigger] s[i]) by {
            assert(s[i] == cs@[from + i]);
        }
        lemma_trim_front_at(s, a - from);
    }
    let mut b = to;
    while b > a && is_white_char(cs[b - 1])
        invariant
            from <= a <= b <= to <= cs@.len(),
            forall|i: int| b <= i < to ==> is_white(#[trigger] cs@[i]),
        decreases b - a,
    {
        b = b - 1;
    }
    proof {
        let f = s.subrange(a - from, s.len() as int);
        assert(f =~= cs@.subrange(a as int, to as int));
        assert forall|i: int| b - a <= i < f.len() implies is_white(#[trigger] f[i]) by {
            assert(f[i] == cs@[a + i]);
        }
        lemma_trim_back_at(f, b - a);
        assert(f.subrange(0, b - a) =~= cs@.subrange(a as int, b as int));
    }
    (a, b)
}

/// `s` without leading and trailing whitespace.
pub fn trim(s: &str) -> (r: String)
    ensures
        r@ == trimmed(s@),
{
    let cs = chars_of(s);
    let (a, b) = trim_bounds(&cs, 0, cs.len());
    assert(cs@.subrange(0, cs@.len() as int) =~= cs@);
    string_of(&cs, a, b)
}

/// Whether `cs[at..]` begins with the characters `p`.
pub fn chars_match_at(cs: &Vec<char>, at: usize, p: &Vec<char>) -> (r: bool)
    requires
        at <= cs@.len(),
    ensures
        r == has_prefix(cs@.skip(at as int), p@),
{
    if p.len() > cs.len() - at {
        return false;
    }
    let mut i: usize = 0;
    while i < p.len()
        invariant
            at + p@.len() <= cs@.len() <= usize::MAX,
            i <= p@.len(),
            forall|k: int| 0 <= k < i ==> cs@[at + k] == p@[k],
        decreases p@.len() - i,
    {
        if cs[at + i] != p[i] {
            assert(cs@.skip(at as int).take(p@.len() as int)[i as int] != p@[i as int]);
            return false;
        }
        i = i + 1;
    }
    assert(cs@.skip(at as int).take(p@.len() as int) =~= p@);
    true
}

/// Whether `s` begins with `p`.
pub fn starts_with(s: &str, p: &str) -> (r: bool)
    ensures
        r == has_prefix(s@, p@),
{
    let cs = chars_of(s);
    let ps = chars_of(p);
    assert(cs@.skip(0) =~= cs@);
    chars_match_at(&cs, 0, &ps)
}

/// Whether `s` ends with `p`.
pub fn ends_with(s: &str, p: &str) -> (r: bool)
    ensures
        r == has_suffix(s@, p@),
{
    let cs = chars_of(s);
    let ps = chars_of(p);
    if ps.len() > cs.len() {
        return false;
    }
    let r = chars_match_at(&cs, cs.len() - ps.len(), &ps);
    assert(cs@.skip(cs@.len() - ps@.len()).take(ps@.len() as int) =~= cs@.skip(
        cs@.len() - ps@.len(),
    ));
    r
}

/// The decimal digits of `n`, most significant first.
pub open spec fn decimal(n: nat) -> Seq<char>
    decreases n,
{
    if n < 10 {
        seq![digit_char(n)]
    } else {
        decimal(n / 10).push(digit_char(n % 10))
    }
}

pub open spec fn digit_char(d: nat) -> char {
    ((d % 10) + ('0' as nat)) as char
}

/// Appends the decimal digits of `n` to `out`.
pub fn push_decimal(out: &mut String, n: u64)
    ensures
        final(out)@ == old(out)@ + decimal(n as nat),
    decreases n,
{
    if n >= 10 {
        push_decimal(out, n / 10);
    }
    let d = (n % 10) as u8;
    let c = (d + 48) as char;
    assert(c == digit_char(n as nat)) by {
        assert(d as nat == (n as nat) % 10);
    }
    push_char(out, c);
    if n >= 10 {
        assert(old(out)@ + decimal(n as nat) =~= old(out)@ + decimal((n / 10) as nat) + seq![c]);
    } else {
        assert(old(out)@ + decimal(n as nat) =~= old(out)@ + seq![c]);
    }
}

/// The first position at or after `i` where `sep` occurs in `s`, or `s.len()`.
pub open spec fn next_occurrence(s: Seq<char>, sep: Seq<char>, i: int) -> int
    decreases s.len() - i,
{
    if i < 0 || i + sep.len() > s.len() {
        s.len() as int
    } else if sep.len() == 0 || has_prefix(s.skip(i), sep) {
        i
    } else {
        next_occurrence(s, sep, i + 1)
    }
}

/// The pieces of `s[i..]` between occurrences of `sep`, as `str::split` gives
/// them.
pub open spec fn split_from(s: Seq<char>, sep: Seq<char>, i: int) -> Seq<Seq<char>>
    decreases s.len() + 1 - i,
{
    if sep.len() == 0 || i < 0 || i > s.len() {
        Seq::empty()
    } else {
        let j = next_occurrence(s, sep, i);
        if j < i || j + sep.len() > s.len() {
            seq![s.subrange(i, s.len() as int)]
        } else {
            seq![s.subrange(i, j)] + split_from(s, sep, j + sep.len())
        }
    }
}

/// The pieces of `s` between occurrences of the non-empty `sep`.
pub open spec fn split_all(s: Seq<char>, sep: Seq<char>) -> Seq<Seq<char>> {
    split_from(s, sep, 0)
}

pub open spec fn views(v: Seq<String>) -> Seq<Seq<char>> {
    v.map_values(|x: String| x@)
}

proof fn lemma_next_occurrence_bounds(s: Seq<char>, sep: Seq<char>, i: int)
    requires
        0 <= i <= s.len(),
    ensures
        i <= next_occurrence(s, sep, i) <= s.len(),
        next_occurrence(s, sep, i) < s.len() ==> next_occurrence(s, sep, i) + sep.len() <= s.len(),
    decreases s.len() - i,
{
    if i + sep.len() <= s.len() && sep.len() > 0 && !has_prefix(s.skip(i), sep) {
        lemma_next_occurrence_bounds(s, sep, i + 1);
    }
}

/// The first position at or after `from` where `sep` occurs in `cs`, or
/// `cs.len()`.
pub fn find_from(cs: &Vec<char>, sep: &Vec<char>, from: usize) -> (r: usize)
    requires
        from <= cs@.len(),
    ensures
        r == next_occurrence(cs@, sep@, from as int),
        from <= r <= cs@.len(),
        r < cs@.len() ==> r + sep@.len() <= cs@.len(),
{
    proof {
        lemma_next_occurrence_bounds(cs@, sep@, from as int);
    }
    if sep.len() == 0 {
        return from;
    }
    let mut i = from;
    while i < cs.len()
        invariant
            from <= i <= cs@.len(),
            next_occurrence(cs@, sep@, i as int) == next_occurrence(cs@, sep@, from as int),
            sep@.len() > 0,
        decreases cs@.len() - i,
    {
        if sep.len() > cs.len() - i {
            return cs.len();
        }
        if chars_match_at(cs, i, sep) {
            return i;
        }
        assert(next_occurrence(cs@, sep@, i as int) == next_occurrence(cs@, sep@, i + 1));
        i = i + 1;
    }
    assert(next_occurrence(cs@, sep@, i as int) == cs@.len());
    i
}

/// The pieces of `s` between occurrences of `sep`.
pub fn split_text(s: &str, sep: &str) -> (r: Vec<String>)
    requires
        sep@.len() > 0,
    ensures
        views(r@) == split_all(s@, sep@),
{
    let cs = chars_of(s);
    let ps = chars_of(sep);
    let mut out: Vec<String> = Vec::new();
    let mut i: usize = 0;
    let mut done = false;
    while !done
        invariant
            i <= cs@.len(),
            ps@ == sep@,
            ps@.len() > 0,
            cs@ == s@,
            !done ==> views(out@) + split_from(cs@, ps@, i as int) == split_all(cs@, ps@),
            done ==> views(out@) == split_all(cs@, ps@),
        decreases cs@.len() + 1 - i, if done {
            0int
        } else {
            1int
        },
    {
        let j = find_from(&cs, &ps, i);
        let piece = string_of(&cs, i, j);
        let ghost before = views(out@);
        out.push(piece);
        assert(views(out@) == before.push(piece@));
        if j >= cs.len() {
            assert(split_from(cs@, ps@, i as int) == seq![cs@.subrange(i as int, cs@.len() as int)]);
            assert(before.push(piece@) == before + seq![piece@]);
            done = true;
        } else {
            assert(split_from(cs@, ps@, i as int) == seq![cs@.subrange(i as int, j as int)]
                + split_from(cs@, ps@, j + ps@.len()));
            assert(before + split_from(cs@, ps@, i as int) == before.push(piece@) + split_from(
                cs@,
                ps@,
                j + ps@.len(),
            ));
            i = j + ps.len();
        }
    }
    out
}

/// `s` cut after its first `max_len` bytes, with a note of how many bytes
/// were dropped; `s` itself if it is no longer than that. The cut must fall
/// on a character boundary.
pub fn truncate(s: &str, max_len: usize) -> (r: String)
    requires
        encode_utf8(s@).len() <= usize::MAX,
        encode_utf8(s@).len() > max_len ==> is_char_boundary(encode_utf8(s@), max_len as int),
    ensures
        encode_utf8(s@).len() <= max_len ==> r@ == s@,
        encode_utf8(s@).len() > max_len ==> exists|head: Seq<char>|
            encode_utf8(head) == encode_utf8(s@).take(max_len as int) && r@ == head
                + "...\n[truncated "@ + decimal((encode_utf8(s@).len() - max_len) as nat)
                + " chars]"@,
{
    let n = s.len();
    if n <= max_len {
        return String::from_str(s);
    }
    let (head, _) = s.split_at(max_len);
    let mut out = String::from_str(head);
    push_str(&mut out, "...\n[truncated ");
    push_decimal(&mut out, (n - max_len) as u64);
    push_str(&mut out, " chars]");
    assert(encode_utf8(head@) == encode_utf8(s@).take(max_len as int));
    assert(out@ == head@ + "...\n[truncated "@ + decimal((encode_utf8(s@).len() - max_len) as nat)
        + " chars]"@);
    out
}

} // verus!
