//! Character-level text utilities shared by the prompt builders, the
//! memory stores and the tool result formatters.
use vstd::prelude::*;
use vstd::string::*;

verus! {

broadcast use vstd::string::group_string_axioms;

/// `needle` occurs in `hay` starting at position `i`.
pub open spec fn occurs_at(hay: Seq<char>, needle: Seq<char>, i: int) -> bool {
    &&& 0 <= i
    &&& i + needle.len() <= hay.len()
    &&& hay.subrange(i, i + needle.len()) == needle
}

/// `needle` is a contiguous part of `hay` (the empty text is part of every text).
pub open spec fn contains_text(hay: Seq<char>, needle: Seq<char>) -> bool {
    exists|i: int| occurs_at(hay, needle, i)
}

/// The parts written one after the other, with `sep` between neighbours.
pub open spec fn joined(parts: Seq<Seq<char>>, sep: Seq<char>) -> Seq<char>
    decreases parts.len(),
{
    if parts.len() == 0 {
        Seq::empty()
    } else if parts.len() == 1 {
        parts[0]
    } else {
        joined(parts.drop_last(), sep) + sep + parts.last()
    }
}

/// `s` with every leading copy of the pattern `p` removed (an empty `p`
/// leaves `s` as it is).
pub open spec fn strip_leading(s: Seq<char>, p: Seq<char>) -> Seq<char>
    decreases s.len(),
{
    if p.len() > 0 && p.len() <= s.len() && s.subrange(0, p.len() as int) == p {
        strip_leading(s.subrange(p.len() as int, s.len() as int), p)
    } else {
        s
    }
}

/// `s` with every trailing copy of the pattern `p` removed (an empty `p`
/// leaves `s` as it is).
pub open spec fn strip_trailing(s: Seq<char>, p: Seq<char>) -> Seq<char>
    decreases s.len(),
{
    if p.len() > 0 && p.len() <= s.len() && s.subrange(s.len() - p.len(), s.len() as int) == p {
        strip_trailing(s.subrange(0, s.len() - p.len()), p)
    } else {
        s
    }
}

/// The characters with the Unicode `White_Space` property.
pub open spec fn is_white(c: char) -> bool {
    ||| ('\u{9}' <= c && c <= '\u{d}')
    ||| c == ' '
    ||| c == '\u{85}'
    ||| c == '\u{a0}'
    ||| c == '\u{1680}'
    ||| ('\u{2000}' <= c && c <= '\u{200a}')
    ||| c == '\u{2028}'
    ||| c == '\u{2029}'
    ||| c == '\u{202f}'
    ||| c == '\u{205f}'
    ||| c == '\u{3000}'
}

/// `s` without its leading white space.
pub open spec fn trim_start_white(s: Seq<char>) -> Seq<char>
    decreases s.len(),
{
    if s.len() > 0 && is_white(s[0]) {
        trim_start_white(s.drop_first())
    } else {
        s
    }
}

/// `s` without its trailing white space.
pub open spec fn trim_end_white(s: Seq<char>) -> Seq<char>
    decreases s.len(),
{
    if s.len() > 0 && is_white(s.last()) {
        trim_end_white(s.drop_last())
    } else {
        s
    }
}

/// `s` without white space at either end.
pub open spec fn trim_white(s: Seq<char>) -> Seq<char> {
    trim_end_white(trim_start_white(s))
}

/// The decimal digit for `d < 10`.
pub open spec fn digit_char(d: nat) -> char {
    if d == 0 { '0' }
    else if d == 1 { '1' }
    else if d == 2 { '2' }
    else if d == 3 { '3' }
    else if d == 4 { '4' }
    else if d == 5 { '5' }
    else if d == 6 { '6' }
    else if d == 7 { '7' }
    else if d == 8 { '8' }
    else { '9' }
}

/// The decimal notation of a natural number, without leading zeros.
pub open spec fn decimal_nat(n: nat) -> Seq<char>
    decreases n,
{
    if n < 10 {
        seq![digit_char(n)]
    } else {
        decimal_nat(n / 10).push(digit_char(n % 10))
    }
}

/// The decimal notation of an integer, with a leading `-` when it is negative.
pub open spec fn decimal_int(v: int) -> Seq<char> {
    if v < 0 {
        seq!['-'] + decimal_nat((-v) as nat)
    } else {
        decimal_nat(v as nat)
    }
}

/// Appends one character to a `String` (std's `String::push`): the view
/// grows by that character.
#[verifier::external_body]
pub(crate) fn push_char(s: &mut String, c: char)
    ensures
        final(s)@ == old(s)@.push(c),
{
    s.push(c)
}

/// The text that std's `String::from_utf8_lossy` decodes from `bytes`:
/// the UTF-8 sequences in them, with each invalid one replaced by U+FFFD.
pub uninterp spec fn lossy_utf8(bytes: Seq<u8>) -> Seq<char>;

/// Decodes bytes as UTF-8 with std's `String::from_utf8_lossy`, owned. The
/// decoding depends on the bytes alone; its rules are not restated here,
/// only named (`lossy_utf8`).
#[verifier::external_body]
pub(crate) fn text_from_utf8_lossy(bytes: &[u8]) -> (text: String)
    ensures
        text@ == lossy_utf8(bytes@),
{
    String::from_utf8_lossy(bytes).into_owned()
}

/// The characters of `s`, in order.
pub fn chars_of(s: &str) -> (v: Vec<char>)
    ensures
        v@ == s@,
{
    let mut v: Vec<char> = Vec::new();
    for c in it: s.chars()
        invariant
            it.seq() == s@,
            v@ == it.seq().take(it.index()),
    {
        v.push(c);
        assert(it.seq().take(it.index() + 1) =~= it.seq().take(it.index()).push(c));
    }
    assert(s@.take(s@.len() as int) =~= s@);
    v
}

/// A `String` holding the characters `v[from..to]`.
pub fn string_of_range(v: &Vec<char>, from: usize, to: usize) -> (s: String)
    requires
        from <= to <= v.len(),
    ensures
        s@ == v@.subrange(from as int, to as int),
{
    let mut s = String::new();
    let mut i = from;
    while i < to
        invariant
            from <= i <= to <= v.len(),
            s@ == v@.subrange(from as int, i as int),
        decreases to - i,
    {
        push_char(&mut s, v[i]);
        i = i + 1;
        assert(s@ =~= v@.subrange(from as int, i as int));
    }
    s
}

/// Whether `needle` occurs in `hay` at position `i`.
pub fn occurs_at_exec(hay: &Vec<char>, needle: &Vec<char>, i: usize) -> (b: bool)
    ensures
        b == occurs_at(hay@, needle@, i as int),
{
    if needle.len() > hay.len() || i > hay.len() - needle.len() {
        return false;
    }
    let mut j: usize = 0;
    while j < needle.len()
        invariant
            i + needle.len() <= hay.len(),
            j <= needle.len(),
            forall|k: int| 0 <= k < j ==> hay@[i + k] == needle@[k],
        decreases needle.len() - j,
    {
        if hay[i + j] != needle[j] {
            assert(hay@.subrange(i as int, i + needle.len())[j as int] != needle@[j as int]);
            return false;
        }
        j = j + 1;
    }
    assert(hay@.subrange(i as int, i + needle.len()) =~= needle@);
    true
}

/// Whether `needle` is a contiguous part of `hay`, on character vectors.
pub fn contains_chars(hay: &Vec<char>, needle: &Vec<char>) -> (b: bool)
    ensures
        b == contains_text(hay@, needle@),
{
    if needle.len() == 0 {
        assert(occurs_at(hay@, needle@, 0)) by {
            assert(hay@.subrange(0, 0) =~= needle@);
        }
        return true;
    }
    if needle.len() > hay.len() {
        return false;
    }
    let last = hay.len() - needle.len();
    let mut i: usize = 0;
    while i <= last
        invariant
            last == hay.len() - needle.len(),
            0 < needle.len() <= hay.len(),
            i <= last + 1,
            forall|k: int| 0 <= k < i ==> !occurs_at(hay@, needle@, k),
        decreases last + 1 - i,
    {
        if occurs_at_exec(hay, needle, i) {
            return true;
        }
        i = i + 1;
    }
    false
}

/// Whether `needle` is a contiguous part of `hay` (std's `str::contains`
/// with a string pattern).
pub fn contains_str(hay: &str, needle: &str) -> (b: bool)
    ensures
        b == contains_text(hay@, needle@),
{
    let h = chars_of(hay);
    let n = chars_of(needle);
    contains_chars(&h, &n)
}

/// The parts joined by `sep` (std's `[String]::join`).
pub fn join_strings(parts: &Vec<String>, sep: &str) -> (s: String)
    ensures
        s@ == joined(parts@.map_values(|p: String| p@), sep@),
{
    let ghost views = parts@.map_values(|p: String| p@);
    let mut s = String::new();
    let mut i: usize = 0;
    while i < parts.len()
        invariant
            i <= parts.len(),
            views == parts@.map_values(|p: String| p@),
            s@ == joined(views.take(i as int), sep@),
        decreases parts.len() - i,
    {
        assert(views.take(i + 1).drop_last() =~= views.take(i as int));
        assert(views.take(i + 1).last() == parts@[i as int]@);
        if i == 0 {
            s.append(parts[i].as_str());
        } else {
            s.append(sep);
            s.append(parts[i].as_str());
        }
        i = i + 1;
    }
    assert(views.take(parts.len() as int) =~= views);
    s
}

/// Whether `c` is white space (std's `char::is_whitespace`).
pub fn is_white_exec(c: char) -> (b: bool)
    ensures
        b == is_white(c),
{
    ('\u{9}' <= c && c <= '\u{d}') || c == ' ' || c == '\u{85}' || c == '\u{a0}' || c
        == '\u{1680}' || ('\u{2000}' <= c && c <= '\u{200a}') || c == '\u{2028}' || c
        == '\u{2029}' || c == '\u{202f}' || c == '\u{205f}' || c == '\u{3000}'
}

proof fn lemma_strip_leading_step(s: Seq<char>, p: Seq<char>, from: int)
    requires
        0 <= from <= s.len(),
        p.len() > 0,
        from + p.len() <= s.len(),
        s.subrange(from, from + p.len()) == p,
    ensures
        strip_leading(s.subrange(from, s.len() as int), p) == strip_leading(
            s.subrange(from + p.len(), s.len() as int),
            p,
        ),
{
    let t = s.subrange(from, s.len() as int);
    assert(t.subrange(0, p.len() as int) =~= p);
    assert(t.subrange(p.len() as int, t.len() as int) =~= s.subrange(from + p.len(), s.len() as int));
}

proof fn lemma_strip_trailing_step(s: Seq<char>, p: Seq<char>, to: int)
    requires
        0 <= to <= s.len(),
        p.len() > 0,
        p.len() <= to,
        s.subrange(to - p.len(), to) == p,
    ensures
        strip_trailing(s.subrange(0, to), p) == strip_trailing(s.subrange(0, to - p.len()), p),
{
    let t = s.subrange(0, to);
    assert(t.subrange(t.len() - p.len(), t.len() as int) =~= p);
    assert(t.subrange(0, t.len() - p.len()) =~= s.subrange(0, to - p.len()));
}

proof fn lemma_trim_end_step(s: Seq<char>, from: int, to: int)
    requires
        0 <= from < to <= s.len(),
        is_white(s[to - 1]),
    ensures
        trim_end_white(s.subrange(from, to)) == trim_end_white(s.subrange(from, to - 1)),
{
    let t = s.subrange(from, to);
    assert(t.drop_last() =~= s.subrange(from, to - 1));
}

/// Removes every leading copy of `prefix` and every trailing copy of
/// `suffix`, then the white space at both ends (std's
/// `trim_start_matches(prefix).trim_end_matches(suffix).trim()`).
pub fn strip_and_trim(text: &Vec<char>, prefix: &Vec<char>, suffix: &Vec<char>) -> (s: String)
    ensures
        s@ == trim_white(strip_trailing(strip_leading(text@, prefix@), suffix@)),
{
    let n = text.len();
    // leading copies of the prefix
    let mut from: usize = 0;
    assert(text@.subrange(0, n as int) =~= text@);
    loop
        invariant
            from <= n == text.len(),
            strip_leading(text@, prefix@) == strip_leading(
                text@.subrange(from as int, n as int),
                prefix@,
            ),
        ensures
            from <= n,
            strip_leading(text@, prefix@) == text@.subrange(from as int, n as int),
        decreases n - from,
    {
        if prefix.len() > 0 && prefix.len() <= n - from && occurs_at_exec(text, prefix, from) {
            proof {
                lemma_strip_leading_step(text@, prefix@, from as int);
            }
            from = from + prefix.len();
        } else {
            proof {
                let t = text@.subrange(from as int, n as int);
                if prefix.len() <= t.len() {
                    assert(t.subrange(0, prefix.len() as int) =~= text@.subrange(
                        from as int,
                        from + prefix.len(),
                    ));
                }
                assert(strip_leading(t, prefix@) == t);
            }
            break;
        }
    }
    let ghost after_prefix = text@.subrange(from as int, n as int);
    // trailing copies of the suffix
    let mut to: usize = n;
    loop
        invariant
            from <= to <= n == text.len(),
            after_prefix == text@.subrange(from as int, n as int),
            strip_trailing(after_prefix, suffix@) == strip_trailing(
                text@.subrange(from as int, to as int),
                suffix@,
            ),
        ensures
            from <= to <= n,
            strip_trailing(after_prefix, suffix@) == text@.subrange(from as int, to as int),
        decreases to,
    {
        if suffix.len() > 0 && suffix.len() <= to - from && occurs_at_exec(text, suffix, to - suffix.len()) {
            proof {
                let u = text@.subrange(from as int, n as int);
                assert(u.subrange(to - from - suffix.len(), to - from) =~= text@.subrange(
                    to - suffix.len(),
                    to as int,
                ));
                assert(u.subrange(0, to - from) =~= text@.subrange(from as int, to as int));
                lemma_strip_trailing_step(u, suffix@, to - from);
                assert(u.subrange(0, to - from - suffix.len()) =~= text@.subrange(
                    from as int,
                    to - suffix.len(),
                ));
            }
            to = to - suffix.len();
        } else {
            proof {
                let w = text@.subrange(from as int, to as int);
                if suffix.len() <= w.len() {
                    assert(w.subrange(w.len() - suffix.len(), w.len() as int) =~= text@.subrange(
                        to - suffix.len(),
                        to as int,
                    ));
                }
                assert(strip_trailing(w, suffix@) == w);
            }
            break;
        }
    }
    let ghost stripped = text@.subrange(from as int, to as int);
    // white space at the start
    let mut a: usize = from;
    while a < to && is_white_exec(text[a])
        invariant
            from <= a <= to <= n == text.len(),
            trim_start_white(stripped) == trim_start_white(text@.subrange(a as int, to as int)),
            stripped == text@.subrange(from as int, to as int),
        decreases to - a,
    {
        proof {
            let t = text@.subrange(a as int, to as int);
            assert(t.drop_first() =~= text@.subrange(a + 1, to as int));
        }
        a = a + 1;
    }
    proof {
        let t = text@.subrange(a as int, to as int);
        if a < to {
            assert(t[0] == text@[a as int]);
        }
    }
    let ghost started = text@.subrange(a as int, to as int);
    assert(trim_start_white(stripped) == started);
    // white space at the end
    let mut b: usize = to;
    while b > a && is_white_exec(text[b - 1])
        invariant
            a <= b <= to <= n == text.len(),
            started == text@.subrange(a as int, to as int),
            trim_end_white(started) == trim_end_white(text@.subrange(a as int, b as int)),
        decreases b,
    {
        proof {
            lemma_trim_end_step(text@, a as int, b as int);
        }
        b = b - 1;
    }
    proof {
        let t = text@.subrange(a as int, b as int);
        if a < b {
            assert(t.last() == text@[b - 1]);
        }
    }
    string_of_range(text, a, b)
}

/// The decimal digit character for `d < 10`.
pub fn digit_char_exec(d: u64) -> (c: char)
    requires
        d < 10,
    ensures
        c == digit_char(d as nat),
{
    if d == 0 { '0' }
    else if d == 1 { '1' }
    else if d == 2 { '2' }
    else if d == 3 { '3' }
    else if d == 4 { '4' }
    else if d == 5 { '5' }
    else if d == 6 { '6' }
    else if d == 7 { '7' }
    else if d == 8 { '8' }
    else { '9' }
}

/// Appends the decimal notation of `m` to `s`.
pub fn push_decimal(s: &mut String, m: u64)
    ensures
        final(s)@ == old(s)@ + decimal_nat(m as nat),
    decreases m,
{
    if m < 10 {
        push_char(s, digit_char_exec(m));
        assert(decimal_nat(m as nat) == seq![digit_char(m as nat)]);
    } else {
        push_decimal(s, m / 10);
        push_char(s, digit_char_exec(m % 10));
        assert(decimal_nat(m as nat) == decimal_nat((m / 10) as nat).push(digit_char((m % 10) as nat)));
    }
}

/// The decimal notation of `v` (what std's `i64::to_string` gives).
pub fn decimal_of_i64(v: i64) -> (s: String)
    ensures
        s@ == decimal_int(v as int),
{
    let mut s = String::new();
    if v < 0 {
        push_char(&mut s, '-');
        let m: u64 = if v == i64::MIN {
            9223372036854775808u64
        } else {
            (-v) as u64
        };
        push_decimal(&mut s, m);
    } else {
        push_decimal(&mut s, v as u64);
    }
    s
}

} // verus!
