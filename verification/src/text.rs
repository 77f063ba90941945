//! Text helpers: decimal numbers and ASCII upper case.

use vstd::prelude::*;

verus! {

/// Appends one character (`String::push`); the string is the old one with
/// the character at its end.
#[verifier::external_body]
pub(crate) fn push_char(s: &mut String, c: char)
    ensures
        final(s)@ == old(s)@.push(c),
{
    s.push(c);
}

/// The decimal digit character of `d < 10`.
pub open spec fn digit_char(d: nat) -> char {
    if d == 0 {
        '0'
    } else if d == 1 {
        '1'
    } else if d == 2 {
        '2'
    } else if d == 3 {
        '3'
    } else if d == 4 {
        '4'
    } else if d == 5 {
        '5'
    } else if d == 6 {
        '6'
    } else if d == 7 {
        '7'
    } else if d == 8 {
        '8'
    } else {
        '9'
    }
}

/// The decimal notation of `n`, without leading zeros.
pub open spec fn decimal(n: nat) -> Seq<char>
    decreases n,
{
    if n < 10 {
        seq![digit_char(n)]
    } else {
        decimal(n / 10).push(digit_char(n % 10))
    }
}

fn digit(d: u64) -> (c: char)
    requires
        d < 10,
    ensures
        c == digit_char(d as nat),
{
    if d == 0 {
        '0'
    } else if d == 1 {
        '1'
    } else if d == 2 {
        '2'
    } else if d == 3 {
        '3'
    } else if d == 4 {
        '4'
    } else if d == 5 {
        '5'
    } else if d == 6 {
        '6'
    } else if d == 7 {
        '7'
    } else if d == 8 {
        '8'
    } else {
        '9'
    }
}

/// Appends the decimal notation of `n`.
pub fn push_decimal(out: &mut String, n: u64)
    ensures
        final(out)@ == old(out)@ + decimal(n as nat),
    decreases n,
{
    if n >= 10 {
        push_decimal(out, n / 10);
    }
    push_char(out, digit(n % 10));
    assert(final(out)@ =~= old(out)@ + decimal(n as nat));
}

/// The decimal notation of `n`.
pub fn decimal_string(n: u64) -> (r: String)
    ensures
        r@ == decimal(n as nat),
{
    let mut s = String::new();
    push_decimal(&mut s, n);
    assert(s@ =~= decimal(n as nat));
    s
}

/// ASCII lower-case letters become upper case; other characters stay.
pub open spec fn ascii_upper(c: char) -> char {
    if 'a' <= c <= 'z' {
        ((c as u32) - 32) as char
    } else {
        c
    }
}

/// The string with ASCII letters in upper case (`str::to_ascii_uppercase`).
pub fn to_ascii_uppercase(s: &str) -> (r: String)
    ensures
        r@ == s@.map_values(|c: char| ascii_upper(c)),
{
    let mut r = String::new();
    broadcast use vstd::string::axiom_spec_iter;
    for c in it: s.chars()
        invariant
            it.seq() == s@,
            r@ == s@.take(it.index() as int).map_values(|c: char| ascii_upper(c)),
    {
        let u = if c >= 'a' && c <= 'z' {
            (((c as u32) - 32) as u8) as char
        } else {
            c
        };
        push_char(&mut r, u);
        assert(s@.take(it.index() + 1) =~= s@.take(it.index() as int).push(c));
        assert(r@ =~= s@.take(it.index() + 1).map_values(|c: char| ascii_upper(c)));
    }
    assert(s@.take(s@.len() as int) =~= s@);
    r
}


/// The characters of a string.
pub fn chars_of(s: &str) -> (r: Vec<char>)
    ensures
        r@ == s@,
{
    let mut r: Vec<char> = Vec::new();
    broadcast use vstd::string::axiom_spec_iter;
    for c in it: s.chars()
        invariant
            it.seq() == s@,
            r@ == s@.take(it.index() as int),
    {
        r.push(c);
        assert(r@ =~= s@.take(it.index() + 1));
    }
    assert(s@.take(s@.len() as int) =~= s@);
    r
}

pub open spec fn is_digit(c: char) -> bool {
    '0' <= c <= '9'
}

/// The number that a string of decimal digits denotes.
pub open spec fn digits_value(s: Seq<char>) -> nat
    decreases s.len(),
{
    if s.len() == 0 {
        0
    } else {
        digits_value(s.drop_last()) * 10 + (s.last() as nat - '0' as nat) as nat
    }
}

/// The text after an optional leading `+`.
pub open spec fn unsigned_digits(s: Seq<char>) -> Seq<char> {
    if s.len() > 0 && s[0] == '+' {
        s.drop_first()
    } else {
        s
    }
}

pub open spec fn all_digits(d: Seq<char>) -> bool {
    forall|i: int| 0 <= i < d.len() ==> is_digit(#[trigger] d[i])
}

/// What `str::parse::<u64>` accepts: an optional `+`, then one or more
/// decimal digits denoting at most `u64::MAX`.
pub open spec fn parse_u64_spec(s: Seq<char>) -> Option<u64> {
    let d = unsigned_digits(s);
    if d.len() > 0 && all_digits(d) && digits_value(d) <= u64::MAX {
        Some(digits_value(d) as u64)
    } else {
        None
    }
}

proof fn lemma_digits_value_grows(s: Seq<char>, n: int)
    requires
        0 <= n <= s.len(),
        forall|i: int| 0 <= i < s.len() ==> is_digit(#[trigger] s[i]),
    ensures
        digits_value(s.take(n)) <= digits_value(s),
    decreases s.len() - n,
{
    if n < s.len() {
        lemma_digits_value_grows(s, n + 1);
        assert(s.take(n + 1).drop_last() =~= s.take(n));
    } else {
        assert(s.take(n) =~= s);
    }
}

/// Parses an unsigned decimal integer as `str::parse::<u64>` does.
pub fn parse_u64(s: &str) -> (r: Option<u64>)
    ensures
        r == parse_u64_spec(s@),
{
    let cs = chars_of(s);
    let start: usize = if cs.len() > 0 && cs[0] == '+' {
        1
    } else {
        0
    };
    let ghost d = unsigned_digits(s@);
    assert(d =~= cs@.subrange(start as int, cs@.len() as int));
    if start >= cs.len() {
        return None;
    }
    let mut i: usize = start;
    let mut acc: u64 = 0;
    assert(d.take(0) =~= Seq::<char>::empty());
    while i < cs.len()
        invariant
            start <= i <= cs@.len(),
            cs@ == s@,
            d == cs@.subrange(start as int, cs@.len() as int),
            d == unsigned_digits(s@),
            forall|k: int| 0 <= k < i - start ==> is_digit(#[trigger] d[k]),
            acc == digits_value(d.take(i - start)),
        decreases cs@.len() - i,
    {
        let c = cs[i];
        if !(c >= '0' && c <= '9') {
            assert(!is_digit(d[i - start]));
            return None;
        }
        let dv = (c as u32 - '0' as u32) as u64;
        assert(d.take(i - start + 1).drop_last() =~= d.take(i - start));
        assert(d.take(i - start + 1).last() == c);
        let m = match acc.checked_mul(10) {
            Some(m) => m,
            None => {
                proof {
                    if all_digits(d) {
                        lemma_digits_value_grows(d, i - start + 1);
                    }
                }
                return None;
            },
        };
        acc = match m.checked_add(dv) {
            Some(v) => v,
            None => {
                proof {
                    if all_digits(d) {
                        lemma_digits_value_grows(d, i - start + 1);
                    }
                }
                return None;
            },
        };
        i = i + 1;
    }
    assert(d.take(d.len() as int) =~= d);
    Some(acc)
}


/// Unicode `White_Space` characters, which `char::is_whitespace` accepts.
pub open spec fn is_white_space(c: char) -> bool {
    ||| '\u{9}' <= c <= '\u{d}'
    ||| c == ' '
    ||| c == '\u{85}'
    ||| c == '\u{a0}'
    ||| c == '\u{1680}'
    ||| '\u{2000}' <= c <= '\u{200a}'
    ||| c == '\u{2028}'
    ||| c == '\u{2029}'
    ||| c == '\u{202f}'
    ||| c == '\u{205f}'
    ||| c == '\u{3000}'
}

pub fn white_space(c: char) -> (r: bool)
    ensures
        r == is_white_space(c),
{
    ('\u{9}' <= c && c <= '\u{d}') || c == ' ' || c == '\u{85}' || c == '\u{a0}' || c == '\u{1680}'
        || ('\u{2000}' <= c && c <= '\u{200a}') || c == '\u{2028}' || c == '\u{2029}' || c
        == '\u{202f}' || c == '\u{205f}' || c == '\u{3000}'
}

/// `s` without leading white space.
pub open spec fn trim_start(s: Seq<char>) -> Seq<char>
    decreases s.len(),
{
    if s.len() > 0 && is_white_space(s[0]) {
        trim_start(s.drop_first())
    } else {
        s
    }
}

/// `s` without trailing white space.
pub open spec fn trim_end(s: Seq<char>) -> Seq<char>
    decreases s.len(),
{
    if s.len() > 0 && is_white_space(s.last()) {
        trim_end(s.drop_last())
    } else {
        s
    }
}

/// `s` without leading and trailing white space (`str::trim`).
pub open spec fn trim(s: Seq<char>) -> Seq<char> {
    trim_end(trim_start(s))
}

proof fn lemma_trim_start_is_suffix(s: Seq<char>, k: int)
    requires
        0 <= k <= s.len(),
        forall|i: int| 0 <= i < k ==> is_white_space(#[trigger] s[i]),
        k == s.len() || !is_white_space(s[k]),
    ensures
        trim_start(s) == s.subrange(k, s.len() as int),
    decreases k,
{
    if k > 0 {
        let t = s.drop_first();
        assert forall|i: int| 0 <= i < k - 1 implies is_white_space(#[trigger] t[i]) by {
            assert(is_white_space(s[i + 1]));
        }
        lemma_trim_start_is_suffix(t, k - 1);
        assert(t.subrange(k - 1, t.len() as int) =~= s.subrange(k, s.len() as int));
    } else {
        assert(s.subrange(0, s.len() as int) =~= s);
    }
}

proof fn lemma_trim_end_is_prefix(s: Seq<char>, k: int)
    requires
        0 <= k <= s.len(),
        forall|i: int| k <= i < s.len() ==> is_white_space(#[trigger] s[i]),
        k == 0 || !is_white_space(s[k - 1]),
    ensures
        trim_end(s) == s.subrange(0, k),
    decreases s.len() - k,
{
    if k < s.len() {
        let t = s.drop_last();
        assert forall|i: int| k <= i < t.len() implies is_white_space(#[trigger] t[i]) by {
            assert(is_white_space(s[i]));
        }
        assert(is_white_space(s[s.len() - 1]));
        lemma_trim_end_is_prefix(t, k);
        assert(t.subrange(0, k) =~= s.subrange(0, k));
    } else {
        assert(s.subrange(0, k) =~= s);
    }
}

/// The trimmed text of `cs[from..to]`.
pub fn trimmed_string(cs: &Vec<char>, from: usize, to: usize) -> (r: String)
    requires
        from <= to <= cs@.len(),
    ensures
        r@ == trim(cs@.subrange(from as int, to as int)),
{
    let ghost s = cs@.subrange(from as int, to as int);
    let mut a = from;
    while a < to && white_space(cs[a])
        invariant
            from <= a <= to <= cs@.len(),
            s == cs@.subrange(from as int, to as int),
            forall|i: int| 0 <= i < a - from ==> is_white_space(#[trigger] s[i]),
        decreases to - a,
    {
        a = a + 1;
    }
    proof {
        lemma_trim_start_is_suffix(s, a - from);
    }
    let ghost t = cs@.subrange(a as int, to as int);
    assert(trim_start(s) =~= t);
    let mut b = to;
    while b > a && white_space(cs[b - 1])
        invariant
            a <= b <= to <= cs@.len(),
            t == cs@.subrange(a as int, to as int),
            forall|i: int| b - a <= i < t.len() ==> is_white_space(#[trigger] t[i]),
        decreases b - a,
    {
        b = b - 1;
    }
    proof {
        lemma_trim_end_is_prefix(t, b - a);
    }
    let mut r = String::new();
    let mut i = a;
    while i < b
        invariant
            a <= i <= b <= cs@.len(),
            r@ == cs@.subrange(a as int, i as int),
        decreases b - i,
    {
        push_char(&mut r, cs[i]);
        i = i + 1;
        assert(r@ =~= cs@.subrange(a as int, i as int));
    }
    assert(t.subrange(0, b - a) =~= cs@.subrange(a as int, b as int));
    r
}

/// The pieces of `s` between commas (`str::split(',')`).
pub open spec fn split_on_comma(s: Seq<char>) -> Seq<Seq<char>>
    decreases s.len(),
{
    if s.len() == 0 {
        seq![Seq::empty()]
    } else {
        let p = split_on_comma(s.drop_last());
        if s.last() == ',' {
            p.push(Seq::empty())
        } else {
            p.update(p.len() - 1, p.last().push(s.last()))
        }
    }
}

/// The non-empty trimmed pieces, in order.
pub open spec fn trimmed_pieces(p: Seq<Seq<char>>) -> Seq<Seq<char>>
    decreases p.len(),
{
    if p.len() == 0 {
        Seq::empty()
    } else {
        let t = trimmed_pieces(p.drop_last());
        if trim(p.last()).len() > 0 {
            t.push(trim(p.last()))
        } else {
            t
        }
    }
}

proof fn lemma_split_last(s: Seq<char>, start: int)
    requires
        0 <= start <= s.len(),
        start == 0 || s[start - 1] == ',',
        forall|i: int| start <= i < s.len() ==> #[trigger] s[i] != ',',
    ensures
        split_on_comma(s).len() >= 1,
        split_on_comma(s).last() == s.subrange(start, s.len() as int),
        start > 0 ==> split_on_comma(s).drop_last() == split_on_comma(s.take(start - 1)),
        start == 0 ==> split_on_comma(s).len() == 1,
    decreases s.len(),
{
    if s.len() == 0 {
    } else if s.len() == start {
        assert(s.drop_last() =~= s.take(start - 1));
        assert(s.subrange(start, s.len() as int) =~= Seq::<char>::empty());
        lemma_split_nonempty(s.drop_last());
        assert(split_on_comma(s).drop_last() =~= split_on_comma(s.drop_last()));
    } else {
        lemma_split_last(s.drop_last(), start);
        let p = split_on_comma(s.drop_last());
        assert(s.drop_last().subrange(start, s.len() - 1).push(s.last()) =~= s.subrange(
            start,
            s.len() as int,
        ));
        if start > 0 {
            assert(s.drop_last().take(start - 1) =~= s.take(start - 1));
            assert(split_on_comma(s).drop_last() =~= p.drop_last());
        }
    }
}

proof fn lemma_split_nonempty(s: Seq<char>)
    ensures
        split_on_comma(s).len() >= 1,
    decreases s.len(),
{
    if s.len() > 0 {
        lemma_split_nonempty(s.drop_last());
    }
}

/// The non-empty, trimmed comma-separated items of `raw`, in order.
pub fn split_list(raw: &str) -> (r: Vec<String>)
    ensures
        r@.map_values(|x: String| x@) == trimmed_pieces(split_on_comma(raw@)),
{
    let cs = chars_of(raw);
    let mut out: Vec<String> = Vec::new();
    let mut start: usize = 0;
    let mut i: usize = 0;
    while i < cs.len()
        invariant
            cs@ == raw@,
            start <= i <= cs@.len(),
            start == 0 || cs@[start - 1] == ',',
            forall|k: int| start <= k < i ==> #[trigger] cs@[k] != ',',
            start == 0 ==> out@.map_values(|x: String| x@) == Seq::<Seq<char>>::empty(),
            start > 0 ==> out@.map_values(|x: String| x@) == trimmed_pieces(
                split_on_comma(cs@.take(start - 1)),
            ),
        decreases cs@.len() - i,
    {
        if cs[i] == ',' {
            let piece = trimmed_string(&cs, start, i);
            let ghost before = out@.map_values(|x: String| x@);
            proof {
                lemma_split_last(cs@.take(i as int), start as int);
                assert(cs@.take(i as int).subrange(start as int, i as int) =~= cs@.subrange(
                    start as int,
                    i as int,
                ));
                if start > 0 {
                    assert(cs@.take(i as int).take(start - 1) =~= cs@.take(start - 1));
                } else {
                    assert(split_on_comma(cs@.take(i as int)).drop_last() =~= Seq::<Seq<char>>::empty());
                }
                let p = split_on_comma(cs@.take(i as int));
                assert(trimmed_pieces(p) == (if trim(p.last()).len() > 0 {
                    trimmed_pieces(p.drop_last()).push(trim(p.last()))
                } else {
                    trimmed_pieces(p.drop_last())
                }));
            }
            if !piece.as_str().is_empty() {
                out.push(piece);
                assert(out@.map_values(|x: String| x@) =~= before.push(piece@));
            }
            start = i + 1;
            assert(cs@.take(start - 1) =~= cs@.take(i as int));
        }
        i = i + 1;
    }
    let piece = trimmed_string(&cs, start, cs.len());
    let ghost before = out@.map_values(|x: String| x@);
    proof {
        lemma_split_last(cs@, start as int);
        assert(cs@.take(cs@.len() as int) =~= cs@);
        if start == 0 {
            assert(split_on_comma(cs@).drop_last() =~= Seq::<Seq<char>>::empty());
        }
        let p = split_on_comma(cs@);
        assert(trimmed_pieces(p) == (if trim(p.last()).len() > 0 {
            trimmed_pieces(p.drop_last()).push(trim(p.last()))
        } else {
            trimmed_pieces(p.drop_last())
        }));
    }
    if !piece.as_str().is_empty() {
        out.push(piece);
        assert(out@.map_values(|x: String| x@) =~= before.push(piece@));
    }
    out
}

} // verus!
