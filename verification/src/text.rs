//! Character-level helpers on strings, and decimal numbers.
use vstd::prelude::*;

verus! {

/// `String::push`: appends one character.
#[verifier::external_body]
pub(crate) fn string_push(s: &mut String, c: char)
    ensures
        final(s)@ == old(s)@.push(c),
{
    s.push(c);
}

/// The characters of `s`, in order.
pub fn str_chars(s: &str) -> (res: Vec<char>)
    ensures
        res@ == s@,
{
    let mut res: Vec<char> = Vec::new();
    for c in it: s.chars()
        invariant
            res@ == it.seq().take(it.index() as int),
    {
        res.push(c);
    }
    res
}

/// A string holding exactly the characters of `cs`.
pub fn string_from_chars(cs: &[char]) -> (res: String)
    ensures
        res@ == cs@,
{
    let mut res = String::new();
    let mut i: usize = 0;
    while i < cs.len()
        invariant
            i <= cs@.len(),
            res@ == cs@.take(i as int),
        decreases cs@.len() - i,
    {
        string_push(&mut res, cs[i]);
        assert(cs@.take(i as int).push(cs@[i as int]) =~= cs@.take(i + 1));
        i = i + 1;
    }
    assert(cs@.take(cs@.len() as int) =~= cs@);
    res
}

/// `prefix` followed by `rest`.
pub fn concat_str(prefix: &str, rest: &str) -> (res: String)
    ensures
        res@ == prefix@ + rest@,
{
    let mut res = String::from_str(prefix);
    res.append(rest);
    res
}

/// Whether `c` is an ASCII decimal digit.
pub open spec fn is_digit(c: char) -> bool {
    '0' <= c && c <= '9'
}

/// The value of a decimal digit character.
pub open spec fn digit_value(c: char) -> int {
    c as int - '0' as int
}

/// The character of the decimal digit `d`.
pub open spec fn digit_char(d: int) -> char {
    (d + '0' as int) as char
}

/// Whether all characters of `s` are decimal digits.
pub open spec fn all_digits(s: Seq<char>) -> bool {
    forall|i: int| 0 <= i < s.len() ==> is_digit(#[trigger] s[i])
}

/// The number that the digits of `s` spell, most significant first.
pub open spec fn digits_value(s: Seq<char>) -> nat
    decreases s.len(),
{
    if s.len() == 0 {
        0
    } else {
        (digits_value(s.drop_last()) * 10 + digit_value(s.last())) as nat
    }
}

/// The decimal numeral of `n`, without leading zeros.
pub open spec fn decimal(n: nat) -> Seq<char>
    decreases n,
{
    if n < 10 {
        seq![digit_char(n as int)]
    } else {
        decimal(n / 10).push(digit_char((n % 10) as int))
    }
}

/// What `str::parse` reads from `s` for an unsigned integer type, before the
/// type's bound is applied: an optional `+` and at least one decimal digit,
/// nothing else.
pub open spec fn unsigned_text_value(s: Seq<char>) -> Option<nat> {
    let d = if s.len() > 0 && s[0] == '+' {
        s.drop_first()
    } else {
        s
    };
    if d.len() > 0 && all_digits(d) {
        Some(digits_value(d))
    } else {
        None
    }
}

/// `s.parse::<u64>().ok()`.
pub open spec fn parsed_u64(s: Seq<char>) -> Option<u64> {
    match unsigned_text_value(s) {
        Some(v) => if v <= u64::MAX {
            Some(v as u64)
        } else {
            None
        },
        None => None,
    }
}

/// `s.parse::<u32>().ok()`.
pub open spec fn parsed_u32(s: Seq<char>) -> Option<u32> {
    match unsigned_text_value(s) {
        Some(v) => if v <= u32::MAX {
            Some(v as u32)
        } else {
            None
        },
        None => None,
    }
}

proof fn lemma_digits_value_prefix(d: Seq<char>, j: int)
    requires
        all_digits(d),
        0 <= j <= d.len(),
    ensures
        digits_value(d.take(j)) <= digits_value(d),
    decreases d.len(),
{
    if j < d.len() {
        assert(d.drop_last().take(j) =~= d.take(j));
        lemma_digits_value_prefix(d.drop_last(), j);
        assert(is_digit(d[d.len() - 1]));
    } else {
        assert(d.take(j) =~= d);
    }
}

/// Reads an unsigned decimal number as `str::parse::<u64>` does.
pub fn parse_u64(s: &[char]) -> (res: Option<u64>)
    ensures
        res == parsed_u64(s@),
{
    let start: usize = if s.len() > 0 && s[0] == '+' {
        1
    } else {
        0
    };
    let ghost d = if s@.len() > 0 && s@[0] == '+' {
        s@.drop_first()
    } else {
        s@
    };
    assert(d =~= s@.subrange(start as int, s@.len() as int));
    if start == s.len() {
        assert(d.len() == 0);
        return None;
    }
    let mut acc: u128 = 0;
    let mut i: usize = start;
    while i < s.len()
        invariant
            start <= i <= s@.len(),
            d =~= s@.subrange(start as int, s@.len() as int),
            d == (if s@.len() > 0 && s@[0] == '+' {
                s@.drop_first()
            } else {
                s@
            }),
            d.len() > 0,
            all_digits(s@.subrange(start as int, i as int)),
            acc == digits_value(s@.subrange(start as int, i as int)),
            acc <= u64::MAX,
        decreases s@.len() - i,
    {
        let c = s[i];
        if !('0' <= c && c <= '9') {
            assert(d[i - start] == c);
            return None;
        }
        let ghost prev = s@.subrange(start as int, i as int);
        let ghost next = s@.subrange(start as int, i + 1);
        assert(next.drop_last() =~= prev);
        assert forall|k: int| 0 <= k < next.len() implies is_digit(#[trigger] next[k]) by {
            if k < prev.len() {
                assert(next[k] == prev[k]);
            }
        }
        acc = acc * 10 + ((c as u32) - ('0' as u32)) as u128;
        assert(next.last() == c);
        assert(acc == digits_value(next));
        i = i + 1;
        if acc > u64::MAX as u128 {
            proof {
                if all_digits(d) {
                    assert(d.take(next.len() as int) =~= next);
                    lemma_digits_value_prefix(d, next.len() as int);
                }
            }
            return None;
        }
    }
    assert(s@.subrange(start as int, i as int) =~= d);
    Some(acc as u64)
}

/// Reads an unsigned decimal number as `str::parse::<u32>` does.
pub fn parse_u32(s: &[char]) -> (res: Option<u32>)
    ensures
        res == parsed_u32(s@),
{
    match parse_u64(s) {
        Some(v) => if v <= u32::MAX as u64 {
            Some(v as u32)
        } else {
            None
        },
        None => None,
    }
}

/// The decimal numeral of `n`.
pub fn decimal_chars(n: u64) -> (res: Vec<char>)
    ensures
        res@ == decimal(n as nat),
    decreases n,
{
    let d = (n % 10) as u8;
    let c = (48u8 + d) as char;
    if n < 10 {
        let mut v: Vec<char> = Vec::new();
        v.push(c);
        v
    } else {
        let mut v = decimal_chars(n / 10);
        v.push(c);
        v
    }
}

/// A digit written by `digit_char` reads back as its value.
proof fn lemma_digit_char_value(d: int)
    requires
        0 <= d < 10,
    ensures
        digit_value(digit_char(d)) == d,
        is_digit(digit_char(d)),
{
}

/// A numeral written by `decimal` reads back as its number.
pub proof fn lemma_decimal_roundtrip(n: nat)
    ensures
        decimal(n).len() > 0,
        all_digits(decimal(n)),
        digits_value(decimal(n)) == n,
        decimal(n)[0] != '+',
        unsigned_text_value(decimal(n)) == Some(n),
    decreases n,
{
    lemma_digit_char_value((n % 10) as int);
    if n < 10 {
        let s = decimal(n);
        assert(s.drop_last() =~= Seq::<char>::empty());
        assert(digits_value(s.drop_last()) == 0);
        assert(n % 10 == n);
        assert(digits_value(s) == n);
    } else {
        lemma_decimal_roundtrip(n / 10);
        let s = decimal(n);
        assert(s.drop_last() =~= decimal(n / 10));
        assert(n == (n / 10) * 10 + n % 10);
        assert(s.last() == digit_char((n % 10) as int));
        assert(digits_value(s) == digits_value(s.drop_last()) * 10 + digit_value(s.last()));
        assert(digits_value(s.drop_last()) == n / 10);
        let q = digits_value(s.drop_last()) as int;
        let r = digit_value(s.last());
        assert(r == (n % 10) as int);
        assert(q * 10 + r == n) by (nonlinear_arith)
            requires
                q == n / 10,
                r == n % 10,
        ;
        assert(digits_value(s) == n);
        assert(s[0] == decimal(n / 10)[0]);
        assert forall|k: int| 0 <= k < s.len() implies is_digit(#[trigger] s[k]) by {
            if k < s.len() - 1 {
                assert(s[k] == decimal(n / 10)[k]);
            }
        }
    }
}

/// The pieces of `rest` between the separators, the first of them prefixed
/// by `cur`.
pub open spec fn split_acc(cur: Seq<char>, rest: Seq<char>, sep: char) -> Seq<Seq<char>>
    decreases rest.len(),
{
    if rest.len() == 0 {
        seq![cur]
    } else if rest[0] == sep {
        seq![cur] + split_acc(Seq::empty(), rest.drop_first(), sep)
    } else {
        split_acc(cur.push(rest[0]), rest.drop_first(), sep)
    }
}

/// `str::split` with a character separator: the pieces between the
/// separators, at least one.
pub open spec fn split_on(s: Seq<char>, sep: char) -> Seq<Seq<char>> {
    split_acc(Seq::empty(), s, sep)
}

/// The pieces joined with the separator between them (`join`).
pub open spec fn join_with(ps: Seq<Seq<char>>, sep: char) -> Seq<char>
    decreases ps.len(),
{
    if ps.len() == 0 {
        Seq::empty()
    } else if ps.len() == 1 {
        ps[0]
    } else {
        ps[0] + seq![sep] + join_with(ps.drop_first(), sep)
    }
}

/// The contents of each vector.
pub open spec fn views(vs: Seq<Vec<char>>) -> Seq<Seq<char>> {
    vs.map_values(|v: Vec<char>| v@)
}

/// Splits `s` at each `sep`.
pub fn split_chars(s: &[char], sep: char) -> (res: Vec<Vec<char>>)
    ensures
        views(res@) == split_on(s@, sep),
{
    let mut parts: Vec<Vec<char>> = Vec::new();
    let mut cur: Vec<char> = Vec::new();
    let mut i: usize = 0;
    assert(views(parts@) =~= Seq::<Seq<char>>::empty());
    assert(s@.skip(0) =~= s@);
    assert(cur@ =~= Seq::<char>::empty());
    while i < s.len()
        invariant
            i <= s@.len(),
            views(parts@) + split_acc(cur@, s@.skip(i as int), sep) == split_on(s@, sep),
        decreases s@.len() - i,
    {
        let ghost rest = s@.skip(i as int);
        assert(rest.drop_first() =~= s@.skip(i + 1));
        if s[i] == sep {
            let ghost old_parts = views(parts@);
            let ghost old_cur = cur@;
            parts.push(cur);
            cur = Vec::new();
            assert(views(parts@) =~= old_parts.push(old_cur));
            assert(old_parts + (seq![old_cur] + split_acc(Seq::empty(), s@.skip(i + 1), sep))
                =~= old_parts.push(old_cur) + split_acc(Seq::empty(), s@.skip(i + 1), sep));
        } else {
            cur.push(s[i]);
        }
        i = i + 1;
    }
    let ghost old_parts = views(parts@);
    let ghost old_cur = cur@;
    assert(s@.skip(i as int).len() == 0);
    parts.push(cur);
    assert(views(parts@) =~= old_parts.push(old_cur));
    assert(old_parts + seq![old_cur] =~= old_parts.push(old_cur));
    parts
}

/// Whether `sep` does not occur in `s`.
pub open spec fn free_of(s: Seq<char>, sep: char) -> bool {
    !s.contains(sep)
}

proof fn lemma_split_consume(cur: Seq<char>, a: Seq<char>, y: Seq<char>, sep: char)
    requires
        free_of(a, sep),
    ensures
        split_acc(cur, a + y, sep) == split_acc(cur + a, y, sep),
    decreases a.len(),
{
    if a.len() > 0 {
        assert((a + y)[0] == a[0]);
        assert(a.contains(a[0]));
        assert((a + y).drop_first() =~= a.drop_first() + y);
        assert(cur.push(a[0]) + a.drop_first() =~= cur + a);
        assert forall|c: char| a.drop_first().contains(c) implies a.contains(c) by {
            let k = choose|k: int| 0 <= k < a.drop_first().len() && a.drop_first()[k] == c;
            assert(a[k + 1] == c);
        }
        lemma_split_consume(cur.push(a[0]), a.drop_first(), y, sep);
    } else {
        assert(a + y =~= y);
        assert(cur + a =~= cur);
    }
}

proof fn lemma_split_join_acc(cur: Seq<char>, ps: Seq<Seq<char>>, sep: char)
    requires
        ps.len() >= 1,
        forall|i: int| 0 <= i < ps.len() ==> free_of(#[trigger] ps[i], sep),
    ensures
        split_acc(cur, join_with(ps, sep), sep) == seq![cur + ps[0]] + ps.drop_first(),
    decreases ps.len(),
{
    if ps.len() == 1 {
        lemma_split_consume(cur, ps[0], Seq::empty(), sep);
        assert(ps[0] + Seq::<char>::empty() =~= ps[0]);
        assert(ps.drop_first() =~= Seq::<Seq<char>>::empty());
        assert(seq![cur + ps[0]] + ps.drop_first() =~= seq![cur + ps[0]]);
    } else {
        let rest = ps.drop_first();
        assert(free_of(ps[0], sep));
        assert(forall|i: int| 0 <= i < rest.len() ==> free_of(#[trigger] rest[i], sep)) by {
            assert forall|i: int| 0 <= i < rest.len() implies free_of(#[trigger] rest[i], sep) by {
                assert(rest[i] == ps[i + 1]);
            }
        }
        let tail = seq![sep] + join_with(rest, sep);
        assert(join_with(ps, sep) =~= ps[0] + tail);
        lemma_split_consume(cur, ps[0], tail, sep);
        assert(tail[0] == sep);
        assert(tail.drop_first() =~= join_with(rest, sep));
        lemma_split_join_acc(Seq::empty(), rest, sep);
        assert(Seq::<char>::empty() + rest[0] =~= rest[0]);
        assert(seq![rest[0]] + rest.drop_first() =~= rest);
    }
}

/// Pieces free of the separator, joined with it, split back into the same
/// pieces.
pub proof fn lemma_split_join(ps: Seq<Seq<char>>, sep: char)
    requires
        ps.len() >= 1,
        forall|i: int| 0 <= i < ps.len() ==> free_of(#[trigger] ps[i], sep),
    ensures
        split_on(join_with(ps, sep), sep) == ps,
{
    lemma_split_join_acc(Seq::empty(), ps, sep);
    assert(Seq::<char>::empty() + ps[0] =~= ps[0]);
    assert(seq![ps[0]] + ps.drop_first() =~= ps);
}

/// Whether `c` is white space in the sense of Unicode's White_Space
/// property, which `char::is_whitespace` and `str::trim` use.
pub open spec fn is_white(c: char) -> bool {
    ||| '\t' <= c && c <= '\r'
    ||| c == ' '
    ||| c == '\u{85}'
    ||| c == '\u{a0}'
    ||| c == '\u{1680}'
    ||| '\u{2000}' <= c && c <= '\u{200a}'
    ||| c == '\u{2028}'
    ||| c == '\u{2029}'
    ||| c == '\u{202f}'
    ||| c == '\u{205f}'
    ||| c == '\u{3000}'
}

/// Whether `s.trim()` is empty: all characters are white space.
pub open spec fn is_blank(s: Seq<char>) -> bool {
    forall|i: int| 0 <= i < s.len() ==> is_white(#[trigger] s[i])
}

fn char_is_white(c: char) -> (res: bool)
    ensures
        res == is_white(c),
{
    ('\t' <= c && c <= '\r') || c == ' ' || c == '\u{85}' || c == '\u{a0}' || c == '\u{1680}'
        || ('\u{2000}' <= c && c <= '\u{200a}') || c == '\u{2028}' || c == '\u{2029}' || c
        == '\u{202f}' || c == '\u{205f}' || c == '\u{3000}'
}

/// Whether `s.trim()` is empty.
pub fn blank(s: &[char]) -> (res: bool)
    ensures
        res == is_blank(s@),
{
    let mut i: usize = 0;
    while i < s.len()
        invariant
            i <= s@.len(),
            forall|j: int| 0 <= j < i ==> is_white(#[trigger] s@[j]),
        decreases s@.len() - i,
    {
        if !char_is_white(s[i]) {
            return false;
        }
        i = i + 1;
    }
    true
}

/// Appends the characters of `s` to `v`.
pub fn push_chars(v: &mut Vec<char>, s: &[char])
    ensures
        final(v)@ == old(v)@ + s@,
{
    let mut i: usize = 0;
    while i < s.len()
        invariant
            i <= s@.len(),
            v@ == old(v)@ + s@.take(i as int),
        decreases s@.len() - i,
    {
        v.push(s[i]);
        assert(s@.take(i as int).push(s@[i as int]) =~= s@.take(i + 1));
        i = i + 1;
    }
    assert(s@.take(s@.len() as int) =~= s@);
}

} // verus!
