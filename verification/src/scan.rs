//! The character-level model of specifier parsing: stripping double quotes,
//! splitting on semicolons, and reading decimal and hex digits, together
//! with the executable scanners proved against that model.

use vstd::prelude::*;

verus! {

/// `s` with every double-quote character removed.
pub open spec fn strip_quotes(s: Seq<char>) -> Seq<char>
    decreases s.len(),
{
    if s.len() == 0 {
        Seq::empty()
    } else {
        let rest = strip_quotes(s.drop_last());
        if s.last() == '"' {
            rest
        } else {
            rest.push(s.last())
        }
    }
}

/// `c` is an ASCII decimal digit (codes 48–57).
pub open spec fn is_dec_digit(c: char) -> bool {
    48 <= c as int && c as int <= 57
}

/// The value of a decimal digit character.
pub open spec fn digit_val(c: char) -> int {
    c as int - 48
}

/// `c` is an ASCII hex digit: a decimal digit, or a letter `a`–`f` (97–102)
/// or `A`–`F` (65–70).
pub open spec fn is_hex_digit(c: char) -> bool {
    is_dec_digit(c) || (97 <= c as int && c as int <= 102) || (65 <= c as int && c as int <= 70)
}

/// The value of a hex digit character, either case.
pub open spec fn hex_val(c: char) -> int {
    if is_dec_digit(c) {
        c as int - 48
    } else if 97 <= c as int {
        c as int - 87
    } else {
        c as int - 55
    }
}

/// Every character of `s` is a decimal digit.
pub open spec fn all_dec_digits(s: Seq<char>) -> bool {
    forall|k: int| 0 <= k < s.len() ==> is_dec_digit(s[k])
}

/// The value of the decimal digit string `s`, read left to right.
pub open spec fn dec_val(s: Seq<char>) -> int
    decreases s.len(),
{
    if s.len() == 0 {
        0
    } else {
        dec_val(s.drop_last()) * 10 + digit_val(s.last())
    }
}

/// `s` parses as an unsigned 8-bit decimal integer: non-empty, decimal
/// digits only, value at most 255.
pub open spec fn is_dec_u8(s: Seq<char>) -> bool {
    s.len() > 0 && all_dec_digits(s) && dec_val(s) <= 255
}

/// The index of the first semicolon of `s`, or `s.len()` if it has none.
pub open spec fn first_semi(s: Seq<char>) -> int
    decreases s.len(),
{
    if s.len() == 0 {
        0
    } else if s[0] == ';' {
        0
    } else {
        1 + first_semi(s.drop_first())
    }
}

/// `s` contains a semicolon.
pub open spec fn contains_semi(s: Seq<char>) -> bool {
    exists|k: int| 0 <= k < s.len() && s[k] == ';'
}

/// `s` split on each of its semicolons, in order; a string without a
/// semicolon is one part.
pub open spec fn split_semi(s: Seq<char>) -> Seq<Seq<char>>
    decreases s.len(),
{
    let i = first_semi(s);
    if 0 <= i < s.len() {
        seq![s.take(i)] + split_semi(s.skip(i + 1))
    } else {
        seq![s]
    }
}

/// `first_semi` finds the first semicolon: it is in range exactly when one
/// exists, it points at a semicolon, and nothing before it is one.
pub proof fn lemma_first_semi(s: Seq<char>)
    ensures
        0 <= first_semi(s) <= s.len(),
        first_semi(s) < s.len() ==> s[first_semi(s)] == ';',
        forall|k: int| 0 <= k < first_semi(s) ==> s[k] != ';',
        contains_semi(s) <==> first_semi(s) < s.len(),
    decreases s.len(),
{
    if s.len() == 0 {
    } else if s[0] == ';' {
    } else {
        lemma_first_semi(s.drop_first());
        let t = s.drop_first();
        assert forall|k: int| 0 <= k < first_semi(s) implies s[k] != ';' by {
            if k > 0 {
                assert(t[k - 1] == s[k]);
            }
        }
        if contains_semi(s) {
            let w = choose|k: int| 0 <= k < s.len() && s[k] == ';';
            assert(t[w - 1] == ';');
            assert(contains_semi(t));
        }
        if contains_semi(t) {
            let w = choose|k: int| 0 <= k < t.len() && t[k] == ';';
            assert(s[w + 1] == ';');
        }
    }
}

/// A string without a semicolon splits into itself alone.
pub proof fn lemma_split_semi_none(s: Seq<char>)
    requires
        forall|k: int| 0 <= k < s.len() ==> s[k] != ';',
    ensures
        split_semi(s) == seq![s],
{
    lemma_first_semi(s);
}

/// A string whose only semicolon is at `p` splits into the parts before
/// and after it.
pub proof fn lemma_split_semi_one(s: Seq<char>, p: int)
    requires
        0 <= p < s.len(),
        s[p] == ';',
        forall|k: int| 0 <= k < s.len() && k != p ==> s[k] != ';',
    ensures
        split_semi(s) == seq![s.take(p), s.skip(p + 1)],
{
    lemma_first_semi(s);
    assert(first_semi(s) == p);
    let t = s.skip(p + 1);
    assert forall|k: int| 0 <= k < t.len() implies t[k] != ';' by {
        assert(t[k] == s[p + 1 + k]);
    }
    lemma_split_semi_none(t);
    assert(split_semi(s) =~~= seq![s.take(p), s.skip(p + 1)]);
}

/// A string with exactly two semicolons, at `p1` and `p2`, splits into the
/// three parts around them.
pub proof fn lemma_split_semi_two(s: Seq<char>, p1: int, p2: int)
    requires
        0 <= p1 < p2 < s.len(),
        s[p1] == ';',
        s[p2] == ';',
        forall|k: int| 0 <= k < s.len() && k != p1 && k != p2 ==> s[k] != ';',
    ensures
        split_semi(s) == seq![s.take(p1), s.subrange(p1 + 1, p2), s.skip(p2 + 1)],
{
    lemma_first_semi(s);
    assert(first_semi(s) == p1);
    let t = s.skip(p1 + 1);
    assert(t[p2 - p1 - 1] == s[p2]);
    assert forall|k: int| 0 <= k < t.len() && k != p2 - p1 - 1 implies t[k] != ';' by {
        assert(t[k] == s[p1 + 1 + k]);
    }
    lemma_split_semi_one(t, p2 - p1 - 1);
    assert(t.take(p2 - p1 - 1) =~= s.subrange(p1 + 1, p2));
    assert(t.skip(p2 - p1) =~= s.skip(p2 + 1));
    assert(split_semi(s) =~~= seq![s.take(p1), s.subrange(p1 + 1, p2), s.skip(p2 + 1)]);
}

/// A split always has at least one part.
pub proof fn lemma_split_semi_nonempty(s: Seq<char>)
    ensures
        split_semi(s).len() >= 1,
{
}

/// A string with a semicolon splits into at least two parts.
pub proof fn lemma_split_semi_at_least_two(s: Seq<char>, p: int)
    requires
        0 <= p < s.len(),
        s[p] == ';',
    ensures
        split_semi(s).len() >= 2,
{
    lemma_first_semi(s);
    lemma_split_semi_nonempty(s.skip(first_semi(s) + 1));
}

/// A string with two distinct semicolons splits into at least three parts.
pub proof fn lemma_split_semi_at_least_three(s: Seq<char>, p1: int, p2: int)
    requires
        0 <= p1 < p2 < s.len(),
        s[p1] == ';',
        s[p2] == ';',
    ensures
        split_semi(s).len() >= 3,
    decreases s.len(),
{
    lemma_first_semi(s);
    let i = first_semi(s);
    assert(i <= p1);
    let t = s.skip(i + 1);
    if i == p1 {
        assert(t[p2 - i - 1] == s[p2]);
        lemma_split_semi_at_least_two(t, p2 - i - 1);
    } else {
        assert(t[p1 - i - 1] == s[p1]);
        assert(t[p2 - i - 1] == s[p2]);
        lemma_split_semi_at_least_three(t, p1 - i - 1, p2 - i - 1);
    }
}

/// A string with three distinct semicolons splits into at least four parts.
pub proof fn lemma_split_semi_at_least_four(s: Seq<char>, p1: int, p2: int, p3: int)
    requires
        0 <= p1 < p2 < p3 < s.len(),
        s[p1] == ';',
        s[p2] == ';',
        s[p3] == ';',
    ensures
        split_semi(s).len() >= 4,
    decreases s.len(),
{
    lemma_first_semi(s);
    let i = first_semi(s);
    assert(i <= p1);
    let t = s.skip(i + 1);
    if i == p1 {
        assert(t[p2 - i - 1] == s[p2]);
        assert(t[p3 - i - 1] == s[p3]);
        lemma_split_semi_at_least_three(t, p2 - i - 1, p3 - i - 1);
    } else {
        assert(t[p1 - i - 1] == s[p1]);
        assert(t[p2 - i - 1] == s[p2]);
        assert(t[p3 - i - 1] == s[p3]);
        lemma_split_semi_at_least_four(t, p1 - i - 1, p2 - i - 1, p3 - i - 1);
    }
}

/// Quote stripping distributes over concatenation.
pub proof fn lemma_strip_quotes_append(a: Seq<char>, b: Seq<char>)
    ensures
        strip_quotes(a + b) == strip_quotes(a) + strip_quotes(b),
    decreases b.len(),
{
    if b.len() == 0 {
        assert(a + b =~= a);
        assert(strip_quotes(a) + strip_quotes(b) =~= strip_quotes(a));
    } else {
        assert((a + b).drop_last() =~= a + b.drop_last());
        lemma_strip_quotes_append(a, b.drop_last());
        assert((a + b).last() == b.last());
        if b.last() != '"' {
            assert((strip_quotes(a) + strip_quotes(b.drop_last())).push(b.last()) =~= strip_quotes(
                a,
            ) + strip_quotes(b));
        }
    }
}

/// A string without a double quote is unchanged by quote stripping.
pub proof fn lemma_strip_quotes_no_quote(s: Seq<char>)
    requires
        forall|k: int| 0 <= k < s.len() ==> s[k] != '"',
    ensures
        strip_quotes(s) == s,
    decreases s.len(),
{
    if s.len() == 0 {
        assert(strip_quotes(s) =~= s);
    } else {
        lemma_strip_quotes_no_quote(s.drop_last());
        assert(strip_quotes(s.drop_last()).push(s.last()) =~= s);
    }
}

/// A decimal digit string has a non-negative value.
pub proof fn lemma_dec_val_nonneg(s: Seq<char>)
    requires
        all_dec_digits(s),
    ensures
        dec_val(s) >= 0,
    decreases s.len(),
{
    if s.len() > 0 {
        assert(all_dec_digits(s.drop_last()));
        lemma_dec_val_nonneg(s.drop_last());
    }
}

/// The value of a decimal digit string is at least the value of any of its
/// prefixes: appending digits never shrinks it.
pub proof fn lemma_dec_val_prefix(s: Seq<char>, i: int)
    requires
        all_dec_digits(s),
        0 <= i <= s.len(),
    ensures
        dec_val(s.take(i)) <= dec_val(s),
    decreases s.len() - i,
{
    if i == s.len() {
        assert(s.take(i) =~= s);
    } else {
        assert(s.take(i + 1).drop_last() =~= s.take(i));
        assert(all_dec_digits(s.take(i)));
        lemma_dec_val_nonneg(s.take(i));
        assert(dec_val(s.take(i + 1)) == dec_val(s.take(i)) * 10 + digit_val(s[i]));
        lemma_dec_val_prefix(s, i + 1);
    }
}

/// Strips the double quotes out of `s`, yielding its remaining characters.
pub fn strip_quotes_chars(s: &str) -> (v: Vec<char>)
    ensures
        v@ == strip_quotes(s@),
{
    let n = s.unicode_len();
    let mut v: Vec<char> = Vec::new();
    let mut i: usize = 0;
    while i < n
        invariant
            i <= n,
            n == s@.len(),
            v@ == strip_quotes(s@.take(i as int)),
        decreases n - i,
    {
        let c = s.get_char(i);
        proof {
            assert(s@.take(i as int + 1).drop_last() =~= s@.take(i as int));
            assert(s@.take(i as int + 1).last() == s@[i as int]);
        }
        if c != '"' {
            v.push(c);
        }
        i = i + 1;
    }
    proof {
        assert(s@.take(n as int) =~= s@);
    }
    v
}

/// Whether every character of `v` between `from` and `to` is a decimal digit.
pub fn scan_all_dec_digits(v: &Vec<char>, from: usize, to: usize) -> (r: bool)
    requires
        from <= to <= v@.len(),
    ensures
        r == all_dec_digits(v@.subrange(from as int, to as int)),
{
    let ghost sub = v@.subrange(from as int, to as int);
    let mut i: usize = from;
    while i < to
        invariant
            from <= i <= to <= v@.len(),
            sub == v@.subrange(from as int, to as int),
            forall|k: int| 0 <= k < i - from ==> is_dec_digit(sub[k]),
        decreases to - i,
    {
        let c = v[i];
        proof {
            assert(sub[i - from] == v@[i as int]);
        }
        if !('0' <= c && c <= '9') {
            proof {
                assert(!is_dec_digit(sub[i - from]));
            }
            return false;
        }
        i = i + 1;
    }
    true
}

/// The value of the all-digit segment of `v` between `from` and `to`, or
/// `None` if that value exceeds 255.
pub fn dec_value_capped(v: &Vec<char>, from: usize, to: usize) -> (r: Option<u8>)
    requires
        from <= to <= v@.len(),
        all_dec_digits(v@.subrange(from as int, to as int)),
    ensures
        match r {
            Some(x) => x as int == dec_val(v@.subrange(from as int, to as int)),
            None => dec_val(v@.subrange(from as int, to as int)) > 255,
        },
{
    let ghost sub = v@.subrange(from as int, to as int);
    let mut acc: u16 = 0;
    let mut i: usize = from;
    while i < to
        invariant
            from <= i <= to <= v@.len(),
            sub == v@.subrange(from as int, to as int),
            all_dec_digits(sub),
            acc <= 255,
            acc as int == dec_val(sub.take(i - from)),
        decreases to - i,
    {
        let c = v[i];
        let u = c as u32;
        proof {
            assert(sub[i - from] == v@[i as int]);
            assert(is_dec_digit(sub[i - from]));
        }
        let d = (u - 48) as u16;
        let next = acc * 10 + d;
        proof {
            assert(sub.take(i - from + 1).drop_last() =~= sub.take(i - from));
            assert(sub.take(i - from + 1).last() == sub[i - from]);
            assert(d as int == digit_val(sub[i - from]));
            assert(next as int == dec_val(sub.take(i - from + 1)));
        }
        if next > 255 {
            proof {
                lemma_dec_val_prefix(sub, i - from + 1);
            }
            return None;
        }
        acc = next;
        i = i + 1;
    }
    proof {
        assert(sub.take(to - from) =~= sub);
    }
    Some(acc as u8)
}

/// The value of one hex digit character, or `None` if `c` is not one.
pub fn hex_digit_value(c: char) -> (r: Option<u8>)
    ensures
        match r {
            Some(x) => is_hex_digit(c) && x as int == hex_val(c) && x < 16,
            None => !is_hex_digit(c),
        },
{
    let u = c as u32;
    if 48 <= u && u <= 57 {
        Some((u - 48) as u8)
    } else if 97 <= u && u <= 102 {
        Some((u - 87) as u8)
    } else if 65 <= u && u <= 70 {
        Some((u - 55) as u8)
    } else {
        None
    }
}

} // verus!
