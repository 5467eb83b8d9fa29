//! Round-trip laws of the parser: the plain triplet and hex strings of any
//! record parse back to the record's own channels, and enclosing double
//! quotes never change what a specifier means.

use vstd::prelude::*;

use crate::color::parse_triplet;
use crate::color::spec_parse;
use crate::color::ColorType;
use crate::color::ParseReason;
use crate::render::dec_digits;
use crate::render::digit_char;
use crate::render::enclosed_of;
use crate::render::hex_of;
use crate::render::hex2;
use crate::render::plain_of;
use crate::scan::all_dec_digits;
use crate::scan::contains_semi;
use crate::scan::dec_val;
use crate::scan::digit_val;
use crate::scan::hex_val;
use crate::scan::is_dec_digit;
use crate::scan::is_dec_u8;
use crate::scan::is_hex_digit;
use crate::scan::lemma_split_semi_two;
use crate::scan::lemma_strip_quotes_append;
use crate::scan::lemma_strip_quotes_no_quote;
use crate::scan::split_semi;
use crate::scan::strip_quotes;

verus! {

/// The digit characters are hex digits with their own value; the first ten
/// are the decimal digits. None of them is a quote, a semicolon, or a hash.
pub proof fn lemma_digit_char_val(d: int)
    requires
        0 <= d < 16,
    ensures
        is_hex_digit(digit_char(d)),
        hex_val(digit_char(d)) == d,
        d < 10 ==> is_dec_digit(digit_char(d)) && digit_val(digit_char(d)) == d,
        digit_char(d) != '"',
        digit_char(d) != ';',
        digit_char(d) != '#',
{
}

/// The decimal rendering of a byte value is a non-empty digit string that
/// reads back to the same value.
pub proof fn lemma_dec_digits_value(n: int)
    requires
        0 <= n < 256,
    ensures
        dec_digits(n).len() >= 1,
        all_dec_digits(dec_digits(n)),
        dec_val(dec_digits(n)) == n,
        is_dec_u8(dec_digits(n)),
{
    reveal_with_fuel(dec_val, 4);
    if n < 10 {
        lemma_digit_char_val(n);
        let s = seq![digit_char(n)];
        assert(s.drop_last() =~= Seq::<char>::empty());
        assert(dec_val(s) == n);
    } else if n < 100 {
        lemma_digit_char_val(n / 10);
        lemma_digit_char_val(n % 10);
        let s = seq![digit_char(n / 10), digit_char(n % 10)];
        let t = seq![digit_char(n / 10)];
        assert(s.drop_last() =~= t);
        assert(t.drop_last() =~= Seq::<char>::empty());
        assert(dec_val(t) == n / 10);
        assert(dec_val(s) == (n / 10) * 10 + n % 10);
    } else {
        lemma_digit_char_val(n / 100);
        lemma_digit_char_val((n / 10) % 10);
        lemma_digit_char_val(n % 10);
        let s = seq![digit_char(n / 100), digit_char((n / 10) % 10), digit_char(n % 10)];
        let t = seq![digit_char(n / 100), digit_char((n / 10) % 10)];
        let u = seq![digit_char(n / 100)];
        assert(s.drop_last() =~= t);
        assert(t.drop_last() =~= u);
        assert(u.drop_last() =~= Seq::<char>::empty());
        assert(dec_val(u) == n / 100);
        assert(dec_val(t) == (n / 100) * 10 + (n / 10) % 10);
        assert(dec_val(s) == dec_val(t) * 10 + n % 10);
        assert(dec_val(t) == n / 10);
        assert(dec_val(s) == (n / 10) * 10 + n % 10);
    }
}

/// Law: the plain `R;G;B` triplet of any channels parses back to the same
/// channels, classified as a true color.
pub proof fn lemma_plain_round_trip(r: u8, g: u8, b: u8)
    ensures
        spec_parse(plain_of(r, g, b)) == Ok::<_, ParseReason>((r, g, b, ColorType::ColorTrue)),
{
    lemma_dec_digits_value(r as int);
    lemma_dec_digits_value(g as int);
    lemma_dec_digits_value(b as int);
    let dr = dec_digits(r as int);
    let dg = dec_digits(g as int);
    let db = dec_digits(b as int);
    let p = plain_of(r, g, b);
    let p1 = dr.len() as int;
    let p2 = dr.len() + 1 + dg.len();
    assert(p.len() == dr.len() + dg.len() + db.len() + 2);
    assert(p[p1] == ';');
    assert(p[p2 as int] == ';');
    assert forall|k: int| 0 <= k < p.len() && k != p1 && k != p2 implies p[k] != ';' by {
        if k < p1 {
            assert(p[k] == dr[k]);
        } else if k < p2 {
            assert(p[k] == dg[k - p1 - 1]);
        } else {
            assert(p[k] == db[k - p2 - 1]);
        }
    }
    assert forall|k: int| 0 <= k < p.len() implies p[k] != '"' by {
        if k < p1 {
            assert(p[k] == dr[k]);
        } else if k == p1 || k == p2 {
        } else if k < p2 {
            assert(p[k] == dg[k - p1 - 1]);
        } else {
            assert(p[k] == db[k - p2 - 1]);
        }
    }
    lemma_strip_quotes_no_quote(p);
    assert(contains_semi(p));
    lemma_split_semi_two(p, p1, p2 as int);
    assert(p.take(p1) =~= dr);
    assert(p.subrange(p1 + 1, p2 as int) =~= dg);
    assert(p.skip(p2 as int + 1) =~= db);
    assert(split_semi(p) == seq![dr, dg, db]);
    assert(parse_triplet(p) == Ok::<_, ParseReason>((r, g, b, ColorType::ColorTrue)));
}

/// Law: the `#RRGGBB` hex code of any channels parses back to the same
/// channels, classified as a true color.
pub proof fn lemma_hex_round_trip(r: u8, g: u8, b: u8)
    ensures
        spec_parse(hex_of(r, g, b)) == Ok::<_, ParseReason>((r, g, b, ColorType::ColorTrue)),
{
    lemma_digit_char_val(r as int / 16);
    lemma_digit_char_val(r as int % 16);
    lemma_digit_char_val(g as int / 16);
    lemma_digit_char_val(g as int % 16);
    lemma_digit_char_val(b as int / 16);
    lemma_digit_char_val(b as int % 16);
    let h = hex_of(r, g, b);
    assert(h.len() == 7);
    assert(h[0] == '#');
    assert(h[1] == digit_char(r as int / 16) && h[2] == digit_char(r as int % 16));
    assert(h[3] == digit_char(g as int / 16) && h[4] == digit_char(g as int % 16));
    assert(h[5] == digit_char(b as int / 16) && h[6] == digit_char(b as int % 16));
    assert forall|k: int| 0 <= k < h.len() implies h[k] != '"' && h[k] != ';' by {
        if k == 0 {
        } else if k == 1 || k == 2 {
            assert(h[k] == hex2(r as int)[k - 1]);
        } else if k == 3 || k == 4 {
            assert(h[k] == hex2(g as int)[k - 3]);
        } else {
            assert(h[k] == hex2(b as int)[k - 5]);
        }
    }
    lemma_strip_quotes_no_quote(h);
    assert(!contains_semi(h));
    assert(!is_dec_digit(h[0]));
    assert(!all_dec_digits(h));
    assert(hex_val(h[1]) * 16 + hex_val(h[2]) == (r as int / 16) * 16 + r as int % 16);
    assert(hex_val(h[1]) * 16 + hex_val(h[2]) == r as int);
    assert(hex_val(h[3]) * 16 + hex_val(h[4]) == g as int);
    assert(hex_val(h[5]) * 16 + hex_val(h[6]) == b as int);
}

/// Law: enclosing any specifier in one double quote on each side never
/// changes what it parses to.
pub proof fn lemma_enclosing_quotes_ignored(s: Seq<char>)
    ensures
        spec_parse(seq!['"'] + s + seq!['"']) == spec_parse(s),
{
    reveal_with_fuel(strip_quotes, 2);
    let q = seq!['"'];
    lemma_strip_quotes_append(q + s, q);
    lemma_strip_quotes_append(q, s);
    assert(q.drop_last() =~= Seq::<char>::empty());
    assert(strip_quotes(q) =~= Seq::<char>::empty());
    assert(strip_quotes(q + s + q) =~= strip_quotes(s));
}

/// Law: the enclosed triplet string of any channels parses exactly as the
/// plain one does, back to the same channels.
pub proof fn lemma_enclosed_round_trip(r: u8, g: u8, b: u8)
    ensures
        spec_parse(enclosed_of(r, g, b)) == spec_parse(plain_of(r, g, b)),
        spec_parse(enclosed_of(r, g, b)) == Ok::<_, ParseReason>((r, g, b, ColorType::ColorTrue)),
{
    lemma_enclosing_quotes_ignored(plain_of(r, g, b));
    lemma_plain_round_trip(r, g, b);
}

} // verus!
