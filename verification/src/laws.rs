//! Proof functions stating the laws that relate parsing, rendering and
//! comparison.

use vstd::prelude::*;
use vstd::std_specs::cmp::PartialOrdSpec;
use crate::error::MoneyError;
use crate::money::Money;
use crate::parse_model::{
    digit_seq, digit_value, is_digit, lemma_scan_digit_prefix, scan, seq_val, spec_parse,
};
use crate::text_model::{abs_val, dec_digits, dec_rep, digit_char, spec_to_text};
use vstd::arithmetic::div_mod::{
    lemma_div_is_ordered, lemma_div_nonincreasing, lemma_div_pos_is_pos,
    lemma_fundamental_div_mod, lemma_mod_multiples_basic,
};

verus! {

/// The decimal representation of a number is made of digits and reads back
/// as that number.
proof fn lemma_dec_rep_value(n: nat)
    ensures
        digit_seq(dec_rep(n)),
        seq_val(dec_rep(n)) == n,
        n > 0 ==> dec_rep(n).len() >= 1,
    decreases n,
{
    if n > 0 {
        lemma_dec_rep_value(n / 10);
        let ds = dec_rep(n);
        let front = dec_rep(n / 10);
        let d = n as int % 10;
        assert(ds == front + seq![digit_char(d)]);
        assert(0 <= d < 10);
        assert(is_digit(digit_char(d)));
        assert forall|i: int| 0 <= i < ds.len() implies is_digit(ds[i]) by {
            if i < front.len() {
                assert(ds[i] == front[i]);
            } else {
                assert(ds[i] == digit_char(d));
            }
        }
        assert(ds.drop_last() =~= front);
        assert(ds.last() == digit_char(d));
        assert(digit_value(digit_char(d)) == d);
        lemma_fundamental_div_mod(n as int, 10);
    }
}

/// Likewise for the padded form that renders zero as a single digit.
proof fn lemma_dec_digits_value(n: nat)
    ensures
        digit_seq(dec_digits(n)),
        seq_val(dec_digits(n)) == n,
        dec_digits(n).len() >= 1,
{
    lemma_dec_rep_value(n);
    if n == 0 {
        let ds = dec_digits(0);
        assert(ds == seq!['0']);
        assert(ds.drop_last() =~= Seq::<char>::empty());
        assert(seq_val(ds) == seq_val(ds.drop_last()) * 10 + digit_value('0'));
    }
}

/// Constructing from a whole amount renders as that amount followed by
/// `".00"`: for any whole-unit amount within the representable bound, the
/// scaled amount fits in the signed 64-bit range and its canonical text is
/// the sign, the decimal digits of the magnitude, and two zero fractional
/// digits.
pub proof fn lemma_whole_amount_text(n: int)
    requires
        -92233720368547758 <= n <= 92233720368547758,
    ensures
        i64::MIN <= n * 100 <= i64::MAX,
        spec_to_text(n * 100) == (if n < 0 {
            seq!['-']
        } else {
            Seq::<char>::empty()
        }) + dec_digits(abs_val(n) as nat) + seq!['.', '0', '0'],
{
    let v = n * 100;
    let a = abs_val(v);
    assert(a == abs_val(n) * 100);
    vstd::arithmetic::div_mod::lemma_div_by_multiple(abs_val(n), 100);
    lemma_mod_multiples_basic(abs_val(n), 100);
    assert(a / 100 == abs_val(n));
    assert(a % 100 == 0);
    assert(spec_to_text(v) =~= (if n < 0 {
        seq!['-']
    } else {
        Seq::<char>::empty()
    }) + dec_digits(abs_val(n) as nat) + seq!['.', '0', '0']);
}

/// Re-parsing rendered text is the identity: for every representable scaled
/// amount whose magnitude also fits (all but the single most negative one,
/// whose text reads back as an overflow), parsing the canonical text yields
/// exactly the amount back.
pub proof fn lemma_parse_of_render(v: int)
    requires
        i64::MIN < v <= i64::MAX,
    ensures
        spec_parse(spec_to_text(v)) == Ok::<int, MoneyError>(v),
{
    let a = abs_val(v);
    assert(0 <= a <= i64::MAX);
    let whole = a / 100;
    let fpart = a % 100;
    let f1 = fpart / 10;
    let f2 = fpart % 10;
    lemma_div_pos_is_pos(a, 100);
    lemma_div_nonincreasing(a, 100);
    assert(0 <= whole <= a);
    assert(0 <= fpart < 100);
    lemma_div_is_ordered(fpart, 99, 10);
    assert(0 <= f1 <= 9);
    assert(0 <= f2 <= 9);
    lemma_fundamental_div_mod(a, 100);
    lemma_fundamental_div_mod(fpart, 10);
    assert(a == whole * 100 + f1 * 10 + f2);

    let wd = dec_digits(whole as nat);
    lemma_dec_digits_value(whole as nat);
    let t = seq!['.', digit_char(f1), digit_char(f2)];
    let sign: Seq<char> = if v < 0 {
        seq!['-']
    } else {
        Seq::empty()
    };
    let s = spec_to_text(v);
    assert(s == sign + wd + seq!['.'] + seq![digit_char(f1), digit_char(f2)]);
    assert(s.len() > 0);

    let body = if s[0] == '-' || s[0] == '+' {
        s.subrange(1, s.len() as int)
    } else {
        s
    };
    if v < 0 {
        assert(s[0] == '-');
        assert(body =~= wd + t);
    } else {
        assert(s[0] == wd[0]);
        assert(is_digit(s[0]));
        assert(s[0] != '-' && s[0] != '+');
        assert(body =~= wd + t);
    }

    lemma_scan_digit_prefix(wd, t, 0);
    assert(scan(body, 0, false, 0) == scan(t, whole, false, 0));

    // One unfolding step for the point and for each fractional digit.
    let t1 = seq![digit_char(f1), digit_char(f2)];
    let t2 = seq![digit_char(f2)];
    assert(t.subrange(1, t.len() as int) =~= t1);
    assert(t1.subrange(1, t1.len() as int) =~= t2);
    assert(t2.subrange(1, t2.len() as int) =~= Seq::<char>::empty());
    assert(is_digit(digit_char(f1)) && digit_value(digit_char(f1)) == f1);
    assert(is_digit(digit_char(f2)) && digit_value(digit_char(f2)) == f2);
    assert(whole * 10 + f1 <= whole * 100 + f1 * 10 + f2);
    assert(scan(t, whole, false, 0) == scan(t1, whole, true, 0));
    assert(scan(t1, whole, true, 0) == scan(t2, whole * 10 + f1, true, 1));
    assert((whole * 10 + f1) * 10 + f2 == whole * 100 + f1 * 10 + f2);
    assert((whole * 10 + f1) * 10 + f2 == a);
    assert(scan(t2, whole * 10 + f1, true, 1) == scan(Seq::<char>::empty(), a, true, 2));
    assert(scan(Seq::<char>::empty(), a, true, 2) == Ok::<(int, int), MoneyError>((a, 2)));

    if v < 0 {
        assert(spec_parse(s) == Ok::<int, MoneyError>(-a));
        assert(-a == v);
    } else {
        assert(spec_parse(s) == Ok::<int, MoneyError>(a));
    }
}

/// The order on money values tracks the real monetary value: one money
/// value compares less than, equal to, or greater than another exactly as
/// its scaled amount does, and the scaled amounts order as the real values
/// they stand for.
pub proof fn lemma_order_tracks_value(a: Money, b: Money)
    ensures
        a.partial_cmp_spec(&b) == Some(core::cmp::Ordering::Less) <==> a@ < b@,
        a.partial_cmp_spec(&b) == Some(core::cmp::Ordering::Equal) <==> a@ == b@,
        a.partial_cmp_spec(&b) == Some(core::cmp::Ordering::Greater) <==> a@ > b@,
{
}

} // verus!
