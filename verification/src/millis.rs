//! Human-readable rendering of a duration given in milliseconds.

use vstd::prelude::*;
use crate::text::{
    dec, zero_pad, push_decimal, push_decimal_padded, string_from_chars, digits_value, is_ascii_digit,
    all_ascii_digits, lemma_dec_digits,
};

verus! {

/// How `get` renders `ms` milliseconds: `H:MM:SS.mmm` when there is at least
/// an hour, `M:SS.mmm` when there is at least a minute, `S.mmms` when there is
/// at least a second, and `m ms` otherwise.
pub open spec fn spec_arrange(ms: nat) -> Seq<char> {
    let secs = ms / 1000;
    let mins = secs / 60;
    let hours = mins / 60;
    let m = mins % 60;
    let s = secs % 60;
    let r = ms % 1000;
    if hours != 0 {
        dec(hours) + seq![':'] + zero_pad(dec(m), 2) + seq![':'] + zero_pad(dec(s), 2) + seq!['.']
            + zero_pad(dec(r), 3)
    } else if m != 0 {
        dec(m) + seq![':'] + zero_pad(dec(s), 2) + seq!['.'] + zero_pad(dec(r), 3)
    } else if s != 0 {
        dec(s) + seq!['.'] + zero_pad(dec(r), 3) + seq!['s']
    } else {
        dec(r) + seq![' ', 'm', 's']
    }
}

/// Renders a number of milliseconds as a short duration string.
pub fn get(millis: u128) -> (res: String)
    ensures
        res@ == spec_arrange(millis as nat),
{
    let secs = millis / 1000;
    let mins = secs / 60;
    let hours = mins / 60;
    let mins = mins % 60;
    let secs = secs % 60;
    let rest = millis % 1000;
    let mut out: Vec<char> = Vec::new();
    if hours != 0 {
        push_decimal(hours, &mut out);
        out.push(':');
        push_decimal_padded(mins, 2, &mut out);
        out.push(':');
        push_decimal_padded(secs, 2, &mut out);
        out.push('.');
        push_decimal_padded(rest, 3, &mut out);
    } else if mins != 0 {
        push_decimal(mins, &mut out);
        out.push(':');
        push_decimal_padded(secs, 2, &mut out);
        out.push('.');
        push_decimal_padded(rest, 3, &mut out);
    } else if secs != 0 {
        push_decimal(secs, &mut out);
        out.push('.');
        push_decimal_padded(rest, 3, &mut out);
        out.push('s');
    } else {
        push_decimal(rest, &mut out);
        out.push(' ');
        out.push('m');
        out.push('s');
    }
    assert(out@ =~= spec_arrange(millis as nat));
    string_from_chars(&out)
}

} // verus!

verus! {

/// The number of milliseconds a rendering stands for, read back from its
/// fields by the shape of the text: `m ms`, `S.mmms`, `H:MM:SS.mmm` (a colon
/// ten places from the end) or `M:SS.mmm`.
pub open spec fn read_arranged(t: Seq<char>) -> int {
    let n = t.len() as int;
    if n >= 3 && t[n - 1] == 's' && t[n - 2] == 'm' && t[n - 3] == ' ' {
        digits_value(t.subrange(0, n - 3))
    } else if n >= 5 && t[n - 1] == 's' {
        digits_value(t.subrange(0, n - 5)) * 1000 + digits_value(t.subrange(n - 4, n - 1))
    } else if n >= 10 && t[n - 10] == ':' {
        digits_value(t.subrange(0, n - 10)) * 3_600_000 + digits_value(t.subrange(n - 9, n - 7))
            * 60_000 + digits_value(t.subrange(n - 6, n - 4)) * 1000 + digits_value(
            t.subrange(n - 3, n),
        )
    } else {
        digits_value(t.subrange(0, n - 7)) * 60_000 + digits_value(t.subrange(n - 6, n - 4)) * 1000
            + digits_value(t.subrange(n - 3, n))
    }
}

/// A number below 1000 has at most three digits, below 100 at most two,
/// below 10 one.
proof fn lemma_dec_len_small(x: nat)
    ensures
        x < 10 ==> dec(x).len() == 1,
        x < 100 ==> dec(x).len() <= 2,
        x < 1000 ==> dec(x).len() <= 3,
{
    if x >= 10 {
        assert(dec(x).len() == dec(x / 10).len() + 1);
        if x / 10 >= 10 {
            assert(dec(x / 10).len() == dec(x / 100).len() + 1) by {
                assert(x / 10 / 10 == x / 100);
            }
        }
    }
}

/// A run of zeros in front of digits does not change their value.
proof fn lemma_leading_zeros(z: Seq<char>, d: Seq<char>)
    requires
        forall|i: int| 0 <= i < z.len() ==> z[i] == '0',
    ensures
        digits_value(z + d) == digits_value(d),
    decreases z.len() + d.len(),
{
    if d.len() == 0 {
        assert(z + d =~= z);
        if z.len() > 0 {
            lemma_leading_zeros(z.drop_last(), d);
            assert(z.drop_last() + d =~= z.drop_last());
        }
    } else {
        assert((z + d).drop_last() =~= z + d.drop_last());
        assert((z + d).last() == d.last());
        lemma_leading_zeros(z, d.drop_last());
    }
}

/// A number padded to a width it fits in fills the width with digits worth
/// the number.
proof fn lemma_padded(x: nat, w: nat)
    requires
        dec(x).len() <= w,
    ensures
        zero_pad(dec(x), w).len() == w,
        digits_value(zero_pad(dec(x), w)) == x,
        all_ascii_digits(zero_pad(dec(x), w)),
{
    lemma_dec_digits(x);
    let d = dec(x);
    if d.len() < w {
        let z = Seq::new((w - d.len()) as nat, |i: int| '0');
        lemma_leading_zeros(z, d);
        assert(zero_pad(d, w) == z + d);
        assert forall|i: int| 0 <= i < zero_pad(d, w).len() implies is_ascii_digit(
            #[trigger] zero_pad(d, w)[i],
        ) by {
            if i >= z.len() {
                assert(zero_pad(d, w)[i] == d[i - z.len()]);
            }
        }
    }
}

/// Every rendering reads back as the number of milliseconds it renders.
pub proof fn law_arrange_reads_back(ms: nat)
    ensures
        read_arranged(spec_arrange(ms)) == ms,
{
    let secs = ms / 1000;
    let mins = secs / 60;
    let hours = mins / 60;
    let m = mins % 60;
    let s = secs % 60;
    let r = ms % 1000;
    assert(ms == hours * 3_600_000 + m * 60_000 + s * 1000 + r) by (nonlinear_arith)
        requires
            secs == ms / 1000,
            mins == secs / 60,
            hours == mins / 60,
            m == mins % 60,
            s == secs % 60,
            r == ms % 1000,
    ;
    lemma_dec_len_small(m);
    lemma_dec_len_small(s);
    lemma_dec_len_small(r);
    lemma_padded(m, 2);
    lemma_padded(s, 2);
    lemma_padded(r, 3);
    let pm = zero_pad(dec(m), 2);
    let ps = zero_pad(dec(s), 2);
    let pr = zero_pad(dec(r), 3);
    assert(is_ascii_digit(pr[2]));
    assert(is_ascii_digit(ps[1]));
    let t = spec_arrange(ms);
    let n = t.len() as int;
    if hours != 0 {
        let h = dec(hours);
        lemma_dec_digits(hours);
        assert(t == h + seq![':'] + pm + seq![':'] + ps + seq!['.'] + pr);
        assert(n == h.len() + 10);
        assert(t.subrange(0, n - 10) =~= h);
        assert(t.subrange(n - 9, n - 7) =~= pm);
        assert(t.subrange(n - 6, n - 4) =~= ps);
        assert(t.subrange(n - 3, n) =~= pr);
        assert(t[n - 1] == pr[2]);
        assert(t[n - 10] == ':');
    } else if m != 0 {
        let dm = dec(m);
        lemma_dec_digits(m);
        assert(t == dm + seq![':'] + ps + seq!['.'] + pr);
        assert(n == dm.len() + 7);
        assert(t.subrange(0, n - 7) =~= dm);
        assert(t.subrange(n - 6, n - 4) =~= ps);
        assert(t.subrange(n - 3, n) =~= pr);
        assert(t[n - 1] == pr[2]);
        assert(ms == m * 60_000 + s * 1000 + r);
    } else if s != 0 {
        let ds = dec(s);
        lemma_dec_digits(s);
        assert(t == ds + seq!['.'] + pr + seq!['s']);
        assert(n == ds.len() + 5);
        assert(t.subrange(0, n - 5) =~= ds);
        assert(t.subrange(n - 4, n - 1) =~= pr);
        assert(t[n - 2] == pr[2]);
        assert(ms == s * 1000 + r);
    } else {
        let dr = dec(r);
        lemma_dec_digits(r);
        assert(t == dr + seq![' ', 'm', 's']);
        assert(t.subrange(0, n - 3) =~= dr);
    }
}

/// Distinct numbers of milliseconds are rendered differently.
pub proof fn law_arrange_injective(a: nat, b: nat)
    requires
        spec_arrange(a) == spec_arrange(b),
    ensures
        a == b,
{
    law_arrange_reads_back(a);
    law_arrange_reads_back(b);
}

} // verus!
