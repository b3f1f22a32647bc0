//! Character-level helpers shared by the formatting and parsing code.

use vstd::prelude::*;

verus! {

/// The ASCII character of a decimal digit.
pub open spec fn digit_char(d: int) -> char {
    if d == 0 { '0' } else if d == 1 { '1' } else if d == 2 { '2' } else if d == 3 { '3' }
    else if d == 4 { '4' } else if d == 5 { '5' } else if d == 6 { '6' } else if d == 7 { '7' }
    else if d == 8 { '8' } else { '9' }
}

/// The shortest decimal representation of a natural number.
pub open spec fn dec(n: nat) -> Seq<char>
    decreases n,
{
    if n < 10 {
        seq![digit_char(n as int)]
    } else {
        dec(n / 10).push(digit_char((n % 10) as int))
    }
}

/// `s` right-aligned in a field of `width` characters filled with `'0'`.
pub open spec fn zero_pad(s: Seq<char>, width: nat) -> Seq<char> {
    if s.len() >= width {
        s
    } else {
        Seq::new((width - s.len()) as nat, |i: int| '0') + s
    }
}

fn digit_to_char(d: u8) -> (c: char)
    requires
        d < 10,
    ensures
        c == digit_char(d as int),
{
    match d {
        0 => '0',
        1 => '1',
        2 => '2',
        3 => '3',
        4 => '4',
        5 => '5',
        6 => '6',
        7 => '7',
        8 => '8',
        _ => '9',
    }
}

/// Appends the decimal digits of `n` to `out`.
pub fn push_decimal(n: u128, out: &mut Vec<char>)
    ensures
        final(out)@ == old(out)@ + dec(n as nat),
    decreases n,
{
    if n < 10 {
        out.push(digit_to_char(n as u8));
        assert(dec(n as nat) == seq![digit_char(n as int)]);
    } else {
        push_decimal(n / 10, out);
        out.push(digit_to_char((n % 10) as u8));
    }
}

/// Appends the decimal digits of `n`, left-padded with zeros to `width`.
pub fn push_decimal_padded(n: u128, width: usize, out: &mut Vec<char>)
    ensures
        final(out)@ == old(out)@ + zero_pad(dec(n as nat), width as nat),
{
    let mut digits: Vec<char> = Vec::new();
    push_decimal(n, &mut digits);
    assert(digits@ == dec(n as nat));
    let len = digits.len();
    let ghost start = out@;
    if len < width {
        let fill = width - len;
        let mut i: usize = 0;
        while i < fill
            invariant
                i <= fill,
                out@ == start + Seq::new(i as nat, |j: int| '0'),
            decreases fill - i,
        {
            out.push('0');
            i = i + 1;
            assert(out@ =~= start + Seq::new(i as nat, |j: int| '0'));
        }
    }
    let ghost mid = out@;
    let mut k: usize = 0;
    while k < len
        invariant
            k <= len,
            len == digits@.len(),
            out@ == mid + digits@.take(k as int),
        decreases len - k,
    {
        out.push(digits[k]);
        k = k + 1;
        assert(out@ =~= mid + digits@.take(k as int));
    }
    assert(digits@.take(len as int) =~= digits@);
    assert(out@ =~= old(out)@ + zero_pad(dec(n as nat), width as nat));
}

/// Appends `c` to `s` (`String::push`).
#[verifier::external_body]
pub fn push_char(s: &mut String, c: char)
    ensures
        final(s)@ == old(s)@.push(c),
{
    s.push(c);
}

/// The string whose characters are `chars`, in order.
pub fn string_from_chars(chars: &Vec<char>) -> (s: String)
    ensures
        s@ == chars@,
{
    let mut s = String::new();
    let mut i: usize = 0;
    while i < chars.len()
        invariant
            i <= chars@.len(),
            s@ == chars@.take(i as int),
        decreases chars@.len() - i,
    {
        push_char(&mut s, chars[i]);
        i = i + 1;
        assert(s@ =~= chars@.take(i as int));
    }
    assert(chars@.take(i as int) =~= chars@);
    s
}

} // verus!

verus! {

/// What `{:?}` renders for a string slice: the text in double quotes, with
/// quotes, backslashes and non-printable characters escaped.
pub uninterp spec fn debug_quoted(s: Seq<char>) -> Seq<char>;

/// The `Debug` rendering of a string slice (`<str as Debug>::fmt`). Its result
/// is named by `debug_quoted` and not spelled out here.
#[verifier::external_body]
pub fn debug_quote(s: &str) -> (res: String)
    ensures
        res@ == debug_quoted(s@),
{
    format!("{:?}", s)
}

/// What `{:?}` renders for the file path `s`: the path in double quotes, with
/// quotes (single ones too), backslashes and non-printable characters escaped.
pub uninterp spec fn path_debug_quoted(s: Seq<char>) -> Seq<char>;

/// The `Debug` rendering of a file path (`<std::path::Path as Debug>::fmt`).
/// Its result is named by `path_debug_quoted` and not spelled out here.
#[verifier::external_body]
pub fn path_debug_quote(s: &str) -> (res: String)
    ensures
        res@ == path_debug_quoted(s@),
{
    format!("{:?}", std::path::Path::new(s))
}

/// Appends the characters of `s` to `out`.
pub fn push_str(out: &mut Vec<char>, s: &str)
    ensures
        final(out)@ == old(out)@ + s@,
{
    broadcast use vstd::string::group_string_axioms;

    let ghost start = out@;
    for c in it: s.chars()
        invariant
            it.seq() == s@,
            out@ == start + s@.take(it.index() as int),
    {
        out.push(c);
        assert(out@ =~= start + s@.take(it.index() + 1));
    }
    assert(s@.take(s@.len() as int) =~= s@);
}

} // verus!

verus! {

/// The characters of `s`, in order.
pub fn to_chars(s: &str) -> (chars: Vec<char>)
    ensures
        chars@ == s@,
{
    let mut chars: Vec<char> = Vec::new();
    push_str(&mut chars, s);
    assert(chars@ =~= s@);
    chars
}

/// `c` is one of the characters `0` to `9`.
pub open spec fn is_ascii_digit(c: char) -> bool {
    '0' <= c && c <= '9'
}

/// Every character of `s` is an ASCII digit.
pub open spec fn all_ascii_digits(s: Seq<char>) -> bool {
    forall|i: int| 0 <= i < s.len() ==> is_ascii_digit(#[trigger] s[i])
}

/// The number written by a string of decimal digits.
pub open spec fn digits_value(s: Seq<char>) -> int
    decreases s.len(),
{
    if s.len() == 0 {
        0
    } else {
        digits_value(s.drop_last()) * 10 + (s.last() as int - '0' as int)
    }
}

/// A non-empty run of ASCII digits, read as a decimal number.
pub open spec fn unsigned_text(s: Seq<char>) -> Option<int> {
    if s.len() > 0 && all_ascii_digits(s) {
        Some(digits_value(s))
    } else {
        None
    }
}

/// The integer that `str::parse` reads from `s` (decimal, an optional leading
/// `+`, and for signed targets an optional leading `-`), before its range is
/// checked against the target type.
pub open spec fn int_text(s: Seq<char>, signed: bool) -> Option<int> {
    if s.len() > 0 && s[0] == '+' {
        unsigned_text(s.drop_first())
    } else if signed && s.len() > 0 && s[0] == '-' {
        match unsigned_text(s.drop_first()) {
            Some(v) => Some(-v),
            None => None,
        }
    } else {
        unsigned_text(s)
    }
}

/// Integers whose magnitude is below this bound are the only ones any of the
/// primitive integer types up to 64 bits can hold.
pub open spec fn small_int(v: int) -> bool {
    -0x1_0000_0000_0000_0000 < v < 0x1_0000_0000_0000_0000
}

/// A string of digits never reads as a negative number.
pub proof fn lemma_digits_value_nonneg(s: Seq<char>)
    requires
        all_ascii_digits(s),
    ensures
        digits_value(s) >= 0,
    decreases s.len(),
{
    if s.len() > 0 {
        assert(all_ascii_digits(s.drop_last())) by {
            assert forall|i: int| 0 <= i < s.drop_last().len() implies is_ascii_digit(
                #[trigger] s.drop_last()[i],
            ) by {
                assert(s.drop_last()[i] == s[i]);
            }
        }
        lemma_digits_value_nonneg(s.drop_last());
        assert(is_ascii_digit(s[s.len() - 1]));
    }
}

/// A digit string is worth at least as much as any of its prefixes.
proof fn lemma_digits_value_prefix(s: Seq<char>, k: int)
    requires
        all_ascii_digits(s),
        0 <= k <= s.len(),
    ensures
        digits_value(s) >= digits_value(s.take(k)),
    decreases s.len(),
{
    if k < s.len() {
        assert(all_ascii_digits(s.drop_last())) by {
            assert forall|i: int| 0 <= i < s.drop_last().len() implies is_ascii_digit(
                #[trigger] s.drop_last()[i],
            ) by {
                assert(s.drop_last()[i] == s[i]);
            }
        }
        lemma_digits_value_prefix(s.drop_last(), k);
        assert(s.drop_last().take(k) =~= s.take(k));
        lemma_digits_value_nonneg(s.drop_last());
        assert(is_ascii_digit(s[s.len() - 1]));
    } else {
        assert(s.take(k) =~= s);
    }
}

/// Reads a non-empty run of ASCII digits starting at `start`, up to the end.
/// Gives up (`None`) on a non-digit, on an empty run, and once the value
/// grows past 2^64.
fn read_unsigned(chars: &Vec<char>, start: usize) -> (res: Option<u128>)
    requires
        start <= chars@.len(),
    ensures
        match res {
            Some(v) => unsigned_text(chars@.skip(start as int)) == Some(v as int) && v
                < 0x1_0000_0000_0000_0000,
            None => match unsigned_text(chars@.skip(start as int)) {
                Some(v) => v >= 0x1_0000_0000_0000_0000,
                None => true,
            },
        },
{
    let ghost t = chars@.skip(start as int);
    if start == chars.len() {
        return None;
    }
    let mut acc: u128 = 0;
    let mut i: usize = start;
    while i < chars.len()
        invariant
            start <= i <= chars@.len(),
            t == chars@.skip(start as int),
            all_ascii_digits(t.take(i - start)),
            acc as int == digits_value(t.take(i - start)),
            acc < 0x1_0000_0000_0000_0000,
        decreases chars@.len() - i,
    {
        let c = chars[i];
        if !('0' <= c && c <= '9') {
            assert(t[i - start] == c);
            assert(!all_ascii_digits(t));
            return None;
        }
        let d = (c as u32 - '0' as u32) as u128;
        let ghost prev = t.take(i - start);
        acc = acc * 10 + d;
        i = i + 1;
        assert(t.take(i - start).drop_last() =~= prev);
        assert(all_ascii_digits(t.take(i - start))) by {
            assert forall|j: int| 0 <= j < t.take(i - start).len() implies is_ascii_digit(
                #[trigger] t.take(i - start)[j],
            ) by {
                if j < prev.len() {
                    assert(t.take(i - start)[j] == prev[j]);
                }
            }
        }
        if acc >= 0x1_0000_0000_0000_0000 {
            proof {
                if all_ascii_digits(t) {
                    lemma_digits_value_prefix(t, i - start);
                }
            }
            return None;
        }
    }
    assert(t.take(i - start) =~= t);
    Some(acc)
}

/// Parses a decimal integer the way `str::parse` does for the primitive
/// integer types: an optional `+`, or for `signed` an optional `-`, then one
/// or more ASCII digits. Values of magnitude 2^64 or more are reported as
/// `None`, since no target type holds them.
pub fn parse_int_text(s: &str, signed: bool) -> (res: Option<i128>)
    ensures
        match res {
            Some(v) => int_text(s@, signed) == Some(v as int) && small_int(v as int),
            None => match int_text(s@, signed) {
                Some(v) => !small_int(v),
                None => true,
            },
        },
{
    let chars = to_chars(s);
    if chars.len() > 0 && chars[0] == '+' {
        assert(chars@.skip(1) =~= s@.drop_first());
        match read_unsigned(&chars, 1) {
            Some(v) => Some(v as i128),
            None => None,
        }
    } else if signed && chars.len() > 0 && chars[0] == '-' {
        assert(chars@.skip(1) =~= s@.drop_first());
        match read_unsigned(&chars, 1) {
            Some(v) => Some(-(v as i128)),
            None => None,
        }
    } else {
        assert(chars@.skip(0) =~= s@);
        match read_unsigned(&chars, 0) {
            Some(v) => Some(v as i128),
            None => None,
        }
    }
}

} // verus!

verus! {

/// The strings of `list` with `sep` between consecutive ones.
pub open spec fn seq_join(list: Seq<Seq<char>>, sep: Seq<char>) -> Seq<char>
    decreases list.len(),
{
    if list.len() == 0 {
        Seq::empty()
    } else if list.len() == 1 {
        list[0]
    } else {
        seq_join(list.drop_last(), sep) + sep + list.last()
    }
}

/// Joins the strings of `list` with `sep` between consecutive ones
/// (`[String]::join`).
pub fn join(list: &Vec<String>, sep: &str) -> (res: String)
    ensures
        res@ == seq_join(list.deep_view(), sep@),
{
    let ghost all = list.deep_view();
    let mut out: Vec<char> = Vec::new();
    let mut i: usize = 0;
    while i < list.len()
        invariant
            i <= list@.len(),
            all == list.deep_view(),
            out@ == seq_join(all.take(i as int), sep@),
        decreases list@.len() - i,
    {
        assert(all.take(i + 1).drop_last() =~= all.take(i as int));
        assert(all.take(i + 1).last() == list@[i as int]@);
        if i != 0 {
            push_str(&mut out, sep);
        }
        push_str(&mut out, list[i].as_str());
        i = i + 1;
        proof {
            if i == 1 {
                assert(all.take(1)[0] == list@[0]@);
            }
        }
        assert(out@ =~= seq_join(all.take(i as int), sep@));
    }
    assert(all.take(i as int) =~= all);
    string_from_chars(&out)
}

/// A copy of an optional string.
pub fn clone_opt(s: &Option<String>) -> (res: Option<String>)
    ensures
        res.deep_view() == s.deep_view(),
{
    match s {
        Some(s) => Some(s.clone()),
        None => None,
    }
}

} // verus!

verus! {

/// The decimal rendering of `n` is a non-empty run of digits that reads back as `n`.
pub proof fn lemma_dec_digits(n: nat)
    ensures
        dec(n).len() > 0,
        all_ascii_digits(dec(n)),
        digits_value(dec(n)) == n,
    decreases n,
{
    if n >= 10 {
        lemma_dec_digits(n / 10);
        let d = dec(n);
        assert(d.drop_last() =~= dec(n / 10));
        assert forall|i: int| 0 <= i < d.len() implies is_ascii_digit(#[trigger] d[i]) by {
            if i < d.len() - 1 {
                assert(d[i] == dec(n / 10)[i]);
            }
        }
        let r = n % 10;
        assert(digit_char(r as int) as int - '0' as int == r);
        assert(d.last() == digit_char(r as int));
        assert((n / 10) * 10 + n % 10 == n) by (nonlinear_arith);
    } else {
        let d = dec(n);
        assert(d.drop_last() =~= Seq::<char>::empty());
        assert(digits_value(d.drop_last()) == 0);
        assert(digit_char(n as int) as int - '0' as int == n);
    }
}

/// Reading back the decimal rendering of a number gives the number.
pub proof fn law_int_text_of_dec(n: nat, signed: bool)
    ensures
        int_text(dec(n), signed) == Some(n as int),
{
    lemma_dec_digits(n);
    assert(is_ascii_digit(dec(n)[0]));
}

} // verus!
