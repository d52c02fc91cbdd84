//! The integer side of the tray countdown icon: which number the icon shows,
//! its decimal text and digits, the seven-segment pattern of each digit, and
//! the conversion of the rendered pixels from premultiplied to straight alpha.
//! The drawing itself (floating-point geometry) happens outside the library.

use vstd::prelude::*;

verus! {

/// Width and height of the icon, in pixels.
pub const SIZE: u32 = 64;

/// Segment membership per digit: [a, b, c, d, e, f, g]; no segment for a
/// value that is not a decimal digit.
pub open spec fn segment_pattern(d: u8) -> Seq<bool> {
    if d == 0 {
        seq![true, true, true, true, true, true, false]
    } else if d == 1 {
        seq![false, true, true, false, false, false, false]
    } else if d == 2 {
        seq![true, true, false, true, true, false, true]
    } else if d == 3 {
        seq![true, true, true, true, false, false, true]
    } else if d == 4 {
        seq![false, true, true, false, false, true, true]
    } else if d == 5 {
        seq![true, false, true, true, false, true, true]
    } else if d == 6 {
        seq![true, false, true, true, true, true, true]
    } else if d == 7 {
        seq![true, true, true, false, false, false, false]
    } else if d == 8 {
        seq![true, true, true, true, true, true, true]
    } else if d == 9 {
        seq![true, true, true, true, false, true, true]
    } else {
        seq![false, false, false, false, false, false, false]
    }
}

/// Segment membership per digit: [a, b, c, d, e, f, g].
pub fn segments(d: u8) -> (r: [bool; 7])
    ensures
        r@ == segment_pattern(d),
        r@.len() == 7,
        // a: top
        r@[0] == (d < 10 && d != 1 && d != 4),
        // b: upper right
        r@[1] == (d < 10 && d != 5 && d != 6),
        // c: lower right
        r@[2] == (d < 10 && d != 2),
        // d: bottom
        r@[3] == (d < 10 && d != 1 && d != 4 && d != 7),
        // e: lower left
        r@[4] == (d == 0 || d == 2 || d == 6 || d == 8),
        // f: upper left
        r@[5] == (d == 0 || d == 4 || d == 5 || d == 6 || d == 8 || d == 9),
        // g: middle
        r@[6] == (2 <= d < 10 && d != 7),
{
    let r: [bool; 7] = match d {
        0 => [true, true, true, true, true, true, false],
        1 => [false, true, true, false, false, false, false],
        2 => [true, true, false, true, true, false, true],
        3 => [true, true, true, true, false, false, true],
        4 => [false, true, true, false, false, true, true],
        5 => [true, false, true, true, false, true, true],
        6 => [true, false, true, true, true, true, true],
        7 => [true, true, true, false, false, false, false],
        8 => [true, true, true, true, true, true, true],
        9 => [true, true, true, true, false, true, true],
        _ => [false, false, false, false, false, false, false],
    };
    assert(r@ =~= segment_pattern(d));
    r
}

/// The standard seven-segment glyphs: for each segment, the decimal digits
/// that light it (a value that is not a digit lights none).
pub proof fn lemma_standard_glyphs(d: u8)
    ensures
        segment_pattern(d).len() == 7,
        // a: top
        segment_pattern(d)[0] == (d < 10 && d != 1 && d != 4),
        // b: upper right
        segment_pattern(d)[1] == (d < 10 && d != 5 && d != 6),
        // c: lower right
        segment_pattern(d)[2] == (d < 10 && d != 2),
        // d: bottom
        segment_pattern(d)[3] == (d < 10 && d != 1 && d != 4 && d != 7),
        // e: lower left
        segment_pattern(d)[4] == (d == 0 || d == 2 || d == 6 || d == 8),
        // f: upper left
        segment_pattern(d)[5] == (d == 0 || d == 4 || d == 5 || d == 6 || d == 8 || d == 9),
        // g: middle
        segment_pattern(d)[6] == (2 <= d < 10 && d != 7),
{
}

/// Distinct decimal digits light distinct sets of segments, so every digit
/// shown on the icon reads unambiguously.
pub proof fn lemma_digits_distinguishable(a: u8, b: u8)
    requires
        a < 10,
        b < 10,
        a != b,
    ensures
        segment_pattern(a) != segment_pattern(b),
{
    if (a == 0 && b == 1) || (a == 1 && b == 0) {
        assert(segment_pattern(a)[0] != segment_pattern(b)[0]);
    }
    if (a == 0 && b == 2) || (a == 2 && b == 0) {
        assert(segment_pattern(a)[2] != segment_pattern(b)[2]);
    }
    if (a == 0 && b == 3) || (a == 3 && b == 0) {
        assert(segment_pattern(a)[4] != segment_pattern(b)[4]);
    }
    if (a == 0 && b == 4) || (a == 4 && b == 0) {
        assert(segment_pattern(a)[0] != segment_pattern(b)[0]);
    }
    if (a == 0 && b == 5) || (a == 5 && b == 0) {
        assert(segment_pattern(a)[1] != segment_pattern(b)[1]);
    }
    if (a == 0 && b == 6) || (a == 6 && b == 0) {
        assert(segment_pattern(a)[1] != segment_pattern(b)[1]);
    }
    if (a == 0 && b == 7) || (a == 7 && b == 0) {
        assert(segment_pattern(a)[3] != segment_pattern(b)[3]);
    }
    if (a == 0 && b == 8) || (a == 8 && b == 0) {
        assert(segment_pattern(a)[6] != segment_pattern(b)[6]);
    }
    if (a == 0 && b == 9) || (a == 9 && b == 0) {
        assert(segment_pattern(a)[4] != segment_pattern(b)[4]);
    }
    if (a == 1 && b == 2) || (a == 2 && b == 1) {
        assert(segment_pattern(a)[0] != segment_pattern(b)[0]);
    }
    if (a == 1 && b == 3) || (a == 3 && b == 1) {
        assert(segment_pattern(a)[0] != segment_pattern(b)[0]);
    }
    if (a == 1 && b == 4) || (a == 4 && b == 1) {
        assert(segment_pattern(a)[5] != segment_pattern(b)[5]);
    }
    if (a == 1 && b == 5) || (a == 5 && b == 1) {
        assert(segment_pattern(a)[0] != segment_pattern(b)[0]);
    }
    if (a == 1 && b == 6) || (a == 6 && b == 1) {
        assert(segment_pattern(a)[0] != segment_pattern(b)[0]);
    }
    if (a == 1 && b == 7) || (a == 7 && b == 1) {
        assert(segment_pattern(a)[0] != segment_pattern(b)[0]);
    }
    if (a == 1 && b == 8) || (a == 8 && b == 1) {
        assert(segment_pattern(a)[0] != segment_pattern(b)[0]);
    }
    if (a == 1 && b == 9) || (a == 9 && b == 1) {
        assert(segment_pattern(a)[0] != segment_pattern(b)[0]);
    }
    if (a == 2 && b == 3) || (a == 3 && b == 2) {
        assert(segment_pattern(a)[2] != segment_pattern(b)[2]);
    }
    if (a == 2 && b == 4) || (a == 4 && b == 2) {
        assert(segment_pattern(a)[0] != segment_pattern(b)[0]);
    }
    if (a == 2 && b == 5) || (a == 5 && b == 2) {
        assert(segment_pattern(a)[1] != segment_pattern(b)[1]);
    }
    if (a == 2 && b == 6) || (a == 6 && b == 2) {
        assert(segment_pattern(a)[1] != segment_pattern(b)[1]);
    }
    if (a == 2 && b == 7) || (a == 7 && b == 2) {
        assert(segment_pattern(a)[2] != segment_pattern(b)[2]);
    }
    if (a == 2 && b == 8) || (a == 8 && b == 2) {
        assert(segment_pattern(a)[2] != segment_pattern(b)[2]);
    }
    if (a == 2 && b == 9) || (a == 9 && b == 2) {
        assert(segment_pattern(a)[2] != segment_pattern(b)[2]);
    }
    if (a == 3 && b == 4) || (a == 4 && b == 3) {
        assert(segment_pattern(a)[0] != segment_pattern(b)[0]);
    }
    if (a == 3 && b == 5) || (a == 5 && b == 3) {
        assert(segment_pattern(a)[1] != segment_pattern(b)[1]);
    }
    if (a == 3 && b == 6) || (a == 6 && b == 3) {
        assert(segment_pattern(a)[1] != segment_pattern(b)[1]);
    }
    if (a == 3 && b == 7) || (a == 7 && b == 3) {
        assert(segment_pattern(a)[3] != segment_pattern(b)[3]);
    }
    if (a == 3 && b == 8) || (a == 8 && b == 3) {
        assert(segment_pattern(a)[4] != segment_pattern(b)[4]);
    }
    if (a == 3 && b == 9) || (a == 9 && b == 3) {
        assert(segment_pattern(a)[5] != segment_pattern(b)[5]);
    }
    if (a == 4 && b == 5) || (a == 5 && b == 4) {
        assert(segment_pattern(a)[0] != segment_pattern(b)[0]);
    }
    if (a == 4 && b == 6) || (a == 6 && b == 4) {
        assert(segment_pattern(a)[0] != segment_pattern(b)[0]);
    }
    if (a == 4 && b == 7) || (a == 7 && b == 4) {
        assert(segment_pattern(a)[0] != segment_pattern(b)[0]);
    }
    if (a == 4 && b == 8) || (a == 8 && b == 4) {
        assert(segment_pattern(a)[0] != segment_pattern(b)[0]);
    }
    if (a == 4 && b == 9) || (a == 9 && b == 4) {
        assert(segment_pattern(a)[0] != segment_pattern(b)[0]);
    }
    if (a == 5 && b == 6) || (a == 6 && b == 5) {
        assert(segment_pattern(a)[4] != segment_pattern(b)[4]);
    }
    if (a == 5 && b == 7) || (a == 7 && b == 5) {
        assert(segment_pattern(a)[1] != segment_pattern(b)[1]);
    }
    if (a == 5 && b == 8) || (a == 8 && b == 5) {
        assert(segment_pattern(a)[1] != segment_pattern(b)[1]);
    }
    if (a == 5 && b == 9) || (a == 9 && b == 5) {
        assert(segment_pattern(a)[1] != segment_pattern(b)[1]);
    }
    if (a == 6 && b == 7) || (a == 7 && b == 6) {
        assert(segment_pattern(a)[1] != segment_pattern(b)[1]);
    }
    if (a == 6 && b == 8) || (a == 8 && b == 6) {
        assert(segment_pattern(a)[1] != segment_pattern(b)[1]);
    }
    if (a == 6 && b == 9) || (a == 9 && b == 6) {
        assert(segment_pattern(a)[1] != segment_pattern(b)[1]);
    }
    if (a == 7 && b == 8) || (a == 8 && b == 7) {
        assert(segment_pattern(a)[3] != segment_pattern(b)[3]);
    }
    if (a == 7 && b == 9) || (a == 9 && b == 7) {
        assert(segment_pattern(a)[3] != segment_pattern(b)[3]);
    }
    if (a == 8 && b == 9) || (a == 9 && b == 8) {
        assert(segment_pattern(a)[4] != segment_pattern(b)[4]);
    }
}

/// One colour channel converted from premultiplied to straight alpha, with
/// rounding to nearest, for a pixel of alpha `a > 0`.
pub open spec fn unmul(c: u8, a: u8) -> u8 {
    let v: int = (c * 255 + a / 2) / (a as int);
    (if v > 255 {
        255
    } else {
        v
    }) as u8
}

/// Byte `j` of the straight-alpha image made from the premultiplied pixels
/// `data`: a fully transparent pixel becomes all zeros, alpha is kept, and
/// each colour channel is divided by alpha.
pub open spec fn straight_byte(data: Seq<u8>, j: int) -> u8 {
    let p = j / 4 * 4;
    let a = data[p + 3];
    if a == 0 {
        0
    } else if j % 4 == 3 {
        a
    } else {
        unmul(data[j], a)
    }
}

/// Converts the renderer's premultiplied RGBA pixels to straight alpha. A
/// trailing partial pixel (fewer than four bytes) is dropped.
pub fn unpremultiply(data: &[u8]) -> (out: Vec<u8>)
    ensures
        out@.len() == data@.len() / 4 * 4,
        forall|j: int| 0 <= j < out@.len() ==> #[trigger] out@[j] == straight_byte(data@, j),
{
    let n = data.len() / 4;
    let mut out: Vec<u8> = Vec::new();
    for k in 0..n
        invariant
            n == data@.len() / 4,
            data@.len() <= usize::MAX,
            out@.len() == 4 * k,
            forall|j: int| 0 <= j < out@.len() ==> #[trigger] out@[j] == straight_byte(data@, j),
    {
        assert(4 * k + 3 < data@.len()) by (nonlinear_arith)
            requires n == data@.len() / 4, k < n;
        let base: usize = 4 * k;
        let r = data[base];
        let g = data[base + 1];
        let b = data[base + 2];
        let a = data[base + 3];
        if a == 0 {
            out.push(0);
            out.push(0);
            out.push(0);
            out.push(0);
        } else {
            out.push(unmul_channel(r, a));
            out.push(unmul_channel(g, a));
            out.push(unmul_channel(b, a));
            out.push(a);
        }
        assert forall|j: int| 4 * k <= j < 4 * k + 4 implies #[trigger] out@[j] == straight_byte(
            data@,
            j,
        ) by {
            assert(j / 4 * 4 == 4 * k);
        }
    }
    out
}

/// One colour channel from premultiplied to straight alpha.
fn unmul_channel(c: u8, a: u8) -> (r: u8)
    requires
        a > 0,
    ensures
        r == unmul(c, a),
{
    let v: u16 = (c as u16 * 255 + (a as u16 / 2)) / a as u16;
    if v > 255 {
        255
    } else {
        v as u8
    }
}

/// An opaque pixel keeps its colour exactly.
pub proof fn lemma_opaque_unchanged(c: u8)
    ensures
        unmul(c, 255) == c,
{
    assert((c * 255 + 127) / 255 == c as int) by (nonlinear_arith)
        requires 0 <= c <= 255;
}

/// The character of a decimal digit.
pub open spec fn digit_char(d: int) -> char {
    if d == 0 {
        '0'
    } else if d == 1 {
        '1'
    } else if d == 2 {
        '2'
    } else if d == 3 {
        '3'
    } else if d == 4 {
        '4'
    } else if d == 5 {
        '5'
    } else if d == 6 {
        '6'
    } else if d == 7 {
        '7'
    } else if d == 8 {
        '8'
    } else {
        '9'
    }
}

/// The decimal text of a natural number, without leading zeros.
pub open spec fn decimal(n: nat) -> Seq<char>
    decreases n,
{
    if n < 10 {
        seq![digit_char(n as int)]
    } else {
        decimal(n / 10).push(digit_char((n % 10) as int))
    }
}

/// The number the icon shows: the seconds left during the final minute (never
/// below zero), otherwise the minutes left rounded up.
pub open spec fn shown_number(remaining_secs: int) -> nat {
    if remaining_secs < 60 {
        if remaining_secs > 0 {
            remaining_secs as nat
        } else {
            0
        }
    } else {
        ((remaining_secs + 59) / 60) as nat
    }
}

fn digit_text(d: u64) -> (s: &'static str)
    requires
        d < 10,
    ensures
        s@ == seq![digit_char(d as int)],
{
    proof {
        reveal_strlit("0");
        reveal_strlit("1");
        reveal_strlit("2");
        reveal_strlit("3");
        reveal_strlit("4");
        reveal_strlit("5");
        reveal_strlit("6");
        reveal_strlit("7");
        reveal_strlit("8");
        reveal_strlit("9");
    }
    match d {
        0 => "0",
        1 => "1",
        2 => "2",
        3 => "3",
        4 => "4",
        5 => "5",
        6 => "6",
        7 => "7",
        8 => "8",
        _ => "9",
    }
}

fn push_decimal(s: &mut String, n: u64)
    ensures
        final(s)@ == old(s)@ + decimal(n as nat),
    decreases n,
{
    if n >= 10 {
        push_decimal(s, n / 10);
    }
    s.append(digit_text(n % 10));
    assert(old(s)@ + decimal(n as nat) =~= if n >= 10 {
        old(s)@ + decimal((n / 10) as nat) + seq![digit_char((n % 10) as int)]
    } else {
        old(s)@ + seq![digit_char((n % 10) as int)]
    });
}

/// The decimal text of `n`.
pub fn decimal_text(n: u64) -> (s: String)
    ensures
        s@ == decimal(n as nat),
{
    let mut s = String::new();
    push_decimal(&mut s, n);
    assert(s@ =~= decimal(n as nat));
    s
}

/// What the tray icon shows for the remaining seconds: in the final minute
/// the seconds left (never below zero) with the warning colour, otherwise the
/// minutes left, rounded up, with the normal colour.
pub fn time_label(remaining_secs: i64) -> (r: (String, bool))
    requires
        remaining_secs + 59 <= i64::MAX,
    ensures
        r.0@ == decimal(shown_number(remaining_secs as int)),
        r.1 == (remaining_secs < 60),
{
    if remaining_secs < 60 {
        let secs: i64 = if remaining_secs > 0 {
            remaining_secs
        } else {
            0
        };
        (decimal_text(secs as u64), true)
    } else {
        let minutes: i64 = (remaining_secs + 59) / 60;
        (decimal_text(minutes as u64), false)
    }
}

/// The values of the decimal digits among the characters, in order.
pub open spec fn digits_of(text: Seq<char>) -> Seq<u8>
    decreases text.len(),
{
    if text.len() == 0 {
        seq![]
    } else {
        let c = text.last();
        let rest = digits_of(text.drop_last());
        if '0' <= c && c <= '9' {
            rest.push((c as u32 - '0' as u32) as u8)
        } else {
            rest
        }
    }
}

/// The values of the decimal digits in `text`, in order; other characters are
/// skipped.
pub fn digits_in(text: &str) -> (r: Vec<u8>)
    ensures
        r@ == digits_of(text@),
{
    let n = text.unicode_len();
    let mut r: Vec<u8> = Vec::new();
    for i in 0..n
        invariant
            n == text@.len(),
            r@ == digits_of(text@.take(i as int)),
    {
        let c = text.get_char(i);
        assert(text@.take(i + 1).drop_last() == text@.take(i as int));
        assert(text@.take(i + 1).last() == c);
        if '0' <= c && c <= '9' {
            r.push((c as u32 - '0' as u32) as u8);
        }
    }
    assert(text@.take(n as int) == text@);
    r
}

/// A colour channel of a correctly premultiplied pixel (`c <= a`, `a > 0`) is
/// divided by alpha and rounded to nearest: the result times alpha is within
/// half of alpha of `c * 255`.
pub proof fn lemma_unmul_rounds_to_nearest(c: u8, a: u8)
    requires
        0 < a,
        c <= a,
    ensures
        unmul(c, a) * a <= c * 255 + a / 2,
        c * 255 + a / 2 < (unmul(c, a) + 1) * a,
        unmul(c, a) <= 255,
{
    let q: int = (c * 255 + a / 2) / (a as int);
    assert(q * a <= c * 255 + a / 2 && c * 255 + a / 2 < (q + 1) * a) by (nonlinear_arith)
        requires
            q == (c * 255 + a / 2) / (a as int),
            a > 0,
    ;
    assert(q <= 255) by (nonlinear_arith)
        requires
            q * a <= c * 255 + a / 2,
            c <= a,
            a > 0,
            c >= 0,
    ;
}

/// The converted image keeps every pixel's alpha, turns fully transparent
/// pixels to all zeros, and divides the colour channels of the others by alpha.
pub proof fn lemma_straight_bytes(data: Seq<u8>, j: int)
    requires
        0 <= j < data.len() / 4 * 4,
    ensures
        data[j - j % 4 + 3] == 0 ==> straight_byte(data, j) == 0,
        data[j - j % 4 + 3] != 0 && j % 4 == 3 ==> straight_byte(data, j) == data[j],
        data[j - j % 4 + 3] != 0 && j % 4 != 3 ==> straight_byte(data, j) == unmul(
            data[j],
            data[j - j % 4 + 3],
        ),
{
    assert(j / 4 * 4 == j - j % 4);
}

/// The shown number: the seconds left, never negative, in the final minute;
/// otherwise the least number of whole minutes covering the seconds left.
pub proof fn lemma_shown_number(secs: int)
    ensures
        0 <= secs < 60 ==> shown_number(secs) == secs,
        secs < 0 ==> shown_number(secs) == 0,
        secs >= 60 ==> shown_number(secs) * 60 >= secs && (shown_number(secs) - 1) * 60 < secs,
        secs >= 60 ==> shown_number(secs) >= 1,
{
}

/// The value of a sequence of decimal digits, most significant first.
pub open spec fn digits_value(ds: Seq<u8>) -> nat
    decreases ds.len(),
{
    if ds.len() == 0 {
        0
    } else {
        digits_value(ds.drop_last()) * 10 + ds.last() as nat
    }
}

/// Reading back the digits of `decimal(n)` gives `n`; every character is a
/// decimal digit, and there is no leading zero.
pub proof fn lemma_decimal_round_trip(n: nat)
    ensures
        digits_value(digits_of(decimal(n))) == n,
        digits_of(decimal(n)).len() == decimal(n).len(),
        decimal(n).len() >= 1,
        n > 0 ==> decimal(n)[0] != '0',
        forall|i: int| 0 <= i < decimal(n).len() ==> '0' <= #[trigger] decimal(n)[i] <= '9',
    decreases n,
{
    let s = decimal(n);
    let d: int = (n % 10) as int;
    let c = digit_char(d);
    assert('0' <= c && c <= '9' && (c as u32 - '0' as u32) as u8 == d as u8);
    if n >= 10 {
        lemma_decimal_round_trip(n / 10);
        assert(s == decimal(n / 10).push(c));
        assert(s.drop_last() == decimal(n / 10));
        assert(s.last() == c);
        let ds = digits_of(s);
        assert(ds == digits_of(decimal(n / 10)).push(d as u8));
        assert(ds.drop_last() == digits_of(decimal(n / 10)));
        assert(digits_value(ds) == digits_value(ds.drop_last()) * 10 + ds.last() as nat);
        assert(digits_value(ds) == (n / 10) * 10 + d);
        assert((n / 10) * 10 + d == n);
        assert(s[0] == decimal(n / 10)[0]);
        assert forall|i: int| 0 <= i < s.len() implies '0' <= #[trigger] s[i] <= '9' by {
            if i < s.len() - 1 {
                assert(s[i] == decimal(n / 10)[i]);
            }
        }
    } else {
        assert(s == seq![c]);
        assert(s.drop_last() =~= Seq::<char>::empty());
        assert(digits_of(Seq::<char>::empty()) =~= Seq::<u8>::empty());
        assert(digits_of(s) =~= seq![d as u8]);
        assert(digits_of(s).drop_last() =~= Seq::<u8>::empty());
        assert(digits_value(Seq::<u8>::empty()) == 0);
        assert(digits_value(digits_of(s)) == d);
    }
}

/// The digits read back from a decimal text are the decimal digits of the
/// number, most significant first.
pub proof fn lemma_decimal_digits(n: nat)
    ensures
        digits_of(decimal(n)).len() == decimal(n).len(),
        forall|i: int|
            0 <= i < decimal(n).len() ==> #[trigger] digit_char(digits_of(decimal(n))[i] as int)
                == decimal(n)[i],
        n < 10 ==> digits_of(decimal(n)) == seq![n as u8],
    decreases n,
{
    let s = decimal(n);
    let d: int = (n % 10) as int;
    let c = digit_char(d);
    assert('0' <= c && c <= '9' && (c as u32 - '0' as u32) as u8 == d as u8);
    assert(digit_char(d as u8 as int) == c);
    if n >= 10 {
        lemma_decimal_digits(n / 10);
        assert(s == decimal(n / 10).push(c));
        assert(s.drop_last() == decimal(n / 10));
        assert(s.last() == c);
        assert(digits_of(s) == digits_of(decimal(n / 10)).push(d as u8));
        assert forall|i: int| 0 <= i < s.len() implies #[trigger] digit_char(digits_of(s)[i] as int)
            == s[i] by {
            if i < s.len() - 1 {
                assert(s[i] == decimal(n / 10)[i]);
            }
        }
    } else {
        assert(s == seq![c]);
        assert(s.drop_last() =~= Seq::<char>::empty());
        assert(s.last() == c);
        assert(digits_of(Seq::<char>::empty()) =~= Seq::<u8>::empty());
        assert(digits_of(s) =~= seq![d as u8]);
    }
}

/// Until the last 100 minutes the label has one or two characters.
pub proof fn lemma_label_fits(remaining_secs: int)
    requires
        remaining_secs < 5941,
    ensures
        1 <= decimal(shown_number(remaining_secs)).len() <= 2,
{
    let n = shown_number(remaining_secs);
    assert(n < 100);
    if n >= 10 {
        assert(decimal(n) == decimal(n / 10).push(digit_char((n % 10) as int)));
        assert(n / 10 < 10);
    }
}

} // verus!
