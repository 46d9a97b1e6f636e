use vstd::prelude::*;
use vstd::arithmetic::div_mod::{lemma_fundamental_div_mod, lemma_fundamental_div_mod_converse};

verus! {

/// The largest value a quantized color channel can take.
pub const MAX_CHANNEL: u8 = 255;

/// ASCII line feed.
pub const NEWLINE: u8 = 10;

/// ASCII space.
pub const SPACE: u8 = 32;

/// ASCII `0`, the first decimal digit.
pub const DIGIT_ZERO: u8 = 48;

/// ASCII `P`, the first byte of a pixel-map magic number.
pub const MAGIC_LETTER: u8 = 80;

/// ASCII `3`, the format digit of a plain-text (not binary) color pixel map.
pub const MAGIC_DIGIT: u8 = 51;

/// The two ASCII characters that open a plain-text color pixel map.
pub open spec fn magic() -> Seq<u8> {
    seq![MAGIC_LETTER, MAGIC_DIGIT]
}

/// The ASCII decimal digits of `n`, most significant first, without leading zeros.
pub open spec fn decimal(n: nat) -> Seq<u8>
    decreases n,
{
    if n < 10 {
        seq![(DIGIT_ZERO + n) as u8]
    } else {
        decimal(n / 10).push((DIGIT_ZERO + n % 10) as u8)
    }
}

/// The number that the ASCII digits `s` spell, most significant first.
pub open spec fn decimal_value(s: Seq<u8>) -> int
    decreases s.len(),
{
    if s.len() == 0 {
        0
    } else {
        decimal_value(s.drop_last()) * 10 + (s.last() - DIGIT_ZERO)
    }
}

/// Whether every byte of `s` is an ASCII decimal digit.
pub open spec fn all_digits(s: Seq<u8>) -> bool {
    forall|i: int| 0 <= i < s.len() ==> DIGIT_ZERO <= #[trigger] s[i] <= DIGIT_ZERO + 9
}

/// The decimal form of `n` is a non-empty run of digits that reads back as `n`;
/// a quantized channel (at most `MAX_CHANNEL`) takes at most three digits.
pub proof fn lemma_decimal_round_trip(n: nat)
    ensures
        decimal(n).len() >= 1,
        all_digits(decimal(n)),
        decimal_value(decimal(n)) == n,
        n <= MAX_CHANNEL ==> decimal(n).len() <= 3,
    decreases n,
{
    if n >= 10 {
        lemma_decimal_round_trip(n / 10);
        let d = decimal(n);
        assert(d.drop_last() =~= decimal(n / 10));
        assert(d.last() == (DIGIT_ZERO + n % 10) as u8);
        lemma_fundamental_div_mod(n as int, 10);
        assert(decimal_value(d) == decimal_value(decimal(n / 10)) * 10 + (n % 10));
        if n <= MAX_CHANNEL {
            if n / 10 >= 10 {
                assert(decimal(n / 10) == decimal(n / 10 / 10).push((DIGIT_ZERO + (n / 10) % 10) as u8));
                assert(n / 10 / 10 < 10);
            }
        }
    } else {
        let d = decimal(n);
        assert(d.drop_last() =~= Seq::<u8>::empty());
        assert(decimal_value(d.drop_last()) == 0);
    }
}

/// Every channel of a written pixel reads back as its quantized value, which lies
/// between `0` and `MAX_CHANNEL`.
pub proof fn lemma_pixel_channels_in_range(r: u8, g: u8, b: u8)
    ensures
        pixel_bytes(r, g, b) == decimal(r as nat) + seq![SPACE] + decimal(g as nat) + seq![SPACE]
            + decimal(b as nat) + seq![NEWLINE],
        decimal_value(decimal(r as nat)) == r && r <= MAX_CHANNEL,
        decimal_value(decimal(g as nat)) == g && g <= MAX_CHANNEL,
        decimal_value(decimal(b as nat)) == b && b <= MAX_CHANNEL,
        all_digits(decimal(r as nat)) && all_digits(decimal(g as nat)) && all_digits(decimal(b as nat)),
{
    lemma_decimal_round_trip(r as nat);
    lemma_decimal_round_trip(g as nat);
    lemma_decimal_round_trip(b as nat);
}

/// The header of a plain-text pixel map: the magic line, the dimensions, and the
/// largest channel value, each followed by a newline.
pub open spec fn header_bytes(width: nat, height: nat) -> Seq<u8> {
    magic() + seq![NEWLINE] + decimal(width) + seq![SPACE] + decimal(height) + seq![NEWLINE]
        + decimal(MAX_CHANNEL as nat) + seq![NEWLINE]
}

/// One pixel of a plain-text pixel map: three channels separated by spaces, then a newline.
pub open spec fn pixel_bytes(r: u8, g: u8, b: u8) -> Seq<u8> {
    decimal(r as nat) + seq![SPACE] + decimal(g as nat) + seq![SPACE] + decimal(b as nat)
        + seq![NEWLINE]
}

/// Appends the decimal digits of `n` to `out`.
pub fn push_decimal(out: &mut Vec<u8>, n: usize)
    ensures
        final(out)@ == old(out)@ + decimal(n as nat),
    decreases n,
{
    if n >= 10 {
        push_decimal(out, n / 10);
    }
    let digit = DIGIT_ZERO + (n % 10) as u8;
    out.push(digit);
    proof {
        if n >= 10 {
            assert(final(out)@ =~= old(out)@ + decimal(n as nat));
        } else {
            assert(final(out)@ =~= old(out)@ + decimal(n as nat));
        }
    }
}

/// The header bytes of a `width` by `height` plain-text pixel map.
pub fn header(width: usize, height: usize) -> (r: Vec<u8>)
    ensures
        r@ == header_bytes(width as nat, height as nat),
{
    let mut out: Vec<u8> = Vec::new();
    out.push(MAGIC_LETTER);
    out.push(MAGIC_DIGIT);
    out.push(NEWLINE);
    push_decimal(&mut out, width);
    out.push(SPACE);
    push_decimal(&mut out, height);
    out.push(NEWLINE);
    push_decimal(&mut out, MAX_CHANNEL as usize);
    out.push(NEWLINE);
    assert(out@ =~= header_bytes(width as nat, height as nat));
    out
}

/// The bytes of one pixel whose quantized channels are `r`, `g` and `b`.
pub fn pixel_line(r: u8, g: u8, b: u8) -> (out: Vec<u8>)
    ensures
        out@ == pixel_bytes(r, g, b),
{
    let mut out: Vec<u8> = Vec::new();
    push_decimal(&mut out, r as usize);
    out.push(SPACE);
    push_decimal(&mut out, g as usize);
    out.push(SPACE);
    push_decimal(&mut out, b as usize);
    out.push(NEWLINE);
    assert(out@ =~= pixel_bytes(r, g, b));
    out
}

/// The column of the `k`-th pixel written: columns run left to right within a row.
pub open spec fn scan_column(k: nat, width: nat) -> nat {
    k % width
}

/// The row of the `k`-th pixel written: rows run from the top (`height - 1`) down to `0`.
pub open spec fn scan_row(k: nat, width: nat, height: nat) -> int {
    height - 1 - k / width
}

/// The position in write order of the pixel at column `i`, row `j`.
pub open spec fn scan_index(i: nat, j: nat, width: nat, height: nat) -> int {
    (height - 1 - j) * width + i
}

/// The column and row of the `k`-th pixel written to a `width` by `height` image.
pub fn scan_position(k: usize, width: usize, height: usize) -> (r: (usize, usize))
    requires
        k < width * height,
    ensures
        r.0 == scan_column(k as nat, width as nat),
        r.1 == scan_row(k as nat, width as nat, height as nat),
        r.0 < width,
        r.1 < height,
{
    assert(width > 0) by (nonlinear_arith)
        requires
            k < width * height,
    ;
    assert(k / width < height) by (nonlinear_arith)
        requires
            k < width * height,
            width > 0,
    ;
    (k % width, height - 1 - k / width)
}

/// The write order visits every pixel exactly once: position `k` and the pixel
/// it writes determine each other, over the whole grid.
pub proof fn lemma_scan_order_bijective(k: nat, i: nat, j: nat, width: nat, height: nat)
    requires
        k < width * height,
        i < width,
        j < height,
    ensures
        0 <= scan_row(k, width, height) < height,
        scan_column(k, width) < width,
        scan_index(scan_column(k, width), scan_row(k, width, height) as nat, width, height) == k,
        0 <= scan_index(i, j, width, height) < width * height,
        scan_column(scan_index(i, j, width, height) as nat, width) == i,
        scan_row(scan_index(i, j, width, height) as nat, width, height) == j,
{
    assert(width > 0) by (nonlinear_arith)
        requires
            k < width * height,
    ;
    assert(k / width < height) by (nonlinear_arith)
        requires
            k < width * height,
            width > 0,
    ;
    lemma_fundamental_div_mod(k as int, width as int);
    let row: int = scan_row(k, width, height);
    assert(row == height - 1 - k / width);
    assert(height - 1 - row == k / width);
    assert((k / width) * width == width * (k / width)) by (nonlinear_arith);
    let q: int = height - 1 - j;
    assert(0 <= q * width + i < width * height) by (nonlinear_arith)
        requires
            0 <= q < height,
            i < width,
    ;
    lemma_fundamental_div_mod_converse(q * width + i, width as int, q, i as int);
}

} // verus!
