//! Rendering timing rows as comma-separated millisecond text.
//!
//! Durations are held in microseconds and rendered in milliseconds: frame
//! duration and work at two decimal places (rounded half up to the nearest
//! hundredth), the sleep fields and skew at three decimal places (exact,
//! one thousandth of a millisecond being one microsecond).

use vstd::arithmetic::div_mod::lemma_fundamental_div_mod;
use vstd::arithmetic::div_mod::lemma_mod_breakdown;
use vstd::prelude::*;

use crate::timing::FrameTimingRow;

verus! {

pub const COMMA: u8 = 44;
pub const MINUS: u8 = 45;
pub const DOT: u8 = 46;
pub const NEWLINE: u8 = 10;

/// The byte of one decimal digit.
pub open spec fn digit_byte(d: nat) -> u8 {
    (48 + d) as u8
}

pub open spec fn is_digit_byte(b: u8) -> bool {
    48 <= b <= 57
}

pub open spec fn all_digit_bytes(s: Seq<u8>) -> bool {
    forall|i: int| 0 <= i < s.len() ==> is_digit_byte(#[trigger] s[i])
}

/// Decimal digits of n, most significant first, no leading zeros (a single
/// zero digit for n == 0).
pub open spec fn dec_digits(n: nat) -> Seq<u8>
    decreases n,
{
    if n < 10 {
        seq![digit_byte(n)]
    } else {
        dec_digits(n / 10).push(digit_byte(n % 10))
    }
}

/// Exactly `width` decimal digits, most significant first, with leading
/// zeros: the digits of n modulo 10^width.
pub open spec fn dec_digits_pad(n: nat, width: nat) -> Seq<u8>
    decreases width,
{
    if width == 0 {
        Seq::empty()
    } else {
        dec_digits_pad(n / 10, (width - 1) as nat).push(digit_byte(n % 10))
    }
}

/// The number a reader recovers from a run of decimal digit bytes.
pub open spec fn dec_value(s: Seq<u8>) -> nat
    decreases s.len(),
{
    if s.len() == 0 {
        0
    } else {
        (dec_value(s.drop_last()) * 10 + s.last() - 48) as nat
    }
}

proof fn lemma_digit_byte(d: nat)
    requires
        d < 10,
    ensures
        digit_byte(d) == 48 + d,
        is_digit_byte(digit_byte(d)),
{
}

/// Reading the digits of n back as a number gives n again.
pub proof fn lemma_dec_digits(n: nat)
    ensures
        dec_digits(n).len() >= 1,
        all_digit_bytes(dec_digits(n)),
        dec_value(dec_digits(n)) == n,
    decreases n,
{
    if n < 10 {
        let s = dec_digits(n);
        lemma_digit_byte(n);
        assert(s.drop_last() =~= Seq::<u8>::empty());
        assert(dec_value(Seq::<u8>::empty()) == 0);
        assert(s.last() == digit_byte(n));
        assert(dec_value(s) == n);
        assert forall|i: int| 0 <= i < s.len() implies is_digit_byte(s[i]) by {
            assert(s[i] == digit_byte(n));
        }
    } else {
        lemma_dec_digits(n / 10);
        lemma_digit_byte(n % 10);
        let a = dec_digits(n / 10);
        let s = dec_digits(n);
        assert(s == a.push(digit_byte(n % 10)));
        assert(s.drop_last() =~= a);
        assert(s.last() == digit_byte(n % 10));
        assert(dec_value(s) == dec_value(a) * 10 + n % 10);
        lemma_fundamental_div_mod(n as int, 10);
        assert(dec_value(s) == n);
        assert forall|i: int| 0 <= i < s.len() implies is_digit_byte(s[i]) by {
            if i < a.len() {
                assert(s[i] == a[i]);
            } else {
                assert(s[i] == digit_byte(n % 10));
            }
        }
    }
}

/// Padded digits have the stated width and read back as n modulo the
/// padding range; stated here for the two widths the format uses.
pub proof fn lemma_dec_digits_pad2(n: nat)
    ensures
        dec_digits_pad(n, 2).len() == 2,
        all_digit_bytes(dec_digits_pad(n, 2)),
        dec_value(dec_digits_pad(n, 2)) == n % 100,
{
    lemma_digit_byte(n % 10);
    lemma_digit_byte(n / 10 % 10);
    let inner = dec_digits_pad(n / 10, 1);
    let s = dec_digits_pad(n, 2);
    assert(dec_digits_pad(n / 10 / 10, 0) =~= Seq::<u8>::empty());
    assert(inner =~= seq![digit_byte(n / 10 % 10)]);
    assert(s == inner.push(digit_byte(n % 10)));
    assert(inner.drop_last() =~= Seq::<u8>::empty());
    assert(dec_value(Seq::<u8>::empty()) == 0);
    assert(inner.last() == digit_byte(n / 10 % 10));
    assert(dec_value(inner) == n / 10 % 10);
    assert(s.drop_last() =~= inner);
    assert(dec_value(s) == (n / 10 % 10) * 10 + n % 10);
    lemma_mod_breakdown(n as int, 10, 10);
    assert(n % 100 == 10 * ((n / 10) % 10) + n % 10);
    assert forall|i: int| 0 <= i < s.len() implies is_digit_byte(s[i]) by {
        if i == 0 {
            assert(s[i] == digit_byte(n / 10 % 10));
        } else {
            assert(s[i] == digit_byte(n % 10));
        }
    }
}

pub proof fn lemma_dec_digits_pad3(n: nat)
    ensures
        dec_digits_pad(n, 3).len() == 3,
        all_digit_bytes(dec_digits_pad(n, 3)),
        dec_value(dec_digits_pad(n, 3)) == n % 1000,
{
    lemma_dec_digits_pad2(n / 10);
    lemma_digit_byte(n % 10);
    let inner = dec_digits_pad(n / 10, 2);
    let s = dec_digits_pad(n, 3);
    assert(s == inner.push(digit_byte(n % 10)));
    assert(s.drop_last() =~= inner);
    assert(dec_value(s) == (n / 10 % 100) * 10 + n % 10);
    lemma_mod_breakdown(n as int, 10, 100);
    assert(n % 1000 == 10 * ((n / 10) % 100) + n % 10);
    assert forall|i: int| 0 <= i < s.len() implies is_digit_byte(s[i]) by {
        if i < inner.len() {
            assert(s[i] == inner[i]);
        } else {
            assert(s[i] == digit_byte(n % 10));
        }
    }
}

/// Tens of microseconds (hundredths of a millisecond), rounded half up.
pub open spec fn round_to_tens_us(us: nat) -> nat {
    if us % 10 >= 5 {
        us / 10 + 1
    } else {
        us / 10
    }
}

/// Milliseconds at two decimal places, rounded half up: whole digits, a
/// dot, two fractional digits.
pub open spec fn fmt_hundredths(us: nat) -> Seq<u8> {
    dec_digits(round_to_tens_us(us) / 100) + seq![DOT] + dec_digits_pad(round_to_tens_us(us), 2)
}

/// Milliseconds at three decimal places, exact: whole digits, a dot, three
/// fractional digits.
pub open spec fn fmt_thousandths(us: nat) -> Seq<u8> {
    dec_digits(us / 1000) + seq![DOT] + dec_digits_pad(us, 3)
}

/// Signed milliseconds at three decimal places: a leading minus for
/// negative values, else the unsigned form.
pub open spec fn fmt_signed_thousandths(us: int) -> Seq<u8> {
    if us < 0 {
        seq![MINUS] + fmt_thousandths((-us) as nat)
    } else {
        fmt_thousandths(us as nat)
    }
}

/// The shape a reader relies on: digits, one dot, exactly `frac`
/// fractional digits at the end.
pub open spec fn field_shape(s: Seq<u8>, frac: nat) -> bool {
    &&& s.len() >= frac + 2
    &&& all_digit_bytes(s.subrange(0, s.len() - frac - 1))
    &&& s[s.len() - frac - 1] == DOT
    &&& all_digit_bytes(s.subrange(s.len() - frac, s.len() as int))
}

/// The microsecond value a reader recovers from a field "whole.frac"
/// interpreted as milliseconds, for two or three fractional digits.
pub open spec fn parsed_field_us(s: Seq<u8>, frac: nat) -> nat {
    dec_value(s.subrange(0, s.len() - frac - 1)) * 1000 + dec_value(
        s.subrange(s.len() - frac, s.len() as int),
    ) * (if frac == 2 {
        10nat
    } else {
        1nat
    })
}

/// The signed microsecond value a reader recovers from a field with an
/// optional leading minus sign.
pub open spec fn parsed_signed_field_us(s: Seq<u8>, frac: nat) -> int {
    if s.len() > 0 && s[0] == MINUS {
        -(parsed_field_us(s.subrange(1, s.len() as int), frac) as int)
    } else {
        parsed_field_us(s, frac) as int
    }
}

/// No byte of a field collides with the field or record delimiters.
pub open spec fn delimiter_free(s: Seq<u8>) -> bool {
    forall|i: int| 0 <= i < s.len() ==> #[trigger] s[i] != COMMA && s[i] != NEWLINE
}

/// A three-decimal field reads back to exactly the value it was rendered
/// from.
pub proof fn lemma_fmt_thousandths_parses(us: nat)
    ensures
        field_shape(fmt_thousandths(us), 3),
        parsed_field_us(fmt_thousandths(us), 3) == us,
        delimiter_free(fmt_thousandths(us)),
{
    lemma_dec_digits(us / 1000);
    lemma_dec_digits_pad3(us);
    let a = dec_digits(us / 1000);
    let b = dec_digits_pad(us, 3);
    let s = fmt_thousandths(us);
    let ln = s.len() as int;
    assert(ln == a.len() + 4);
    assert(s.subrange(0, ln - 4) =~= a);
    assert(s[ln - 4] == DOT);
    assert(s.subrange(ln - 3, ln) =~= b);
    lemma_fundamental_div_mod(us as int, 1000);
    assert(parsed_field_us(s, 3) == (us / 1000) * 1000 + us % 1000);
    assert forall|i: int| 0 <= i < s.len() implies #[trigger] s[i] != COMMA && s[i]
        != NEWLINE by {
        if i < a.len() {
            assert(is_digit_byte(a[i]));
        } else if i == a.len() {
            assert(s[i] == DOT);
        } else {
            assert(is_digit_byte(b[i - a.len() - 1]));
        }
    }
}

/// A two-decimal field reads back to within half of its last printed
/// digit (five microseconds) of the value it was rendered from.
pub proof fn lemma_fmt_hundredths_parses(us: nat)
    ensures
        field_shape(fmt_hundredths(us), 2),
        parsed_field_us(fmt_hundredths(us), 2) == 10 * round_to_tens_us(us),
        parsed_field_us(fmt_hundredths(us), 2) <= us + 5,
        us <= parsed_field_us(fmt_hundredths(us), 2) + 4,
        delimiter_free(fmt_hundredths(us)),
{
    let h = round_to_tens_us(us);
    lemma_dec_digits(h / 100);
    lemma_dec_digits_pad2(h);
    let a = dec_digits(h / 100);
    let b = dec_digits_pad(h, 2);
    let s = fmt_hundredths(us);
    let ln = s.len() as int;
    assert(ln == a.len() + 3);
    assert(s.subrange(0, ln - 3) =~= a);
    assert(s[ln - 3] == DOT);
    assert(s.subrange(ln - 2, ln) =~= b);
    assert(parsed_field_us(s, 2) == (h / 100) * 1000 + (h % 100) * 10);
    lemma_fundamental_div_mod(h as int, 100);
    assert((h / 100) * 1000 + (h % 100) * 10 == 10 * h) by {
        assert(h == 100 * (h / 100) + h % 100);
    }
    lemma_fundamental_div_mod(us as int, 10);
    assert(us == 10 * (us / 10) + us % 10);
    assert forall|i: int| 0 <= i < s.len() implies #[trigger] s[i] != COMMA && s[i]
        != NEWLINE by {
        if i < a.len() {
            assert(is_digit_byte(a[i]));
        } else if i == a.len() {
            assert(s[i] == DOT);
        } else {
            assert(is_digit_byte(b[i - a.len() - 1]));
        }
    }
}

/// A signed three-decimal field reads back to exactly the signed value it
/// was rendered from.
pub proof fn lemma_fmt_signed_thousandths_parses(v: int)
    ensures
        parsed_signed_field_us(fmt_signed_thousandths(v), 3) == v,
        delimiter_free(fmt_signed_thousandths(v)),
{
    if v < 0 {
        let m = (-v) as nat;
        lemma_fmt_thousandths_parses(m);
        let t = fmt_thousandths(m);
        let s = fmt_signed_thousandths(v);
        assert(s == seq![MINUS] + t);
        assert(s[0] == MINUS);
        assert(s.subrange(1, s.len() as int) =~= t);
        assert(field_shape(t, 3));
        assert(t.len() >= 5);
        assert(t[t.len() - 4] == DOT);
        assert(t[0] != MINUS) by {
            lemma_dec_digits(m / 1000);
            assert(t[0] == dec_digits(m / 1000)[0]);
            assert(is_digit_byte(t[0]));
        }
        assert forall|i: int| 0 <= i < s.len() implies #[trigger] s[i] != COMMA && s[i]
            != NEWLINE by {
            if i == 0 {
                assert(s[i] == MINUS);
            } else {
                assert(s[i] == t[i - 1]);
            }
        }
    } else {
        lemma_fmt_thousandths_parses(v as nat);
        let s = fmt_signed_thousandths(v);
        assert(s == fmt_thousandths(v as nat));
        assert(s[0] != MINUS) by {
            lemma_dec_digits(v as nat / 1000);
            assert(s[0] == dec_digits(v as nat / 1000)[0]);
            assert(is_digit_byte(s[0]));
        }
    }
}

fn push_dec(out: &mut Vec<u8>, n: u64)
    ensures
        final(out)@ == old(out)@ + dec_digits(n as nat),
    decreases n,
{
    if n < 10 {
        out.push(48 + (n as u8));
        proof {
            lemma_digit_byte(n as nat);
            assert(out@ =~= old(out)@ + dec_digits(n as nat));
        }
    } else {
        push_dec(out, n / 10);
        out.push(48 + ((n % 10) as u8));
        proof {
            lemma_digit_byte((n % 10) as nat);
            assert(out@ =~= old(out)@ + dec_digits(n as nat));
        }
    }
}

fn push_dec_pad(out: &mut Vec<u8>, n: u64, width: usize)
    ensures
        final(out)@ == old(out)@ + dec_digits_pad(n as nat, width as nat),
    decreases width,
{
    if width == 0 {
        proof {
            assert(out@ =~= old(out)@ + dec_digits_pad(n as nat, 0));
        }
    } else {
        push_dec_pad(out, n / 10, width - 1);
        out.push(48 + ((n % 10) as u8));
        proof {
            lemma_digit_byte((n % 10) as nat);
            assert(out@ =~= old(out)@ + dec_digits_pad(n as nat, width as nat));
        }
    }
}

fn push_hundredths(out: &mut Vec<u8>, us: u64)
    ensures
        final(out)@ == old(out)@ + fmt_hundredths(us as nat),
{
    let h: u64 = if us % 10 >= 5 {
        proof {
            assert(us / 10 < 0xffff_ffff_ffff_ffff);
        }
        us / 10 + 1
    } else {
        us / 10
    };
    proof {
        assert(h == round_to_tens_us(us as nat));
    }
    push_dec(out, h / 100);
    out.push(DOT);
    push_dec_pad(out, h, 2);
    proof {
        assert(out@ =~= old(out)@ + fmt_hundredths(us as nat));
    }
}

fn push_thousandths(out: &mut Vec<u8>, us: u64)
    ensures
        final(out)@ == old(out)@ + fmt_thousandths(us as nat),
{
    push_dec(out, us / 1000);
    out.push(DOT);
    push_dec_pad(out, us, 3);
    proof {
        assert(out@ =~= old(out)@ + fmt_thousandths(us as nat));
    }
}

fn push_signed_thousandths(out: &mut Vec<u8>, v: i128)
    requires
        -0xffff_ffff_ffff_ffff <= v <= 0xffff_ffff_ffff_ffff,
    ensures
        final(out)@ == old(out)@ + fmt_signed_thousandths(v as int),
{
    if v < 0 {
        out.push(MINUS);
        push_thousandths(out, (-v) as u64);
        proof {
            assert(out@ =~= old(out)@ + fmt_signed_thousandths(v as int));
        }
    } else {
        push_thousandths(out, v as u64);
    }
}

/// The header naming the five fields, first record of every sink stream.
pub fn header_row() -> (r: &'static str)
    ensures
        r@ == "frame_duration_ms,frame_work_ms,expected_sleep_ms,actual_sleep_ms,skew_ms"@,
{
    "frame_duration_ms,frame_work_ms,expected_sleep_ms,actual_sleep_ms,skew_ms"
}

/// One record: the five fields in order, comma-separated,
/// newline-terminated; frame duration and work at two decimal places, the
/// sleep fields and skew at three.
pub open spec fn row_line(row: FrameTimingRow) -> Seq<u8> {
    fmt_hundredths(row.frame_duration_us as nat) + seq![COMMA] + fmt_hundredths(row.work_us as nat)
        + seq![COMMA] + fmt_thousandths(row.expected_sleep_us as nat) + seq![COMMA]
        + fmt_thousandths(row.actual_sleep_us as nat) + seq![COMMA] + fmt_signed_thousandths(
        row.skew_us as int,
    ) + seq![NEWLINE]
}

/// Encodes one row for the sink.
pub fn encode_row(row: &FrameTimingRow) -> (r: Vec<u8>)
    requires
        row.wf(),
    ensures
        r@ == row_line(*row),
{
    let mut out: Vec<u8> = Vec::new();
    push_hundredths(&mut out, row.frame_duration_us);
    out.push(COMMA);
    push_hundredths(&mut out, row.work_us);
    out.push(COMMA);
    push_thousandths(&mut out, row.expected_sleep_us);
    out.push(COMMA);
    push_thousandths(&mut out, row.actual_sleep_us);
    out.push(COMMA);
    proof {
        assert(-0xffff_ffff_ffff_ffff <= row.skew_us <= 0xffff_ffff_ffff_ffff);
    }
    push_signed_thousandths(&mut out, row.skew_us);
    out.push(NEWLINE);
    proof {
        assert(out@ =~= row_line(*row));
    }
    out
}

/// Every encoded row, read back by field position, reproduces the five
/// values: the three-decimal fields exactly, the two-decimal fields to
/// within half of their last printed digit (five microseconds). Every
/// field is free of the comma and newline delimiters, so reading by
/// position is unambiguous.
pub proof fn lemma_row_round_trip(row: FrameTimingRow)
    ensures
        ({
            let f1 = fmt_hundredths(row.frame_duration_us as nat);
            let f2 = fmt_hundredths(row.work_us as nat);
            let f3 = fmt_thousandths(row.expected_sleep_us as nat);
            let f4 = fmt_thousandths(row.actual_sleep_us as nat);
            let f5 = fmt_signed_thousandths(row.skew_us as int);
            &&& row_line(row) == f1 + seq![COMMA] + f2 + seq![COMMA] + f3 + seq![COMMA] + f4 + seq![
                COMMA,
            ] + f5 + seq![NEWLINE]
            &&& delimiter_free(f1) && delimiter_free(f2) && delimiter_free(f3) && delimiter_free(f4)
                && delimiter_free(f5)
            &&& parsed_field_us(f1, 2) <= row.frame_duration_us + 5
            &&& row.frame_duration_us <= parsed_field_us(f1, 2) + 4
            &&& parsed_field_us(f2, 2) <= row.work_us + 5
            &&& row.work_us <= parsed_field_us(f2, 2) + 4
            &&& parsed_field_us(f3, 3) == row.expected_sleep_us
            &&& parsed_field_us(f4, 3) == row.actual_sleep_us
            &&& parsed_signed_field_us(f5, 3) == row.skew_us
        }),
{
    lemma_fmt_hundredths_parses(row.frame_duration_us as nat);
    lemma_fmt_hundredths_parses(row.work_us as nat);
    lemma_fmt_thousandths_parses(row.expected_sleep_us as nat);
    lemma_fmt_thousandths_parses(row.actual_sleep_us as nat);
    lemma_fmt_signed_thousandths_parses(row.skew_us as int);
}

} // verus!
