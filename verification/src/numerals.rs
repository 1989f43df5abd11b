//! Decimal numerals over character sequences: the human-readable form used in
//! transaction ids and status lines, and a fixed-width form used by the log
//! record format, together with parsing and round-trip lemmas.

use vstd::prelude::*;

verus! {

/// Width of every fixed-width numeric field in a log record: wide enough for
/// any `u32` value and for any realistic string length.
pub const FIELD_WIDTH: usize = 10;

/// The decimal digit character for `d` (meaningful for `d < 10`).
pub open spec fn digit_char(d: nat) -> char {
    if d == 0 {
        '0'
    } else if d == 1 {
        '1'
    } else if d == 2 {
        '2'
    } else if d == 3 {
        '3'
    } else if d == 4 {
        '4'
    } else if d == 5 {
        '5'
    } else if d == 6 {
        '6'
    } else if d == 7 {
        '7'
    } else if d == 8 {
        '8'
    } else {
        '9'
    }
}

/// The value of a decimal digit character; 10 marks a non-digit.
pub open spec fn digit_val(c: char) -> nat {
    if c == '0' {
        0
    } else if c == '1' {
        1
    } else if c == '2' {
        2
    } else if c == '3' {
        3
    } else if c == '4' {
        4
    } else if c == '5' {
        5
    } else if c == '6' {
        6
    } else if c == '7' {
        7
    } else if c == '8' {
        8
    } else if c == '9' {
        9
    } else {
        10
    }
}

pub open spec fn is_digit(c: char) -> bool {
    digit_val(c) < 10
}

/// Digit characters decode back to the value they were made from.
pub proof fn lemma_digit_round_trip(d: nat)
    requires
        d < 10,
    ensures
        is_digit(digit_char(d)),
        digit_val(digit_char(d)) == d,
{
}

/// The usual decimal numeral of `n`, most significant digit first, no leading
/// zeros (a single `'0'` for zero).
pub open spec fn dec_digits(n: nat) -> Seq<char>
    decreases n,
{
    if n < 10 {
        seq![digit_char(n)]
    } else {
        dec_digits(n / 10).push(digit_char(n % 10))
    }
}

/// The numeral of `n` padded with leading zeros to exactly `w` digits
/// (truncated to its `w` low-order digits if `n` needs more).
pub open spec fn dec_fixed(n: nat, w: nat) -> Seq<char>
    decreases w,
{
    if w == 0 {
        Seq::empty()
    } else {
        dec_fixed(n / 10, (w - 1) as nat).push(digit_char(n % 10))
    }
}

/// `10^w`.
pub open spec fn pow10(w: nat) -> nat
    decreases w,
{
    if w == 0 {
        1
    } else {
        10 * pow10((w - 1) as nat)
    }
}

/// The value of a digit string, most significant digit first.
pub open spec fn dec_value(s: Seq<char>) -> nat
    decreases s.len(),
{
    if s.len() == 0 {
        0
    } else {
        dec_value(s.drop_last()) * 10 + digit_val(s.last())
    }
}

pub open spec fn all_digits(s: Seq<char>) -> bool {
    forall|i: int| 0 <= i < s.len() ==> is_digit(#[trigger] s[i])
}

/// A fixed-width numeral has exactly the requested width and holds digits only.
pub proof fn lemma_dec_fixed_shape(n: nat, w: nat)
    ensures
        dec_fixed(n, w).len() == w,
        all_digits(dec_fixed(n, w)),
    decreases w,
{
    if w > 0 {
        lemma_dec_fixed_shape(n / 10, (w - 1) as nat);
        let s = dec_fixed(n, w);
        let p = dec_fixed(n / 10, (w - 1) as nat);
        assert(forall|i: int| 0 <= i < p.len() ==> s[i] == #[trigger] p[i]);
        assert(s[w - 1] == digit_char(n % 10));
    }
}

/// Reading a fixed-width numeral back yields the value it was made from,
/// provided the value fits in the width.
pub proof fn lemma_dec_fixed_round_trip(n: nat, w: nat)
    requires
        n < pow10(w),
    ensures
        dec_value(dec_fixed(n, w)) == n,
    decreases w,
{
    if w == 0 {
        assert(pow10(0) == 1);
    } else {
        let q = n / 10;
        let r = n % 10;
        vstd::arithmetic::div_mod::lemma_fundamental_div_mod(n as int, 10);
        assert(n == q * 10 + r && r < 10);
        assert(q < pow10((w - 1) as nat)) by {
            assert(10 * pow10((w - 1) as nat) == pow10(w));
            assert(q * 10 + r < 10 * pow10((w - 1) as nat));
            assert(q < pow10((w - 1) as nat)) by (nonlinear_arith)
                requires
                    q * 10 + r < 10 * pow10((w - 1) as nat),
                    r < 10,
                    q >= 0,
            ;
        }
        lemma_dec_fixed_round_trip(q, (w - 1) as nat);
        let s = dec_fixed(n, w);
        lemma_dec_fixed_shape(n, w);
        assert(s.drop_last() =~= dec_fixed(q, (w - 1) as nat));
        lemma_digit_round_trip(r);
    }
}

/// Returns the one-character string of a decimal digit.
fn digit_str(d: u64) -> (r: &'static str)
    requires
        d < 10,
    ensures
        r@ =~= seq![digit_char(d as nat)],
{
    proof {
        reveal_strlit("0");
        reveal_strlit("1");
        reveal_strlit("2");
        reveal_strlit("3");
        reveal_strlit("4");
        reveal_strlit("5");
        reveal_strlit("6");
        reveal_strlit("7");
        reveal_strlit("8");
        reveal_strlit("9");
    }
    if d == 0 {
        "0"
    } else if d == 1 {
        "1"
    } else if d == 2 {
        "2"
    } else if d == 3 {
        "3"
    } else if d == 4 {
        "4"
    } else if d == 5 {
        "5"
    } else if d == 6 {
        "6"
    } else if d == 7 {
        "7"
    } else if d == 8 {
        "8"
    } else {
        "9"
    }
}

/// The decimal digit value of a character, if it is one.
pub fn char_digit(c: char) -> (r: Option<u64>)
    ensures
        r is Some <==> is_digit(c),
        r is Some ==> r->0 == digit_val(c),
{
    if c == '0' {
        Some(0)
    } else if c == '1' {
        Some(1)
    } else if c == '2' {
        Some(2)
    } else if c == '3' {
        Some(3)
    } else if c == '4' {
        Some(4)
    } else if c == '5' {
        Some(5)
    } else if c == '6' {
        Some(6)
    } else if c == '7' {
        Some(7)
    } else if c == '8' {
        Some(8)
    } else if c == '9' {
        Some(9)
    } else {
        None
    }
}

/// Renders `n` as its usual decimal numeral.
pub fn u64_to_dec(n: u64) -> (r: String)
    ensures
        r@ == dec_digits(n as nat),
    decreases n,
{
    if n < 10 {
        let mut s = String::new();
        s.append(digit_str(n));
        proof {
            assert(s@ =~= dec_digits(n as nat));
        }
        s
    } else {
        let mut s = u64_to_dec(n / 10);
        s.append(digit_str(n % 10));
        proof {
            assert(s@ =~= dec_digits(n as nat));
        }
        s
    }
}

/// Renders the `w` low-order decimal digits of `n`, zero-padded.
pub fn u64_to_fixed(n: u64, w: usize) -> (r: String)
    ensures
        r@ == dec_fixed(n as nat, w as nat),
    decreases w,
{
    if w == 0 {
        let s = String::new();
        proof {
            assert(s@ =~= dec_fixed(n as nat, 0));
        }
        s
    } else {
        let mut s = u64_to_fixed(n / 10, w - 1);
        s.append(digit_str(n % 10));
        proof {
            assert(s@ =~= dec_fixed(n as nat, w as nat));
        }
        s
    }
}

/// The spec-level reading of a fixed-width numeric field: defined only when
/// the whole field is digits.
pub open spec fn spec_parse_field(s: Seq<char>, pos: int) -> Option<nat> {
    if pos >= 0 && pos + FIELD_WIDTH <= s.len() && all_digits(
        s.subrange(pos, pos + FIELD_WIDTH as int),
    ) {
        Some(dec_value(s.subrange(pos, pos + FIELD_WIDTH as int)))
    } else {
        None
    }
}

/// Reads the fixed-width numeric field of `s` starting at `pos`.
pub fn parse_field(s: &str, pos: usize) -> (r: Option<u64>)
    requires
        pos + FIELD_WIDTH <= s@.len(),
        pos + FIELD_WIDTH <= usize::MAX,
    ensures
        r is Some <==> spec_parse_field(s@, pos as int) is Some,
        r is Some ==> r->0 == spec_parse_field(s@, pos as int)->0,
        r is Some ==> r->0 < pow10(FIELD_WIDTH as nat),
{
    let ghost whole: Seq<char> = s@.subrange(pos as int, pos + FIELD_WIDTH as int);
    let mut acc: u64 = 0;
    let mut i: usize = 0;
    while i < FIELD_WIDTH
        invariant
            0 <= i <= FIELD_WIDTH,
            pos + FIELD_WIDTH <= s@.len(),
            pos + FIELD_WIDTH <= usize::MAX,
            whole == s@.subrange(pos as int, pos + FIELD_WIDTH as int),
            all_digits(s@.subrange(pos as int, pos + i as int)),
            acc == dec_value(s@.subrange(pos as int, pos + i as int)),
            acc < pow10(i as nat),
        decreases FIELD_WIDTH - i,
    {
        let c = s.get_char(pos + i);
        let ghost before: Seq<char> = s@.subrange(pos as int, pos + i as int);
        let ghost after: Seq<char> = s@.subrange(pos as int, pos + i + 1int);
        proof {
            assert(after.drop_last() =~= before);
            assert(after.last() == c);
            lemma_pow10_field_bound(i as nat);
        }
        match char_digit(c) {
            Some(d) => {
                acc = acc * 10 + d;
            },
            None => {
                proof {
                    assert(whole[i as int] == c);
                    assert(!all_digits(whole));
                }
                return None;
            },
        }
        i = i + 1;
    }
    proof {
        assert(s@.subrange(pos as int, pos + FIELD_WIDTH as int) =~= whole);
    }
    Some(acc)
}

/// The numeric value of `10 ^ FIELD_WIDTH`, the least value a field cannot
/// hold.
pub proof fn lemma_pow10_field()
    ensures
        pow10(FIELD_WIDTH as nat) == 10_000_000_000,
{
    assert(pow10(0) == 1);
    assert(pow10(1) == 10);
    assert(pow10(2) == 100);
    assert(pow10(3) == 1000);
    assert(pow10(4) == 10000);
    assert(pow10(5) == 100000);
    assert(pow10(6) == 1000000);
    assert(pow10(7) == 10000000);
    assert(pow10(8) == 100000000);
    assert(pow10(9) == 1000000000);
}

/// The field width never lets the accumulator leave `u64` range.
proof fn lemma_pow10_field_bound(i: nat)
    requires
        i < FIELD_WIDTH,
    ensures
        pow10(i) * 10 <= pow10(FIELD_WIDTH as nat),
        pow10(FIELD_WIDTH as nat) == 10_000_000_000,
    decreases FIELD_WIDTH - i,
{
    lemma_pow10_field();
    if i + 1 < FIELD_WIDTH {
        lemma_pow10_field_bound(i + 1);
        assert(pow10(i + 1) == 10 * pow10(i));
        assert(pow10(i) * 10 <= pow10(i + 1) * 10) by (nonlinear_arith)
            requires
                pow10(i) <= pow10(i + 1),
        ;
    } else {
        assert(pow10(i + 1) == 10 * pow10(i));
    }
}

} // verus!
