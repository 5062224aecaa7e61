//! Decimal and hexadecimal numerals, and the labels of removed code points.

use vstd::prelude::*;

verus! {

/// The digit for `d` in bases up to sixteen, upper case.
pub open spec fn digit_char(d: nat) -> char {
    if d == 0 {
        '0'
    } else if d == 1 {
        '1'
    } else if d == 2 {
        '2'
    } else if d == 3 {
        '3'
    } else if d == 4 {
        '4'
    } else if d == 5 {
        '5'
    } else if d == 6 {
        '6'
    } else if d == 7 {
        '7'
    } else if d == 8 {
        '8'
    } else if d == 9 {
        '9'
    } else if d == 10 {
        'A'
    } else if d == 11 {
        'B'
    } else if d == 12 {
        'C'
    } else if d == 13 {
        'D'
    } else if d == 14 {
        'E'
    } else {
        'F'
    }
}

/// The numeral of `n` in base `base`, most significant digit first, without
/// leading zeros (`0` is written as one digit).
pub open spec fn numeral(n: nat, base: nat) -> Seq<char>
    recommends
        2 <= base <= 16,
    decreases n,
    when 2 <= base
{
    if n < base {
        seq![digit_char(n)]
    } else {
        proof {
            assert(n / base < n) by (nonlinear_arith)
                requires
                    n >= base,
                    base >= 2,
            ;
        }
        numeral(n / base, base).push(digit_char(n % base))
    }
}

/// `s` preceded by as many `0` as make it at least `width` characters long.
pub open spec fn zero_padded(s: Seq<char>, width: nat) -> Seq<char> {
    if s.len() >= width {
        s
    } else {
        Seq::new((width - s.len()) as nat, |i: int| '0') + s
    }
}

/// The digit character for `d`.
fn digit(d: u32) -> (r: char)
    requires
        d < 16,
    ensures
        r == digit_char(d as nat),
{
    if d == 0 {
        '0'
    } else if d == 1 {
        '1'
    } else if d == 2 {
        '2'
    } else if d == 3 {
        '3'
    } else if d == 4 {
        '4'
    } else if d == 5 {
        '5'
    } else if d == 6 {
        '6'
    } else if d == 7 {
        '7'
    } else if d == 8 {
        '8'
    } else if d == 9 {
        '9'
    } else if d == 10 {
        'A'
    } else if d == 11 {
        'B'
    } else if d == 12 {
        'C'
    } else if d == 13 {
        'D'
    } else if d == 14 {
        'E'
    } else {
        'F'
    }
}

/// Appends the decimal numeral of `n` to `s`.
pub fn push_decimal(s: &mut String, n: usize)
    ensures
        final(s)@ == old(s)@ + numeral(n as nat, 10),
    decreases n,
{
    if n >= 10 {
        push_decimal(s, n / 10);
    }
    s.push(digit((n % 10) as u32));
}

/// Appends the upper-case hexadecimal numeral of `n` to `s`.
fn push_hex(s: &mut String, n: u32)
    ensures
        final(s)@ == old(s)@ + numeral(n as nat, 16),
    decreases n,
{
    if n >= 16 {
        push_hex(s, n / 16);
    }
    s.push(digit(n % 16));
}

/// The number of hexadecimal digits of `n`, counted up to four.
fn hex_len_up_to_four(n: u32) -> (r: usize)
    ensures
        r <= 4,
        r < 4 ==> r == numeral(n as nat, 16).len(),
        r == 4 ==> numeral(n as nat, 16).len() >= 4,
{
    proof {
        lemma_hex_len(n as nat);
    }
    if n < 0x10 {
        1
    } else if n < 0x100 {
        2
    } else if n < 0x1000 {
        3
    } else {
        4
    }
}

proof fn lemma_hex_len(n: nat)
    ensures
        n < 0x10 ==> numeral(n, 16).len() == 1,
        0x10 <= n < 0x100 ==> numeral(n, 16).len() == 2,
        0x100 <= n < 0x1000 ==> numeral(n, 16).len() == 3,
        0x1000 <= n ==> numeral(n, 16).len() >= 4,
    decreases n,
{
    if n >= 16 {
        lemma_hex_len(n / 16);
    }
}

/// The decimal numeral of `n`.
pub fn decimal_string(n: usize) -> (r: String)
    ensures
        r@ == numeral(n as nat, 10),
{
    let mut s = String::new();
    push_decimal(&mut s, n);
    s
}

/// How the preview names a removed code point: short names for the common
/// zero-width characters, `U+` and at least four hexadecimal digits otherwise.
pub open spec fn codepoint_label_spec(c: char) -> Seq<char> {
    if c == '\u{200B}' {
        seq!['Z', 'W', 'S', 'P']
    } else if c == '\u{200C}' {
        seq!['Z', 'W', 'N', 'J']
    } else if c == '\u{200D}' {
        seq!['Z', 'W', 'J']
    } else if c == '\u{FEFF}' {
        seq!['B', 'O', 'M']
    } else if c == '\u{00AD}' {
        seq!['S', 'H', 'Y']
    } else {
        seq!['U', '+'] + zero_padded(numeral(c as nat, 16), 4)
    }
}

/// The label of `character` in the preview.
pub fn codepoint_label(character: char) -> (r: String)
    ensures
        r@ == codepoint_label_spec(character),
{
    let mut s = String::new();
    if character == '\u{200B}' {
        s.push('Z');
        s.push('W');
        s.push('S');
        s.push('P');
    } else if character == '\u{200C}' {
        s.push('Z');
        s.push('W');
        s.push('N');
        s.push('J');
    } else if character == '\u{200D}' {
        s.push('Z');
        s.push('W');
        s.push('J');
    } else if character == '\u{FEFF}' {
        s.push('B');
        s.push('O');
        s.push('M');
    } else if character == '\u{00AD}' {
        s.push('S');
        s.push('H');
        s.push('Y');
    } else {
        let code = character as u32;
        s.push('U');
        s.push('+');
        let width = hex_len_up_to_four(code);
        let mut pad: usize = width;
        while pad < 4
            invariant
                width <= pad <= 4,
                width < 4 ==> width == numeral(code as nat, 16).len(),
                width == 4 ==> numeral(code as nat, 16).len() >= 4,
                s@ == seq!['U', '+'] + Seq::new((pad - width) as nat, |i: int| '0'),
            decreases 4 - pad,
        {
            s.push('0');
            pad = pad + 1;
            proof {
                assert(Seq::new((pad - width) as nat, |i: int| '0') =~= Seq::new(
                    (pad - 1 - width) as nat,
                    |i: int| '0',
                ).push('0'));
            }
        }
        push_hex(&mut s, code);
        proof {
            if width >= 4 {
                assert(Seq::new(0, |i: int| '0') =~= Seq::<char>::empty());
                assert(s@ =~= seq!['U', '+'] + numeral(code as nat, 16));
            } else {
                assert(s@ =~= seq!['U', '+'] + (Seq::new((4 - width) as nat, |i: int| '0')
                    + numeral(code as nat, 16)));
            }
        }
    }
    s
}

} // verus!
