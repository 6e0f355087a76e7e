//! Fixed-width text: decimal digits and right alignment.
//!
//! Every rendered cell follows one of three policies: a number as plain
//! decimal digits, a number zero-padded to two digits, or a blank. Whatever
//! the policy, the cell is then right-aligned with spaces to its column width.
use vstd::prelude::*;

verus! {

/// The decimal digit character for `d` (0 to 9).
pub open spec fn digit_char(d: int) -> char {
    if d == 0 { '0' }
    else if d == 1 { '1' }
    else if d == 2 { '2' }
    else if d == 3 { '3' }
    else if d == 4 { '4' }
    else if d == 5 { '5' }
    else if d == 6 { '6' }
    else if d == 7 { '7' }
    else if d == 8 { '8' }
    else { '9' }
}

/// Decimal digits of `n`, for `0 <= n < 100`, without leading zero.
pub open spec fn decimal(n: int) -> Seq<char> {
    if n < 10 {
        seq![digit_char(n)]
    } else {
        seq![digit_char(n / 10), digit_char(n % 10)]
    }
}

/// Decimal digits of `n`, for `0 <= n < 100`, zero-padded to two digits.
pub open spec fn zero_padded(n: int) -> Seq<char> {
    if n < 10 {
        seq!['0', digit_char(n)]
    } else {
        decimal(n)
    }
}

/// Four decimal digits of `n`, for `0 <= n < 10000`, zero-padded.
pub open spec fn four_digits(n: int) -> Seq<char> {
    seq![
        digit_char(n / 1000),
        digit_char((n / 100) % 10),
        digit_char((n / 10) % 10),
        digit_char(n % 10),
    ]
}

/// `k` spaces.
pub open spec fn spaces(k: nat) -> Seq<char> {
    Seq::new(k, |i: int| ' ')
}

/// `s` preceded by as many spaces as bring it to `width` characters; `s`
/// itself when it is already that wide.
pub open spec fn right_align(s: Seq<char>, width: nat) -> Seq<char> {
    if s.len() < width {
        spaces((width - s.len()) as nat) + s
    } else {
        s
    }
}

fn digit_str(d: u32) -> (r: &'static str)
    requires
        d < 10,
    ensures
        r@ == seq![digit_char(d as int)],
{
    proof {
        reveal_strlit("0");
        reveal_strlit("1");
        reveal_strlit("2");
        reveal_strlit("3");
        reveal_strlit("4");
        reveal_strlit("5");
        reveal_strlit("6");
        reveal_strlit("7");
        reveal_strlit("8");
        reveal_strlit("9");
    }
    if d == 0 {
        "0"
    } else if d == 1 {
        "1"
    } else if d == 2 {
        "2"
    } else if d == 3 {
        "3"
    } else if d == 4 {
        "4"
    } else if d == 5 {
        "5"
    } else if d == 6 {
        "6"
    } else if d == 7 {
        "7"
    } else if d == 8 {
        "8"
    } else {
        "9"
    }
}

/// Appends the decimal digits of `n` to `line`.
pub fn push_decimal(line: &mut String, n: u32)
    requires
        n < 100,
    ensures
        final(line)@ == old(line)@ + decimal(n as int),
{
    if n < 10 {
        line.append(digit_str(n));
    } else {
        line.append(digit_str(n / 10));
        line.append(digit_str(n % 10));
        assert(final(line)@ =~= old(line)@ + decimal(n as int));
    }
}

/// Appends the decimal digits of `n`, zero-padded to two digits, to `line`.
pub fn push_zero_padded(line: &mut String, n: u32)
    requires
        n < 100,
    ensures
        final(line)@ == old(line)@ + zero_padded(n as int),
{
    if n < 10 {
        proof {
            reveal_strlit("0");
        }
        line.append("0");
        line.append(digit_str(n));
        assert(final(line)@ =~= old(line)@ + zero_padded(n as int));
    } else {
        push_decimal(line, n);
    }
}

/// Appends `k` spaces to `line`.
pub fn push_spaces(line: &mut String, k: usize)
    ensures
        final(line)@ == old(line)@ + spaces(k as nat),
{
    let mut i: usize = 0;
    while i < k
        invariant
            i <= k,
            line@ == old(line)@ + spaces(i as nat),
        decreases k - i,
    {
        proof {
            reveal_strlit(" ");
        }
        line.append(" ");
        i = i + 1;
        assert(line@ =~= old(line)@ + spaces(i as nat));
    }
}

/// Appends `content` right-aligned to `width` columns to `line`.
pub fn push_right_aligned(line: &mut String, content: &str, width: usize)
    ensures
        final(line)@ == old(line)@ + right_align(content@, width as nat),
{
    let n = content.unicode_len();
    if n < width {
        push_spaces(line, width - n);
    }
    line.append(content);
    assert(final(line)@ =~= old(line)@ + right_align(content@, width as nat));
}

/// `content` right-aligned to `width` columns.
pub fn right_aligned(content: &str, width: usize) -> (r: String)
    ensures
        r@ == right_align(content@, width as nat),
{
    let mut line = String::new();
    push_right_aligned(&mut line, content, width);
    assert(line@ =~= right_align(content@, width as nat));
    line
}

} // verus!
