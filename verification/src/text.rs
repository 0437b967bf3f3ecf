//! Numbers as decimal text, bare or padded to a width, written onto the end of a string.
use vstd::prelude::*;

verus! {

/// `String::push` of std puts one character at the end of the string and leaves the rest of
/// it as it was.
pub assume_specification[ String::push ](text: &mut String, c: char)
    ensures
        final(text)@ == old(text)@.push(c),
;

/// The character that stands for the digit `d`, from 0 to 9.
pub open spec fn digit_char(d: int) -> char {
    ('0' as int + d) as char
}

/// The decimal digits of `n`, the first of which is 0 only where `n` is 0.
pub open spec fn digits(n: nat) -> Seq<char>
    decreases n,
{
    if n < 10 {
        seq![digit_char(n as int)]
    } else {
        digits(n / 10).push(digit_char((n % 10) as int))
    }
}

/// The number `n` in decimal, with a minus sign before it where it is negative.
pub open spec fn decimal(n: int) -> Seq<char> {
    if n < 0 {
        seq!['-'] + digits((-n) as nat)
    } else {
        digits(n as nat)
    }
}

/// The character `c`, `count` times: no character where `count` is 0 or less.
pub open spec fn fill(count: int, c: char) -> Seq<char> {
    Seq::new(
        if count > 0 {
            count as nat
        } else {
            0nat
        },
        |i: int| c,
    )
}

/// The number `n` in decimal with zeros before its digits, as many as bring the text, minus
/// sign included, to `width` characters. A number that is longer stays as it is.
pub open spec fn zero_padded(n: int, width: int) -> Seq<char> {
    if n < 0 {
        seq!['-'] + fill(width - 1 - digits((-n) as nat).len(), '0') + digits((-n) as nat)
    } else {
        fill(width - digits(n as nat).len(), '0') + digits(n as nat)
    }
}

/// The number `n` in decimal with spaces before it, as many as bring the text to `width`
/// characters. A number that is longer stays as it is.
pub open spec fn space_padded(n: int, width: int) -> Seq<char> {
    fill(width - decimal(n).len(), ' ') + decimal(n)
}

/// A number has at least one digit, and a number of 32 bits has 10 digits at most.
pub proof fn lemma_digits_len(n: nat)
    ensures
        digits(n).len() >= 1,
        n < 10 ==> digits(n).len() == 1,
        n <= u32::MAX ==> digits(n).len() <= 10,
{
    reveal_with_fuel(digits, 11);
}

/// The number of decimal digits of `n`.
pub fn digit_count(n: u32) -> (r: usize)
    ensures
        r == digits(n as nat).len(),
        1 <= r <= 10,
{
    let mut count: usize = 1;
    let mut rest: u32 = n;
    proof {
        lemma_digits_len(n as nat);
    }
    while rest >= 10
        invariant
            digits(n as nat).len() == count - 1 + digits(rest as nat).len(),
            digits(n as nat).len() <= 10,
            1 <= count,
        decreases rest,
    {
        proof {
            lemma_digits_len(rest as nat / 10);
        }
        rest = rest / 10;
        count = count + 1;
    }
    proof {
        lemma_digits_len(rest as nat);
    }
    count
}

/// Writes the decimal digits of `n` onto the end of `out`.
pub fn push_digits(out: &mut String, n: u32)
    ensures
        final(out)@ == old(out)@ + digits(n as nat),
    decreases n,
{
    if n >= 10 {
        push_digits(out, n / 10);
    }
    let digit: u8 = (n % 10) as u8;
    out.push((48u8 + digit) as char);
    proof {
        if n >= 10 {
            assert(old(out)@ + digits(n as nat) =~= (old(out)@ + digits(n as nat / 10)).push(
                digit_char((n % 10) as int),
            ));
        } else {
            assert(old(out)@ + digits(n as nat) =~= old(out)@.push(digit_char(n as int)));
        }
    }
}

/// Writes the character `c` onto the end of `out`, `count` times.
pub fn push_fill(out: &mut String, count: usize, c: char)
    ensures
        final(out)@ == old(out)@ + fill(count as int, c),
{
    let mut done: usize = 0;
    assert(old(out)@ + fill(0, c) =~= old(out)@);
    while done < count
        invariant
            done <= count,
            out@ == old(out)@ + fill(done as int, c),
        decreases count - done,
    {
        out.push(c);
        assert(old(out)@ + fill(done + 1, c) =~= (old(out)@ + fill(done as int, c)).push(c));
        done = done + 1;
    }
}

/// The number of `n` without its sign.
pub(crate) fn magnitude(n: i32) -> (r: u32)
    ensures
        r == if n < 0 {
            -n
        } else {
            n as int
        },
{
    if n < 0 {
        (-(n as i64)) as u32
    } else {
        n as u32
    }
}

/// Writes `n` in decimal onto the end of `out`.
pub fn push_decimal(out: &mut String, n: i32)
    ensures
        final(out)@ == old(out)@ + decimal(n as int),
{
    if n < 0 {
        out.push('-');
    }
    push_digits(out, magnitude(n));
    proof {
        if n < 0 {
            assert(old(out)@ + decimal(n as int) =~= old(out)@.push('-') + digits((-n) as nat));
        }
    }
}

/// Writes `n` in decimal onto the end of `out`, with zeros before its digits to bring it to
/// `width` characters.
pub fn push_zero_padded(out: &mut String, n: i32, width: usize)
    requires
        width <= 16,
    ensures
        final(out)@ == old(out)@ + zero_padded(n as int, width as int),
{
    let size = magnitude(n);
    let length = digit_count(size) + if n < 0 { 1usize } else { 0usize };
    if n < 0 {
        out.push('-');
    }
    push_fill(out, if width > length { width - length } else { 0 }, '0');
    push_digits(out, size);
    proof {
        if n < 0 {
            assert(old(out)@ + zero_padded(n as int, width as int) =~= old(out)@.push('-') + fill(
                width - 1 - digits((-n) as nat).len(),
                '0',
            ) + digits((-n) as nat));
            assert(fill(width - 1 - digits((-n) as nat).len(), '0') =~= fill(
                (if width > length { width - length } else { 0 }) as int,
                '0',
            ));
        } else {
            assert(old(out)@ + zero_padded(n as int, width as int) =~= old(out)@ + fill(
                width - digits(n as nat).len(),
                '0',
            ) + digits(n as nat));
            assert(fill(width - digits(n as nat).len(), '0') =~= fill(
                (if width > length { width - length } else { 0 }) as int,
                '0',
            ));
        }
    }
}

/// Writes `n` in decimal onto the end of `out`, with spaces before it to bring it to `width`
/// characters.
pub fn push_space_padded(out: &mut String, n: i32, width: usize)
    requires
        width <= 16,
    ensures
        final(out)@ == old(out)@ + space_padded(n as int, width as int),
{
    let length = digit_count(magnitude(n)) + if n < 0 { 1usize } else { 0usize };
    push_fill(out, if width > length { width - length } else { 0 }, ' ');
    let ghost filled = out@;
    push_decimal(out, n);
    proof {
        assert(fill(width - decimal(n as int).len(), ' ') =~= fill(
            (if width > length { width - length } else { 0 }) as int,
            ' ',
        ));
        assert(old(out)@ + space_padded(n as int, width as int) =~= filled + decimal(n as int));
    }
}

} // verus!
