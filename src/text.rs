use vstd::prelude::*;

verus! {

/// The ASCII character of a decimal digit.
pub open spec fn digit_char(d: nat) -> char {
    if d == 0 { '0' }
    else if d == 1 { '1' }
    else if d == 2 { '2' }
    else if d == 3 { '3' }
    else if d == 4 { '4' }
    else if d == 5 { '5' }
    else if d == 6 { '6' }
    else if d == 7 { '7' }
    else if d == 8 { '8' }
    else { '9' }
}

/// The decimal digits of `n`, without leading zeros.
pub open spec fn decimal(n: nat) -> Seq<char>
    decreases n,
{
    if n < 10 {
        seq![digit_char(n)]
    } else {
        decimal(n / 10).push(digit_char(n % 10))
    }
}

/// The decimal digits of `n`, with zeros in front up to `width` characters.
pub open spec fn zero_padded(n: nat, width: nat) -> Seq<char> {
    let d = decimal(n);
    if d.len() >= width {
        d
    } else {
        Seq::new((width - d.len()) as nat, |_i: int| '0') + d
    }
}

/// Whether `c` is a decimal digit.
pub open spec fn is_digit(c: char) -> bool {
    '0' <= c && c <= '9'
}

pub proof fn lemma_decimal_digits(n: nat)
    ensures
        forall|i: int| 0 <= i < decimal(n).len() ==> is_digit(#[trigger] decimal(n)[i]),
        decimal(n).len() >= 1,
    decreases n,
{
    if n >= 10 {
        lemma_decimal_digits(n / 10);
    }
}

pub proof fn lemma_zero_padded_digits(n: nat, width: nat)
    ensures
        forall|i: int| 0 <= i < zero_padded(n, width).len() ==> is_digit(#[trigger] zero_padded(n, width)[i]),
        zero_padded(n, width).len() >= 1,
{
    lemma_decimal_digits(n);
    let d = decimal(n);
    if d.len() < width {
        let z = Seq::new((width - d.len()) as nat, |_i: int| '0');
        assert forall|i: int| 0 <= i < zero_padded(n, width).len() implies is_digit(#[trigger] zero_padded(n, width)[i]) by {
            if i < z.len() {
                assert(zero_padded(n, width)[i] == z[i]);
            } else {
                assert(zero_padded(n, width)[i] == d[i - z.len()]);
            }
        }
    }
}

fn digit_str(d: u32) -> (r: &'static str)
    requires
        d < 10,
    ensures
        r@ == seq![digit_char(d as nat)],
{
    proof {
        reveal_strlit("0");
        reveal_strlit("1");
        reveal_strlit("2");
        reveal_strlit("3");
        reveal_strlit("4");
        reveal_strlit("5");
        reveal_strlit("6");
        reveal_strlit("7");
        reveal_strlit("8");
        reveal_strlit("9");
    }
    if d == 0 { "0" }
    else if d == 1 { "1" }
    else if d == 2 { "2" }
    else if d == 3 { "3" }
    else if d == 4 { "4" }
    else if d == 5 { "5" }
    else if d == 6 { "6" }
    else if d == 7 { "7" }
    else if d == 8 { "8" }
    else { "9" }
}

/// Appends the decimal digits of `n` to `out`.
pub fn push_decimal(out: &mut String, n: u32)
    ensures
        final(out)@ == old(out)@ + decimal(n as nat),
    decreases n,
{
    if n < 10 {
        out.append(digit_str(n));
    } else {
        push_decimal(out, n / 10);
        out.append(digit_str(n % 10));
        assert(final(out)@ =~= old(out)@ + decimal(n as nat));
    }
}

fn decimal_len(n: u32) -> (r: usize)
    ensures
        r as nat == decimal(n as nat).len(),
        r as nat <= n as nat + 1,
    decreases n,
{
    if n < 10 {
        1
    } else {
        let k = decimal_len(n / 10);
        k + 1
    }
}

/// Appends `n` in decimal, padded with zeros in front to `width` characters.
pub fn push_zero_padded(out: &mut String, n: u32, width: usize)
    ensures
        final(out)@ == old(out)@ + zero_padded(n as nat, width as nat),
{
    let len = decimal_len(n);
    let ghost start = out@;
    if len < width {
        let mut k: usize = len;
        while k < width
            invariant
                len <= k <= width,
                out@ == start + Seq::new((k - len) as nat, |_i: int| '0'),
            decreases width - k,
        {
            proof {
                reveal_strlit("0");
            }
            out.append("0");
            assert(out@ =~= start + Seq::new((k + 1 - len) as nat, |_i: int| '0'));
            k = k + 1;
        }
    }
    push_decimal(out, n);
    assert(out@ =~= start + zero_padded(n as nat, width as nat));
}

} // verus!
