use vstd::prelude::*;

use crate::text::push_char;
use vstd::string::*;

verus! {

/// The lowercase hexadecimal digit for `d < 16`.
pub open spec fn hex_digit(d: nat) -> char {
    if d < 10 {
        (('0' as nat) + d) as char
    } else {
        (('a' as nat) + (d - 10)) as char
    }
}

/// The lowercase hexadecimal digits of `n`, without leading zeros (`0` for zero).
pub open spec fn hex_digits(n: nat) -> Seq<char>
    decreases n,
{
    if n < 16 {
        seq![hex_digit(n)]
    } else {
        hex_digits(n / 16).push(hex_digit(n % 16))
    }
}

/// `n` as `format!("{:#16x}", n)` writes it: `0x` and the hexadecimal digits,
/// right-aligned with spaces in a field of 16 characters.
pub open spec fn spec_hex_key(n: nat) -> Seq<char> {
    let body = "0x"@ + hex_digits(n);
    if body.len() < 16 {
        Seq::new((16 - body.len()) as nat, |i: int| ' ') + body
    } else {
        body
    }
}

fn digit_char(d: u64) -> (c: char)
    requires
        d < 16,
    ensures
        c == hex_digit(d as nat),
{
    if d < 10 {
        let b: u8 = (d as u8) + 48;
        b as char
    } else {
        let b: u8 = (d as u8) + 87;
        b as char
    }
}

/// The hexadecimal digits of `n`, most significant first.
fn hex_digits_of(n: u64) -> (r: Vec<char>)
    ensures
        r@ == hex_digits(n as nat),
    decreases n,
{
    if n < 16 {
        let mut v = Vec::new();
        v.push(digit_char(n));
        assert(v@ =~= seq![hex_digit(n as nat)]);
        v
    } else {
        let mut v = hex_digits_of(n / 16);
        v.push(digit_char(n % 16));
        v
    }
}

/// The id of a changeset as the version tree check reports it.
pub fn hex_key(n: u64) -> (r: String)
    ensures
        r@ == spec_hex_key(n as nat),
{
    let digits = hex_digits_of(n);
    let len = digits.len();
    let mut r = String::new();
    let ghost pad: nat = if len < 14 {
        (14 - len) as nat
    } else {
        0
    };
    if len < 14 {
        let k = 14 - len;
        let mut i: usize = 0;
        while i < k
            invariant
                i <= k,
                r@ == Seq::new(i as nat, |j: int| ' '),
            decreases k - i,
        {
            push_char(&mut r, ' ');
            i = i + 1;
            assert(r@ =~= Seq::new(i as nat, |j: int| ' '));
        }
    } else {
        assert(r@ =~= Seq::new(0, |j: int| ' '));
    }
    let ghost spaces = r@;
    r.append("0x");
    let mut j: usize = 0;
    while j < len
        invariant
            len == digits@.len(),
            j <= len,
            r@ == spaces + ("0x"@ + digits@.take(j as int)),
        decreases len - j,
    {
        push_char(&mut r, digits[j]);
        j = j + 1;
        assert(r@ =~= spaces + ("0x"@ + digits@.take(j as int)));
    }
    assert(digits@.take(len as int) =~= digits@);
    assert(spaces =~= Seq::new(pad, |j: int| ' '));
    proof {
        reveal_strlit("0x");
    }
    let ghost body = "0x"@ + hex_digits(n as nat);
    assert(body.len() == len + 2);
    if len >= 14 {
        assert(r@ =~= body);
    } else {
        assert(r@ == Seq::new((16 - body.len()) as nat, |i: int| ' ') + body);
    }
    r
}

} // verus!
