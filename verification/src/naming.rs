use vstd::prelude::*;

use crate::text::push_char;
use vstd::string::*;

verus! {

/// Whether `char::is_numeric` holds of a character (its Unicode general category is
/// one of the number categories).
pub uninterp spec fn char_is_numeric(c: char) -> bool;

/// Calls `char::is_numeric`. Its documentation gives the result as membership in the
/// Unicode number categories (named here); among the ASCII characters exactly the
/// digits `0` to `9` are in them.
#[verifier::external_body]
fn is_numeric(c: char) -> (r: bool)
    ensures
        r == char_is_numeric(c),
        '0' <= c <= '9' ==> r,
        (c as u32) < 128 && !('0' <= c <= '9') ==> !r,
{
    c.is_numeric()
}

/// The text of a string, one character after another.
pub fn chars_of(s: &str) -> (r: Vec<char>)
    ensures
        r@ == s@,
{
    let n = s.unicode_len();
    let mut r: Vec<char> = Vec::new();
    let mut i: usize = 0;
    while i < n
        invariant
            n == s@.len(),
            i <= n,
            r@ == s@.take(i as int),
        decreases n - i,
    {
        r.push(s.get_char(i));
        i = i + 1;
        assert(r@ =~= s@.take(i as int));
    }
    assert(s@.take(n as int) =~= s@);
    r
}

/// A string holding the characters of `cs`.
pub fn string_of(cs: &Vec<char>) -> (r: String)
    ensures
        r@ == cs@,
{
    let mut r = String::new();
    let n = cs.len();
    let mut i: usize = 0;
    while i < n
        invariant
            n == cs@.len(),
            i <= n,
            r@ == cs@.take(i as int),
        decreases n - i,
    {
        push_char(&mut r, cs[i]);
        i = i + 1;
        assert(r@ =~= cs@.take(i as int));
    }
    assert(cs@.take(n as int) =~= cs@);
    r
}

/// Number of numeric characters at the end of `s`.
pub open spec fn trailing_numeric_len(s: Seq<char>) -> nat
    decreases s.len(),
{
    if s.len() > 0 && char_is_numeric(s.last()) {
        1 + trailing_numeric_len(s.drop_last())
    } else {
        0
    }
}

/// The character after `c`, counted on the low byte of `c`.
pub open spec fn bump(c: char) -> char {
    ((c as u8) + 1) as char
}

/// `d` counted up by one, digit by digit from the end: a `9` turns into `0` and carries,
/// any other character is bumped; a carry out of the front adds a leading `1`.
pub open spec fn increment_digits(d: Seq<char>) -> Seq<char>
    decreases d.len(),
{
    if d.len() == 0 {
        seq!['1']
    } else if d.last() == '9' {
        increment_digits(d.drop_last()).push('0')
    } else {
        d.drop_last().push(bump(d.last()))
    }
}

/// Counting `d` up never bumps a character whose low byte is 255.
pub open spec fn bump_safe(d: Seq<char>) -> bool
    decreases d.len(),
{
    if d.len() == 0 {
        true
    } else if d.last() == '9' {
        bump_safe(d.drop_last())
    } else {
        (d.last() as u8) < 255
    }
}

/// The name with the number at its end counted up, or with `default` appended
/// when it does not end in a number.
pub open spec fn spec_increment_name(name: Seq<char>, default: Seq<char>) -> Seq<char> {
    let k = trailing_numeric_len(name);
    if k > 0 {
        name.take(name.len() - k) + increment_digits(name.skip(name.len() - k))
    } else {
        name + default
    }
}

/// A run of `n` zero digits.
pub open spec fn zeros(n: nat) -> Seq<char> {
    Seq::new(n, |i: int| '0')
}

/// The run of numeric characters found from the end is the one `trailing_numeric_len` counts.
proof fn lemma_trailing_exact(s: Seq<char>, k: nat)
    requires
        k <= s.len(),
        forall|i: int| s.len() - k <= i < s.len() ==> char_is_numeric(#[trigger] s[i]),
        k < s.len() ==> !char_is_numeric(s[s.len() - k - 1]),
    ensures
        trailing_numeric_len(s) == k,
    decreases s.len(),
{
    if k > 0 {
        lemma_trailing_exact(s.drop_last(), (k - 1) as nat);
    }
}

/// Counting up a run whose last `m` characters are `9`, preceded by position `p`.
proof fn lemma_increment_split(d: Seq<char>, p: int)
    requires
        0 <= p < d.len(),
        d[p] != '9',
        forall|i: int| p < i < d.len() ==> d[i] == '9',
    ensures
        increment_digits(d) == d.take(p).push(bump(d[p])) + zeros((d.len() - p - 1) as nat),
        bump_safe(d) == ((d[p] as u8) < 255),
    decreases d.len(),
{
    if p == d.len() - 1 {
        assert(d.drop_last() =~= d.take(p));
        assert(d.take(p).push(bump(d[p])) + zeros(0) =~= d.take(p).push(bump(d[p])));
    } else {
        lemma_increment_split(d.drop_last(), p);
        assert(d.drop_last().take(p) =~= d.take(p));
        assert(d.take(p).push(bump(d[p])) + zeros((d.len() - p - 1) as nat) =~= (d.take(p).push(
            bump(d[p]),
        ) + zeros((d.len() - p - 2) as nat)).push('0'));
    }
}

/// Counting up a run of `9`s only.
proof fn lemma_increment_all_nines(d: Seq<char>)
    requires
        forall|i: int| 0 <= i < d.len() ==> d[i] == '9',
    ensures
        increment_digits(d) == seq!['1'] + zeros(d.len()),
        bump_safe(d),
    decreases d.len(),
{
    if d.len() == 0 {
        assert(seq!['1'] + zeros(0) =~= seq!['1']);
    } else {
        lemma_increment_all_nines(d.drop_last());
        assert(seq!['1'] + zeros(d.len()) =~= (seq!['1'] + zeros((d.len() - 1) as nat)).push('0'));
    }
}

/// All characters of `d` are ASCII digits.
pub open spec fn all_ascii_digits(d: Seq<char>) -> bool {
    forall|i: int| 0 <= i < d.len() ==> '0' <= #[trigger] d[i] <= '9'
}

/// The number written by the ASCII digits `d`, in base ten.
pub open spec fn digits_value(d: Seq<char>) -> nat
    decreases d.len(),
{
    if d.len() == 0 {
        0
    } else {
        digits_value(d.drop_last()) * 10 + ((d.last() as nat) - ('0' as nat)) as nat
    }
}

/// Counting a run of ASCII digits up gives ASCII digits writing the next number.
pub proof fn law_increment_digits_counts_up(d: Seq<char>)
    requires
        all_ascii_digits(d),
    ensures
        all_ascii_digits(increment_digits(d)),
        digits_value(increment_digits(d)) == digits_value(d) + 1,
    decreases d.len(),
{
    if d.len() == 0 {
        assert(seq!['1'].drop_last() =~= Seq::<char>::empty());
        assert(digits_value(Seq::<char>::empty()) == 0);
        assert(digits_value(seq!['1']) == 1);
    } else if d.last() == '9' {
        law_increment_digits_counts_up(d.drop_last());
        let e = increment_digits(d.drop_last());
        assert(increment_digits(d).drop_last() =~= e);
        assert(digits_value(increment_digits(d)) == digits_value(e) * 10);
        assert(digits_value(d) == digits_value(d.drop_last()) * 10 + 9);
    } else {
        let c = d.last();
        assert((c as u8) == (c as nat));
        assert(bump(c) as nat == (c as nat) + 1);
        assert(increment_digits(d).drop_last() =~= d.drop_last());
        assert(digits_value(increment_digits(d)) == digits_value(d.drop_last()) * 10 + ((bump(c) as nat) - ('0' as nat)) as nat);
    }
}

/// A name ending in a number written in ASCII digits is copied with that number
/// counted up by one; a name ending in no number gets `default` appended.
pub proof fn law_increment_name(name: Seq<char>, default: Seq<char>)
    ensures
        trailing_numeric_len(name) == 0 ==> spec_increment_name(name, default) == name + default,
        ({
            let k = trailing_numeric_len(name);
            let digits = name.skip(name.len() - k);
            let r = spec_increment_name(name, default);
            (k > 0 && all_ascii_digits(digits)) ==> {
                &&& r.take(name.len() - k) == name.take(name.len() - k)
                &&& all_ascii_digits(r.skip(name.len() - k))
                &&& digits_value(r.skip(name.len() - k)) == digits_value(digits) + 1
            }
        }),
{
    let k = trailing_numeric_len(name);
    lemma_trailing_len_bound(name);
    if k > 0 {
        let digits = name.skip(name.len() - k);
        let r = spec_increment_name(name, default);
        let prefix = name.take(name.len() - k);
        assert(r.take(name.len() - k) =~= prefix);
        assert(r.skip(name.len() - k) =~= increment_digits(digits));
        if all_ascii_digits(digits) {
            law_increment_digits_counts_up(digits);
        }
    }
}

proof fn lemma_trailing_len_bound(s: Seq<char>)
    ensures
        trailing_numeric_len(s) <= s.len(),
    decreases s.len(),
{
    if s.len() > 0 && char_is_numeric(s.last()) {
        lemma_trailing_len_bound(s.drop_last());
    }
}

/// Attempt to increment a number at the end of `name`; when `name` does not end in a
/// number, `default` is appended instead.
pub fn increment_name(name: &str, default: &str) -> (r: String)
    requires
        bump_safe(name@.skip(name@.len() - trailing_numeric_len(name@))),
    ensures
        r@ == spec_increment_name(name@, default@),
        all_ascii(name@) ==> r@ == ascii_increment_name(name@, default@),
{
    let mut chars = chars_of(name);
    let n = chars.len();
    let ghost s = name@;

    // Find the run of numeric characters at the end.
    let k = trailing_count(&chars);
    proof {
        lemma_trailing_len_bound(s);
    }

    if k == 0 {
        let mut r = string_of(&chars);
        r.append(default);
        return r;
    }

    let start = n - k;
    let ghost d = s.skip(start as int);
    // Count up from the last digit, carrying over every `9`.
    let mut j: usize = n;
    let mut overflow = true;
    while j > start && overflow
        invariant
            start < n,
            n == s.len(),
            d == s.skip(start as int),
            start <= j <= n,
            chars@.len() == n,
            forall|i: int| 0 <= i < j ==> chars@[i] == s[i],
            overflow ==> forall|i: int| j <= i < n ==> s[i] == '9' && chars@[i] == '0',
            !overflow ==> j < n && s[j as int] != '9' && chars@[j as int] == bump(s[j as int])
                && forall|i: int| j < i < n ==> s[i] == '9' && chars@[i] == '0',
            bump_safe(d),
        decreases j,
    {
        j = j - 1;
        let c = chars[j];
        assert(chars@[j as int] == s[j as int]);
        if c == '9' {
            chars.set(j, '0');
        } else {
            proof {
                lemma_increment_split(d, j - start);
            }
            let low: u8 = #[verifier::truncate] (c as u8);
            let b = (low + 1) as char;
            chars.set(j, b);
            overflow = false;
        }
    }

    let ghost prefix = s.take(start as int);
    if overflow {
        proof {
            lemma_increment_all_nines(d);
        }
        assert(j == start);
        let ghost before = chars@;
        chars.insert(start, '1');
        proof {
            let t = prefix + increment_digits(d);
            assert(increment_digits(d) =~= seq!['1'] + zeros(d.len()));
            assert(t.len() == chars@.len());
            assert forall|i: int| 0 <= i < t.len() implies chars@[i] == t[i] by {
                if i < start {
                    assert(chars@[i] == before[i]);
                    assert(t[i] == prefix[i]);
                    assert(chars@[i] == t[i]);
                } else if i == start {
                    assert(t[i] == increment_digits(d)[0]);
                    assert(chars@[i] == t[i]);
                } else {
                    assert(chars@[i] == before[i - 1]);
                    assert(s[i - 1] == '9');
                    assert(before[i - 1] == '0');
                    assert(d.len() == n - start);
                    assert(zeros(d.len())[i - start - 1] == '0');
                    assert(t[i] == increment_digits(d)[i - start]);
                    assert(increment_digits(d)[i - start] == zeros(d.len())[i - start - 1]);
                    assert(chars@[i] == t[i]);
                }
            }
            assert(chars@ =~= t);
        }
    } else {
        proof {
            lemma_increment_split(d, j - start);
            let t = prefix + increment_digits(d);
            let m = (d.len() - (j - start) - 1) as nat;
            assert(increment_digits(d) == d.take(j - start).push(bump(d[j - start])) + zeros(m));
            assert(t.len() == chars@.len());
            assert forall|i: int| 0 <= i < t.len() implies chars@[i] == t[i] by {
                let inc = increment_digits(d);
                let head = d.take(j - start).push(bump(d[j - start]));
                if i < start {
                    assert(t[i] == prefix[i]);
                } else if i < j {
                    assert(t[i] == inc[i - start]);
                    assert(inc[i - start] == head[i - start]);
                    assert(d[i - start] == s[i]);
                } else if i == j {
                    assert(t[i] == inc[i - start]);
                    assert(inc[i - start] == head[i - start]);
                    assert(d[j - start] == s[j as int]);
                } else {
                    assert(t[i] == inc[i - start]);
                    assert(inc[i - start] == zeros(m)[i - j - 1]);
                    assert(zeros(m)[i - j - 1] == '0');
                    assert(s[i] == '9');
                    assert(chars@[i] == '0');
                }
            }
            assert(chars@ =~= t);
        }
    }
    string_of(&chars)
}


/// All characters of `s` are ASCII.
pub open spec fn all_ascii(s: Seq<char>) -> bool {
    forall|i: int| 0 <= i < s.len() ==> (#[trigger] s[i] as u32) < 128
}

/// Number of ASCII digits at the end of `s`.
pub open spec fn trailing_digit_len(s: Seq<char>) -> nat
    decreases s.len(),
{
    if s.len() > 0 && '0' <= s.last() <= '9' {
        1 + trailing_digit_len(s.drop_last())
    } else {
        0
    }
}

/// The name with the ASCII number at its end counted up, or with `default` appended when
/// it does not end in one.
pub open spec fn ascii_increment_name(name: Seq<char>, default: Seq<char>) -> Seq<char> {
    let k = trailing_digit_len(name);
    if k > 0 {
        name.take(name.len() - k) + increment_digits(name.skip(name.len() - k))
    } else {
        name + default
    }
}

/// On ASCII text the numeric characters at the end are the ASCII digits there.
proof fn lemma_trailing_ascii(s: Seq<char>, k: nat)
    requires
        all_ascii(s),
        k <= s.len(),
        forall|i: int| s.len() - k <= i < s.len() ==> '0' <= #[trigger] s[i] <= '9',
        k < s.len() ==> !('0' <= s[s.len() - k - 1] <= '9'),
    ensures
        trailing_digit_len(s) == k,
    decreases s.len(),
{
    if k > 0 {
        lemma_trailing_ascii(s.drop_last(), (k - 1) as nat);
    }
}

/// Counting up ASCII digits never bumps a character with low byte 255.
proof fn lemma_ascii_digits_bump_safe(d: Seq<char>)
    requires
        all_ascii_digits(d),
    ensures
        bump_safe(d),
    decreases d.len(),
{
    if d.len() > 0 && d.last() == '9' {
        lemma_ascii_digits_bump_safe(d.drop_last());
    } else if d.len() > 0 {
        let c = d.last();
        assert('0' <= c <= '9');
        assert((c as u8) == (c as nat));
    }
}

/// The length of the run of numeric characters at the end of `chars`.
fn trailing_count(chars: &Vec<char>) -> (k: usize)
    ensures
        k == trailing_numeric_len(chars@),
        all_ascii(chars@) ==> k == trailing_digit_len(chars@),
{
    let n = chars.len();
    let ghost s = chars@;
    let mut k: usize = 0;
    while k < n && is_numeric(chars[n - 1 - k])
        invariant
            n == s.len(),
            chars@ == s,
            k <= n,
            forall|i: int| n - k <= i < n ==> char_is_numeric(#[trigger] s[i]),
            all_ascii(s) ==> forall|i: int| n - k <= i < n ==> '0' <= #[trigger] s[i] <= '9',
        decreases n - k,
    {
        assert(s[n - 1 - k] == chars@[n - 1 - k]);
        k = k + 1;
    }
    proof {
        lemma_trailing_exact(s, k as nat);
        if all_ascii(s) {
            if k < n {
                assert((s[n - k - 1] as u32) < 128);
            }
            lemma_trailing_ascii(s, k as nat);
        }
    }
    k
}

/// Whether counting up the number at the end of `name` is safe: `increment_name` may be
/// called on `name` exactly when this holds. It holds of every ASCII name.
pub fn increment_is_safe(name: &str) -> (r: bool)
    ensures
        r == bump_safe(name@.skip(name@.len() - trailing_numeric_len(name@))),
        all_ascii(name@) ==> r,
{
    let chars = chars_of(name);
    let n = chars.len();
    let ghost s = name@;
    let k = trailing_count(&chars);
    proof {
        lemma_trailing_len_bound(s);
    }
    let start = n - k;
    let ghost d = s.skip(start as int);
    let mut j: usize = n;
    while j > start && chars[j - 1] == '9'
        invariant
            n == s.len(),
            chars@ == s,
            start <= j <= n,
            d == s.skip(start as int),
            forall|i: int| j <= i < n ==> s[i] == '9',
        decreases j,
    {
        j = j - 1;
    }
    let r = if j == start {
        proof {
            assert forall|i: int| 0 <= i < d.len() implies d[i] == '9' by {
                assert(d[i] == s[start + i]);
            }
            lemma_increment_all_nines(d);
        }
        true
    } else {
        let c = chars[j - 1];
        proof {
            assert forall|i: int| (j - 1 - start) < i < d.len() implies d[i] == '9' by {
                assert(d[i] == s[start + i]);
            }
            assert(d[j - 1 - start] == c);
            lemma_increment_split(d, j - 1 - start);
        }
        let low: u8 = #[verifier::truncate] (c as u8);
        low < 255
    };
    proof {
        if all_ascii(s) {
            assert(k == trailing_digit_len(s));
            assert forall|i: int| 0 <= i < d.len() implies '0' <= #[trigger] d[i] <= '9' by {
                assert(d[i] == s[start + i]);
                lemma_trailing_digits_are_digits(s, start + i);
            }
            lemma_ascii_digits_bump_safe(d);
        }
    }
    r
}

/// The characters counted by `trailing_digit_len` are ASCII digits.
proof fn lemma_trailing_digits_are_digits(s: Seq<char>, i: int)
    requires
        0 <= i,
        s.len() - trailing_digit_len(s) <= i < s.len(),
    ensures
        '0' <= s[i] <= '9',
    decreases s.len(),
{
    assert(trailing_digit_len(s) > 0);
    if i < s.len() - 1 {
        lemma_trailing_digits_are_digits(s.drop_last(), i);
        assert(s.drop_last()[i] == s[i]);
    }
}

/// Count up the number at the end of `name` (or append `default` when it ends in none),
/// unless a character of that number has a low byte of 255, where counting up is refused:
/// `None` then. Every ASCII name is counted up.
pub fn try_increment_name(name: &str, default: &str) -> (r: Option<String>)
    ensures
        r is Some <==> bump_safe(name@.skip(name@.len() - trailing_numeric_len(name@))),
        r matches Some(x) ==> x@ == spec_increment_name(name@, default@),
        all_ascii(name@) ==> (r matches Some(x) && x@ == ascii_increment_name(name@, default@)),
{
    if !increment_is_safe(name) {
        return None;
    }
    Some(increment_name(name, default))
}

} // verus!
