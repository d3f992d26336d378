use vstd::prelude::*;
use vstd::string::*;

verus! {

/// Calls `String::push`, which appends one character.
#[verifier::external_body]
pub(crate) fn push_char(s: &mut String, c: char)
    ensures
        final(s)@ == old(s)@.push(c),
{
    s.push(c)
}

/// An upper case ASCII letter.
pub open spec fn is_ascii_upper(c: char) -> bool {
    'A' <= c <= 'Z'
}

/// The lower case letter of an upper case ASCII letter.
pub open spec fn ascii_lower(c: char) -> char {
    ((c as u8) + 32) as u8 as char
}

/// A name in snake case: each upper case ASCII letter becomes its lower case letter,
/// with an underscore before it unless it starts the name; other characters stay.
pub open spec fn snake_text(s: Seq<char>) -> Seq<char>
    decreases s.len(),
{
    if s.len() == 0 {
        Seq::empty()
    } else {
        let c = s.last();
        snake_text(s.drop_last()) + if is_ascii_upper(c) {
            if s.len() > 1 {
                seq!['_', ascii_lower(c)]
            } else {
                seq![ascii_lower(c)]
            }
        } else {
            seq![c]
        }
    }
}

/// The name in snake case, as `snake_text` describes it.
pub fn to_snake_case(name: &str) -> (r: String)
    ensures
        r@ == snake_text(name@),
{
    let n = name.unicode_len();
    let mut r = String::new();
    let mut i: usize = 0;
    while i < n
        invariant
            n == name@.len(),
            i <= n,
            r@ == snake_text(name@.subrange(0, i as int)),
        decreases n - i,
    {
        let c = name.get_char(i);
        proof {
            assert(name@.subrange(0, i + 1).drop_last() =~= name@.subrange(0, i as int));
        }
        let ghost before = r@;
        if 'A' <= c && c <= 'Z' {
            if i > 0 {
                push_char(&mut r, '_');
            }
            let code: u8 = c as u8;
            let lower = (code + 32) as char;
            push_char(&mut r, lower);
        } else {
            push_char(&mut r, c);
        }
        proof {
            let t = name@.subrange(0, i + 1);
            assert(t.last() == c);
            if 'A' <= c && c <= 'Z' && i > 0 {
                assert(r@ =~= before + seq!['_', ascii_lower(c)]);
            } else if 'A' <= c && c <= 'Z' {
                assert(r@ =~= before + seq![ascii_lower(c)]);
            } else {
                assert(r@ =~= before + seq![c]);
            }
        }
        i = i + 1;
    }
    proof {
        assert(name@.subrange(0, n as int) =~= name@);
    }
    r
}

/// The texts of a list of strings.
pub open spec fn texts(v: Seq<String>) -> Seq<Seq<char>> {
    v.map_values(|s: String| s@)
}

/// `parts` with `sep` between each two of them.
pub open spec fn join_texts(parts: Seq<Seq<char>>, sep: Seq<char>) -> Seq<char>
    decreases parts.len(),
{
    if parts.len() == 0 {
        Seq::empty()
    } else if parts.len() == 1 {
        parts[0]
    } else {
        join_texts(parts.drop_last(), sep) + sep + parts.last()
    }
}

/// Each part wrapped between `left` and `right`.
pub open spec fn wrap_texts(parts: Seq<Seq<char>>, left: Seq<char>, right: Seq<char>) -> Seq<
    Seq<char>,
> {
    parts.map_values(|p: Seq<char>| left + p + right)
}

/// `n` levels of four-space indentation.
pub open spec fn indent_text(n: nat) -> Seq<char>
    decreases n,
{
    if n == 0 {
        Seq::empty()
    } else {
        indent_text((n - 1) as nat) + "    "@
    }
}

/// The strings of `v`, with `sep` between each two of them.
pub fn join_strings(v: &Vec<String>, sep: &str) -> (r: String)
    ensures
        r@ == join_texts(texts(v@), sep@),
{
    let mut r = String::new();
    let n = v.len();
    let mut i: usize = 0;
    while i < n
        invariant
            n == v@.len(),
            i <= n,
            r@ == join_texts(texts(v@.subrange(0, i as int)), sep@),
        decreases n - i,
    {
        let ghost before = r@;
        proof {
            assert(texts(v@.subrange(0, i + 1)).drop_last() =~= texts(v@.subrange(0, i as int)));
            assert(texts(v@.subrange(0, i + 1)).last() == v@[i as int]@);
        }
        if i > 0 {
            r.append(sep);
        }
        r.append(v[i].as_str());
        i = i + 1;
    }
    proof {
        assert(v@.subrange(0, n as int) =~= v@);
    }
    r
}

/// The strings of `v`, each between `left` and `right`, with `sep` between each two of them.
pub fn join_wrapped(v: &Vec<String>, left: &str, right: &str, sep: &str) -> (r: String)
    ensures
        r@ == join_texts(wrap_texts(texts(v@), left@, right@), sep@),
{
    let mut r = String::new();
    let n = v.len();
    let mut i: usize = 0;
    while i < n
        invariant
            n == v@.len(),
            i <= n,
            r@ == join_texts(wrap_texts(texts(v@.subrange(0, i as int)), left@, right@), sep@),
        decreases n - i,
    {
        proof {
            assert(wrap_texts(texts(v@.subrange(0, i + 1)), left@, right@).drop_last() =~= wrap_texts(
                texts(v@.subrange(0, i as int)),
                left@,
                right@,
            ));
        }
        let ghost before = r@;
        if i > 0 {
            r.append(sep);
        }
        r.append(left);
        r.append(v[i].as_str());
        r.append(right);
        proof {
            let w = wrap_texts(texts(v@.subrange(0, i + 1)), left@, right@);
            assert(w.last() == left@ + v@[i as int]@ + right@);
            if i > 0 {
                assert(r@ =~= before + sep@ + w.last());
            } else {
                assert(r@ =~= w.last());
            }
        }
        i = i + 1;
    }
    proof {
        assert(v@.subrange(0, n as int) =~= v@);
    }
    r
}

/// The texts `f` gives for each item of `s`, one after another.
pub open spec fn concat_map<T>(s: Seq<T>, f: spec_fn(T) -> Seq<char>) -> Seq<char>
    decreases s.len(),
{
    if s.len() == 0 {
        Seq::empty()
    } else {
        concat_map(s.drop_last(), f) + f(s.last())
    }
}

/// One more item read off `s`, in order.
pub proof fn lemma_concat_map_step<T>(s: Seq<T>, i: int, f: spec_fn(T) -> Seq<char>)
    requires
        0 <= i < s.len(),
    ensures
        concat_map(s.subrange(0, i + 1), f) == concat_map(s.subrange(0, i), f) + f(s[i]),
{
    assert(s.subrange(0, i + 1).drop_last() =~= s.subrange(0, i));
}

/// All of `s` read.
pub proof fn lemma_concat_map_all<T>(s: Seq<T>, f: spec_fn(T) -> Seq<char>)
    ensures
        concat_map(s.subrange(0, s.len() as int), f) == concat_map(s, f),
{
    assert(s.subrange(0, s.len() as int) =~= s);
}

/// A template with `x` put in each hole: the parts with `x` between each two of them.
pub open spec fn fill(parts: Seq<&str>, x: Seq<char>) -> Seq<char>
    decreases parts.len(),
{
    if parts.len() == 0 {
        Seq::empty()
    } else if parts.len() == 1 {
        parts[0]@
    } else {
        fill(parts.drop_last(), x) + x + parts.last()@
    }
}

/// Write the template `parts` with `x` in each hole.
pub fn write_fill(s: &mut String, parts: &[&str], x: &str)
    ensures
        final(s)@ == old(s)@ + fill(parts@, x@),
{
    let n = parts.len();
    let mut i: usize = 0;
    while i < n
        invariant
            n == parts@.len(),
            i <= n,
            s@ == old(s)@ + fill(parts@.subrange(0, i as int), x@),
        decreases n - i,
    {
        proof {
            assert(parts@.subrange(0, i + 1).drop_last() =~= parts@.subrange(0, i as int));
        }
        let ghost before = s@;
        if i > 0 {
            s.append(x);
        }
        s.append(parts[i]);
        proof {
            if i > 0 {
                assert(s@ =~= before + x@ + parts@[i as int]@);
            } else {
                assert(s@ =~= before + parts@[i as int]@);
            }
        }
        i = i + 1;
    }
    proof {
        assert(parts@.subrange(0, n as int) =~= parts@);
    }
}

/// A template with several holes: each part followed by the hole of the same index.
pub open spec fn fill_holes(parts: Seq<&str>, holes: Seq<Seq<char>>) -> Seq<char>
    decreases parts.len(),
{
    if parts.len() == 0 {
        Seq::empty()
    } else if parts.len() == 1 {
        parts[0]@
    } else {
        fill_holes(parts.drop_last(), holes) + holes[parts.len() - 2] + parts.last()@
    }
}

/// The texts of a list of string slices.
pub open spec fn str_texts(v: Seq<&str>) -> Seq<Seq<char>> {
    v.map_values(|s: &str| s@)
}

/// Write the template `parts`, with `holes[i]` after `parts[i]`.
pub fn write_holes(s: &mut String, parts: &[&str], holes: &[&str])
    requires
        parts@.len() == holes@.len() + 1,
    ensures
        final(s)@ == old(s)@ + fill_holes(parts@, str_texts(holes@)),
{
    let n = parts.len();
    let mut i: usize = 0;
    while i < n
        invariant
            n == parts@.len(),
            n == holes@.len() + 1,
            i <= n,
            s@ == old(s)@ + fill_holes(parts@.subrange(0, i as int), str_texts(holes@)),
        decreases n - i,
    {
        proof {
            assert(parts@.subrange(0, i + 1).drop_last() =~= parts@.subrange(0, i as int));
        }
        let ghost before = s@;
        if i > 0 {
            s.append(holes[i - 1]);
        }
        s.append(parts[i]);
        proof {
            if i > 0 {
                assert(s@ =~= before + str_texts(holes@)[i - 1] + parts@[i as int]@);
            } else {
                assert(s@ =~= before + parts@[i as int]@);
            }
        }
        i = i + 1;
    }
    proof {
        assert(parts@.subrange(0, n as int) =~= parts@);
    }
}

/// The decimal digit of a number below ten.
pub open spec fn digit_char(d: nat) -> char {
    if d == 0 {
        '0'
    } else if d == 1 {
        '1'
    } else if d == 2 {
        '2'
    } else if d == 3 {
        '3'
    } else if d == 4 {
        '4'
    } else if d == 5 {
        '5'
    } else if d == 6 {
        '6'
    } else if d == 7 {
        '7'
    } else if d == 8 {
        '8'
    } else {
        '9'
    }
}

/// A number written in decimal, without leading zeros.
pub open spec fn decimal_text(n: nat) -> Seq<char>
    decreases n,
{
    if n < 10 {
        seq![digit_char(n)]
    } else {
        decimal_text(n / 10) + seq![digit_char(n % 10)]
    }
}

fn digit_of(d: u64) -> (c: char)
    requires
        d < 10,
    ensures
        c == digit_char(d as nat),
{
    if d == 0 {
        '0'
    } else if d == 1 {
        '1'
    } else if d == 2 {
        '2'
    } else if d == 3 {
        '3'
    } else if d == 4 {
        '4'
    } else if d == 5 {
        '5'
    } else if d == 6 {
        '6'
    } else if d == 7 {
        '7'
    } else if d == 8 {
        '8'
    } else {
        '9'
    }
}

/// Append `n` written in decimal.
pub fn write_decimal(s: &mut String, n: u64)
    ensures
        final(s)@ == old(s)@ + decimal_text(n as nat),
    decreases n,
{
    if n < 10 {
        push_char(s, digit_of(n));
        assert(final(s)@ =~= old(s)@ + decimal_text(n as nat)) by {
            assert(s@ =~= old(s)@ + seq![digit_char(n as nat)]);
        }
    } else {
        write_decimal(s, n / 10);
        let ghost mid = s@;
        push_char(s, digit_of(n % 10));
        assert(s@ =~= mid + seq![digit_char((n % 10) as nat)]);
    }
}

/// A name with each `.` replaced by `_`.
pub open spec fn dots_to_underscores(s: Seq<char>) -> Seq<char> {
    s.map_values(|c: char| if c == '.' { '_' } else { c })
}

/// The name with each `.` replaced by `_`.
pub fn replace_dots(name: &str) -> (r: String)
    ensures
        r@ == dots_to_underscores(name@),
{
    let n = name.unicode_len();
    let mut r = String::new();
    let mut i: usize = 0;
    while i < n
        invariant
            n == name@.len(),
            i <= n,
            r@ == dots_to_underscores(name@.subrange(0, i as int)),
        decreases n - i,
    {
        let c = name.get_char(i);
        if c == '.' {
            push_char(&mut r, '_');
        } else {
            push_char(&mut r, c);
        }
        assert(r@ =~= dots_to_underscores(name@.subrange(0, i + 1)));
        i = i + 1;
    }
    assert(name@.subrange(0, n as int) =~= name@);
    r
}

/// Four spaces for each level of indentation.
pub fn indents(n: usize) -> (r: String)
    ensures
        r@ == indent_text(n as nat),
{
    let mut r = String::new();
    let mut i: usize = 0;
    while i < n
        invariant
            i <= n,
            r@ == indent_text(i as nat),
        decreases n - i,
    {
        r.append("    ");
        i = i + 1;
    }
    r
}

} // verus!
