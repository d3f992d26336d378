use vstd::prelude::*;
use vstd::string::*;

verus! {

/// The path `name` relative to `base`, as `Path::join` builds it: an absolute `name` (one
/// that starts with `/`) replaces `base`; else a separator is put between the two unless
/// `base` is empty or already ends in one.
pub open spec fn spec_join_path(base: Seq<char>, name: Seq<char>) -> Seq<char> {
    if name.len() > 0 && name[0] == '/' {
        name
    } else if base.len() == 0 {
        name
    } else if base.last() == '/' {
        base + name
    } else {
        base + "/"@ + name
    }
}

pub fn join_path(base: &str, name: &str) -> (r: String)
    ensures
        r@ == spec_join_path(base@, name@),
{
    if name.unicode_len() > 0 && name.get_char(0) == '/' {
        return String::from_str(name);
    }
    let n = base.unicode_len();
    if n == 0 {
        return String::from_str(name);
    }
    let mut r = String::from_str(base);
    if base.get_char(n - 1) == '/' {
        r.append(name);
    } else {
        r.append("/");
        r.append(name);
    }
    r
}

} // verus!
