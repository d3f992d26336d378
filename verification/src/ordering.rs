use vstd::prelude::*;
use vstd::string::*;

use crate::project::str_equal;
use crate::text::texts;

verus! {

/// `a` comes before `b` at position `i`: they agree before `i`, and there `a` ends
/// while `b` goes on, or `a` has the smaller character.
pub open spec fn lt_at(a: Seq<char>, b: Seq<char>, i: int) -> bool {
    &&& 0 <= i <= a.len()
    &&& i <= b.len()
    &&& forall|j: int| 0 <= j < i ==> a[j] == b[j]
    &&& (i == a.len() && i < b.len()) || (i < a.len() && i < b.len() && (a[i] as int) < (b[i] as int))
}

/// The lexicographic order of texts, by character code, which is the order of `String`.
pub open spec fn text_lt(a: Seq<char>, b: Seq<char>) -> bool {
    exists|i: int| #[trigger] lt_at(a, b, i)
}

pub proof fn lemma_text_lt_irreflexive(a: Seq<char>)
    ensures
        !text_lt(a, a),
{
    assert forall|i: int| !#[trigger] lt_at(a, a, i) by {}
}

pub proof fn lemma_text_lt_transitive(a: Seq<char>, b: Seq<char>, c: Seq<char>)
    requires
        text_lt(a, b),
        text_lt(b, c),
    ensures
        text_lt(a, c),
{
    let i = choose|i: int| lt_at(a, b, i);
    let k = choose|k: int| lt_at(b, c, k);
    if i < k {
        assert(lt_at(a, c, i));
    } else if k < i {
        assert(lt_at(a, c, k));
    } else {
        assert(lt_at(a, c, i));
    }
}

proof fn lemma_total_from(a: Seq<char>, b: Seq<char>, k: int)
    requires
        0 <= k <= a.len(),
        k <= b.len(),
        forall|j: int| 0 <= j < k ==> a[j] == b[j],
    ensures
        a == b || text_lt(a, b) || text_lt(b, a),
    decreases a.len() - k,
{
    if k == a.len() {
        if k == b.len() {
            assert(a =~= b);
        } else {
            assert(lt_at(a, b, k));
        }
    } else if k == b.len() {
        assert(lt_at(b, a, k));
    } else if a[k] != b[k] {
        if (a[k] as int) < (b[k] as int) {
            assert(lt_at(a, b, k));
        } else {
            assert(lt_at(b, a, k));
        }
    } else {
        lemma_total_from(a, b, k + 1);
    }
}

pub proof fn lemma_text_lt_total(a: Seq<char>, b: Seq<char>)
    ensures
        a == b || text_lt(a, b) || text_lt(b, a),
{
    lemma_total_from(a, b, 0);
}

/// Whether `a` comes before `b` in the order of `String`.
pub fn text_less(a: &str, b: &str) -> (r: bool)
    ensures
        r == text_lt(a@, b@),
{
    let n = a.unicode_len();
    let m = b.unicode_len();
    let mut i: usize = 0;
    while i < n && i < m
        invariant
            n == a@.len(),
            m == b@.len(),
            i <= n,
            i <= m,
            forall|j: int| 0 <= j < i ==> a@[j] == b@[j],
        decreases n - i,
    {
        let x = a.get_char(i);
        let y = b.get_char(i);
        if x != y {
            let r = (x as u32) < (y as u32);
            proof {
                if r {
                    assert(lt_at(a@, b@, i as int));
                } else {
                    assert forall|j: int| !#[trigger] lt_at(a@, b@, j) by {
                        if lt_at(a@, b@, j) && j > i {
                            assert(a@[i as int] == b@[i as int]);
                        }
                    }
                }
            }
            return r;
        }
        i = i + 1;
    }
    let r = n < m;
    proof {
        if r {
            assert(lt_at(a@, b@, i as int));
        } else {
            assert forall|j: int| !#[trigger] lt_at(a@, b@, j) by {}
        }
    }
    r
}

/// Each text comes before the next one: the list is sorted and holds no text twice.
pub open spec fn strictly_sorted(s: Seq<Seq<char>>) -> bool {
    forall|i: int, j: int| 0 <= i < j < s.len() ==> text_lt(#[trigger] s[i], #[trigger] s[j])
}

/// The distinct texts of `names`, in the order of `String`.
pub open spec fn sorted_names(names: Seq<Seq<char>>) -> Seq<Seq<char>> {
    choose|o: Seq<Seq<char>>| strictly_sorted(o) && o.to_set() == names.to_set()
}

proof fn lemma_sorted_unique(a: Seq<Seq<char>>, b: Seq<Seq<char>>)
    requires
        strictly_sorted(a),
        strictly_sorted(b),
        a.to_set() == b.to_set(),
    ensures
        a == b,
    decreases a.len(),
{
    if a.len() == 0 {
        if b.len() > 0 {
            assert(b.to_set().contains(b[0]));
        }
        assert(a =~= b);
    } else {
        assert(a.to_set().contains(a[0]));
        assert(b.len() > 0);
        assert(b.to_set().contains(b[0]));
        let k = choose|k: int| 0 <= k < b.len() && b[k] == a[0];
        let m = choose|m: int| 0 <= m < a.len() && a[m] == b[0];
        if a[0] != b[0] {
            assert(text_lt(b[0], b[k]));
            assert(text_lt(a[0], a[m]));
            lemma_text_lt_transitive(a[0], b[0], a[0]);
            lemma_text_lt_irreflexive(a[0]);
        }
        let a1 = a.drop_first();
        let b1 = b.drop_first();
        assert forall|x: Seq<char>| a1.to_set().contains(x) implies b1.to_set().contains(x) by {
            let i = choose|i: int| 0 <= i < a1.len() && a1[i] == x;
            assert(a.to_set().contains(a[i + 1]));
            let j = choose|j: int| 0 <= j < b.len() && b[j] == x;
            if j == 0 {
                assert(text_lt(a[0], a[i + 1]));
                lemma_text_lt_irreflexive(a[0]);
            }
            assert(b1[j - 1] == x);
        }
        assert forall|x: Seq<char>| b1.to_set().contains(x) implies a1.to_set().contains(x) by {
            let i = choose|i: int| 0 <= i < b1.len() && b1[i] == x;
            assert(b.to_set().contains(b[i + 1]));
            let j = choose|j: int| 0 <= j < a.len() && a[j] == x;
            if j == 0 {
                assert(text_lt(b[0], b[i + 1]));
                lemma_text_lt_irreflexive(b[0]);
            }
            assert(a1[j - 1] == x);
        }
        assert(a1.to_set() =~= b1.to_set());
        lemma_sorted_unique(a1, b1);
        assert(a.len() == b.len());
        assert forall|i: int| 0 <= i < a.len() implies a[i] == b[i] by {
            if i > 0 {
                assert(a[i] == a1[i - 1]);
                assert(b[i] == b1[i - 1]);
            }
        }
        assert(a =~= b);
    }
}

/// A sorted list holding exactly the texts of `names` is `sorted_names(names)`.
pub proof fn lemma_sorted_names(o: Seq<Seq<char>>, names: Seq<Seq<char>>)
    requires
        strictly_sorted(o),
        o.to_set() == names.to_set(),
    ensures
        sorted_names(names) == o,
{
    let c = sorted_names(names);
    lemma_sorted_unique(o, c);
}

/// Put `x` into the sorted list `v`, unless it is there already.
pub fn insert_sorted(v: &mut Vec<String>, x: &str)
    requires
        strictly_sorted(texts(old(v)@)),
    ensures
        strictly_sorted(texts(final(v)@)),
        texts(final(v)@).to_set() == texts(old(v)@).to_set().insert(x@),
{
    let ghost old_t = texts(v@);
    let n = v.len();
    let mut p: usize = 0;
    loop
        invariant_except_break
            p <= n,
            forall|j: int| 0 <= j < p ==> text_lt(#[trigger] old_t[j], x@),
        invariant
            n == v@.len(),
            texts(v@) == old_t,
            strictly_sorted(old_t),
        ensures
            p <= n,
            forall|j: int| 0 <= j < p ==> text_lt(#[trigger] old_t[j], x@),
            p < n ==> text_lt(x@, old_t[p as int]),
        decreases n - p,
    {
        if p == n {
            break;
        }
        if str_equal(v[p].as_str(), x) {
            proof {
                assert(old_t[p as int] == x@);
                assert(old_t.to_set() =~= old_t.to_set().insert(x@));
            }
            return;
        }
        if !text_less(v[p].as_str(), x) {
            proof {
                lemma_text_lt_total(old_t[p as int], x@);
            }
            break;
        }
        p = p + 1;
    }
    v.insert(p, String::from_str(x));
    proof {
        reveal_strlit("");
        let t = texts(v@);
        assert(t =~= old_t.insert(p as int, x@));
        assert forall|k: int| p <= k < n implies text_lt(x@, #[trigger] old_t[k]) by {
            if k > p {
                lemma_text_lt_transitive(x@, old_t[p as int], old_t[k]);
            }
        }
        assert forall|i: int, j: int| 0 <= i < j < t.len() implies text_lt(#[trigger] t[i], #[trigger] t[j]) by {
            if j < p {
            } else if j == p {
            } else if i < p {
                assert(t[j] == old_t[j - 1]);
                lemma_text_lt_transitive(t[i], x@, t[j]);
            } else if i == p {
                assert(t[j] == old_t[j - 1]);
            } else {
                assert(t[i] == old_t[i - 1] && t[j] == old_t[j - 1]);
            }
        }
        assert forall|y: Seq<char>| t.to_set().contains(y) implies old_t.to_set().insert(x@).contains(y) by {
            let i = choose|i: int| 0 <= i < t.len() && t[i] == y;
            if i < p {
                assert(old_t[i] == y);
            } else if i > p {
                assert(old_t[i - 1] == y);
            }
        }
        assert forall|y: Seq<char>| old_t.to_set().insert(x@).contains(y) implies t.to_set().contains(y) by {
            if y == x@ {
                assert(t[p as int] == x@);
            } else {
                let i = choose|i: int| 0 <= i < old_t.len() && old_t[i] == y;
                if i < p {
                    assert(t[i] == y);
                } else {
                    assert(t[i + 1] == y);
                }
            }
        }
        assert(t.to_set() =~= old_t.to_set().insert(x@));
    }
}

} // verus!
