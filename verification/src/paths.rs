use vstd::prelude::*;

use crate::text::{chars_of, compare_chars, lemma_seq_lt_asymmetric, lemma_seq_lt_irreflexive, lemma_seq_lt_total,
    lemma_seq_lt_transitive, seq_lt, Order};

verus! {

/// What `std::path::Path::components` gives for the path `path`, each
/// component as its text: `/` for the root, `.` and `..` for the current and
/// the parent directory, and a name otherwise. Two paths are equal as paths
/// exactly when these lists are equal.
pub uninterp spec fn spec_path_components(path: Seq<char>) -> Seq<Seq<char>>;

/// Whether two paths are the same path: equal components.
pub open spec fn same_path(a: Seq<char>, b: Seq<char>) -> bool {
    spec_path_components(a) == spec_path_components(b)
}

/// Calls `std::path::Path::components`; the contract claims only that the
/// texts of the components are what `spec_path_components` names.
#[verifier::external_body]
fn path_components(path: &str) -> (c: Vec<String>)
    ensures
        c@.map_values(|s: String| s@) == spec_path_components(path@),
{
    std::path::Path::new(path).components().map(|c| c.as_os_str().to_string_lossy().into_owned()).collect()
}

/// The components of `path`, as character sequences.
pub fn path_key(path: &str) -> (k: Vec<Vec<char>>)
    ensures
        key_view(k@) == spec_path_components(path@),
{
    let parts = path_components(path);
    let mut k: Vec<Vec<char>> = Vec::new();
    for i in 0..parts.len()
        invariant
            parts@.map_values(|s: String| s@) == spec_path_components(path@),
            key_view(k@) == parts@.map_values(|s: String| s@).take(i as int),
    {
        let ghost before = k@;
        let c = chars_of(parts[i].as_str());
        k.push(c);
        proof {
            let names = parts@.map_values(|s: String| s@);
            assert(c@ == names[i as int]);
            assert(k@ == before.push(c));
            assert(key_view(k@) =~= key_view(before).push(c@));
            assert(names.take(i + 1) =~= names.take(i as int).push(names[i as int]));
        }
    }
    proof {
        assert(parts@.map_values(|s: String| s@).take(parts@.len() as int) =~= parts@.map_values(|s: String| s@));
    }
    k
}

/// The character sequences held by a key.
pub open spec fn key_view(k: Seq<Vec<char>>) -> Seq<Seq<char>> {
    k.map_values(|v: Vec<char>| v@)
}

/// Strict lexicographic order on component lists, components compared by
/// `seq_lt`.
pub open spec fn key_lt(a: Seq<Seq<char>>, b: Seq<Seq<char>>) -> bool
    decreases a.len(),
{
    if a.len() == 0 {
        b.len() > 0
    } else if b.len() == 0 {
        false
    } else if a[0] != b[0] {
        seq_lt(a[0], b[0])
    } else {
        key_lt(a.drop_first(), b.drop_first())
    }
}

/// Each key is strictly below every later one (so no key occurs twice).
pub open spec fn keys_sorted(keys: Seq<Seq<Seq<char>>>) -> bool {
    forall|i: int, j: int| 0 <= i < j < keys.len() ==> key_lt(#[trigger] keys[i], #[trigger] keys[j])
}

pub proof fn lemma_key_lt_irreflexive(a: Seq<Seq<char>>)
    ensures
        !key_lt(a, a),
    decreases a.len(),
{
    if a.len() > 0 {
        lemma_key_lt_irreflexive(a.drop_first());
    }
}

pub proof fn lemma_key_lt_asymmetric(a: Seq<Seq<char>>, b: Seq<Seq<char>>)
    ensures
        !(key_lt(a, b) && key_lt(b, a)),
    decreases a.len(),
{
    if a.len() > 0 && b.len() > 0 {
        if a[0] == b[0] {
            lemma_key_lt_asymmetric(a.drop_first(), b.drop_first());
        } else {
            lemma_seq_lt_asymmetric(a[0], b[0]);
        }
    }
}

pub proof fn lemma_key_lt_transitive(a: Seq<Seq<char>>, b: Seq<Seq<char>>, c: Seq<Seq<char>>)
    requires
        key_lt(a, b),
        key_lt(b, c),
    ensures
        key_lt(a, c),
    decreases a.len(),
{
    if a.len() > 0 && b.len() > 0 && c.len() > 0 {
        if a[0] == b[0] && b[0] == c[0] {
            lemma_key_lt_transitive(a.drop_first(), b.drop_first(), c.drop_first());
        } else if a[0] == b[0] {
        } else if b[0] == c[0] {
        } else {
            lemma_seq_lt_transitive(a[0], b[0], c[0]);
            if a[0] == c[0] {
                lemma_seq_lt_asymmetric(a[0], b[0]);
            }
        }
    }
}

pub proof fn lemma_key_lt_total(a: Seq<Seq<char>>, b: Seq<Seq<char>>)
    ensures
        key_lt(a, b) || a == b || key_lt(b, a),
    decreases a.len(),
{
    if a.len() == 0 && b.len() == 0 {
        assert(a =~= b);
    } else if a.len() > 0 && b.len() > 0 {
        if a[0] == b[0] {
            lemma_key_lt_total(a.drop_first(), b.drop_first());
            if a.drop_first() == b.drop_first() {
                assert(a =~= seq![a[0]] + a.drop_first());
                assert(b =~= seq![b[0]] + b.drop_first());
            }
        } else {
            lemma_seq_lt_total(a[0], b[0]);
        }
    }
}

proof fn lemma_key_lt_skip(a: Seq<Seq<char>>, b: Seq<Seq<char>>, i: int)
    requires
        0 <= i <= a.len(),
        i <= b.len(),
        a.take(i) == b.take(i),
    ensures
        key_lt(a, b) == key_lt(a.skip(i), b.skip(i)),
    decreases i,
{
    if i > 0 {
        assert(a[0] == a.take(i)[0]);
        assert(b[0] == b.take(i)[0]);
        assert(a.drop_first().take(i - 1) =~= a.take(i).drop_first());
        assert(b.drop_first().take(i - 1) =~= b.take(i).drop_first());
        lemma_key_lt_skip(a.drop_first(), b.drop_first(), i - 1);
        assert(a.drop_first().skip(i - 1) =~= a.skip(i));
        assert(b.drop_first().skip(i - 1) =~= b.skip(i));
    } else {
        assert(a.skip(0) =~= a);
        assert(b.skip(0) =~= b);
    }
}

/// Compares two component lists in the order of `key_lt`.
pub fn compare_keys(a: &Vec<Vec<char>>, b: &Vec<Vec<char>>) -> (o: Order)
    ensures
        (o == Order::Equal) == (key_view(a@) == key_view(b@)),
        (o == Order::Less) == key_lt(key_view(a@), key_view(b@)),
        (o == Order::Greater) == key_lt(key_view(b@), key_view(a@)),
{
    let ghost ka = key_view(a@);
    let ghost kb = key_view(b@);
    let mut i: usize = 0;
    while i < a.len() && i < b.len() && compare_chars(&a[i], &b[i]) == Order::Equal
        invariant
            ka == key_view(a@),
            kb == key_view(b@),
            i <= a.len(),
            i <= b.len(),
            ka.take(i as int) == kb.take(i as int),
        decreases a.len() - i,
    {
        assert(ka.take(i + 1) =~= ka.take(i as int).push(ka[i as int]));
        assert(kb.take(i + 1) =~= kb.take(i as int).push(kb[i as int]));
        i = i + 1;
    }
    proof {
        lemma_key_lt_skip(ka, kb, i as int);
        lemma_key_lt_asymmetric(ka, kb);
        lemma_key_lt_total(ka, kb);
        lemma_key_lt_irreflexive(ka);
    }
    if i == a.len() && i == b.len() {
        assert(ka =~= ka.take(i as int));
        assert(kb =~= kb.take(i as int));
        Order::Equal
    } else if i == a.len() {
        assert(ka.skip(i as int).len() == 0);
        proof { if ka == kb { assert(false); } }
        Order::Less
    } else if i == b.len() {
        assert(kb.skip(i as int).len() == 0);
        proof { if ka == kb { assert(false); } }
        Order::Greater
    } else {
        assert(ka.skip(i as int)[0] == ka[i as int]);
        assert(kb.skip(i as int)[0] == kb[i as int]);
        proof { if ka == kb { assert(ka[i as int] == kb[i as int]); } }
        if compare_chars(&a[i], &b[i]) == Order::Less {
            Order::Less
        } else {
            Order::Greater
        }
    }
}

} // verus!
