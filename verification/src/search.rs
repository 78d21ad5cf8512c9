//! First-match search over indexed collections, as contracts state it.

use vstd::prelude::*;

verus! {

/// Text as contracts see it.
pub type Text = Seq<char>;

/// `i` is the least index below `n` at which `p` holds.
pub open spec fn is_least(p: spec_fn(int) -> bool, n: int, i: int) -> bool {
    &&& 0 <= i < n
    &&& p(i)
    &&& forall|j: int| 0 <= j < i ==> !#[trigger] p(j)
}

/// The least index below `n` at which `p` holds, if there is one.
pub open spec fn least(p: spec_fn(int) -> bool, n: int) -> Option<int> {
    if exists|i: int| is_least(p, n, i) {
        Some(choose|i: int| is_least(p, n, i))
    } else {
        None
    }
}

/// An index that meets `is_least` is the one `least` names.
pub proof fn lemma_least_found(p: spec_fn(int) -> bool, n: int, i: int)
    requires
        is_least(p, n, i),
    ensures
        least(p, n) == Some(i),
{
    let k = choose|k: int| is_least(p, n, k);
    assert(is_least(p, n, k));
    if k < i {
        assert(!p(k));
    }
    if i < k {
        assert(!p(i));
    }
}

/// Where `p` holds nowhere below `n`, `least` finds nothing.
pub proof fn lemma_least_absent(p: spec_fn(int) -> bool, n: int)
    requires
        forall|j: int| 0 <= j < n ==> !#[trigger] p(j),
    ensures
        least(p, n) is None,
{
    if exists|i: int| is_least(p, n, i) {
        let k = choose|k: int| is_least(p, n, k);
        assert(!p(k));
    }
}

/// Below an index at which `p` holds there is a least such index.
proof fn lemma_least_exists(p: spec_fn(int) -> bool, n: int, j: int)
    requires
        0 <= j < n,
        p(j),
    ensures
        exists|i: int| is_least(p, n, i),
    decreases j,
{
    if forall|k: int| 0 <= k < j ==> !#[trigger] p(k) {
        assert(is_least(p, n, j));
    } else {
        let k = choose|k: int| 0 <= k < j && #[trigger] p(k);
        lemma_least_exists(p, n, k);
    }
}

/// What `least` returns, spelled out.
pub proof fn lemma_least(p: spec_fn(int) -> bool, n: int)
    ensures
        match least(p, n) {
            Some(i) => is_least(p, n, i),
            None => forall|j: int| 0 <= j < n ==> !#[trigger] p(j),
        },
{
    if exists|i: int| is_least(p, n, i) {
    } else {
        assert forall|j: int| 0 <= j < n implies !#[trigger] p(j) by {
            if p(j) {
                lemma_least_exists(p, n, j);
            }
        }
    }
}

/// The test that a place of `names` holds `name`.
pub open spec fn holds(names: Seq<Text>, name: Text) -> spec_fn(int) -> bool {
    |i: int| names[i] == name
}

/// The first place of `names` that holds `name`, if any does.
pub open spec fn position(names: Seq<Text>, name: Text) -> Option<int> {
    least(holds(names, name), names.len() as int)
}

/// Whether `names` holds `name`.
pub open spec fn listed(names: Seq<Text>, name: Text) -> bool {
    position(names, name) is Some
}

/// `position` finds `i` where `names[i]` is the first occurrence of `name`.
pub proof fn lemma_position_found(names: Seq<Text>, name: Text, i: int)
    requires
        0 <= i < names.len(),
        names[i] == name,
        forall|j: int| 0 <= j < i ==> names[j] != name,
    ensures
        position(names, name) == Some(i),
{
    lemma_least_found(holds(names, name), names.len() as int, i);
}

/// `position` finds nothing where `name` does not occur.
pub proof fn lemma_position_absent(names: Seq<Text>, name: Text)
    requires
        forall|j: int| 0 <= j < names.len() ==> names[j] != name,
    ensures
        position(names, name) is None,
{
    lemma_least_absent(holds(names, name), names.len() as int);
}

/// What `position` returns, spelled out.
pub proof fn lemma_position(names: Seq<Text>, name: Text)
    ensures
        match position(names, name) {
            Some(i) => 0 <= i < names.len() && names[i] == name && forall|j: int|
                0 <= j < i ==> names[j] != name,
            None => forall|j: int| 0 <= j < names.len() ==> names[j] != name,
        },
{
    let p = holds(names, name);
    lemma_least(p, names.len() as int);
    match position(names, name) {
        Some(i) => {
            assert forall|j: int| 0 <= j < i implies names[j] != name by {
                assert(!p(j));
            }
        },
        None => {
            assert forall|j: int| 0 <= j < names.len() implies names[j] != name by {
                assert(!p(j));
            }
        },
    }
}

/// No name occurs twice.
pub open spec fn distinct(names: Seq<Text>) -> bool {
    forall|i: int, j: int| 0 <= i < j < names.len() ==> names[i] != names[j]
}

} // verus!
