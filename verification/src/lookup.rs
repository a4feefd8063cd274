//! Finding names in a table.

use vstd::prelude::*;

verus! {

/// The values of a list of names, in order.
pub open spec fn names_view(names: Seq<String>) -> Seq<Seq<char>> {
    names.map_values(|s: String| s@)
}

/// `name` occurs among `names`.
pub open spec fn has_name(names: Seq<Seq<char>>, name: Seq<char>) -> bool {
    exists|i: int| 0 <= i < names.len() && #[trigger] names[i] == name
}

/// `i` is the first place at which `name` occurs among `names`.
pub open spec fn is_first_index(names: Seq<Seq<char>>, name: Seq<char>, i: int) -> bool {
    &&& 0 <= i < names.len()
    &&& names[i] == name
    &&& forall|j: int| 0 <= j < i ==> #[trigger] names[j] != name
}

/// The handle of `name`: the first place at which it occurs among `names`, if any.
pub open spec fn index_of(names: Seq<Seq<char>>, name: Seq<char>) -> Option<int> {
    if has_name(names, name) {
        Some(choose|i: int| is_first_index(names, name, i))
    } else {
        None
    }
}

/// No name occurs twice.
pub open spec fn distinct(names: Seq<Seq<char>>) -> bool {
    forall|i: int, j: int|
        0 <= i < names.len() && 0 <= j < names.len() && i != j ==> #[trigger] names[i]
            != #[trigger] names[j]
}

/// A name that occurs has exactly one first place, and `index_of` gives it.
pub proof fn lemma_index_of_first(names: Seq<Seq<char>>, name: Seq<char>, i: int)
    requires
        is_first_index(names, name, i),
    ensures
        index_of(names, name) == Some(i),
{
    assert(has_name(names, name));
    let k = choose|k: int| is_first_index(names, name, k);
    assert(is_first_index(names, name, k));
    if k < i {
        assert(names[k] != name);
    }
    if i < k {
        assert(names[i] != name);
    }
}

/// The handle of a name that occurs is in range, and the entry behind it has
/// that name: it is the first that has it.
pub proof fn law_handle_leads_to_its_name(names: Seq<Seq<char>>, name: Seq<char>)
    requires
        has_name(names, name),
    ensures
        index_of(names, name) is Some,
        is_first_index(names, name, index_of(names, name)->0),
    decreases names.len(),
{
    let w = choose|i: int| 0 <= i < names.len() && #[trigger] names[i] == name;
    lemma_first_exists(names, name, w);
}

proof fn lemma_first_exists(names: Seq<Seq<char>>, name: Seq<char>, w: int)
    requires
        0 <= w < names.len(),
        names[w] == name,
    ensures
        exists|i: int| is_first_index(names, name, i),
    decreases w,
{
    if exists|j: int| 0 <= j < w && #[trigger] names[j] == name {
        let j = choose|j: int| 0 <= j < w && #[trigger] names[j] == name;
        lemma_first_exists(names, name, j);
    } else {
        assert(is_first_index(names, name, w));
    }
}

/// Among distinct names every place is the handle of its own name: looking
/// up the name behind a handle gives the handle back.
pub proof fn law_distinct_names_are_their_own_handles(names: Seq<Seq<char>>, i: int)
    requires
        distinct(names),
        0 <= i < names.len(),
    ensures
        index_of(names, names[i]) == Some(i),
{
    assert(is_first_index(names, names[i], i));
    lemma_index_of_first(names, names[i], i);
}

/// Finds the handle of `name` among `names`.
pub fn find_name(names: &Vec<String>, name: &str) -> (r: Option<usize>)
    ensures
        r is Some <==> has_name(names_view(names@), name@),
        r matches Some(i) ==> is_first_index(names_view(names@), name@, i as int),
        match r {
            Some(i) => index_of(names_view(names@), name@) == Some(i as int),
            None => index_of(names_view(names@), name@) is None,
        },
{
    let key = name.to_owned();
    let mut i: usize = 0;
    while i < names.len()
        invariant
            i <= names.len(),
            key@ == name@,
            forall|j: int| 0 <= j < i ==> #[trigger] names_view(names@)[j] != name@,
        decreases names.len() - i,
    {
        if names[i] == key {
            proof {
                assert(names_view(names@)[i as int] == name@);
                lemma_index_of_first(names_view(names@), name@, i as int);
            }
            return Some(i);
        }
        i += 1;
    }
    None
}

} // verus!
