//! Collecting the defects of a table: those of each entry, in the order of
//! the entries.

use crate::error::{errors_view, push_error, ConfigError, ConfigErrorView, FieldKind, TableKind};
use crate::lookup::{distinct, find_name, has_name, index_of, is_first_index, names_view};
use crate::raw::opt_str;
use crate::config::opt_handle;
use vstd::prelude::*;

verus! {

/// What `f` gives for 0, 1, ... up to `n`, one after the other.
pub open spec fn concat_upto<T>(f: spec_fn(int) -> Seq<T>, n: nat) -> Seq<T>
    decreases n,
{
    if n == 0 {
        Seq::empty()
    } else {
        concat_upto(f, (n - 1) as nat) + f(n - 1)
    }
}

/// The whole is empty exactly when every part is.
pub proof fn lemma_concat_empty<T>(f: spec_fn(int) -> Seq<T>, n: nat)
    ensures
        concat_upto(f, n).len() == 0 <==> forall|i: int| 0 <= i < n ==> (#[trigger] f(i)).len() == 0,
    decreases n,
{
    if n > 0 {
        lemma_concat_empty(f, (n - 1) as nat);
        if concat_upto(f, n).len() != 0 && concat_upto(f, (n - 1) as nat).len() == 0 {
            assert(f(n - 1).len() != 0);
        }
    }
}

/// What a part holds, the whole holds.
pub proof fn lemma_concat_contains<T>(f: spec_fn(int) -> Seq<T>, n: nat, i: int, e: T)
    requires
        0 <= i < n,
        f(i).contains(e),
    ensures
        concat_upto(f, n).contains(e),
    decreases n,
{
    let front = concat_upto(f, (n - 1) as nat);
    if i == n - 1 {
        let part = f(i);
        let k = choose|k: int| 0 <= k < part.len() && part[k] == e;
        assert(concat_upto(f, n)[front.len() + k] == e);
    } else {
        lemma_concat_contains(f, (n - 1) as nat, i, e);
        let k = choose|k: int| 0 <= k < front.len() && front[k] == e;
        assert(concat_upto(f, n)[k] == e);
    }
}

/// What the whole holds, some part holds.
pub proof fn lemma_concat_source<T>(f: spec_fn(int) -> Seq<T>, n: nat, e: T) -> (i: int)
    requires
        concat_upto(f, n).contains(e),
    ensures
        0 <= i < n,
        f(i).contains(e),
    decreases n,
{
    let front = concat_upto(f, (n - 1) as nat);
    if n == 0 {
        assert(false);
        0
    } else {
        let whole = concat_upto(f, n);
        let k = choose|k: int| 0 <= k < whole.len() && whole[k] == e;
        if k < front.len() {
            assert(front[k] == e);
            lemma_concat_source(f, (n - 1) as nat, e)
        } else {
            assert(f(n - 1)[k - front.len()] == e);
            n - 1
        }
    }
}

/// The name at `i` has occurred before `i`.
pub open spec fn repeats(names: Seq<Seq<char>>, i: int) -> bool {
    exists|j: int| 0 <= j < i && #[trigger] names[j] == names[i]
}

/// The defect that a repeated name is: among the flattened scenarios a clash
/// of composite names, in any other table a repeated key.
pub open spec fn repeated_name(table: TableKind, name: Seq<char>) -> ConfigErrorView {
    if table == TableKind::Scenarios {
        ConfigErrorView::DuplicateScenarioName { name }
    } else {
        ConfigErrorView::DuplicateKey { table, name }
    }
}

/// The defect of the name at `i`, if it repeats an earlier one.
pub open spec fn duplicate_error(table: TableKind, names: Seq<Seq<char>>, i: int) -> Seq<
    ConfigErrorView,
> {
    if repeats(names, i) {
        seq![repeated_name(table, names[i])]
    } else {
        Seq::empty()
    }
}

/// The repeated names among the first `n` of a table, in order.
pub open spec fn duplicate_errors_upto(table: TableKind, names: Seq<Seq<char>>, n: nat) -> Seq<
    ConfigErrorView,
> {
    concat_upto(|i: int| duplicate_error(table, names, i), n)
}

/// The repeated names of a table, in order: one defect for each entry whose
/// name an earlier entry has.
pub open spec fn duplicate_errors(table: TableKind, names: Seq<Seq<char>>) -> Seq<
    ConfigErrorView,
> {
    duplicate_errors_upto(table, names, names.len())
}

/// A table has no repeated name exactly when its names are distinct.
pub proof fn lemma_duplicates_none(table: TableKind, names: Seq<Seq<char>>)
    ensures
        duplicate_errors(table, names).len() == 0 <==> distinct(names),
{
    let f = |i: int| duplicate_error(table, names, i);
    lemma_concat_empty(f, names.len());
    if distinct(names) {
        assert forall|i: int| 0 <= i < names.len() implies (#[trigger] f(i)).len() == 0 by {
            if repeats(names, i) {
                let j = choose|j: int| 0 <= j < i && #[trigger] names[j] == names[i];
                assert(names[j] != names[i]);
            }
        }
    }
    if duplicate_errors(table, names).len() == 0 {
        assert forall|i: int, j: int|
            0 <= i < names.len() && 0 <= j < names.len() && i != j implies #[trigger] names[i]
            != #[trigger] names[j] by {
            if names[i] == names[j] {
                if i < j {
                    assert(repeats(names, j));
                    assert(f(j).len() == 0);
                } else {
                    assert(repeats(names, i));
                    assert(f(i).len() == 0);
                }
            }
        }
    }
}

/// Reports every name of a table that repeats an earlier one.
pub fn check_duplicates(names: &Vec<String>, table: TableKind, errors: &mut Vec<ConfigError>)
    ensures
        errors_view(final(errors)@) == errors_view(old(errors)@) + duplicate_errors(
            table,
            names_view(names@),
        ),
{
    let ghost before = errors_view(errors@);
    let ghost nv = names_view(names@);
    let mut i: usize = 0;
    assert(before + duplicate_errors_upto(table, nv, 0) =~= before);
    while i < names.len()
        invariant
            i <= names.len(),
            nv == names_view(names@),
            errors_view(errors@) == before + duplicate_errors_upto(table, nv, i as nat),
        decreases names.len() - i,
    {
        let first = find_name(names, names[i].as_str());
        let ghost so_far = errors_view(errors@);
        assert(nv[i as int] == names@[i as int]@);
        assert(has_name(nv, nv[i as int]));
        let f = first.unwrap();
        assert(is_first_index(nv, nv[i as int], f as int));
        if f < i {
            assert(repeats(nv, i as int));
            let e = match table {
                TableKind::Scenarios => ConfigError::DuplicateScenarioName {
                    name: names[i].clone(),
                },
                _ => ConfigError::DuplicateKey { table, name: names[i].clone() },
            };
            push_error(errors, e);
            assert(errors_view(errors@) =~= so_far + duplicate_error(table, nv, i as int));
        } else {
            assert(!repeats(nv, i as int)) by {
                if repeats(nv, i as int) {
                    let j = choose|j: int| 0 <= j < i && #[trigger] nv[j] == nv[i as int];
                    assert(nv[j] != nv[i as int]);
                }
            }
            assert(errors_view(errors@) =~= so_far + duplicate_error(table, nv, i as int));
        }
        assert(errors_view(errors@) =~= before + duplicate_errors_upto(table, nv, (i + 1) as nat));
        i += 1;
    }
}

/// The handle that an optional reference resolves to: that of the entry it
/// names, if it names one.
pub open spec fn resolve_ref(names: Seq<Seq<char>>, reference: Option<Seq<char>>) -> Option<int> {
    match reference {
        Some(name) => index_of(names, name),
        None => None,
    }
}

/// A reference that does not dangle resolves to the entry it names: the
/// handle is in range and the name behind it is the name referred to. An
/// absent reference resolves to no handle.
pub proof fn law_reference_resolves_to_its_name(
    names: Seq<Seq<char>>,
    reference: Option<Seq<char>>,
)
    requires
        !dangles(names, reference),
    ensures
        resolve_ref(names, reference) is Some <==> reference is Some,
        resolve_ref(names, reference) matches Some(h) ==> 0 <= h < names.len() && names[h]
            == reference->0,
{
    if reference is Some {
        crate::lookup::law_handle_leads_to_its_name(names, reference->0);
    }
}

/// The reference is present and names no entry.
pub open spec fn dangles(names: Seq<Seq<char>>, reference: Option<Seq<char>>) -> bool {
    reference matches Some(name) && !has_name(names, name)
}

/// The defect of a reference that stands under `field` and is looked up among
/// the names of `table`, if it dangles.
pub open spec fn ref_errors(
    table: TableKind,
    field: FieldKind,
    names: Seq<Seq<char>>,
    reference: Option<Seq<char>>,
) -> Seq<ConfigErrorView> {
    if dangles(names, reference) {
        seq![ConfigErrorView::UnknownReference { table, field, name: reference->0 }]
    } else {
        Seq::empty()
    }
}

/// Resolves a reference against the names of its target table, and reports it
/// if it dangles.
pub fn resolve_name(
    names: &Vec<String>,
    name: &String,
    table: TableKind,
    field: FieldKind,
    errors: &mut Vec<ConfigError>,
) -> (r: Option<usize>)
    ensures
        errors_view(final(errors)@) == errors_view(old(errors)@) + ref_errors(
            table,
            field,
            names_view(names@),
            Some(name@),
        ),
        opt_handle(r) == index_of(names_view(names@), name@),
        r is Some <==> !dangles(names_view(names@), Some(name@)),
        r matches Some(h) ==> h < names.len(),
{
    let ghost before = errors_view(errors@);
    let found = find_name(names, name.as_str());
    if found.is_none() {
        push_error(errors, ConfigError::UnknownReference { table, field, name: name.clone() });
    }
    assert(errors_view(errors@) =~= before + ref_errors(
        table,
        field,
        names_view(names@),
        Some(name@),
    ));
    found
}

/// Resolves an optional reference against the names of its target table, and
/// reports it if it dangles.
pub fn resolve_opt_name(
    names: &Vec<String>,
    name: &Option<String>,
    table: TableKind,
    field: FieldKind,
    errors: &mut Vec<ConfigError>,
) -> (r: Option<usize>)
    ensures
        errors_view(final(errors)@) == errors_view(old(errors)@) + ref_errors(
            table,
            field,
            names_view(names@),
            opt_str(*name),
        ),
        opt_handle(r) == resolve_ref(names_view(names@), opt_str(*name)),
        r matches Some(h) ==> h < names.len(),
{
    match name {
        Some(n) => resolve_name(names, n, table, field, errors),
        None => {
            assert(errors_view(errors@) =~= errors_view(errors@) + ref_errors(
                table,
                field,
                names_view(names@),
                opt_str(*name),
            ));
            None
        },
    }
}

/// The names of a table as written, in order.
pub open spec fn raw_keys<T>(table: Seq<(String, T)>) -> Seq<Seq<char>> {
    table.map_values(|e: (String, T)| e.0@)
}

/// Copies the names of a table.
pub fn table_names<T>(table: &Vec<(String, T)>) -> (names: Vec<String>)
    ensures
        names_view(names@) == raw_keys(table@),
{
    let mut names: Vec<String> = Vec::new();
    let mut i: usize = 0;
    while i < table.len()
        invariant
            i <= table.len(),
            names@.len() == i,
            forall|j: int| 0 <= j < i ==> (#[trigger] names@[j])@ == table@[j].0@,
        decreases table.len() - i,
    {
        names.push(table[i].0.clone());
        i += 1;
    }
    assert(names_view(names@) =~= raw_keys(table@));
    names
}

} // verus!
