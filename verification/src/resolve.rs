//! Alias chains and the merged field order of a struct: what they are, and
//! the facts about them that the rest of the library relies on.
use vstd::prelude::*;
use crate::ir::{items_at, Struct, StructView, TypeView};

verus! {

/// The named type that the last of `aliased` refers to barely, if any does.
pub open spec fn last_named(aliased: Seq<TypeView>) -> Option<Seq<char>>
    decreases aliased.len(),
{
    if aliased.len() == 0 {
        None
    } else {
        match aliased.last() {
            TypeView::Path(p) => Some(p),
            TypeView::Other => last_named(aliased.drop_last()),
        }
    }
}

/// The type that `path` is another name for: the target of the last typedef
/// bound to `path` whose aliased type is a bare named type.
pub open spec fn alias_of(typedefs: Seq<(Seq<char>, TypeView)>, path: Seq<char>) -> Option<
    Seq<char>,
> {
    last_named(items_at(typedefs, path))
}

/// Follows aliases from `path` for at most `fuel` steps. `None` when the
/// chain has not ended by then.
pub open spec fn resolve(typedefs: Seq<(Seq<char>, TypeView)>, path: Seq<char>, fuel: nat) -> Option<
    Seq<char>,
>
    decreases fuel,
{
    match alias_of(typedefs, path) {
        None => Some(path),
        Some(next) => if fuel == 0 {
            None
        } else {
            resolve(typedefs, next, (fuel - 1) as nat)
        },
    }
}

/// The alias-free path at the end of the chain that starts at `path`. A
/// chain is followed for as many steps as there are typedef bindings; one
/// that has not ended by then runs in a circle and has no canonical path.
pub open spec fn canonical(typedefs: Seq<(Seq<char>, TypeView)>, path: Seq<char>) -> Option<
    Seq<char>,
> {
    resolve(typedefs, path, typedefs.len())
}

/// Whether any of the instantiations is transparent.
pub open spec fn any_transparent(structs: Seq<StructView>) -> bool {
    exists|i: int| 0 <= i < structs.len() && (#[trigger] structs[i]).is_transparent
}

/// The index of the first occurrence of `name` in `names`.
pub open spec fn position(names: Seq<Seq<char>>, name: Seq<char>) -> Option<int>
    decreases names.len(),
{
    if names.len() == 0 {
        None
    } else {
        match position(names.drop_last(), name) {
            Some(i) => Some(i),
            None => if names.last() == name {
                Some(names.len() - 1)
            } else {
                None
            },
        }
    }
}

/// Merges the `fields` of one instantiation into the order `merged` built
/// so far, with the insertion cursor at `cursor`. A field that is already
/// present moves the cursor to just behind it; a new field is inserted at
/// the cursor, which then steps past it.
pub open spec fn merge_fields(merged: Seq<Seq<char>>, fields: Seq<Seq<char>>, cursor: int) -> Seq<
    Seq<char>,
>
    decreases fields.len(),
{
    if fields.len() == 0 {
        merged
    } else {
        match position(merged, fields.first()) {
            Some(at) => merge_fields(merged, fields.drop_first(), at + 1),
            None => merge_fields(
                merged.insert(cursor, fields.first()),
                fields.drop_first(),
                cursor + 1,
            ),
        }
    }
}

/// The field order merged over `structs`, taken in the order given.
pub open spec fn merged_fields(structs: Seq<StructView>) -> Seq<Seq<char>>
    decreases structs.len(),
{
    if structs.len() == 0 {
        Seq::empty()
    } else {
        merge_fields(merged_fields(structs.drop_last()), structs.last().fields, 0)
    }
}

/// Whether the names of `before` stand in `after`, in the order that they
/// have in `before`.
pub open spec fn keeps_order(before: Seq<Seq<char>>, after: Seq<Seq<char>>) -> bool {
    forall|i: int, j: int|
        0 <= i < j < before.len() ==> {
            &&& position(after, #[trigger] before[i]) is Some
            &&& position(after, #[trigger] before[j]) is Some
            &&& position(after, before[i])->0 < position(after, before[j])->0
        }
}

/// `position` finds the first occurrence, and finds one whenever there is
/// one.
pub proof fn lemma_position(names: Seq<Seq<char>>, name: Seq<char>)
    ensures
        match position(names, name) {
            Some(i) => 0 <= i < names.len() && names[i] == name && forall|j: int|
                0 <= j < i ==> names[j] != name,
            None => forall|j: int| 0 <= j < names.len() ==> names[j] != name,
        },
    decreases names.len(),
{
    if names.len() > 0 {
        let front = names.drop_last();
        lemma_position(front, name);
        assert(forall|j: int| 0 <= j < front.len() ==> front[j] == names[j]);
    }
}

/// An occurrence with none before it is the position.
pub proof fn lemma_position_is(names: Seq<Seq<char>>, name: Seq<char>, i: int)
    requires
        0 <= i < names.len(),
        names[i] == name,
        forall|j: int| 0 <= j < i ==> names[j] != name,
    ensures
        position(names, name) == Some(i),
{
    lemma_position(names, name);
}

/// Once a chain has ended, more fuel changes nothing.
pub proof fn lemma_resolve_stable(
    typedefs: Seq<(Seq<char>, TypeView)>,
    path: Seq<char>,
    fuel: nat,
    more: nat,
)
    requires
        resolve(typedefs, path, fuel) is Some,
        fuel <= more,
    ensures
        resolve(typedefs, path, more) == resolve(typedefs, path, fuel),
    decreases fuel,
{
    match alias_of(typedefs, path) {
        None => {},
        Some(next) => {
            lemma_resolve_stable(typedefs, next, (fuel - 1) as nat, (more - 1) as nat);
        },
    }
}

/// The end of a chain is alias-free, and is its own end.
pub proof fn lemma_resolve_end(typedefs: Seq<(Seq<char>, TypeView)>, path: Seq<char>, fuel: nat)
    requires
        resolve(typedefs, path, fuel) is Some,
    ensures
        alias_of(typedefs, resolve(typedefs, path, fuel)->0) is None,
        forall|k: nat| resolve(typedefs, resolve(typedefs, path, fuel)->0, k) == resolve(typedefs, path, fuel),
    decreases fuel,
{
    match alias_of(typedefs, path) {
        None => {},
        Some(next) => {
            lemma_resolve_end(typedefs, next, (fuel - 1) as nat);
        },
    }
}

/// The index of the first name in `names` that equals `name`.
pub fn find_name(names: &Vec<String>, name: &String) -> (found: Option<usize>)
    ensures
        match found {
            Some(i) => position(names.deep_view(), name@) == Some(i as int),
            None => position(names.deep_view(), name@) is None,
        },
{
    let mut i: usize = 0;
    while i < names.len()
        invariant
            i <= names@.len(),
            forall|j: int| 0 <= j < i ==> names.deep_view()[j] != name@,
        decreases names@.len() - i,
    {
        if names[i] == *name {
            proof {
                lemma_position_is(names.deep_view(), name@, i as int);
            }
            return Some(i);
        }
        i = i + 1;
    }
    proof {
        lemma_position(names.deep_view(), name@);
    }
    None
}

/// Merges the fields of `instantiation` into `merged`.
pub fn merge_struct_fields(merged: &mut Vec<String>, instantiation: &Struct)
    ensures
        final(merged).deep_view() == merge_fields(
            old(merged).deep_view(),
            instantiation@.fields,
            0,
        ),
{
    let mut cursor: usize = 0;
    let mut k: usize = 0;
    assert(instantiation@.fields.skip(0) =~= instantiation@.fields);
    while k < instantiation.fields.len()
        invariant
            k <= instantiation.fields@.len(),
            cursor <= merged@.len(),
            merge_fields(merged.deep_view(), instantiation@.fields.skip(k as int), cursor as int)
                == merge_fields(old(merged).deep_view(), instantiation@.fields, 0),
        decreases instantiation.fields@.len() - k,
    {
        let ghost before = merged.deep_view();
        let ghost rest = instantiation@.fields.skip(k as int);
        assert(rest.first() == instantiation.fields@[k as int].name@);
        assert(rest.drop_first() =~= instantiation@.fields.skip(k + 1));
        match find_name(merged, &instantiation.fields[k].name) {
            Some(at) => {
                proof {
                    lemma_position(before, rest.first());
                }
                assert(at < merged.len());
                cursor = at + 1;
            },
            None => {
                merged.insert(cursor, instantiation.fields[k].name.clone());
                assert(merged.deep_view() =~= before.insert(cursor as int, rest.first()));
                assert(cursor < merged.len());
                cursor = cursor + 1;
            },
        }
        k = k + 1;
    }
    assert(instantiation@.fields.skip(k as int).len() == 0);
}

} // verus!
