//! Why following aliases for as many steps as there are typedef bindings is
//! enough: a chain that has not ended by then never ends.
use vstd::prelude::*;
use vstd::relations::injective_on;
use vstd::set_lib::{lemma_int_range, lemma_len_subset, lemma_map_size, set_int_range};
use crate::ir::{items_at, TypeView};
use crate::resolve::{alias_of, canonical, lemma_resolve_stable, resolve};

verus! {

/// The path reached from `path` after `steps` alias steps, or the end of
/// the chain where that comes earlier.
pub open spec fn follow(typedefs: Seq<(Seq<char>, TypeView)>, path: Seq<char>, steps: nat) -> Seq<
    char,
>
    decreases steps,
{
    if steps == 0 {
        path
    } else {
        match alias_of(typedefs, path) {
            Some(next) => follow(typedefs, next, (steps - 1) as nat),
            None => path,
        }
    }
}

/// Following a chain in two legs is following it in one.
proof fn lemma_follow_add(typedefs: Seq<(Seq<char>, TypeView)>, path: Seq<char>, a: nat, b: nat)
    ensures
        follow(typedefs, follow(typedefs, path, a), b) == follow(typedefs, path, a + b),
    decreases a,
{
    if a > 0 {
        match alias_of(typedefs, path) {
            Some(next) => {
                lemma_follow_add(typedefs, next, (a - 1) as nat, b);
            },
            None => {},
        }
    }
}

/// A definition bound to a path comes from a binding of that path.
proof fn lemma_items_have_binding<V>(entries: Seq<(Seq<char>, V)>, path: Seq<char>)
    requires
        items_at(entries, path).len() > 0,
    ensures
        exists|at: int| 0 <= at < entries.len() && (#[trigger] entries[at]).0 == path,
    decreases entries.len(),
{
    if entries.last().0 == path {
        assert(entries[entries.len() - 1].0 == path);
    } else {
        lemma_items_have_binding(entries.drop_last(), path);
        let at = choose|at: int|
            0 <= at < entries.drop_last().len() && (#[trigger] entries.drop_last()[at]).0 == path;
        assert(entries[at].0 == path);
    }
}

/// The index of a typedef binding of `path`.
spec fn binding_of(typedefs: Seq<(Seq<char>, TypeView)>, path: Seq<char>) -> int {
    choose|at: int| 0 <= at < typedefs.len() && (#[trigger] typedefs[at]).0 == path
}

/// A path that is an alias has a typedef binding.
proof fn lemma_alias_has_binding(typedefs: Seq<(Seq<char>, TypeView)>, path: Seq<char>)
    requires
        alias_of(typedefs, path) is Some,
    ensures
        0 <= binding_of(typedefs, path) < typedefs.len(),
        typedefs[binding_of(typedefs, path)].0 == path,
{
    lemma_items_have_binding(typedefs, path);
}

/// A chain that has not ended after `fuel` steps has an alias at every one
/// of them.
proof fn lemma_unended_is_aliases(
    typedefs: Seq<(Seq<char>, TypeView)>,
    path: Seq<char>,
    fuel: nat,
    at: nat,
)
    requires
        resolve(typedefs, path, fuel) is None,
        at <= fuel,
    ensures
        alias_of(typedefs, follow(typedefs, path, at)) is Some,
    decreases at,
{
    if at > 0 {
        lemma_unended_is_aliases(
            typedefs,
            alias_of(typedefs, path)->0,
            (fuel - 1) as nat,
            (at - 1) as nat,
        );
    }
}

/// A chain with an alias at each of its first `fuel` + 1 paths has not
/// ended after `fuel` steps.
proof fn lemma_aliases_is_unended(
    typedefs: Seq<(Seq<char>, TypeView)>,
    path: Seq<char>,
    fuel: nat,
)
    requires
        forall|at: nat| at <= fuel ==> alias_of(typedefs, #[trigger] follow(typedefs, path, at)) is Some,
    ensures
        resolve(typedefs, path, fuel) is None,
    decreases fuel,
{
    assert(follow(typedefs, path, 0) == path);
    if fuel > 0 {
        let next = alias_of(typedefs, path)->0;
        assert forall|at: nat| at <= fuel - 1 implies alias_of(
            typedefs,
            #[trigger] follow(typedefs, next, at),
        ) is Some by {
            assert(follow(typedefs, path, at + 1) == follow(typedefs, next, at));
        }
        lemma_aliases_is_unended(typedefs, next, (fuel - 1) as nat);
    }
}

/// A chain that comes back to where it started goes on for ever.
proof fn lemma_circle_has_aliases(
    typedefs: Seq<(Seq<char>, TypeView)>,
    path: Seq<char>,
    around: nat,
    at: nat,
)
    requires
        around > 0,
        follow(typedefs, path, around) == path,
        forall|t: nat| t < around ==> alias_of(typedefs, #[trigger] follow(typedefs, path, t)) is Some,
    ensures
        alias_of(typedefs, follow(typedefs, path, at)) is Some,
    decreases at,
{
    if at >= around {
        lemma_follow_add(typedefs, path, around, (at - around) as nat);
        lemma_circle_has_aliases(typedefs, path, around, (at - around) as nat);
    }
}

/// Among `n` + 1 numbers below `n`, two are the same.
proof fn lemma_pigeonhole(f: spec_fn(int) -> int, n: nat)
    requires
        forall|i: int| 0 <= i <= n ==> 0 <= #[trigger] f(i) < n,
    ensures
        exists|i: int, j: int| 0 <= i < j <= n && #[trigger] f(i) == #[trigger] f(j),
{
    let pigeons = set_int_range(0, n as int + 1);
    let holes = set_int_range(0, n as int);
    lemma_int_range(0, n as int + 1);
    lemma_int_range(0, n as int);
    if injective_on(f, pigeons) {
        let taken = pigeons.map(f);
        lemma_map_size(pigeons, taken, f);
        assert(taken.subset_of(holes)) by {
            assert forall|hole: int| taken.contains(hole) implies holes.contains(hole) by {
                let i = choose|i: int| pigeons.contains(i) && f(i) == hole;
                assert(0 <= f(i) < n);
            }
        }
        lemma_len_subset(taken, holes);
        assert(false);
    } else {
        let (i, j) = choose|i: int, j: int|
            pigeons.contains(i) && pigeons.contains(j) && #[trigger] f(i) == #[trigger] f(j) && i
                != j;
        if i < j {
            assert(0 <= i < j <= n && f(i) == f(j));
        } else {
            assert(0 <= j < i <= n && f(j) == f(i));
        }
    }
}

/// A chain that ends at all ends within as many steps as there are typedef
/// bindings, so that its end is the canonical path of its start. The other
/// way round: a path without a canonical path is on a chain that never
/// ends.
pub proof fn lemma_chain_that_ends_is_resolved(
    typedefs: Seq<(Seq<char>, TypeView)>,
    path: Seq<char>,
    fuel: nat,
)
    requires
        resolve(typedefs, path, fuel) is Some,
    ensures
        canonical(typedefs, path) == resolve(typedefs, path, fuel),
{
    let n = typedefs.len();
    if fuel <= n {
        lemma_resolve_stable(typedefs, path, fuel, n);
    } else if resolve(typedefs, path, n) is Some {
        lemma_resolve_stable(typedefs, path, n, fuel);
    } else {
        let f = |i: int| binding_of(typedefs, follow(typedefs, path, i as nat));
        assert forall|i: int| 0 <= i <= n implies 0 <= #[trigger] f(i) < n by {
            lemma_unended_is_aliases(typedefs, path, n, i as nat);
            lemma_alias_has_binding(typedefs, follow(typedefs, path, i as nat));
        }
        lemma_pigeonhole(f, n);
        let (i, j) = choose|i: int, j: int| 0 <= i < j <= n && #[trigger] f(i) == #[trigger] f(j);
        let start = follow(typedefs, path, i as nat);
        let around = (j - i) as nat;
        lemma_unended_is_aliases(typedefs, path, n, i as nat);
        lemma_unended_is_aliases(typedefs, path, n, j as nat);
        lemma_alias_has_binding(typedefs, start);
        lemma_alias_has_binding(typedefs, follow(typedefs, path, j as nat));
        lemma_follow_add(typedefs, path, i as nat, around);
        assert(follow(typedefs, start, around) == start);
        assert forall|t: nat| t < around implies alias_of(
            typedefs,
            #[trigger] follow(typedefs, start, t),
        ) is Some by {
            lemma_follow_add(typedefs, path, i as nat, t);
            lemma_unended_is_aliases(typedefs, path, n, (i + t) as nat);
        }
        assert forall|t: nat| t <= fuel implies alias_of(
            typedefs,
            #[trigger] follow(typedefs, path, t),
        ) is Some by {
            if t <= n {
                lemma_unended_is_aliases(typedefs, path, n, t);
            } else {
                lemma_circle_has_aliases(typedefs, start, around, (t - i) as nat);
                lemma_follow_add(typedefs, path, i as nat, (t - i) as nat);
            }
        }
        lemma_aliases_is_unended(typedefs, path, fuel);
    }
}

} // verus!
