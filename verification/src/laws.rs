//! What holds of the library as a whole, proved from the definitions.
use vstd::prelude::*;
use crate::bindings::{Bindings, BindingsView};
use crate::chains::lemma_chain_that_ends_is_resolved;
use crate::config::{ConfigView, Language};
use crate::render::{lit, namespace_closing, namespace_opening, plain_declarations};
use crate::resolve::{
    alias_of, canonical, keeps_order, lemma_position, lemma_position_is, lemma_resolve_end,
    lemma_resolve_stable, merge_fields, merged_fields, position, resolve,
};
use crate::ir::{StructView, TypeView};
use crate::writer::{utf8_lines, WriterView};

verus! {

/// Writing to the same destination a second time changes nothing: after a
/// first write the destination holds what a second write would put there.
/// And a first write reports a change exactly when the bindings do
/// something and the destination did not hold the generated file already.
pub proof fn lemma_second_write_changes_nothing(
    bindings: BindingsView,
    destination: Option<Seq<u8>>,
)
    ensures
        ({
            let (after_first, first_changed) = bindings.written_to(destination);
            let (after_second, second_changed) = bindings.written_to(after_first);
            &&& !second_changed
            &&& after_second == after_first
            &&& first_changed == (!bindings.noop && destination != Some(bindings.rendered()))
            &&& first_changed ==> after_first == Some(bindings.rendered())
        }),
{
}

/// Bindings that hold the same things generate the same file, byte for
/// byte.
pub proof fn lemma_same_bindings_same_file(first: Bindings, second: Bindings)
    requires
        first@ == second@,
    ensures
        first@.rendered() == second@.rendered(),
        forall|w: WriterView| first@.document(w) == second@.document(w),
        forall|d: Option<Seq<u8>>| first@.written_to(d) == second@.written_to(d),
{
}

/// An alias chain that ends, after however many steps, leads to the
/// canonical path of its start. That path is alias-free and canonical
/// itself, and the start stands for the same struct as its end: it exists,
/// is transparent and has the fields that the end has.
pub proof fn lemma_alias_chain(bindings: BindingsView, start: Seq<char>, steps: nat)
    requires
        resolve(bindings.typedefs, start, steps) is Some,
    ensures
        ({
            let end = resolve(bindings.typedefs, start, steps)->0;
            &&& bindings.canonical(start) == Some(end)
            &&& bindings.canonical(end) == Some(end)
            &&& alias_of(bindings.typedefs, end) is None
            &&& bindings.struct_exists(start) == bindings.struct_exists(end)
            &&& bindings.struct_is_transparent(start) == bindings.struct_is_transparent(end)
            &&& bindings.struct_field_names(start) == bindings.struct_field_names(end)
        }),
{
    lemma_chain_that_ends_is_resolved(bindings.typedefs, start, steps);
    lemma_resolve_end(bindings.typedefs, start, steps);
}

/// A path with a canonical path shares it with the type that it is an
/// alias for.
pub proof fn lemma_alias_shares_canonical(
    typedefs: Seq<(Seq<char>, TypeView)>,
    path: Seq<char>,
)
    requires
        alias_of(typedefs, path) is Some,
        canonical(typedefs, path) is Some,
    ensures
        canonical(typedefs, alias_of(typedefs, path)->0) == canonical(typedefs, path),
{
    let next = alias_of(typedefs, path)->0;
    lemma_resolve_stable(typedefs, next, (typedefs.len() - 1) as nat, typedefs.len());
}

/// Closing the namespaces mirrors opening them: as many lines, the line
/// that closes a namespace as far from the end as the line that opens it
/// is from the start, and both passes inside the same `#ifdef __cplusplus`
/// guard or both without.
pub proof fn lemma_namespaces_close_in_reverse(config: ConfigView, w: WriterView)
    requires
        config.language != Language::Cython,
        config.all_namespaces().len() > 0,
    ensures
        config.open_namespaces(w) == config.namespace_lines(config.opening_lines(), w),
        config.close_namespaces(w) == config.namespace_lines(config.closing_lines(), w),
        config.closing_lines().len() == config.opening_lines().len(),
        forall|i: int|
            #![trigger config.opening_lines()[i]]
            0 <= i < config.all_namespaces().len() ==> {
                let name = config.all_namespaces()[i];
                &&& config.opening_lines()[i] == namespace_opening(name)
                &&& config.closing_lines()[config.all_namespaces().len() - 1 - i]
                    == namespace_closing(name)
            },
{
}

/// With nothing to include or import, the headers end with the banner:
/// the block of includes adds no line and no blank line.
pub proof fn lemma_no_includes_no_block(
    config: ConfigView,
    package_version: Seq<char>,
    w: WriterView,
)
    requires
        config.no_includes,
        config.sys_includes.len() == 0,
        config.includes.len() == 0,
        config.cimports.len() == 0 || config.language != Language::Cython,
        config.after_includes is None,
    ensures
        config.headers(package_version, w) == config.banner(package_version, w),
{
}

/// In C++, one function and no global are written inside one
/// `extern "C"` region, which holds the `using namespace` lines, if any
/// are configured, then that function, and nothing else.
pub proof fn lemma_one_function_one_region(bindings: BindingsView, w: WriterView)
    requires
        bindings.config.language == Language::Cxx,
        bindings.globals.len() == 0,
        bindings.functions.len() == 1,
    ensures
        bindings.linkage_region(w) == ({
            let opened = w.new_line().line(lit("extern \"C\" {"));
            let inside = match bindings.config.using_lines() {
                Some(lines) => opened.continue_with(lines).new_line(),
                None => opened,
            };
            inside.declaration(utf8_lines(bindings.functions[0])).new_line().line(
                lit("} // extern \"C\""),
            )
        }),
{
    let opened = bindings.config.open_linkage(w);
    let functions = plain_declarations(bindings.functions);
    assert(plain_declarations(bindings.globals) =~= Seq::empty());
    assert(functions.drop_last() =~= Seq::empty());
    assert(opened.declarations(functions) == opened.declarations(functions.drop_last()).declaration(
        functions.last(),
    ));
}

/// Putting a new name into an order without repetitions leaves no
/// repetition, and adds that name and no other.
proof fn lemma_insert_new(merged: Seq<Seq<char>>, cursor: int, name: Seq<char>)
    requires
        merged.no_duplicates(),
        !merged.contains(name),
        0 <= cursor <= merged.len(),
    ensures
        merged.insert(cursor, name).no_duplicates(),
        forall|other: Seq<char>|
            merged.insert(cursor, name).contains(other) <==> merged.contains(other) || other
                == name,
{
    let wider = merged.insert(cursor, name);
    assert forall|i: int, j: int|
        0 <= i < wider.len() && 0 <= j < wider.len() && i != j implies wider[i] != wider[j] by {
        let a = if i < cursor { i } else { i - 1 };
        let b = if j < cursor { j } else { j - 1 };
        if i != cursor && j != cursor {
            assert(wider[i] == merged[a] && wider[j] == merged[b]);
        } else if i == cursor {
            assert(wider[j] == merged[b]);
        } else {
            assert(wider[i] == merged[a]);
        }
    }
    assert forall|other: Seq<char>| wider.contains(other) <==> merged.contains(other) || other
        == name by {
        if merged.contains(other) {
            let i = choose|i: int| 0 <= i < merged.len() && merged[i] == other;
            let k = if i < cursor { i } else { i + 1 };
            assert(wider[k] == other);
        }
        if other == name {
            assert(wider[cursor] == other);
        }
        if wider.contains(other) {
            let k = choose|k: int| 0 <= k < wider.len() && wider[k] == other;
            if k != cursor {
                let i = if k < cursor { k } else { k - 1 };
                assert(merged[i] == other);
            }
        }
    }
}

/// A sequence holds its first element and what the rest holds.
proof fn lemma_first_or_rest(fields: Seq<Seq<char>>)
    requires
        fields.len() > 0,
    ensures
        forall|name: Seq<char>|
            fields.contains(name) <==> name == fields.first() || fields.drop_first().contains(
                name,
            ),
{
    let first = fields.first();
    let rest = fields.drop_first();
    assert forall|name: Seq<char>| fields.contains(name) implies name == first || rest.contains(
        name,
    ) by {
        let i = choose|i: int| 0 <= i < fields.len() && fields[i] == name;
        if i > 0 {
            assert(rest[i - 1] == name);
        }
    }
    assert forall|name: Seq<char>| rest.contains(name) implies fields.contains(name) by {
        let i = choose|i: int| 0 <= i < rest.len() && rest[i] == name;
        assert(fields[i + 1] == name);
    }
    assert(fields[0] == first);
}

/// Merging keeps an order free of repetitions, and adds the names of the
/// fields and no others.
proof fn lemma_merge_members(merged: Seq<Seq<char>>, fields: Seq<Seq<char>>, cursor: int)
    requires
        merged.no_duplicates(),
        0 <= cursor <= merged.len(),
    ensures
        merge_fields(merged, fields, cursor).no_duplicates(),
        forall|name: Seq<char>|
            merge_fields(merged, fields, cursor).contains(name) <==> merged.contains(name)
                || fields.contains(name),
    decreases fields.len(),
{
    if fields.len() > 0 {
        let first = fields.first();
        let rest = fields.drop_first();
        lemma_position(merged, first);
        lemma_first_or_rest(fields);
        match position(merged, first) {
            Some(at) => {
                lemma_merge_members(merged, rest, at + 1);
                assert(merged.contains(first));
            },
            None => {
                lemma_insert_new(merged, cursor, first);
                lemma_merge_members(merged.insert(cursor, first), rest, cursor + 1);
            },
        }
    }
}

/// Merging leaves the names that were there in the order they had.
proof fn lemma_merge_order(merged: Seq<Seq<char>>, fields: Seq<Seq<char>>, cursor: int)
    requires
        merged.no_duplicates(),
        0 <= cursor <= merged.len(),
    ensures
        keeps_order(merged, merge_fields(merged, fields, cursor)),
    decreases fields.len(),
{
    if fields.len() == 0 {
        assert forall|i: int, j: int| 0 <= i < j < merged.len() implies {
            &&& position(merged, #[trigger] merged[i]) == Some(i)
            &&& position(merged, #[trigger] merged[j]) == Some(j)
        } by {
            lemma_position_is(merged, merged[i], i);
            lemma_position_is(merged, merged[j], j);
        }
    } else {
        let first = fields.first();
        let rest = fields.drop_first();
        lemma_position(merged, first);
        match position(merged, first) {
            Some(at) => {
                lemma_merge_order(merged, rest, at + 1);
            },
            None => {
                let wider = merged.insert(cursor, first);
                lemma_insert_new(merged, cursor, first);
                lemma_merge_order(wider, rest, cursor + 1);
                let result = merge_fields(wider, rest, cursor + 1);
                assert forall|i: int, j: int| 0 <= i < j < merged.len() implies {
                    &&& position(result, #[trigger] merged[i]) is Some
                    &&& position(result, #[trigger] merged[j]) is Some
                    &&& position(result, merged[i])->0 < position(result, merged[j])->0
                } by {
                    let a = if i < cursor { i } else { i + 1 };
                    let b = if j < cursor { j } else { j + 1 };
                    assert(wider[a] == merged[i] && wider[b] == merged[j]);
                }
            },
        }
    }
}

/// Merging fields into an order without repetitions gives an order without
/// repetitions, which holds the names that were there and the names of the
/// fields, and no others. The names that were there keep their order.
pub proof fn lemma_merge_fields(merged: Seq<Seq<char>>, fields: Seq<Seq<char>>, cursor: int)
    requires
        merged.no_duplicates(),
        0 <= cursor <= merged.len(),
    ensures
        merge_fields(merged, fields, cursor).no_duplicates(),
        forall|name: Seq<char>|
            merge_fields(merged, fields, cursor).contains(name) <==> merged.contains(name)
                || fields.contains(name),
        keeps_order(merged, merge_fields(merged, fields, cursor)),
{
    lemma_merge_members(merged, fields, cursor);
    lemma_merge_order(merged, fields, cursor);
}

/// Fields that are all new and all different go in at the cursor, in their
/// own order.
pub proof fn lemma_merge_new_fields(merged: Seq<Seq<char>>, fields: Seq<Seq<char>>, cursor: int)
    requires
        merged.no_duplicates(),
        fields.no_duplicates(),
        forall|i: int, j: int|
            0 <= i < merged.len() && 0 <= j < fields.len() ==> merged[i] != fields[j],
        0 <= cursor <= merged.len(),
    ensures
        merge_fields(merged, fields, cursor) == merged.take(cursor) + fields + merged.skip(cursor),
    decreases fields.len(),
{
    if fields.len() == 0 {
        assert(merged =~= merged.take(cursor) + fields + merged.skip(cursor));
    } else {
        let first = fields.first();
        let rest = fields.drop_first();
        let wider = merged.insert(cursor, first);
        lemma_position(merged, first);
        assert(position(merged, first) is None) by {
            if position(merged, first) is Some {
                assert(merged[position(merged, first)->0] != fields[0]);
            }
        }
        assert(!merged.contains(first));
        lemma_insert_new(merged, cursor, first);
        assert forall|i: int, j: int| 0 <= i < wider.len() && 0 <= j < rest.len() implies wider[i]
            != rest[j] by {
            assert(rest[j] == fields[j + 1]);
            if i == cursor {
                assert(wider[i] == fields[0]);
            } else {
                let a = if i < cursor { i } else { i - 1 };
                assert(wider[i] == merged[a]);
            }
        }
        assert forall|i: int, j: int|
            0 <= i < rest.len() && 0 <= j < rest.len() && i != j implies rest[i] != rest[j] by {
            assert(rest[i] == fields[i + 1] && rest[j] == fields[j + 1]);
        }
        lemma_merge_new_fields(wider, rest, cursor + 1);
        assert(wider.take(cursor + 1) + rest + wider.skip(cursor + 1) =~= merged.take(cursor)
            + fields + merged.skip(cursor));
    }
}

/// A struct with a single instantiation, whose fields all have different
/// names, has exactly the fields of that instantiation, in their order.
pub proof fn lemma_single_instantiation(instantiation: StructView)
    requires
        instantiation.fields.no_duplicates(),
    ensures
        merged_fields(seq![instantiation]) == instantiation.fields,
{
    let none = Seq::<Seq<char>>::empty();
    assert(seq![instantiation].drop_last() =~= Seq::<StructView>::empty());
    assert(merged_fields(seq![instantiation].drop_last()) == none);
    lemma_merge_new_fields(none, instantiation.fields, 0);
    assert(none.take(0) + instantiation.fields + none.skip(0) =~= instantiation.fields);
}

/// The merged field order of a struct names every field of every
/// instantiation, names nothing else, and names nothing twice.
pub proof fn lemma_merged_fields(structs: Seq<StructView>)
    ensures
        merged_fields(structs).no_duplicates(),
        forall|name: Seq<char>|
            merged_fields(structs).contains(name) <==> exists|i: int|
                0 <= i < structs.len() && (#[trigger] structs[i]).fields.contains(name),
    decreases structs.len(),
{
    if structs.len() > 0 {
        let front = structs.drop_last();
        lemma_merged_fields(front);
        lemma_merge_fields(merged_fields(front), structs.last().fields, 0);
        assert forall|name: Seq<char>|
            merged_fields(structs).contains(name) <==> exists|i: int|
                0 <= i < structs.len() && (#[trigger] structs[i]).fields.contains(name) by {
            if merged_fields(front).contains(name) {
                let i = choose|i: int|
                    0 <= i < front.len() && (#[trigger] front[i]).fields.contains(name);
                assert(structs[i].fields.contains(name));
            }
            if structs.last().fields.contains(name) {
                assert(structs[structs.len() - 1].fields.contains(name));
            }
            if exists|i: int|
                0 <= i < structs.len() && (#[trigger] structs[i]).fields.contains(name) {
                let i = choose|i: int|
                    0 <= i < structs.len() && (#[trigger] structs[i]).fields.contains(name);
                if i < structs.len() - 1 {
                    assert(front[i].fields.contains(name));
                }
            }
        }
    }
}

} // verus!
