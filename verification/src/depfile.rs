//! The dependency file: one make rule that names the generated header as
//! the target and every input as a prerequisite.
use vstd::prelude::*;
use crate::text::utf8;
use crate::writer::{str_lines, utf8_lines};

verus! {

/// `path` with a backslash before each space, so that make reads it as one
/// word.
pub open spec fn escape_spaces(path: Seq<u8>) -> Seq<u8>
    decreases path.len(),
{
    if path.len() == 0 {
        Seq::empty()
    } else if path.last() == 32u8 {
        escape_spaces(path.drop_last()) + seq![92u8, 32u8]
    } else {
        escape_spaces(path.drop_last()).push(path.last())
    }
}

/// Whether `a` comes no later than `b` in lexicographic order: byte by
/// byte, a proper prefix before what it is a prefix of.
pub open spec fn lex_le(a: Seq<u8>, b: Seq<u8>) -> bool
    decreases a.len(),
{
    if a.len() == 0 {
        true
    } else if b.len() == 0 {
        false
    } else if a.first() != b.first() {
        a.first() < b.first()
    } else {
        lex_le(a.drop_first(), b.drop_first())
    }
}

/// Whether `paths` are in lexicographic order.
pub open spec fn sorted(paths: Seq<Seq<u8>>) -> bool {
    forall|i: int, j: int| 0 <= i <= j < paths.len() ==> lex_le(paths[i], paths[j])
}

/// How many of `paths` come no later than `path`. In a sorted sequence
/// this is where `path` goes, behind its equals.
pub open spec fn rank(paths: Seq<Seq<u8>>, path: Seq<u8>) -> int
    decreases paths.len(),
{
    if paths.len() == 0 {
        0
    } else if lex_le(paths.last(), path) {
        rank(paths.drop_last(), path) + 1
    } else {
        rank(paths.drop_last(), path)
    }
}

/// `paths` in lexicographic order.
pub open spec fn sort_paths(paths: Seq<Seq<u8>>) -> Seq<Seq<u8>>
    decreases paths.len(),
{
    if paths.len() == 0 {
        Seq::empty()
    } else {
        let before = sort_paths(paths.drop_last());
        before.insert(rank(before, paths.last()), paths.last())
    }
}

/// What precedes each prerequisite: a line continuation and four spaces.
pub open spec fn continuation() -> Seq<u8> {
    seq![32u8, 92u8, 10u8, 32u8, 32u8, 32u8, 32u8]
}

/// The prerequisites, each on a continuation line of its own.
pub open spec fn prerequisites(sources: Seq<Seq<u8>>) -> Seq<u8>
    decreases sources.len(),
{
    if sources.len() == 0 {
        Seq::empty()
    } else {
        prerequisites(sources.drop_last()) + continuation() + escape_spaces(sources.last())
    }
}

/// The rule: the header, a colon, the sources in lexicographic order, and
/// a line feed.
pub open spec fn depfile_text(header: Seq<u8>, sources: Seq<Seq<u8>>) -> Seq<u8> {
    escape_spaces(header) + seq![58u8] + prerequisites(sort_paths(sources)) + seq![10u8]
}

/// Any two byte strings are ordered one way or the other.
pub proof fn lemma_lex_total(a: Seq<u8>, b: Seq<u8>)
    ensures
        lex_le(a, b) || lex_le(b, a),
    decreases a.len(),
{
    if a.len() > 0 && b.len() > 0 && a.first() == b.first() {
        lemma_lex_total(a.drop_first(), b.drop_first());
    }
}

/// The lexicographic order is transitive.
pub proof fn lemma_lex_transitive(a: Seq<u8>, b: Seq<u8>, c: Seq<u8>)
    requires
        lex_le(a, b),
        lex_le(b, c),
    ensures
        lex_le(a, c),
    decreases a.len(),
{
    if a.len() > 0 && b.len() > 0 && c.len() > 0 && a.first() == b.first() && b.first()
        == c.first() {
        lemma_lex_transitive(a.drop_first(), b.drop_first(), c.drop_first());
    }
}

/// Two byte strings that are ordered both ways are the same.
pub proof fn lemma_lex_antisymmetric(a: Seq<u8>, b: Seq<u8>)
    requires
        lex_le(a, b),
        lex_le(b, a),
    ensures
        a == b,
    decreases a.len(),
{
    if a.len() > 0 && b.len() > 0 {
        lemma_lex_antisymmetric(a.drop_first(), b.drop_first());
        assert(a =~= seq![a.first()] + a.drop_first());
        assert(b =~= seq![b.first()] + b.drop_first());
    } else {
        assert(a =~= b);
    }
}

/// In a sorted sequence, the paths before the rank of `path` come no later
/// than `path`, and those from the rank on come strictly later.
pub proof fn lemma_rank(paths: Seq<Seq<u8>>, path: Seq<u8>)
    requires
        sorted(paths),
    ensures
        0 <= rank(paths, path) <= paths.len(),
        forall|i: int| 0 <= i < rank(paths, path) ==> lex_le(#[trigger] paths[i], path),
        forall|i: int| rank(paths, path) <= i < paths.len() ==> !lex_le(#[trigger] paths[i], path),
    decreases paths.len(),
{
    if paths.len() > 0 {
        let front = paths.drop_last();
        assert(forall|i: int| 0 <= i < front.len() ==> front[i] == paths[i]);
        assert(sorted(front));
        lemma_rank(front, path);
        if lex_le(paths.last(), path) {
            assert forall|i: int| 0 <= i < paths.len() implies lex_le(
                #[trigger] paths[i],
                path,
            ) by {
                assert(lex_le(paths[i], paths[paths.len() - 1]));
                lemma_lex_transitive(paths[i], paths.last(), path);
            }
            lemma_rank_counts_all(front, path);
        }
    }
}

/// Where every path comes no later than `path`, the rank is the length.
proof fn lemma_rank_counts_all(paths: Seq<Seq<u8>>, path: Seq<u8>)
    requires
        forall|i: int| 0 <= i < paths.len() ==> lex_le(#[trigger] paths[i], path),
    ensures
        rank(paths, path) == paths.len(),
    decreases paths.len(),
{
    if paths.len() > 0 {
        let front = paths.drop_last();
        assert(forall|i: int| 0 <= i < front.len() ==> front[i] == paths[i]);
        lemma_rank_counts_all(front, path);
        assert(lex_le(paths[paths.len() - 1], path));
    }
}

/// Sorting keeps every path, as often as it occurs, and puts the paths in
/// lexicographic order.
pub proof fn lemma_sort_paths(paths: Seq<Seq<u8>>)
    ensures
        sort_paths(paths).len() == paths.len(),
        sort_paths(paths).to_multiset() == paths.to_multiset(),
        sorted(sort_paths(paths)),
    decreases paths.len(),
{
    broadcast use vstd::seq_lib::group_to_multiset_ensures;

    if paths.len() == 0 {
        assert(paths =~= Seq::empty());
    } else {
        let front = paths.drop_last();
        let before = sort_paths(front);
        let at = rank(before, paths.last());
        let after = before.insert(at, paths.last());
        lemma_sort_paths(front);
        lemma_rank(before, paths.last());
        assert(paths =~= front.push(paths.last()));
        assert(after.to_multiset() =~= before.to_multiset().insert(paths.last()));
        assert forall|i: int, j: int| 0 <= i <= j < after.len() implies lex_le(
            after[i],
            after[j],
        ) by {
            let x = paths.last();
            if j < at {
                assert(after[i] == before[i] && after[j] == before[j]);
            } else if j == at {
                if i < at {
                    assert(after[i] == before[i]);
                } else {
                    lemma_lex_total(x, x);
                }
            } else {
                assert(after[j] == before[j - 1]);
                lemma_lex_total(before[j - 1], x);
                if i < at {
                    assert(after[i] == before[i]);
                } else if i == at {
                } else {
                    assert(after[i] == before[i - 1]);
                }
            }
        }
    }
}

/// Whether `a` comes no later than `b` in lexicographic order.
pub fn lex_le_bytes(a: &[u8], b: &[u8]) -> (le: bool)
    ensures
        le == lex_le(a@, b@),
{
    let mut i: usize = 0;
    assert(a@.skip(0) =~= a@ && b@.skip(0) =~= b@);
    while i < a.len() && i < b.len()
        invariant
            i <= a@.len(),
            i <= b@.len(),
            lex_le(a@, b@) == lex_le(a@.skip(i as int), b@.skip(i as int)),
        decreases a@.len() - i,
    {
        assert(a@.skip(i as int).first() == a@[i as int]);
        assert(b@.skip(i as int).first() == b@[i as int]);
        if a[i] != b[i] {
            return a[i] < b[i];
        }
        assert(a@.skip(i as int).drop_first() =~= a@.skip(i + 1));
        assert(b@.skip(i as int).drop_first() =~= b@.skip(i + 1));
        i = i + 1;
    }
    i == a.len()
}

/// Appends `path` to `out`, with a backslash before each space.
pub fn push_escaped(out: &mut Vec<u8>, path: &[u8])
    ensures
        final(out)@ == old(out)@ + escape_spaces(path@),
{
    let mut i: usize = 0;
    assert(path@.take(0) =~= Seq::<u8>::empty());
    assert(out@ =~= old(out)@ + escape_spaces(path@.take(0)));
    while i < path.len()
        invariant
            i <= path@.len(),
            out@ == old(out)@ + escape_spaces(path@.take(i as int)),
        decreases path@.len() - i,
    {
        assert(path@.take(i + 1).drop_last() =~= path@.take(i as int));
        if path[i] == 32u8 {
            out.push(92u8);
        }
        out.push(path[i]);
        i = i + 1;
        assert(out@ =~= old(out)@ + escape_spaces(path@.take(i as int)));
    }
    assert(path@.take(i as int) =~= path@);
}

/// `paths` in lexicographic order.
pub fn sorted_paths(paths: &Vec<String>) -> (ordered: Vec<&str>)
    ensures
        str_lines(ordered@) == sort_paths(utf8_lines(paths.deep_view())),
{
    let ghost all = utf8_lines(paths.deep_view());
    let mut ordered: Vec<&str> = Vec::new();
    let mut i: usize = 0;
    assert(all.take(0) =~= Seq::<Seq<u8>>::empty());
    assert(str_lines(ordered@) =~= sort_paths(all.take(0)));
    while i < paths.len()
        invariant
            i <= paths@.len(),
            all == utf8_lines(paths.deep_view()),
            str_lines(ordered@) == sort_paths(all.take(i as int)),
        decreases paths@.len() - i,
    {
        assert(all.take(i + 1).drop_last() =~= all.take(i as int));
        assert(all.take(i + 1).last() == utf8(paths@[i as int]@));
        let path: &str = paths[i].as_str();
        let ghost before = str_lines(ordered@);
        let mut at: usize = 0;
        let mut k: usize = 0;
        assert(before.take(0) =~= Seq::<Seq<u8>>::empty());
        while k < ordered.len()
            invariant
                k <= ordered@.len(),
                before == str_lines(ordered@),
                at == rank(before.take(k as int), utf8(path@)),
                at <= k,
            decreases ordered@.len() - k,
        {
            assert(before.take(k + 1).drop_last() =~= before.take(k as int));
            if lex_le_bytes(ordered[k].as_bytes(), path.as_bytes()) {
                at = at + 1;
            }
            k = k + 1;
        }
        assert(before.take(k as int) =~= before);
        ordered.insert(at, path);
        assert(str_lines(ordered@) =~= before.insert(at as int, utf8(path@)));
        i = i + 1;
    }
    assert(all.take(i as int) =~= all);
    ordered
}

/// The text of the dependency file for the header at `header_path`, made
/// from `source_files`. Both are taken as they stand: the caller hands in
/// the canonical paths.
pub fn generate_depfile(header_path: &str, source_files: &Vec<String>) -> (depfile: Vec<u8>)
    ensures
        depfile@ == depfile_text(utf8(header_path@), utf8_lines(source_files.deep_view())),
{
    let ordered = sorted_paths(source_files);
    let ghost lines = str_lines(ordered@);
    let mut depfile: Vec<u8> = Vec::new();
    push_escaped(&mut depfile, header_path.as_bytes());
    depfile.push(58u8);
    let ghost head = depfile@;
    let mut i: usize = 0;
    assert(lines.take(0) =~= Seq::<Seq<u8>>::empty());
    assert(depfile@ =~= head + prerequisites(lines.take(0)));
    while i < ordered.len()
        invariant
            i <= ordered@.len(),
            lines == str_lines(ordered@),
            depfile@ == head + prerequisites(lines.take(i as int)),
        decreases ordered@.len() - i,
    {
        assert(lines.take(i + 1).drop_last() =~= lines.take(i as int));
        let ghost so_far = depfile@;
        depfile.push(32u8);
        depfile.push(92u8);
        depfile.push(10u8);
        depfile.push(32u8);
        depfile.push(32u8);
        depfile.push(32u8);
        depfile.push(32u8);
        assert(depfile@ =~= so_far + continuation());
        push_escaped(&mut depfile, ordered[i].as_bytes());
        i = i + 1;
        assert(depfile@ =~= head + prerequisites(lines.take(i as int)));
    }
    assert(lines.take(i as int) =~= lines);
    depfile.push(10u8);
    assert(depfile@ =~= depfile_text(utf8(header_path@), utf8_lines(source_files.deep_view())));
    depfile
}

} // verus!
