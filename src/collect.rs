//! Choosing the source files of a run: from the entries of a directory walk,
//! and from a list of paths that may name files, directories or nothing.
use vstd::prelude::*;
use crate::paths::{has_extension, is_extension, views};

verus! {

/// A source file of the language the formatters work on: extension `rs`.
pub open spec fn is_source(p: Seq<char>) -> bool {
    has_extension(p, seq!['r', 's'])
}

/// Whether `path` names a source file (by its extension alone).
pub fn is_source_file(path: &str) -> (r: bool)
    ensures
        r == is_source(path@),
{
    let ext = "rs";
    proof {
        reveal_strlit("rs");
    }
    assert(ext@ =~= seq!['r', 's']);
    is_extension(path, ext)
}

/// One entry met while walking a directory tree.
#[derive(Debug)]
pub struct DirEntry {
    pub path: String,
    /// The entry is a regular file.
    pub is_file: bool,
}

/// An entry that is kept: a regular file with the source extension.
pub open spec fn matching(e: DirEntry) -> bool {
    e.is_file && is_source(e.path@)
}

/// The paths of the kept entries, in walk order.
pub open spec fn sources_in(entries: Seq<DirEntry>) -> Seq<Seq<char>>
    decreases entries.len(),
{
    if entries.len() == 0 {
        Seq::<Seq<char>>::empty()
    } else {
        sources_in(entries.drop_last()) + if matching(entries.last()) {
            seq![entries.last().path@]
        } else {
            Seq::<Seq<char>>::empty()
        }
    }
}

/// The source files among the entries of a walk; the others are skipped.
pub fn select_sources(entries: &[DirEntry]) -> (r: Vec<String>)
    ensures
        views(r@) == sources_in(entries@),
{
    let mut out: Vec<String> = Vec::new();
    let mut i: usize = 0;
    assert(entries@.subrange(0, 0) =~= Seq::<DirEntry>::empty());
    while i < entries.len()
        invariant
            i <= entries.len(),
            views(out@) == sources_in(entries@.subrange(0, i as int)),
        decreases entries.len() - i,
    {
        let ghost pre = entries@.subrange(0, i + 1);
        assert(pre.drop_last() =~= entries@.subrange(0, i as int));
        assert(pre.last() == entries@[i as int]);
        let ghost before = views(out@);
        if entries[i].is_file && is_source_file(entries[i].path.as_str()) {
            out.push(entries[i].path.clone());
            assert(views(out@) =~= before + seq![entries@[i as int].path@]);
        } else {
            assert(views(out@) =~= before + Seq::<Seq<char>>::empty());
        }
        i += 1;
    }
    assert(entries@.subrange(0, entries.len() as int) =~= entries@);
    out
}

/// A walk over N matching and M other entries yields exactly N files, each
/// of them a matching entry's path.
pub proof fn law_select_counts(entries: Seq<DirEntry>)
    ensures
        sources_in(entries).len() == entries.filter(|e: DirEntry| matching(e)).len(),
        sources_in(entries) == entries.filter(|e: DirEntry| matching(e)).map_values(
            |e: DirEntry| e.path@,
        ),
    decreases entries.len(),
{
    reveal(Seq::filter);
    if entries.len() > 0 {
        law_select_counts(entries.drop_last());
        let f = entries.drop_last().filter(|e: DirEntry| matching(e));
        if matching(entries.last()) {
            assert(f.push(entries.last()).map_values(|e: DirEntry| e.path@) =~= f.map_values(
                |e: DirEntry| e.path@,
            ) + seq![entries.last().path@]);
        } else {
            assert(sources_in(entries) =~= sources_in(entries.drop_last()));
        }
    } else {
        assert(entries.filter(|e: DirEntry| matching(e)).map_values(|e: DirEntry| e.path@)
            =~= Seq::<Seq<char>>::empty());
    }
}

/// The files a single entry contributes.
pub open spec fn entry_sources(e: DirEntry) -> Seq<Seq<char>> {
    if matching(e) {
        seq![e.path@]
    } else {
        Seq::<Seq<char>>::empty()
    }
}

proof fn lemma_sources_concat(u: Seq<DirEntry>, v: Seq<DirEntry>)
    ensures
        sources_in(u + v) == sources_in(u) + sources_in(v),
    decreases v.len(),
{
    if v.len() == 0 {
        assert(u + v =~= u);
        assert(sources_in(u) + sources_in(v) =~= sources_in(u));
    } else {
        assert((u + v).drop_last() =~= u + v.drop_last());
        assert((u + v).last() == v.last());
        lemma_sources_concat(u, v.drop_last());
        assert(sources_in(u + v) =~= sources_in(u) + sources_in(v));
    }
}

/// The files a walk yields do not depend on the order in which it met the
/// entries: walks over the same entries yield the same files, counted with
/// repetition.
pub proof fn law_walk_order_irrelevant(a: Seq<DirEntry>, b: Seq<DirEntry>)
    requires
        a.to_multiset() == b.to_multiset(),
    ensures
        sources_in(a).to_multiset() == sources_in(b).to_multiset(),
    decreases a.len(),
{
    broadcast use vstd::multiset::group_multiset_axioms;
    broadcast use vstd::seq_lib::lemma_multiset_commutative;

    a.to_multiset_ensures();
    b.to_multiset_ensures();
    if a.len() == 0 {
        assert(b.len() == 0);
        assert(a =~= b);
    } else {
        let x = a.last();
        let a1 = a.drop_last();
        a1.to_multiset_ensures();
        assert(a1.push(x) =~= a);
        assert(a.to_multiset() =~= a1.to_multiset().insert(x));
        assert(a.contains(x)) by {
            assert(a[a.len() - 1] == x);
        }
        assert(b.to_multiset().count(x) > 0);
        assert(b.contains(x));
        let k = choose|k: int| 0 <= k < b.len() && b[k] == x;
        let b1 = b.remove(k);
        assert(b1.to_multiset() =~= b.to_multiset().remove(x));
        assert(b1.to_multiset() =~= a1.to_multiset());
        law_walk_order_irrelevant(a1, b1);
        let lo = b.subrange(0, k);
        let hi = b.subrange(k + 1, b.len() as int);
        assert(b1 =~= lo + hi);
        assert(b =~= lo.push(x) + hi);
        lemma_sources_concat(lo, hi);
        lemma_sources_concat(lo.push(x), hi);
        assert(lo.push(x).drop_last() =~= lo);
        assert(sources_in(lo.push(x)) == sources_in(lo) + entry_sources(x));
        assert(sources_in(a) == sources_in(a1) + entry_sources(x));
        let s1 = sources_in(lo);
        let s2 = sources_in(hi);
        let t = entry_sources(x);
        assert(sources_in(b) == s1 + t + s2);
        assert(sources_in(b1) == s1 + s2);
        assert((s1 + t + s2).to_multiset() =~= s1.to_multiset().add(t.to_multiset()).add(
            s2.to_multiset(),
        ));
        assert((s1 + s2).to_multiset() =~= s1.to_multiset().add(s2.to_multiset()));
        assert((sources_in(a1) + t).to_multiset() =~= sources_in(a1).to_multiset().add(
            t.to_multiset(),
        ));
        assert(sources_in(a).to_multiset() =~= sources_in(b).to_multiset());
    }
}

/// What a user-given path turned out to be.
#[derive(Debug)]
pub enum PathInput {
    /// Nothing exists there.
    Missing(String),
    /// A regular file.
    File(String),
    /// A directory, with the entries of a walk of its whole subtree.
    Dir(Vec<DirEntry>),
    /// Something that is neither file nor directory.
    Other,
}

/// The files collected from path inputs, and the paths that did not exist.
pub struct Collected {
    pub files: Vec<String>,
    pub missing: Vec<String>,
}

/// The files that one input contributes.
pub open spec fn input_files(i: PathInput) -> Seq<Seq<char>> {
    match i {
        PathInput::Missing(_) => Seq::<Seq<char>>::empty(),
        PathInput::File(p) => if is_source(p@) {
            seq![p@]
        } else {
            Seq::<Seq<char>>::empty()
        },
        PathInput::Dir(entries) => sources_in(entries@),
        PathInput::Other => Seq::<Seq<char>>::empty(),
    }
}

/// The files of all inputs, in input order.
pub open spec fn collected_files(inputs: Seq<PathInput>) -> Seq<Seq<char>>
    decreases inputs.len(),
{
    if inputs.len() == 0 {
        Seq::<Seq<char>>::empty()
    } else {
        collected_files(inputs.drop_last()) + input_files(inputs.last())
    }
}

/// The inputs that did not exist, in input order.
pub open spec fn missing_paths(inputs: Seq<PathInput>) -> Seq<Seq<char>>
    decreases inputs.len(),
{
    if inputs.len() == 0 {
        Seq::<Seq<char>>::empty()
    } else {
        missing_paths(inputs.drop_last()) + match inputs.last() {
            PathInput::Missing(p) => seq![p@],
            _ => Seq::<Seq<char>>::empty(),
        }
    }
}

/// Collects source files from each input: a file when its extension fits,
/// a directory's whole subtree, and nothing but a note for a missing path.
pub fn collect_paths(inputs: &[PathInput]) -> (r: Collected)
    ensures
        views(r.files@) == collected_files(inputs@),
        views(r.missing@) == missing_paths(inputs@),
{
    let mut files: Vec<String> = Vec::new();
    let mut missing: Vec<String> = Vec::new();
    let mut i: usize = 0;
    assert(inputs@.subrange(0, 0) =~= Seq::<PathInput>::empty());
    while i < inputs.len()
        invariant
            i <= inputs.len(),
            views(files@) == collected_files(inputs@.subrange(0, i as int)),
            views(missing@) == missing_paths(inputs@.subrange(0, i as int)),
        decreases inputs.len() - i,
    {
        let ghost pre = inputs@.subrange(0, i + 1);
        assert(pre.drop_last() =~= inputs@.subrange(0, i as int));
        assert(pre.last() == inputs@[i as int]);
        let ghost fb = views(files@);
        let ghost mb = views(missing@);
        match &inputs[i] {
            PathInput::Missing(p) => {
                missing.push(p.clone());
                assert(views(missing@) =~= mb + seq![p@]);
                assert(views(files@) =~= fb + Seq::<Seq<char>>::empty());
            },
            PathInput::File(p) => {
                if is_source_file(p.as_str()) {
                    files.push(p.clone());
                    assert(views(files@) =~= fb + seq![p@]);
                } else {
                    assert(views(files@) =~= fb + Seq::<Seq<char>>::empty());
                }
                assert(views(missing@) =~= mb + Seq::<Seq<char>>::empty());
            },
            PathInput::Dir(entries) => {
                let found = select_sources(entries.as_slice());
                let mut k: usize = 0;
                while k < found.len()
                    invariant
                        k <= found.len(),
                        views(files@) == fb + views(found@).subrange(0, k as int),
                    decreases found.len() - k,
                {
                    let ghost before = views(files@);
                    files.push(found[k].clone());
                    assert(views(files@) =~= before.push(views(found@)[k as int]));
                    assert(views(found@).subrange(0, k + 1) =~= views(found@).subrange(
                        0,
                        k as int,
                    ).push(views(found@)[k as int]));
                    k += 1;
                }
                assert(views(found@).subrange(0, found.len() as int) =~= views(found@));
                assert(views(missing@) =~= mb + Seq::<Seq<char>>::empty());
            },
            PathInput::Other => {
                assert(views(files@) =~= fb + Seq::<Seq<char>>::empty());
                assert(views(missing@) =~= mb + Seq::<Seq<char>>::empty());
            },
        }
        i += 1;
    }
    assert(inputs@.subrange(0, inputs.len() as int) =~= inputs@);
    Collected { files, missing }
}

/// A path that does not exist contributes no file and exactly one note.
pub proof fn law_missing_path(p: String)
    ensures
        collected_files(seq![PathInput::Missing(p)]).len() == 0,
        missing_paths(seq![PathInput::Missing(p)]) == seq![p@],
{
    let s = seq![PathInput::Missing(p)];
    assert(s.drop_last() =~= Seq::<PathInput>::empty());
    assert(s.last() == PathInput::Missing(p));
    assert(collected_files(s.drop_last()) == Seq::<Seq<char>>::empty());
    assert(missing_paths(s.drop_last()) == Seq::<Seq<char>>::empty());
    assert(collected_files(s) =~= Seq::<Seq<char>>::empty());
    assert(missing_paths(s) =~= seq![p@]);
}

} // verus!
