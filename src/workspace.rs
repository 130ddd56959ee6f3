//! The workspace as the build metadata describes it: packages with their
//! names and the source files of their build targets, and the choice of the
//! source directories that a run over some packages visits.
use vstd::prelude::*;
use crate::error::FormatError;
use crate::paths::{contains_text, parent_dir, spec_parent, views};

verus! {

/// One package of the workspace.
#[derive(Debug)]
pub struct PackageInfo {
    /// The package's identifier in the metadata.
    pub id: String,
    /// The package's name.
    pub name: String,
    /// The source file of each of its build targets.
    pub src_paths: Vec<String>,
}

/// The name of the first package whose identifier is `id`.
pub open spec fn name_of(id: Seq<char>, pkgs: Seq<PackageInfo>) -> Option<Seq<char>>
    decreases pkgs.len(),
{
    if pkgs.len() == 0 {
        None
    } else if pkgs[0].id@ == id {
        Some(pkgs[0].name@)
    } else {
        name_of(id, pkgs.subrange(1, pkgs.len() as int))
    }
}

/// The names of the packages.
pub open spec fn package_names(pkgs: Seq<PackageInfo>) -> Seq<Seq<char>> {
    pkgs.map_values(|p: PackageInfo| p.name@)
}

/// A package takes part in a run over `targets`: all do when none is named.
pub open spec fn selected(p: PackageInfo, targets: Seq<Seq<char>>) -> bool {
    targets.len() == 0 || targets.contains(p.name@)
}

/// The directory of each of a package's target source files.
pub open spec fn package_dirs(p: PackageInfo) -> Seq<Seq<char>> {
    views(p.src_paths@).map_values(|s: Seq<char>| spec_parent(s))
}

/// The source directories of the selected packages, in package order.
pub open spec fn dirs_of(pkgs: Seq<PackageInfo>, targets: Seq<Seq<char>>) -> Seq<Seq<char>>
    decreases pkgs.len(),
{
    if pkgs.len() == 0 {
        Seq::<Seq<char>>::empty()
    } else {
        dirs_of(pkgs.drop_last(), targets) + if selected(pkgs.last(), targets) {
            package_dirs(pkgs.last())
        } else {
            Seq::<Seq<char>>::empty()
        }
    }
}

fn find_name(id: &str, pkgs: &[PackageInfo]) -> (r: Option<String>)
    ensures
        opt_text(r) == name_of(id@, pkgs@),
{
    let mut i: usize = 0;
    assert(pkgs@.subrange(0, pkgs@.len() as int) =~= pkgs@);
    while i < pkgs.len()
        invariant
            i <= pkgs.len(),
            name_of(id@, pkgs@) == name_of(id@, pkgs@.subrange(i as int, pkgs@.len() as int)),
        decreases pkgs.len() - i,
    {
        let ghost rest = pkgs@.subrange(i as int, pkgs@.len() as int);
        assert(rest[0] == pkgs@[i as int]);
        assert(rest.subrange(1, rest.len() as int) =~= pkgs@.subrange(i + 1, pkgs@.len() as int));
        if crate::paths::same_text(pkgs[i].id.as_str(), id) {
            return Some(pkgs[i].name.clone());
        }
        i += 1;
    }
    None
}

/// The views of an optional string.
pub open spec fn opt_text(r: Option<String>) -> Option<Seq<char>> {
    match r {
        None => None,
        Some(s) => Some(s@),
    }
}

/// The name of each workspace member, looked up by identifier among the
/// packages; the metadata is unusable when a member has no package.
pub fn member_names(members: &[String], packages: &[PackageInfo]) -> (r: Result<
    Vec<String>,
    FormatError,
>)
    ensures
        r is Ok <==> forall|i: int|
            0 <= i < members@.len() ==> name_of(#[trigger] members@[i]@, packages@) is Some,
        r matches Ok(v) ==> v@.len() == members@.len() && forall|i: int|
            0 <= i < members@.len() ==> Some(#[trigger] v@[i]@) == name_of(
                members@[i]@,
                packages@,
            ),
        r matches Err(e) ==> e is MetadataUnavailable,
{
    let mut out: Vec<String> = Vec::new();
    let mut i: usize = 0;
    while i < members.len()
        invariant
            i <= members.len(),
            out@.len() == i,
            forall|j: int|
                0 <= j < i ==> Some(#[trigger] out@[j]@) == name_of(members@[j]@, packages@),
        decreases members.len() - i,
    {
        match find_name(members[i].as_str(), packages) {
            None => {
                assert(name_of(members@[i as int]@, packages@) is None);
                return Err(FormatError::MetadataUnavailable);
            },
            Some(n) => {
                out.push(n);
            },
        }
        i += 1;
    }
    assert forall|i: int| 0 <= i < members@.len() implies name_of(
        #[trigger] members@[i]@,
        packages@,
    ) is Some by {
        assert(Some(out@[i]@) == name_of(members@[i]@, packages@));
    }
    Ok(out)
}

fn is_package_name(packages: &[PackageInfo], s: &str) -> (r: bool)
    ensures
        r == package_names(packages@).contains(s@),
{
    let mut i: usize = 0;
    while i < packages.len()
        invariant
            i <= packages.len(),
            forall|j: int| 0 <= j < i ==> packages@[j].name@ != s@,
        decreases packages.len() - i,
    {
        if crate::paths::same_text(packages[i].name.as_str(), s) {
            assert(package_names(packages@)[i as int] == s@);
            return true;
        }
        i += 1;
    }
    proof {
        if package_names(packages@).contains(s@) {
            let k = choose|k: int|
                0 <= k < package_names(packages@).len() && package_names(packages@)[k] == s@;
            assert(packages@[k].name@ == s@);
        }
    }
    false
}

/// The source directories that a run over `targets` visits: those of every
/// package when `targets` is empty, else of the named ones. A name that is
/// no package's fails the whole run.
pub fn target_source_dirs(packages: &[PackageInfo], targets: &[String]) -> (r: Result<
    Vec<String>,
    FormatError,
>)
    ensures
        r is Ok <==> forall|i: int|
            0 <= i < targets@.len() ==> package_names(packages@).contains(
                #[trigger] targets@[i]@,
            ),
        r matches Ok(d) ==> views(d@) == dirs_of(packages@, views(targets@)),
        r matches Err(e) ==> e matches FormatError::UnknownTarget(t) && views(targets@).contains(
            t@,
        ) && !package_names(packages@).contains(t@),
{
    let mut k: usize = 0;
    while k < targets.len()
        invariant
            k <= targets.len(),
            forall|i: int|
                0 <= i < k ==> package_names(packages@).contains(#[trigger] targets@[i]@),
        decreases targets.len() - k,
    {
        if !is_package_name(packages, targets[k].as_str()) {
            assert(views(targets@)[k as int] == targets@[k as int]@);
            return Err(FormatError::UnknownTarget(targets[k].clone()));
        }
        k += 1;
    }
    let ghost tv = views(targets@);
    let all = targets.len() == 0;
    let mut out: Vec<String> = Vec::new();
    let mut i: usize = 0;
    assert(packages@.subrange(0, 0) =~= Seq::<PackageInfo>::empty());
    while i < packages.len()
        invariant
            i <= packages.len(),
            tv == views(targets@),
            all == (targets@.len() == 0),
            views(out@) == dirs_of(packages@.subrange(0, i as int), tv),
        decreases packages.len() - i,
    {
        let ghost pre = packages@.subrange(0, i + 1);
        assert(pre.drop_last() =~= packages@.subrange(0, i as int));
        assert(pre.last() == packages@[i as int]);
        let p = &packages[i];
        if all || contains_text(targets, p.name.as_str()) {
            let ghost base = views(out@);
            let mut j: usize = 0;
            while j < p.src_paths.len()
                invariant
                    j <= p.src_paths.len(),
                    views(out@) == base + package_dirs(*p).subrange(0, j as int),
                decreases p.src_paths.len() - j,
            {
                let ghost before = views(out@);
                out.push(parent_dir(p.src_paths[j].as_str()));
                assert(views(out@) =~= before.push(package_dirs(*p)[j as int]));
                assert(package_dirs(*p).subrange(0, j + 1) =~= package_dirs(*p).subrange(
                    0,
                    j as int,
                ).push(package_dirs(*p)[j as int]));
                j += 1;
            }
            assert(package_dirs(*p).subrange(0, p.src_paths.len() as int) =~= package_dirs(*p));
        } else {
            assert(views(out@) =~= dirs_of(pre.drop_last(), tv) + Seq::<Seq<char>>::empty());
        }
        i += 1;
    }
    assert(packages@.subrange(0, packages.len() as int) =~= packages@);
    Ok(out)
}

} // verus!
