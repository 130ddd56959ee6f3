//! Finding an executable: the override directories of an environment value
//! first, then the caller's hint directories, then the search path. The first
//! candidate that the probe reports as a regular file wins, and no candidate
//! after it is probed. The probe is handed in, so the search itself touches no
//! filesystem.
use vstd::prelude::*;
use crate::paths::{
    absolutize, join_path, spec_absolutize, spec_join, spec_split, split_on, starts_with,
    views, LIST_SEPARATOR,
};

verus! {

/// The path `<dir>/<binary>` for each directory, in order.
pub open spec fn candidates(dirs: Seq<Seq<char>>, binary: Seq<char>) -> Seq<Seq<char>> {
    dirs.map_values(|d: Seq<char>| spec_join(d, binary))
}

/// The candidates named by a path-list value; none when it is unset.
pub open spec fn list_candidates(value: Option<Seq<char>>, binary: Seq<char>) -> Seq<
    Seq<char>,
> {
    match value {
        None => Seq::<Seq<char>>::empty(),
        Some(v) => candidates(spec_split(v, ':'), binary),
    }
}

/// Every candidate in search order: override list, hints, search path.
pub open spec fn all_candidates(
    binary: Seq<char>,
    env_value: Option<Seq<char>>,
    hints: Seq<Seq<char>>,
    path_value: Option<Seq<char>>,
) -> Seq<Seq<char>> {
    list_candidates(env_value, binary) + candidates(hints, binary) + list_candidates(
        path_value,
        binary,
    )
}

/// The probe answered `b` when asked about `path`.
pub open spec fn probe_says<F: Fn(&String) -> bool>(f: F, path: Seq<char>, b: bool) -> bool {
    exists|p: String| p@ == path && #[trigger] f.ensures((&p,), b)
}

/// `r` is what a search of `cands` in order finds: the first candidate the
/// probe accepted, after it rejected every earlier one; or nothing, after it
/// rejected them all.
pub open spec fn first_found<F: Fn(&String) -> bool>(
    f: F,
    cands: Seq<Seq<char>>,
    r: Option<Seq<char>>,
) -> bool {
    match r {
        None => forall|j: int| 0 <= j < cands.len() ==> probe_says(f, #[trigger] cands[j], false),
        Some(c) => exists|i: int|
            0 <= i < cands.len() && c == cands[i] && probe_says(f, #[trigger] cands[i], true)
                && forall|j: int| 0 <= j < i ==> probe_says(f, #[trigger] cands[j], false),
    }
}

/// The views of an optional string.
pub open spec fn opt_view(r: Option<String>) -> Option<Seq<char>> {
    match r {
        None => None,
        Some(s) => Some(s@),
    }
}

/// `r` is the first accepted candidate over all strategies, made absolute.
pub open spec fn located<F: Fn(&String) -> bool>(
    f: F,
    binary: Seq<char>,
    env_value: Option<Seq<char>>,
    hints: Seq<Seq<char>>,
    path_value: Option<Seq<char>>,
    cwd: Seq<char>,
    r: Option<Seq<char>>,
) -> bool {
    let cands = all_candidates(binary, env_value, hints, path_value);
    match r {
        None => first_found(f, cands, None),
        Some(x) => exists|c: Seq<char>|
            #[trigger] first_found(f, cands, Some(c)) && x == spec_absolutize(c, cwd),
    }
}

/// The probe answers for membership in `regular` and nothing else.
pub open spec fn faithful<F: Fn(&String) -> bool>(f: F, regular: Set<Seq<char>>) -> bool {
    forall|p: String, b: bool| #[trigger] f.ensures((&p,), b) ==> b == regular.contains(p@)
}

/// The first candidate that is in `regular`.
pub open spec fn first_regular(cands: Seq<Seq<char>>, regular: Set<Seq<char>>) -> Option<
    Seq<char>,
>
    decreases cands.len(),
{
    if cands.len() == 0 {
        None
    } else if regular.contains(cands[0]) {
        Some(cands[0])
    } else {
        first_regular(cands.subrange(1, cands.len() as int), regular)
    }
}

/// Probes `<dir>/<binary>` for each directory in order and returns the first
/// that the probe accepts.
fn first_match<F: Fn(&String) -> bool>(binary: &str, dirs: &[String], is_file: &F) -> (r: Option<
    String,
>)
    requires
        forall|p: &String| is_file.requires((p,)),
    ensures
        first_found(*is_file, candidates(views(dirs@), binary@), opt_view(r)),
{
    let ghost cands = candidates(views(dirs@), binary@);
    let mut i: usize = 0;
    while i < dirs.len()
        invariant
            i <= dirs.len(),
            cands == candidates(views(dirs@), binary@),
            cands.len() == dirs@.len(),
            forall|j: int| 0 <= j < i ==> probe_says(*is_file, #[trigger] cands[j], false),
            forall|p: &String| is_file.requires((p,)),
        decreases dirs.len() - i,
    {
        let full = join_path(dirs[i].as_str(), binary);
        assert(full@ == cands[i as int]);
        if is_file(&full) {
            assert(probe_says(*is_file, cands[i as int], true));
            return Some(full);
        }
        assert(probe_says(*is_file, cands[i as int], false));
        i += 1;
    }
    None
}

/// Looks for `binary` in the directories of a path-list value.
fn locate_in_list<F: Fn(&String) -> bool>(binary: &str, value: Option<&str>, is_file: &F) -> (r:
    Option<String>)
    requires
        forall|p: &String| is_file.requires((p,)),
    ensures
        first_found(
            *is_file,
            list_candidates(
                match value {
                    None => None,
                    Some(v) => Some(v@),
                },
                binary@,
            ),
            opt_view(r),
        ),
{
    match value {
        None => None,
        Some(v) => {
            let dirs = split_on(v, LIST_SEPARATOR);
            first_match(binary, dirs.as_slice(), is_file)
        },
    }
}

/// Looks for `binary` in the directories of the search-path value (`None`
/// when the variable is unset).
pub fn locate_from_path<F: Fn(&String) -> bool>(
    binary: &str,
    path_value: Option<&str>,
    is_file: &F,
) -> (r: Option<String>)
    requires
        forall|p: &String| is_file.requires((p,)),
    ensures
        first_found(
            *is_file,
            list_candidates(
                match path_value {
                    None => None,
                    Some(v) => Some(v@),
                },
                binary@,
            ),
            opt_view(r),
        ),
{
    locate_in_list(binary, path_value, is_file)
}

/// Looks for `binary` in the hint directories, in the order given.
pub fn locate_from_hints<F: Fn(&String) -> bool>(binary: &str, hints: &[String], is_file: &F) -> (r:
    Option<String>)
    requires
        forall|p: &String| is_file.requires((p,)),
    ensures
        first_found(*is_file, candidates(views(hints@), binary@), opt_view(r)),
{
    first_match(binary, hints, is_file)
}

/// Looks for `binary` in the directories of an override variable's value
/// (`None` when the variable is unset).
pub fn locate_from_env<F: Fn(&String) -> bool>(
    binary: &str,
    env_value: Option<&str>,
    is_file: &F,
) -> (r: Option<String>)
    requires
        forall|p: &String| is_file.requires((p,)),
    ensures
        first_found(
            *is_file,
            list_candidates(
                match env_value {
                    None => None,
                    Some(v) => Some(v@),
                },
                binary@,
            ),
            opt_view(r),
        ),
{
    locate_in_list(binary, env_value, is_file)
}

/// A search that found nothing in `a` finds in `a + b` what it finds in `b`.
proof fn lemma_first_found_concat<F: Fn(&String) -> bool>(
    f: F,
    a: Seq<Seq<char>>,
    b: Seq<Seq<char>>,
    r: Option<Seq<char>>,
)
    requires
        first_found(f, a, None),
        first_found(f, b, r),
    ensures
        first_found(f, a + b, r),
{
    let ab = a + b;
    match r {
        None => {
            assert forall|j: int| 0 <= j < ab.len() implies probe_says(f, #[trigger] ab[j], false) by {
                if j < a.len() {
                    assert(ab[j] == a[j]);
                } else {
                    assert(ab[j] == b[j - a.len()]);
                }
            }
        },
        Some(c) => {
            let i = choose|i: int|
                0 <= i < b.len() && c == b[i] && probe_says(f, #[trigger] b[i], true) && forall|
                    j: int,
                | 0 <= j < i ==> probe_says(f, #[trigger] b[j], false);
            let k = a.len() + i;
            assert(ab[k] == b[i]);
            assert forall|j: int| 0 <= j < k implies probe_says(f, #[trigger] ab[j], false) by {
                if j < a.len() {
                    assert(ab[j] == a[j]);
                } else {
                    assert(ab[j] == b[j - a.len()]);
                }
            }
        },
    }
}

/// Finds `binary` by the override value, then the hints, then the search
/// path, stopping at the first regular file, and makes the match absolute
/// against `cwd`.
pub fn locate<F: Fn(&String) -> bool>(
    binary: &str,
    env_value: Option<&str>,
    hints: &[String],
    path_value: Option<&str>,
    cwd: &str,
    is_file: &F,
) -> (r: Option<String>)
    requires
        forall|p: &String| is_file.requires((p,)),
    ensures
        located(
            *is_file,
            binary@,
            match env_value {
                None => None,
                Some(v) => Some(v@),
            },
            views(hints@),
            match path_value {
                None => None,
                Some(v) => Some(v@),
            },
            cwd@,
            opt_view(r),
        ),
        r matches Some(x) ==> starts_with(x@, '/'),
{
    let ghost ev = match env_value {
        None => None,
        Some(v) => Some(v@),
    };
    let ghost pv = match path_value {
        None => None,
        Some(v) => Some(v@),
    };
    let ghost e = list_candidates(ev, binary@);
    let ghost h = candidates(views(hints@), binary@);
    let ghost p = list_candidates(pv, binary@);
    assert(all_candidates(binary@, ev, views(hints@), pv) == e + h + p);
    let found = match locate_from_env(binary, env_value, is_file) {
        Some(x) => {
            proof {
                let i = choose|i: int|
                    0 <= i < e.len() && x@ == e[i] && probe_says(*is_file, #[trigger] e[i], true)
                        && forall|j: int| 0 <= j < i ==> probe_says(*is_file, #[trigger] e[j], false);
                let eh = e + h;
                let all = eh + p;
                assert(all[i] == e[i]);
                assert forall|j: int| 0 <= j < i implies probe_says(*is_file, #[trigger] all[j], false) by {
                    assert(all[j] == e[j]);
                }
                assert(first_found(*is_file, all, Some(x@)));
            }
            Some(x)
        },
        None => match locate_from_hints(binary, hints, is_file) {
            Some(x) => {
                proof {
                    lemma_first_found_concat(*is_file, e, h, Some(x@));
                    let eh = e + h;
                    let all = eh + p;
                    let i = choose|i: int|
                        0 <= i < eh.len() && x@ == eh[i] && probe_says(*is_file, #[trigger] eh[i], true)
                            && forall|j: int| 0 <= j < i ==> probe_says(*is_file, #[trigger] eh[j], false);
                    assert(all[i] == eh[i]);
                    assert forall|j: int| 0 <= j < i implies probe_says(*is_file, #[trigger] all[j], false) by {
                        assert(all[j] == eh[j]);
                    }
                    assert(first_found(*is_file, all, Some(x@)));
                }
                Some(x)
            },
            None => {
                let r = locate_from_path(binary, path_value, is_file);
                proof {
                    lemma_first_found_concat(*is_file, e, h, None);
                    lemma_first_found_concat(*is_file, e + h, p, opt_view(r));
                }
                r
            },
        },
    };
    match found {
        None => None,
        Some(x) => {
            let a = absolutize(x.as_str(), cwd);
            assert(first_found(*is_file, e + h + p, Some(x@)));
            Some(a)
        },
    }
}

/// The PowerShell to run commands with on Windows.
#[derive(Debug, Clone, Copy, PartialEq, Eq, Structural)]
pub enum Shell {
    /// PowerShell 7 or later.
    Pwsh,
    /// The legacy Windows PowerShell 5.x, used with a compatibility warning.
    WindowsPowerShell,
}

impl Shell {
    /// The binary to launch.
    pub fn program(&self) -> (r: String)
        ensures
            r@ == (match self {
                Shell::Pwsh => "pwsh"@,
                Shell::WindowsPowerShell => "powershell"@,
            }),
    {
        match self {
            Shell::Pwsh => "pwsh".to_owned(),
            Shell::WindowsPowerShell => "powershell".to_owned(),
        }
    }

    /// Whether the user should be told that the legacy shell is in use.
    pub fn needs_compat_warning(&self) -> (r: bool)
        ensures
            r == (*self == Shell::WindowsPowerShell),
    {
        match self {
            Shell::Pwsh => false,
            Shell::WindowsPowerShell => true,
        }
    }
}

/// Picks the shell from whether a trial run of each succeeded: the modern
/// one when it runs, else the legacy one when it runs, else none.
pub fn choose_powershell(pwsh_runs: bool, powershell_runs: bool) -> (r: Option<Shell>)
    ensures
        pwsh_runs ==> r == Some(Shell::Pwsh),
        !pwsh_runs && powershell_runs ==> r == Some(Shell::WindowsPowerShell),
        !pwsh_runs && !powershell_runs ==> r is None,
{
    if pwsh_runs {
        Some(Shell::Pwsh)
    } else if powershell_runs {
        Some(Shell::WindowsPowerShell)
    } else {
        None
    }
}

/// Some candidate of `cands` is in `regular`.
pub open spec fn present(cands: Seq<Seq<char>>, regular: Set<Seq<char>>) -> bool {
    exists|j: int| 0 <= j < cands.len() && regular.contains(#[trigger] cands[j])
}

proof fn lemma_first_regular_at(cands: Seq<Seq<char>>, regular: Set<Seq<char>>, i: int)
    requires
        0 <= i < cands.len(),
        regular.contains(cands[i]),
        forall|j: int| 0 <= j < i ==> !regular.contains(#[trigger] cands[j]),
    ensures
        first_regular(cands, regular) == Some(cands[i]),
    decreases i,
{
    if i > 0 {
        let rest = cands.subrange(1, cands.len() as int);
        assert(!regular.contains(cands[0]));
        assert(rest[i - 1] == cands[i]);
        assert forall|j: int| 0 <= j < i - 1 implies !regular.contains(#[trigger] rest[j]) by {
            assert(rest[j] == cands[j + 1]);
        }
        lemma_first_regular_at(rest, regular, i - 1);
    }
}

proof fn lemma_first_regular_none(cands: Seq<Seq<char>>, regular: Set<Seq<char>>)
    requires
        !present(cands, regular),
    ensures
        first_regular(cands, regular) == None::<Seq<char>>,
    decreases cands.len(),
{
    if cands.len() > 0 {
        let rest = cands.subrange(1, cands.len() as int);
        assert(!regular.contains(cands[0]));
        assert forall|j: int| 0 <= j < rest.len() implies !regular.contains(#[trigger] rest[j]) by {
            assert(rest[j] == cands[j + 1]);
        }
        lemma_first_regular_none(rest, regular);
    }
}

proof fn lemma_first_regular_concat(
    a: Seq<Seq<char>>,
    b: Seq<Seq<char>>,
    regular: Set<Seq<char>>,
)
    ensures
        first_regular(a + b, regular) == (match first_regular(a, regular) {
            Some(c) => Some(c),
            None => first_regular(b, regular),
        }),
    decreases a.len(),
{
    if a.len() > 0 {
        let ra = a.subrange(1, a.len() as int);
        assert((a + b).subrange(1, (a + b).len() as int) =~= ra + b);
        assert((a + b)[0] == a[0]);
        lemma_first_regular_concat(ra, b, regular);
    } else {
        assert(a + b =~= b);
    }
}

proof fn lemma_first_regular_found(cands: Seq<Seq<char>>, regular: Set<Seq<char>>)
    ensures
        first_regular(cands, regular) matches Some(c) ==> regular.contains(c) && cands.contains(c),
        first_regular(cands, regular) is None <==> !present(cands, regular),
    decreases cands.len(),
{
    if cands.len() > 0 {
        let rest = cands.subrange(1, cands.len() as int);
        lemma_first_regular_found(rest, regular);
        if !regular.contains(cands[0]) {
            match first_regular(rest, regular) {
                Some(c) => {
                    let k = choose|k: int| 0 <= k < rest.len() && rest[k] == c;
                    assert(cands[k + 1] == c);
                },
                None => {},
            }
            if present(cands, regular) {
                let j = choose|j: int| 0 <= j < cands.len() && regular.contains(#[trigger] cands[j]);
                assert(rest[j - 1] == cands[j]);
            }
            if present(rest, regular) {
                let j = choose|j: int| 0 <= j < rest.len() && regular.contains(#[trigger] rest[j]);
                assert(cands[j + 1] == rest[j]);
            }
        } else {
            assert(cands[0] == cands[0]);
        }
    }
}

/// A search with a probe faithful to `regular` finds the first candidate in
/// `regular`.
proof fn lemma_found_is_first_regular<F: Fn(&String) -> bool>(
    f: F,
    cands: Seq<Seq<char>>,
    regular: Set<Seq<char>>,
    r: Option<Seq<char>>,
)
    requires
        faithful(f, regular),
        first_found(f, cands, r),
    ensures
        r == first_regular(cands, regular),
{
    match r {
        None => {
            assert forall|j: int| 0 <= j < cands.len() implies !regular.contains(
                #[trigger] cands[j],
            ) by {
                assert(probe_says(f, cands[j], false));
                let p = choose|p: String| p@ == cands[j] && #[trigger] f.ensures((&p,), false);
            }
            lemma_first_regular_none(cands, regular);
        },
        Some(c) => {
            let i = choose|i: int|
                0 <= i < cands.len() && c == cands[i] && probe_says(f, #[trigger] cands[i], true)
                    && forall|j: int| 0 <= j < i ==> probe_says(f, #[trigger] cands[j], false);
            let p = choose|p: String| p@ == cands[i] && #[trigger] f.ensures((&p,), true);
            assert forall|j: int| 0 <= j < i implies !regular.contains(#[trigger] cands[j]) by {
                assert(probe_says(f, cands[j], false));
                let q = choose|q: String| q@ == cands[j] && #[trigger] f.ensures((&q,), false);
            }
            lemma_first_regular_at(cands, regular, i);
        },
    }
}

/// With a probe faithful to `regular`, a located result is the first
/// candidate in `regular`, over all strategies, made absolute.
proof fn lemma_located<F: Fn(&String) -> bool>(
    f: F,
    binary: Seq<char>,
    env_value: Option<Seq<char>>,
    hints: Seq<Seq<char>>,
    path_value: Option<Seq<char>>,
    cwd: Seq<char>,
    regular: Set<Seq<char>>,
    r: Option<Seq<char>>,
)
    requires
        faithful(f, regular),
        located(f, binary, env_value, hints, path_value, cwd, r),
    ensures
        r == (match first_regular(all_candidates(binary, env_value, hints, path_value), regular) {
            None => None,
            Some(c) => Some(spec_absolutize(c, cwd)),
        }),
{
    let cands = all_candidates(binary, env_value, hints, path_value);
    match r {
        None => {
            lemma_found_is_first_regular(f, cands, regular, None);
        },
        Some(x) => {
            let c = choose|c: Seq<char>|
                #[trigger] first_found(f, cands, Some(c)) && x == spec_absolutize(c, cwd);
            lemma_found_is_first_regular(f, cands, regular, Some(c));
        },
    }
}

/// A binary present in exactly one of the three places (override
/// directories, hint directories, search path) is found there, at the first
/// directory of that place that holds it, and the result is absolute.
pub proof fn law_single_source<F: Fn(&String) -> bool>(
    f: F,
    binary: Seq<char>,
    env_value: Option<Seq<char>>,
    hints: Seq<Seq<char>>,
    path_value: Option<Seq<char>>,
    cwd: Seq<char>,
    regular: Set<Seq<char>>,
    r: Option<Seq<char>>,
)
    requires
        faithful(f, regular),
        located(f, binary, env_value, hints, path_value, cwd, r),
        ({
            let e = present(list_candidates(env_value, binary), regular);
            let h = present(candidates(hints, binary), regular);
            let p = present(list_candidates(path_value, binary), regular);
            (e && !h && !p) || (!e && h && !p) || (!e && !h && p)
        }),
    ensures
        r matches Some(x) && starts_with(x, '/'),
        present(list_candidates(env_value, binary), regular) ==> r == Some(
            spec_absolutize(first_regular(list_candidates(env_value, binary), regular)->0, cwd),
        ),
        present(candidates(hints, binary), regular) ==> r == Some(
            spec_absolutize(first_regular(candidates(hints, binary), regular)->0, cwd),
        ),
        present(list_candidates(path_value, binary), regular) ==> r == Some(
            spec_absolutize(first_regular(list_candidates(path_value, binary), regular)->0, cwd),
        ),
{
    let e = list_candidates(env_value, binary);
    let h = candidates(hints, binary);
    let p = list_candidates(path_value, binary);
    lemma_located(f, binary, env_value, hints, path_value, cwd, regular, r);
    lemma_first_regular_concat(e + h, p, regular);
    lemma_first_regular_concat(e, h, regular);
    lemma_first_regular_found(e, regular);
    lemma_first_regular_found(h, regular);
    lemma_first_regular_found(p, regular);
    let x = r->0;
    assert(x[0] == '/');
}

/// When the override directories hold the binary, their match is returned,
/// whatever the hint directories and the search path hold.
pub proof fn law_override_first<F: Fn(&String) -> bool>(
    f: F,
    binary: Seq<char>,
    env_value: Option<Seq<char>>,
    hints: Seq<Seq<char>>,
    path_value: Option<Seq<char>>,
    cwd: Seq<char>,
    regular: Set<Seq<char>>,
    r: Option<Seq<char>>,
)
    requires
        faithful(f, regular),
        located(f, binary, env_value, hints, path_value, cwd, r),
        present(list_candidates(env_value, binary), regular),
    ensures
        r == Some(
            spec_absolutize(first_regular(list_candidates(env_value, binary), regular)->0, cwd),
        ),
{
    let e = list_candidates(env_value, binary);
    let h = candidates(hints, binary);
    let p = list_candidates(path_value, binary);
    lemma_located(f, binary, env_value, hints, path_value, cwd, regular, r);
    lemma_first_regular_concat(e + h, p, regular);
    lemma_first_regular_concat(e, h, regular);
    lemma_first_regular_found(e, regular);
}

/// Whatever is found is a candidate that the probe reports as a regular
/// file: an entry outside `regular`, a directory for one, is never returned.
pub proof fn law_only_regular_files<F: Fn(&String) -> bool>(
    f: F,
    binary: Seq<char>,
    env_value: Option<Seq<char>>,
    hints: Seq<Seq<char>>,
    path_value: Option<Seq<char>>,
    cwd: Seq<char>,
    regular: Set<Seq<char>>,
    r: Option<Seq<char>>,
)
    requires
        faithful(f, regular),
        located(f, binary, env_value, hints, path_value, cwd, r),
    ensures
        r matches Some(x) ==> exists|c: Seq<char>|
            regular.contains(c) && all_candidates(binary, env_value, hints, path_value).contains(c)
                && x == spec_absolutize(c, cwd),
{
    let cands = all_candidates(binary, env_value, hints, path_value);
    lemma_located(f, binary, env_value, hints, path_value, cwd, regular, r);
    lemma_first_regular_found(cands, regular);
    if r is Some {
        let c = first_regular(cands, regular)->0;
        assert(regular.contains(c) && cands.contains(c));
    }
}

} // verus!
