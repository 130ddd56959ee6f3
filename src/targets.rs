//! Target names: normalising what a user typed, checking it against the
//! workspace's package names, and a cache that queries those names once.
use vstd::prelude::*;
use crate::paths::{contains_text, copy_texts, views};

verus! {

/// Whether `c` separates path components, in either convention.
pub open spec fn is_separator(c: char) -> bool {
    c == '/' || c == '\\'
}

/// Whether `s` starts with a current-directory marker (`./` or `.\`).
pub open spec fn has_marker(s: Seq<char>) -> bool {
    s.len() >= 2 && s[0] == '.' && is_separator(s[1])
}

/// Whether `s` ends with a path separator.
pub open spec fn has_trailing_separator(s: Seq<char>) -> bool {
    s.len() > 0 && is_separator(s.last())
}

/// `s` without one leading current-directory marker and then without one
/// trailing separator.
pub open spec fn spec_normalize_target(s: Seq<char>) -> Seq<char> {
    let a = if has_marker(s) {
        s.subrange(2, s.len() as int)
    } else {
        s
    };
    if has_trailing_separator(a) {
        a.drop_last()
    } else {
        a
    }
}

/// The message of an unknown target.
pub open spec fn unknown_target_message(s: Seq<char>) -> Seq<char> {
    seq!['U', 'n', 'k', 'n', 'o', 'w', 'n', ' ', 't', 'a', 'r', 'g', 'e', 't', ':', ' '] + s
}

/// Strips one leading `./` (or `.\`) and one trailing separator.
pub fn normalize_target(s: &str) -> (r: String)
    ensures
        r@ == spec_normalize_target(s@),
{
    let n = s.unicode_len();
    let start: usize = if n >= 2 && s.get_char(0) == '.' && (s.get_char(1) == '/' || s.get_char(1)
        == '\\') {
        2
    } else {
        0
    };
    let a = s.substring_char(start, n);
    let m = a.unicode_len();
    if m > 0 && (a.get_char(m - 1) == '/' || a.get_char(m - 1) == '\\') {
        let r = a.substring_char(0, m - 1).to_owned();
        assert(r@ =~= a@.drop_last());
        r
    } else {
        let r = a.to_owned();
        assert(start == 0 ==> a@ =~= s@);
        r
    }
}

/// Normalises `s` and accepts it when it names a known package; otherwise
/// the error carries the string as given.
pub fn target_parser(s: &str, known: &[String]) -> (r: Result<String, String>)
    ensures
        r is Ok <==> views(known@).contains(spec_normalize_target(s@)),
        r matches Ok(t) ==> t@ == spec_normalize_target(s@),
        r matches Err(m) ==> m@ == unknown_target_message(s@),
{
    let t = normalize_target(s);
    if contains_text(known, t.as_str()) {
        Ok(t)
    } else {
        let prefix = "Unknown target: ";
        proof {
            reveal_strlit("Unknown target: ");
        }
        let mut m = prefix.to_owned();
        m.append(s);
        assert(m@ =~= unknown_target_message(s@));
        Err(m)
    }
}

/// Normalising again changes nothing exactly when the normalised name keeps
/// no leading marker and no trailing separator (`././core` is one that does).
pub proof fn law_normalize_idempotent(s: Seq<char>)
    ensures
        spec_normalize_target(spec_normalize_target(s)) == spec_normalize_target(s) <==> (
        !has_marker(spec_normalize_target(s)) && !has_trailing_separator(
            spec_normalize_target(s),
        )),
{
    let n = spec_normalize_target(s);
    if has_marker(n) {
        assert(spec_normalize_target(n).len() < n.len());
    } else if has_trailing_separator(n) {
        assert(spec_normalize_target(n).len() < n.len());
    }
}

/// The workspace's package names, queried at most once: the first request
/// runs the query and keeps its answer, later ones return the kept answer.
pub struct PackageNameCache {
    names: Option<Vec<String>>,
    queries: Ghost<nat>,
}

impl PackageNameCache {
    /// The kept names, once the query has run.
    pub closed spec fn cached(&self) -> Option<Seq<Seq<char>>> {
        match self.names {
            None => None,
            Some(v) => Some(views(v@)),
        }
    }

    /// How many times the query has run.
    pub closed spec fn query_count(&self) -> nat {
        self.queries@
    }

    /// The query has run exactly when an answer is kept.
    pub closed spec fn wf(&self) -> bool {
        self.queries@ == (if self.names is Some {
            1nat
        } else {
            0nat
        })
    }

    /// An empty cache.
    pub fn new() -> (r: PackageNameCache)
        ensures
            r.wf(),
            r.cached() is None,
            r.query_count() == 0,
    {
        PackageNameCache { names: None, queries: Ghost(0) }
    }

    /// All package names: from the cache when it holds them, otherwise from
    /// `query`, whose answer is then kept.
    pub fn all_targets<F: FnOnce() -> Vec<String>>(&mut self, query: F) -> (r: Vec<String>)
        requires
            old(self).wf(),
            query.requires(()),
        ensures
            final(self).wf(),
            final(self).cached() == Some(views(r@)),
            old(self).cached() matches Some(n) ==> views(r@) == n && final(self).query_count()
                == old(self).query_count(),
            old(self).cached() is None ==> final(self).query_count() == old(self).query_count()
                + 1 && exists|v: Vec<String>| query.ensures((), v) && views(v@) == views(r@),
    {
        match &self.names {
            Some(v) => copy_texts(v.as_slice()),
            None => {
                let v = query();
                let r = copy_texts(v.as_slice());
                self.names = Some(v);
                self.queries = Ghost(self.queries@ + 1);
                r
            },
        }
    }
}

/// However many requests a well-formed cache has served, its query has run
/// at most once.
pub proof fn law_query_at_most_once(c: PackageNameCache)
    requires
        c.wf(),
    ensures
        c.query_count() <= 1,
        c.cached() is Some ==> c.query_count() == 1,
{
}

} // verus!
