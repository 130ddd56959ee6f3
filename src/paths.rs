//! Lexical operations on paths held as strings: joining, splitting a path
//! list, taking the parent directory, making a path absolute, and reading a
//! file's extension. Nothing here touches the filesystem.
use vstd::prelude::*;

verus! {

/// The path separator.
pub const SEPARATOR: char = '/';

/// The separator between directories in a search-path list.
pub const LIST_SEPARATOR: char = ':';

/// Whether `s` ends with the character `c`.
pub open spec fn ends_with(s: Seq<char>, c: char) -> bool {
    s.len() > 0 && s.last() == c
}

/// Whether `s` starts with the character `c`.
pub open spec fn starts_with(s: Seq<char>, c: char) -> bool {
    s.len() > 0 && s[0] == c
}

/// The views of a sequence of strings.
pub open spec fn views(v: Seq<String>) -> Seq<Seq<char>> {
    v.map_values(|s: String| s@)
}

/// `name` placed under `dir`; an absolute `name` replaces `dir`.
pub open spec fn spec_join(dir: Seq<char>, name: Seq<char>) -> Seq<char> {
    if starts_with(name, '/') {
        name
    } else if dir.len() == 0 || ends_with(dir, '/') {
        dir + name
    } else {
        dir + seq!['/'] + name
    }
}

/// The pieces of `s` between occurrences of `sep`, empty pieces included;
/// there is always at least one piece.
pub open spec fn spec_split(s: Seq<char>, sep: char) -> Seq<Seq<char>>
    decreases s.len(),
{
    if s.len() == 0 {
        seq![Seq::<char>::empty()]
    } else {
        let prev = spec_split(s.drop_last(), sep);
        if s.last() == sep {
            prev.push(Seq::<char>::empty())
        } else {
            prev.update(prev.len() - 1, prev.last().push(s.last()))
        }
    }
}

/// The pieces joined back together with `sep` between them.
pub open spec fn join_with(parts: Seq<Seq<char>>, sep: char) -> Seq<char>
    decreases parts.len(),
{
    if parts.len() == 0 {
        Seq::<char>::empty()
    } else if parts.len() == 1 {
        parts[0]
    } else {
        join_with(parts.drop_last(), sep) + seq![sep] + parts.last()
    }
}

/// Index of the last occurrence of `c` in `s`, or -1.
pub open spec fn last_index_of(s: Seq<char>, c: char) -> int
    decreases s.len(),
{
    if s.len() == 0 {
        -1
    } else if s.last() == c {
        s.len() - 1
    } else {
        last_index_of(s.drop_last(), c)
    }
}

/// The directory part of a path: what precedes its last separator, the root
/// when that is the first character, and the empty path when it has none.
pub open spec fn spec_parent(p: Seq<char>) -> Seq<char> {
    let k = last_index_of(p, '/');
    if k < 0 {
        Seq::<char>::empty()
    } else if k == 0 {
        seq!['/']
    } else {
        p.subrange(0, k)
    }
}

/// The last component of a path.
pub open spec fn file_name(p: Seq<char>) -> Seq<char> {
    p.subrange(last_index_of(p, '/') + 1, p.len() as int)
}

/// Whether the file name carries the extension `ext`: a dot that is not its
/// first character, and `ext` after the last dot.
pub open spec fn has_extension(p: Seq<char>, ext: Seq<char>) -> bool {
    let name = file_name(p);
    let dot = last_index_of(name, '.');
    dot > 0 && name.subrange(dot + 1, name.len() as int) == ext
}

/// Components after lexical clean-up: empty and `.` components dropped, each
/// `..` removing the component before it (and nothing at the root).
pub open spec fn normalize(cs: Seq<Seq<char>>) -> Seq<Seq<char>>
    decreases cs.len(),
{
    if cs.len() == 0 {
        Seq::<Seq<char>>::empty()
    } else {
        let rest = normalize(cs.drop_last());
        let c = cs.last();
        if c.len() == 0 || c == seq!['.'] {
            rest
        } else if c == seq!['.', '.'] {
            if rest.len() > 0 {
                rest.drop_last()
            } else {
                rest
            }
        } else {
            rest.push(c)
        }
    }
}

/// `p` made absolute against the working directory `cwd` and cleaned up.
pub open spec fn spec_absolutize(p: Seq<char>, cwd: Seq<char>) -> Seq<char> {
    seq!['/'] + join_with(normalize(spec_split(spec_join(cwd, p), '/')), '/')
}

proof fn lemma_last_index_bounds(s: Seq<char>, c: char)
    ensures
        -1 <= last_index_of(s, c) < s.len(),
        last_index_of(s, c) >= 0 ==> s[last_index_of(s, c)] == c,
        forall|j: int| last_index_of(s, c) < j < s.len() ==> s[j] != c,
    decreases s.len(),
{
    if s.len() > 0 && s.last() != c {
        lemma_last_index_bounds(s.drop_last(), c);
        assert forall|j: int| last_index_of(s, c) < j < s.len() implies s[j] != c by {
            if j < s.len() - 1 {
                assert(s[j] == s.drop_last()[j]);
            }
        }
    }
}

/// Index of the last occurrence of `c` in `s`, if any.
pub fn find_last(s: &str, c: char) -> (r: Option<usize>)
    ensures
        match r {
            Some(k) => k as int == last_index_of(s@, c),
            None => last_index_of(s@, c) == -1,
        },
{
    let n = s.unicode_len();
    let mut i: usize = n;
    assert(s@.subrange(0, n as int) =~= s@);
    while i > 0
        invariant
            i <= n == s@.len(),
            last_index_of(s@, c) == last_index_of(s@.subrange(0, i as int), c),
        decreases i,
    {
        let ghost sub = s@.subrange(0, i as int);
        assert(sub.drop_last() =~= s@.subrange(0, i - 1));
        if s.get_char(i - 1) == c {
            return Some(i - 1);
        }
        i -= 1;
    }
    assert(s@.subrange(0, 0) =~= Seq::<char>::empty());
    None
}

/// Joins a directory and a name with a single separator.
pub fn join_path(dir: &str, name: &str) -> (r: String)
    ensures
        r@ == spec_join(dir@, name@),
{
    proof {
        reveal_strlit("/");
    }
    if name.unicode_len() > 0 && name.get_char(0) == SEPARATOR {
        return name.to_owned();
    }
    let n = dir.unicode_len();
    let mut out = dir.to_owned();
    if n > 0 && dir.get_char(n - 1) != SEPARATOR {
        out.append("/");
    }
    out.append(name);
    out
}

/// Splits `s` at every `sep`, keeping empty pieces.
pub fn split_on(s: &str, sep: char) -> (r: Vec<String>)
    ensures
        views(r@) == spec_split(s@, sep),
{
    let n = s.unicode_len();
    let mut parts: Vec<String> = Vec::new();
    let mut start: usize = 0;
    let mut i: usize = 0;
    assert(s@.subrange(0, 0) =~= Seq::<char>::empty());
    assert(views(parts@).push(s@.subrange(0, 0)) =~= spec_split(s@.subrange(0, 0), sep));
    while i < n
        invariant
            start <= i <= n == s@.len(),
            views(parts@).push(s@.subrange(start as int, i as int)) == spec_split(
                s@.subrange(0, i as int),
                sep,
            ),
        decreases n - i,
    {
        let ghost prefix = s@.subrange(0, i + 1);
        assert(prefix.drop_last() =~= s@.subrange(0, i as int));
        if s.get_char(i) == sep {
            let piece = s.substring_char(start, i).to_owned();
            let ghost before = views(parts@);
            parts.push(piece);
            start = i + 1;
            assert(views(parts@) =~= before.push(piece@));
            assert(s@.subrange(start as int, i + 1) =~= Seq::<char>::empty());
        } else {
            assert(s@.subrange(start as int, i + 1) =~= s@.subrange(start as int, i as int).push(
                s@[i as int],
            ));
        }
        i += 1;
    }
    let last = s.substring_char(start, n).to_owned();
    let ghost before = views(parts@);
    parts.push(last);
    assert(views(parts@) =~= before.push(last@));
    assert(s@.subrange(0, n as int) =~= s@);
    parts
}

/// Whether two strings hold the same characters.
pub fn same_text(a: &str, b: &str) -> (r: bool)
    ensures
        r == (a@ == b@),
{
    let n = a.unicode_len();
    if n != b.unicode_len() {
        return false;
    }
    let mut i: usize = 0;
    while i < n
        invariant
            i <= n == a@.len() == b@.len(),
            forall|j: int| 0 <= j < i ==> a@[j] == b@[j],
        decreases n - i,
    {
        if a.get_char(i) != b.get_char(i) {
            return false;
        }
        i += 1;
    }
    assert(a@ =~= b@);
    true
}

/// The directory part of a path (see `spec_parent`).
pub fn parent_dir(p: &str) -> (r: String)
    ensures
        r@ == spec_parent(p@),
{
    proof {
        reveal_strlit("/");
    }
    proof {
        lemma_last_index_bounds(p@, '/');
    }
    match find_last(p, SEPARATOR) {
        None => String::new(),
        Some(k) => {
            if k == 0 {
                "/".to_owned()
            } else {
                p.substring_char(0, k).to_owned()
            }
        },
    }
}

/// Whether the file name of `p` carries the extension `ext`.
pub fn is_extension(p: &str, ext: &str) -> (r: bool)
    ensures
        r == has_extension(p@, ext@),
{
    proof {
        lemma_last_index_bounds(p@, '/');
    }
    let n = p.unicode_len();
    let start = match find_last(p, SEPARATOR) {
        None => 0,
        Some(k) => k + 1,
    };
    let name = p.substring_char(start, n);
    assert(name@ == file_name(p@));
    proof {
        lemma_last_index_bounds(name@, '.');
    }
    match find_last(name, '.') {
        None => false,
        Some(dot) => {
            if dot == 0 {
                false
            } else {
                let m = name.unicode_len();
                same_text(name.substring_char(dot + 1, m), ext)
            }
        },
    }
}

fn is_dot(c: &str) -> (r: bool)
    ensures
        r == (c@ == seq!['.']),
{
    let r = c.unicode_len() == 1 && c.get_char(0) == '.';
    if r {
        assert(c@ =~= seq!['.']);
    }
    r
}

fn is_dot_dot(c: &str) -> (r: bool)
    ensures
        r == (c@ == seq!['.', '.']),
{
    let r = c.unicode_len() == 2 && c.get_char(0) == '.' && c.get_char(1) == '.';
    if r {
        assert(c@ =~= seq!['.', '.']);
    }
    r
}

/// `path` made absolute against the working directory `cwd`, with empty and
/// `.` components dropped and `..` resolved lexically.
pub fn absolutize(path: &str, cwd: &str) -> (r: String)
    ensures
        r@ == spec_absolutize(path@, cwd@),
        starts_with(r@, '/'),
{
    proof {
        reveal_strlit("/");
    }
    let full = join_path(cwd, path);
    let parts = split_on(full.as_str(), SEPARATOR);
    let ghost pv = views(parts@);
    let mut stack: Vec<String> = Vec::new();
    let mut i: usize = 0;
    assert(pv.subrange(0, 0) =~= Seq::<Seq<char>>::empty());
    while i < parts.len()
        invariant
            i <= parts.len(),
            pv == views(parts@),
            views(stack@) == normalize(pv.subrange(0, i as int)),
        decreases parts.len() - i,
    {
        assert(pv.subrange(0, i + 1).drop_last() =~= pv.subrange(0, i as int));
        let c = parts[i].as_str();
        let ghost before = views(stack@);
        if c.unicode_len() == 0 || is_dot(c) {
        } else if is_dot_dot(c) {
            if stack.len() > 0 {
                stack.pop();
                assert(views(stack@) =~= before.drop_last());
            }
        } else {
            stack.push(c.to_owned());
            assert(views(stack@) =~= before.push(c@));
        }
        i += 1;
    }
    assert(pv.subrange(0, parts.len() as int) =~= pv);
    let ghost sv = views(stack@);
    let mut out = "/".to_owned();
    let mut j: usize = 0;
    assert(sv.subrange(0, 0) =~= Seq::<Seq<char>>::empty());
    while j < stack.len()
        invariant
            j <= stack.len(),
            sv == views(stack@),
            out@ == seq!['/'] + join_with(sv.subrange(0, j as int), '/'),
        decreases stack.len() - j,
    {
        assert(sv.subrange(0, j + 1).drop_last() =~= sv.subrange(0, j as int));
        let ghost t = sv.subrange(0, j + 1);
        let ghost prev = out@;
        assert(t.last() == stack[j as int]@);
        if j > 0 {
            let sep = "/";
            proof {
                reveal_strlit("/");
            }
            assert(sep@ =~= seq!['/']);
            out.append(sep);
        }
        out.append(stack[j].as_str());
        proof {
            if j == 0 {
                assert(out@ =~= seq!['/'] + join_with(t, '/'));
            } else {
                assert(join_with(t, '/') == join_with(t.drop_last(), '/') + seq!['/'] + t.last());
                assert(out@ =~= prev + seq!['/'] + t.last());
                assert(out@ =~= seq!['/'] + join_with(t, '/'));
            }
        }
        j += 1;
    }
    assert(sv.subrange(0, stack.len() as int) =~= sv);
    out
}

/// Whether `s` is one of the strings of `list`.
pub fn contains_text(list: &[String], s: &str) -> (r: bool)
    ensures
        r == views(list@).contains(s@),
{
    let mut i: usize = 0;
    while i < list.len()
        invariant
            i <= list.len(),
            forall|j: int| 0 <= j < i ==> list@[j]@ != s@,
        decreases list.len() - i,
    {
        if same_text(list[i].as_str(), s) {
            assert(views(list@)[i as int] == s@);
            return true;
        }
        i += 1;
    }
    proof {
        if views(list@).contains(s@) {
            let k = choose|k: int| 0 <= k < views(list@).len() && views(list@)[k] == s@;
            assert(list@[k]@ == s@);
        }
    }
    false
}

/// A copy of each string, in order.
pub fn copy_texts(list: &[String]) -> (r: Vec<String>)
    ensures
        views(r@) == views(list@),
{
    let mut out: Vec<String> = Vec::new();
    let mut i: usize = 0;
    while i < list.len()
        invariant
            i <= list.len(),
            views(out@) == views(list@).subrange(0, i as int),
        decreases list.len() - i,
    {
        let ghost before = views(out@);
        out.push(list[i].clone());
        assert(views(out@) =~= before.push(list@[i as int]@));
        assert(views(list@).subrange(0, i + 1) =~= views(list@).subrange(0, i as int).push(
            list@[i as int]@,
        ));
        i += 1;
    }
    assert(views(list@).subrange(0, list.len() as int) =~= views(list@));
    out
}

} // verus!
