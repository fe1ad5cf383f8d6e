use vstd::prelude::*;

use crate::text::{decimal, decimal_string, str_views};

verus! {

/// One commit touching a path: its hash, its ISO-8601 author date, its subject.
#[derive(Debug, Clone)]
pub struct LogEntry {
    pub hash: String,
    pub date: String,
    pub message: String,
}

/// The first position at or after `from` where `c` stands in `l`, or -1.
pub open spec fn find_from(l: Seq<char>, c: char, from: int) -> int
    decreases l.len() - from,
{
    if from < 0 || from >= l.len() {
        -1
    } else if l[from] == c {
        from
    } else {
        find_from(l, c, from + 1)
    }
}

/// A line of `git log --format=%H|%aI|%s` split at its first two `|`: hash,
/// date, and the subject, which may hold `|` itself.
pub open spec fn log_entry_of(l: Seq<char>) -> Option<(Seq<char>, Seq<char>, Seq<char>)> {
    let a = find_from(l, '|', 0);
    let b = find_from(l, '|', a + 1);
    if a < 0 || b < 0 {
        None
    } else {
        Some((l.subrange(0, a), l.subrange(a + 1, b), l.subrange(b + 1, l.len() as int)))
    }
}

/// The entries of the lines that split into three parts, in order.
pub open spec fn log_entries(lines: Seq<Seq<char>>) -> Seq<(Seq<char>, Seq<char>, Seq<char>)>
    decreases lines.len(),
{
    if lines.len() == 0 {
        Seq::empty()
    } else {
        let p = log_entries(lines.drop_last());
        match log_entry_of(lines.last()) {
            Some(e) => p.push(e),
            None => p,
        }
    }
}

pub open spec fn entry_views(s: Seq<LogEntry>) -> Seq<(Seq<char>, Seq<char>, Seq<char>)> {
    s.map_values(|e: LogEntry| (e.hash@, e.date@, e.message@))
}

fn find_char(s: &str, c: char, from: usize) -> (r: Option<usize>)
    ensures
        match r {
            Some(i) => find_from(s@, c, from as int) == i as int && from <= i < s@.len(),
            None => find_from(s@, c, from as int) == -1,
        },
{
    let n = s.unicode_len();
    let mut i = from;
    while i < n
        invariant
            n == s@.len(),
            from <= i,
            find_from(s@, c, from as int) == find_from(s@, c, i as int),
        decreases n - i,
    {
        if s.get_char(i) == c {
            return Some(i);
        }
        i = i + 1;
    }
    None
}

/// Reads one line of `git log --format=%H|%aI|%s`; `None` when it does not
/// split into three parts.
pub fn parse_log_line(line: &str) -> (r: Option<LogEntry>)
    ensures
        match r {
            Some(e) => log_entry_of(line@) == Some((e.hash@, e.date@, e.message@)),
            None => log_entry_of(line@) is None,
        },
{
    let n = line.unicode_len();
    let a = match find_char(line, '|', 0) {
        Some(a) => a,
        None => {
            return None;
        },
    };
    let b = match find_char(line, '|', a + 1) {
        Some(b) => b,
        None => {
            return None;
        },
    };
    Some(
        LogEntry {
            hash: String::from_str(line.substring_char(0, a)),
            date: String::from_str(line.substring_char(a + 1, b)),
            message: String::from_str(line.substring_char(b + 1, n)),
        },
    )
}

/// Reads the lines of `git log --format=%H|%aI|%s`, newest first as git
/// gives them, skipping lines that do not split into three parts.
pub fn parse_log(lines: &Vec<String>) -> (r: Vec<LogEntry>)
    ensures
        entry_views(r@) == log_entries(str_views(lines@)),
{
    let ghost ls = str_views(lines@);
    let mut out: Vec<LogEntry> = Vec::new();
    let mut i: usize = 0;
    while i < lines.len()
        invariant
            ls == str_views(lines@),
            i <= lines@.len(),
            entry_views(out@) == log_entries(ls.subrange(0, i as int)),
        decreases lines@.len() - i,
    {
        assert(ls.subrange(0, i as int + 1).drop_last() =~= ls.subrange(0, i as int));
        match parse_log_line(lines[i].as_str()) {
            Some(e) => {
                out.push(e);
            },
            None => {},
        }
        assert(entry_views(out@) =~= log_entries(ls.subrange(0, i as int + 1)));
        i = i + 1;
    }
    assert(ls.subrange(0, lines@.len() as int) =~= ls);
    out
}

/// The non-empty lines, in order.
pub open spec fn nonempty_lines(ls: Seq<Seq<char>>) -> Seq<Seq<char>>
    decreases ls.len(),
{
    if ls.len() == 0 {
        ls
    } else {
        let p = nonempty_lines(ls.drop_last());
        if ls.last().len() > 0 {
            p.push(ls.last())
        } else {
            p
        }
    }
}

/// The tag names in the lines of `git tag` output.
pub fn parse_tags(lines: &Vec<String>) -> (r: Vec<String>)
    ensures
        str_views(r@) == nonempty_lines(str_views(lines@)),
{
    let ghost ls = str_views(lines@);
    let mut out: Vec<String> = Vec::new();
    let mut i: usize = 0;
    while i < lines.len()
        invariant
            ls == str_views(lines@),
            i <= lines@.len(),
            str_views(out@) == nonempty_lines(ls.subrange(0, i as int)),
        decreases lines@.len() - i,
    {
        assert(ls.subrange(0, i as int + 1).drop_last() =~= ls.subrange(0, i as int));
        if lines[i].as_str().unicode_len() > 0 {
            out.push(lines[i].clone());
        }
        assert(str_views(out@) =~= nonempty_lines(ls.subrange(0, i as int + 1)));
        i = i + 1;
    }
    assert(ls.subrange(0, lines@.len() as int) =~= ls);
    out
}

/// The arguments of a shallow clone: `--depth N` unless the depth is 0,
/// one branch, `--branch REF` when a ref is given, then URL and target.
pub open spec fn clone_argv(url: Seq<char>, target: Seq<char>, git_ref: Option<Seq<char>>, depth: u32) -> Seq<
    Seq<char>,
> {
    seq!["clone"@] + (if depth > 0 {
        seq!["--depth"@, decimal(depth as nat)]
    } else {
        Seq::empty()
    }) + seq!["--single-branch"@] + (match git_ref {
        Some(r) => seq!["--branch"@, r],
        None => Seq::empty(),
    }) + seq![url, target]
}

pub fn clone_args(url: &str, target: &str, git_ref: Option<&str>, depth: u32) -> (r: Vec<String>)
    ensures
        str_views(r@) == clone_argv(url@, target@, crate::text::opt_str(git_ref), depth),
{
    let mut v: Vec<String> = Vec::new();
    v.push(String::from_str("clone"));
    if depth > 0 {
        v.push(String::from_str("--depth"));
        v.push(decimal_string(depth as u64));
    }
    v.push(String::from_str("--single-branch"));
    match git_ref {
        Some(r) => {
            v.push(String::from_str("--branch"));
            v.push(String::from_str(r));
        },
        None => {},
    }
    v.push(String::from_str(url));
    v.push(String::from_str(target));
    assert(str_views(v@) =~= clone_argv(url@, target@, crate::text::opt_str(git_ref), depth));
    v
}

/// How many times `c` occurs in `s`.
pub open spec fn count_char(s: Seq<char>, c: char) -> nat
    decreases s.len(),
{
    if s.len() == 0 {
        0
    } else {
        count_char(s.drop_last(), c) + if s.last() == c {
            1nat
        } else {
            0nat
        }
    }
}

/// The number of `/`-separated components of a repository-relative path,
/// which `tar --strip-components` takes off an archive of that path.
pub fn component_count(path: &str) -> (r: usize)
    requires
        path@.len() < usize::MAX,
    ensures
        r == count_char(path@, '/') + 1,
{
    let n = path.unicode_len();
    let mut count: usize = 1;
    let mut i: usize = 0;
    while i < n
        invariant
            n == path@.len(),
            n < usize::MAX,
            i <= n,
            count == count_char(path@.subrange(0, i as int), '/') + 1,
            count <= i + 1,
        decreases n - i,
    {
        assert(path@.subrange(0, i as int + 1).drop_last() =~= path@.subrange(0, i as int));
        if path.get_char(i) == '/' {
            count = count + 1;
        }
        i = i + 1;
    }
    assert(path@.subrange(0, n as int) =~= path@);
    count
}

/// The git arguments that add `url` as a submodule at `path`, allowing
/// `file://` URLs.
pub fn submodule_add(url: &str, path: &str) -> (r: Vec<String>)
    ensures
        str_views(r@) == seq!["-c"@, "protocol.file.allow=always"@, "submodule"@, "add"@, url@, path@],
{
    let mut v: Vec<String> = Vec::new();
    v.push(String::from_str("-c"));
    v.push(String::from_str("protocol.file.allow=always"));
    v.push(String::from_str("submodule"));
    v.push(String::from_str("add"));
    v.push(String::from_str(url));
    v.push(String::from_str(path));
    assert(str_views(v@) =~= seq!["-c"@, "protocol.file.allow=always"@, "submodule"@, "add"@, url@, path@]);
    v
}

/// The git arguments that move one submodule, or all, to the latest commit
/// of their remote.
pub fn submodule_update(path: Option<&str>) -> (r: Vec<String>)
    ensures
        str_views(r@) == seq!["-c"@, "protocol.file.allow=always"@, "submodule"@, "update"@, "--remote"@] + match path {
            Some(p) => seq![p@],
            None => Seq::<Seq<char>>::empty(),
        },
{
    let mut v: Vec<String> = Vec::new();
    v.push(String::from_str("-c"));
    v.push(String::from_str("protocol.file.allow=always"));
    v.push(String::from_str("submodule"));
    v.push(String::from_str("update"));
    v.push(String::from_str("--remote"));
    match path {
        Some(p) => {
            v.push(String::from_str(p));
        },
        None => {},
    }
    assert(str_views(v@) =~= seq!["-c"@, "protocol.file.allow=always"@, "submodule"@, "update"@, "--remote"@] + match path {
        Some(p) => seq![p@],
        None => Seq::<Seq<char>>::empty(),
    });
    v
}

/// The git arguments that create tag `tag`: annotated with `message` when
/// one is given, lightweight otherwise.
pub fn create_tag(tag: &str, message: Option<&str>) -> (r: Vec<String>)
    ensures
        str_views(r@) == match message {
            Some(m) => seq!["tag"@, "-a"@, tag@, "-m"@, m@],
            None => seq!["tag"@, tag@],
        },
{
    let mut v: Vec<String> = Vec::new();
    v.push(String::from_str("tag"));
    match message {
        Some(m) => {
            v.push(String::from_str("-a"));
            v.push(String::from_str(tag));
            v.push(String::from_str("-m"));
            v.push(String::from_str(m));
        },
        None => {
            v.push(String::from_str(tag));
        },
    }
    assert(str_views(v@) =~= match message {
        Some(m) => seq!["tag"@, "-a"@, tag@, "-m"@, m@],
        None => seq!["tag"@, tag@],
    });
    v
}

/// `s` begins with `p`.
pub open spec fn starts_with(s: Seq<char>, p: Seq<char>) -> bool {
    p.len() <= s.len() && s.subrange(0, p.len() as int) == p
}

/// `s` ends with `p`.
pub open spec fn ends_with(s: Seq<char>, p: Seq<char>) -> bool {
    p.len() <= s.len() && s.subrange(s.len() - p.len(), s.len() as int) == p
}

fn has_prefix(s: &str, p: &str) -> (r: bool)
    ensures
        r == starts_with(s@, p@),
{
    let n = s.unicode_len();
    let m = p.unicode_len();
    if m > n {
        return false;
    }
    let mut i: usize = 0;
    while i < m
        invariant
            n == s@.len(),
            m == p@.len(),
            m <= n,
            i <= m,
            forall|k: int| 0 <= k < i ==> s@[k] == p@[k],
        decreases m - i,
    {
        if s.get_char(i) != p.get_char(i) {
            assert(s@.subrange(0, m as int)[i as int] != p@[i as int]);
            return false;
        }
        i = i + 1;
    }
    assert(s@.subrange(0, m as int) =~= p@);
    true
}

fn has_suffix(s: &str, p: &str) -> (r: bool)
    ensures
        r == ends_with(s@, p@),
{
    let n = s.unicode_len();
    let m = p.unicode_len();
    if m > n {
        return false;
    }
    let d = n - m;
    let mut i: usize = 0;
    while i < m
        invariant
            n == s@.len(),
            m == p@.len(),
            m <= n,
            d == n - m,
            i <= m,
            forall|k: int| 0 <= k < i ==> s@[d + k] == p@[k],
        decreases m - i,
    {
        if s.get_char(d + i) != p.get_char(i) {
            assert(s@.subrange(d as int, n as int)[i as int] != p@[i as int]);
            return false;
        }
        i = i + 1;
    }
    assert(s@.subrange(d as int, n as int) =~= p@);
    true
}

/// A source is a git repository when it is an `https://`, `http://`,
/// `git@` or `ssh://` address, or ends in `.git`; otherwise it is a path.
pub open spec fn git_source(s: Seq<char>) -> bool {
    starts_with(s, "https://"@) || starts_with(s, "http://"@) || starts_with(s, "git@"@) || starts_with(
        s,
        "ssh://"@,
    ) || ends_with(s, ".git"@)
}

pub fn is_git_url(source: &str) -> (r: bool)
    ensures
        r == git_source(source@),
{
    has_prefix(source, "https://") || has_prefix(source, "http://") || has_prefix(source, "git@")
        || has_prefix(source, "ssh://") || has_suffix(source, ".git")
}

} // verus!
