use vstd::prelude::*;

verus! {

/// Unicode `White_Space`, the whitespace that `str::trim` removes.
pub open spec fn is_ws(c: char) -> bool {
    ('\u{9}' <= c && c <= '\u{d}') || c == ' ' || c == '\u{85}' || c == '\u{a0}' || c == '\u{1680}'
        || ('\u{2000}' <= c && c <= '\u{200a}') || c == '\u{2028}' || c == '\u{2029}' || c
        == '\u{202f}' || c == '\u{205f}' || c == '\u{3000}'
}

fn is_ws_exec(c: char) -> (r: bool)
    ensures
        r == is_ws(c),
{
    ('\u{9}' <= c && c <= '\u{d}') || c == ' ' || c == '\u{85}' || c == '\u{a0}' || c == '\u{1680}'
        || ('\u{2000}' <= c && c <= '\u{200a}') || c == '\u{2028}' || c == '\u{2029}' || c
        == '\u{202f}' || c == '\u{205f}' || c == '\u{3000}'
}

pub open spec fn trim_start(s: Seq<char>) -> Seq<char>
    decreases s.len(),
{
    if s.len() > 0 && is_ws(s[0]) {
        trim_start(s.drop_first())
    } else {
        s
    }
}

pub open spec fn trim_end(s: Seq<char>) -> Seq<char>
    decreases s.len(),
{
    if s.len() > 0 && is_ws(s.last()) {
        trim_end(s.drop_last())
    } else {
        s
    }
}

/// `s` without leading and trailing whitespace.
pub open spec fn trim(s: Seq<char>) -> Seq<char> {
    trim_end(trim_start(s))
}

/// Splitting at each `'\n'`: the completed lines, and the text after the last one.
pub open spec fn split_acc(c: Seq<char>) -> (Seq<Seq<char>>, Seq<char>)
    decreases c.len(),
{
    if c.len() == 0 {
        (Seq::empty(), Seq::empty())
    } else {
        let (d, cur) = split_acc(c.drop_last());
        if c.last() == '\n' {
            (d.push(cur), Seq::empty())
        } else {
            (d, cur.push(c.last()))
        }
    }
}

/// The lines of a text: split at `'\n'`, with no empty line after a final one.
pub open spec fn lines(c: Seq<char>) -> Seq<Seq<char>> {
    let (d, cur) = split_acc(c);
    if cur.len() > 0 {
        d.push(cur)
    } else {
        d
    }
}

/// Some line of `c`, trimmed, is `p`.
pub open spec fn has_line(c: Seq<char>, p: Seq<char>) -> bool {
    exists|k: int| 0 <= k < lines(c).len() && trim(#[trigger] lines(c)[k]) == p
}

/// The characters of a string slice.
pub fn to_chars(s: &str) -> (r: Vec<char>)
    ensures
        r@ == s@,
{
    let n = s.unicode_len();
    let mut r: Vec<char> = Vec::new();
    let mut i: usize = 0;
    while i < n
        invariant
            n == s@.len(),
            i <= n,
            r@ == s@.subrange(0, i as int),
        decreases n - i,
    {
        r.push(s.get_char(i));
        i = i + 1;
        assert(r@ =~= s@.subrange(0, i as int));
    }
    assert(s@.subrange(0, n as int) =~= s@);
    r
}

/// The bounds of `c[lo..hi]` without its surrounding whitespace.
fn trim_bounds(c: &Vec<char>, lo: usize, hi: usize) -> (r: (usize, usize))
    requires
        lo <= hi <= c@.len(),
    ensures
        lo <= r.0 <= r.1 <= hi,
        trim(c@.subrange(lo as int, hi as int)) == c@.subrange(r.0 as int, r.1 as int),
{
    let ghost s = c@.subrange(lo as int, hi as int);
    let mut i = lo;
    while i < hi && is_ws_exec(c[i])
        invariant
            lo <= i <= hi <= c@.len(),
            trim_start(s) == trim_start(c@.subrange(i as int, hi as int)),
        decreases hi - i,
    {
        assert(c@.subrange(i as int, hi as int).drop_first() =~= c@.subrange(i as int + 1, hi as int));
        i = i + 1;
    }
    assert(trim_start(c@.subrange(i as int, hi as int)) == c@.subrange(i as int, hi as int));
    let mut j = hi;
    while j > i && is_ws_exec(c[j - 1])
        invariant
            lo <= i <= j <= hi <= c@.len(),
            trim(s) == trim_end(c@.subrange(i as int, j as int)),
        decreases j - i,
    {
        assert(c@.subrange(i as int, j as int).drop_last() =~= c@.subrange(i as int, j as int - 1));
        j = j - 1;
    }
    (i, j)
}

/// `s` without leading and trailing whitespace.
pub fn trim_str(s: &str) -> (r: String)
    ensures
        r@ == trim(s@),
{
    let c = to_chars(s);
    let (i, j) = trim_bounds(&c, 0, c.len());
    assert(c@.subrange(0, c@.len() as int) =~= s@);
    String::from_str(s.substring_char(i, j))
}

/// Whether `c[lo..hi]`, trimmed, is `p`.
fn trims_to(c: &Vec<char>, lo: usize, hi: usize, p: &Vec<char>) -> (r: bool)
    requires
        lo <= hi <= c@.len(),
    ensures
        r == (trim(c@.subrange(lo as int, hi as int)) == p@),
{
    let ghost s = c@.subrange(lo as int, hi as int);
    let (i, j) = trim_bounds(c, lo, hi);
    let ghost t = c@.subrange(i as int, j as int);
    assert(trim(s) == t);
    assert(t.len() == j - i);
    if j - i != p.len() {
        assert(t.len() != p@.len());
        assert(trim(s) != p@);
        return false;
    }
    let mut k: usize = 0;
    while k < p.len()
        invariant
            i <= j <= c@.len(),
            t == c@.subrange(i as int, j as int),
            lo <= hi <= c@.len(),
            trim(c@.subrange(lo as int, hi as int)) == t,
            j - i == p@.len(),
            k <= p@.len(),
            forall|x: int| 0 <= x < k ==> t[x] == p@[x],
        decreases p@.len() - k,
    {
        if c[i + k] != p[k] {
            assert(t[k as int] != p@[k as int]);
            assert(t != p@);
            return false;
        }
        k = k + 1;
    }
    assert(t =~= p@);
    true
}

/// Whether some line of `c`, trimmed, is `p`.
pub fn contains_line(c: &Vec<char>, p: &Vec<char>) -> (r: bool)
    ensures
        r == has_line(c@, p@),
{
    let n = c.len();
    let mut st: usize = 0;
    let mut i: usize = 0;
    let mut found = false;
    assert(c@.subrange(0, 0) =~= Seq::<char>::empty());
    while i < n
        invariant
            n == c@.len(),
            st <= i <= n,
            split_acc(c@.subrange(0, i as int)).1 == c@.subrange(st as int, i as int),
            found == exists|k: int|
                0 <= k < split_acc(c@.subrange(0, i as int)).0.len() && trim(
                    #[trigger] split_acc(c@.subrange(0, i as int)).0[k],
                ) == p@,
        decreases n - i,
    {
        let ghost pre = c@.subrange(0, i as int);
        let ghost nxt = c@.subrange(0, i as int + 1);
        assert(nxt.drop_last() =~= pre);
        let ghost d = split_acc(pre).0;
        if c[i] == '\n' {
            let hit = trims_to(c, st, i, p);
            proof {
                let d2 = split_acc(nxt).0;
                assert(d2 == d.push(c@.subrange(st as int, i as int)));
                if found {
                    let k = choose|k: int| 0 <= k < d.len() && trim(#[trigger] d[k]) == p@;
                    assert(d2[k] == d[k]);
                }
                if hit {
                    assert(d2[d.len() as int] == c@.subrange(st as int, i as int));
                }
                if exists|k: int| 0 <= k < d2.len() && trim(#[trigger] d2[k]) == p@ {
                    let k = choose|k: int| 0 <= k < d2.len() && trim(#[trigger] d2[k]) == p@;
                    if k < d.len() {
                        assert(d[k] == d2[k]);
                    }
                }
            }
            found = found || hit;
            st = i + 1;
            i = i + 1;
            assert(split_acc(c@.subrange(0, i as int)).1 =~= c@.subrange(st as int, i as int));
        } else {
            assert(split_acc(nxt).0 == d);
            i = i + 1;
            assert(split_acc(c@.subrange(0, i as int)).1 =~= c@.subrange(st as int, i as int));
        }
    }
    assert(c@.subrange(0, n as int) =~= c@);
    let ghost d = split_acc(c@).0;
    if st < n {
        let hit = trims_to(c, st, n, p);
        proof {
            let ls = lines(c@);
            assert(ls == d.push(c@.subrange(st as int, n as int)));
            if found {
                let k = choose|k: int| 0 <= k < d.len() && trim(#[trigger] d[k]) == p@;
                assert(ls[k] == d[k]);
            }
            if hit {
                assert(ls[d.len() as int] == c@.subrange(st as int, n as int));
            }
            if has_line(c@, p@) {
                let k = choose|k: int| 0 <= k < ls.len() && trim(#[trigger] ls[k]) == p@;
                if k < d.len() {
                    assert(d[k] == ls[k]);
                }
            }
        }
        found || hit
    } else {
        assert(lines(c@) == d);
        found
    }
}

/// The patterns, in order, that no line of `e` already gives, lines and
/// patterns alike compared without surrounding whitespace.
pub open spec fn missing_patterns(e: Seq<char>, pats: Seq<Seq<char>>) -> Seq<Seq<char>>
    decreases pats.len(),
{
    if pats.len() == 0 {
        Seq::empty()
    } else {
        let p = missing_patterns(e, pats.drop_last());
        if has_line(e, trim(pats.last())) {
            p
        } else {
            p.push(pats.last())
        }
    }
}

/// Each of `ms` followed by a newline.
pub open spec fn joined_lines(ms: Seq<Seq<char>>) -> Seq<char>
    decreases ms.len(),
{
    if ms.len() == 0 {
        Seq::empty()
    } else {
        joined_lines(ms.drop_last()) + ms.last() + seq!['\n']
    }
}

/// `e`, ending in a newline unless it is empty.
pub open spec fn with_final_newline(e: Seq<char>) -> Seq<char> {
    if e.len() > 0 && e.last() != '\n' {
        e.push('\n')
    } else {
        e
    }
}

/// The new `.gitignore` text that adds the missing patterns as lines, or
/// nothing when none is missing.
pub open spec fn gitignore_update(e: Seq<char>, pats: Seq<Seq<char>>) -> Option<Seq<char>> {
    let miss = missing_patterns(e, pats);
    if miss.len() == 0 {
        None
    } else {
        Some(with_final_newline(e) + joined_lines(miss))
    }
}

/// The `.gitignore` text `existing` with each pattern that is not yet a
/// line appended as a line (lines and patterns compared without their
/// surrounding whitespace); `None` when nothing is missing.
pub fn gitignore_additions(existing: &str, patterns: &Vec<String>) -> (r: Option<String>)
    ensures
        match r {
            Some(t) => gitignore_update(existing@, crate::text::str_views(patterns@)) == Some(t@),
            None => gitignore_update(existing@, crate::text::str_views(patterns@)) is None,
        },
{
    let ghost pats = crate::text::str_views(patterns@);
    let chars = to_chars(existing);
    let mut missing: Vec<&String> = Vec::new();
    let n = patterns.len();
    let mut i: usize = 0;
    while i < n
        invariant
            n == patterns@.len(),
            pats == crate::text::str_views(patterns@),
            chars@ == existing@,
            i <= n,
            missing@.map_values(|s: &String| s@) == missing_patterns(existing@, pats.subrange(0, i as int)),
        decreases n - i,
    {
        assert(pats.subrange(0, i as int + 1).drop_last() =~= pats.subrange(0, i as int));
        let trimmed = trim_str(patterns[i].as_str());
        let pc = to_chars(trimmed.as_str());
        if !contains_line(&chars, &pc) {
            missing.push(&patterns[i]);
        }
        assert(missing@.map_values(|s: &String| s@) =~= missing_patterns(existing@, pats.subrange(0, i as int + 1)));
        i = i + 1;
    }
    assert(pats.subrange(0, n as int) =~= pats);
    if missing.len() == 0 {
        return None;
    }
    let mut out = String::from_str(existing);
    proof {
        reveal_strlit("\n");
    }
    let len = chars.len();
    if len > 0 && chars[len - 1] != '\n' {
        out.append("\n");
    }
    let ghost miss = missing@.map_values(|s: &String| s@);
    let mut k: usize = 0;
    assert(miss.subrange(0, 0) =~= Seq::<Seq<char>>::empty());
    assert(out@ =~= with_final_newline(existing@) + joined_lines(miss.subrange(0, 0)));
    while k < missing.len()
        invariant
            miss == missing@.map_values(|s: &String| s@),
            k <= missing@.len(),
            out@ == with_final_newline(existing@) + joined_lines(miss.subrange(0, k as int)),
        decreases missing@.len() - k,
    {
        assert(miss.subrange(0, k as int + 1).drop_last() =~= miss.subrange(0, k as int));
        let ghost before = out@;
        assert(miss.subrange(0, k as int + 1).last() == missing@[k as int]@);
        out.append(missing[k].as_str());
        out.append("\n");
        proof {
            reveal_strlit("\n");
        }
        assert(out@ =~= before + missing@[k as int]@ + seq!['\n']);
        assert(out@ =~= with_final_newline(existing@) + joined_lines(miss.subrange(0, k as int + 1)));
        k = k + 1;
    }
    assert(miss.subrange(0, missing@.len() as int) =~= miss);
    Some(out)
}

proof fn lemma_split_final_newline(e: Seq<char>)
    ensures
        split_acc(with_final_newline(e)) == (lines(e), Seq::<char>::empty()),
{
    if e.len() > 0 && e.last() != '\n' {
        assert(e.push('\n').drop_last() =~= e);
        assert(e.drop_last().push(e.last()) =~= e);
    } else if e.len() > 0 {
        assert(split_acc(e).1.len() == 0);
    }
}

proof fn lemma_split_partial_line(a: Seq<char>, m: Seq<char>, k: int)
    requires
        split_acc(a).1.len() == 0,
        0 <= k <= m.len(),
        forall|i: int| 0 <= i < m.len() ==> m[i] != '\n',
    ensures
        split_acc(a + m.subrange(0, k)) == (split_acc(a).0, m.subrange(0, k)),
    decreases k,
{
    if k == 0 {
        assert(a + m.subrange(0, 0) =~= a);
        assert(m.subrange(0, 0) =~= split_acc(a).1);
    } else {
        lemma_split_partial_line(a, m, k - 1);
        assert((a + m.subrange(0, k)).drop_last() =~= a + m.subrange(0, k - 1));
        assert(m.subrange(0, k - 1).push(m[k - 1]) =~= m.subrange(0, k));
    }
}

proof fn lemma_split_line(a: Seq<char>, m: Seq<char>)
    requires
        split_acc(a).1.len() == 0,
        forall|i: int| 0 <= i < m.len() ==> m[i] != '\n',
    ensures
        split_acc(a + m + seq!['\n']) == (split_acc(a).0.push(m), Seq::<char>::empty()),
{
    lemma_split_partial_line(a, m, m.len() as int);
    assert(m.subrange(0, m.len() as int) =~= m);
    assert((a + m + seq!['\n']).drop_last() =~= a + m);
}

proof fn lemma_split_joined(base: Seq<char>, ms: Seq<Seq<char>>)
    requires
        split_acc(base).1.len() == 0,
        forall|j: int, i: int| 0 <= j < ms.len() && 0 <= i < ms[j].len() ==> ms[j][i] != '\n',
    ensures
        split_acc(base + joined_lines(ms)) == (split_acc(base).0 + ms, Seq::<char>::empty()),
    decreases ms.len(),
{
    if ms.len() == 0 {
        assert(base + joined_lines(ms) =~= base);
        assert(split_acc(base).0 + ms =~= split_acc(base).0);
    } else {
        lemma_split_joined(base, ms.drop_last());
        let m = ms.last();
        assert(forall|i: int| 0 <= i < m.len() ==> m[i] == ms[ms.len() - 1][i]);
        lemma_split_line(base + joined_lines(ms.drop_last()), m);
        assert(base + joined_lines(ms) =~= base + joined_lines(ms.drop_last()) + m + seq!['\n']);
        assert(split_acc(base).0 + ms.drop_last() + seq![m] =~= split_acc(base).0 + ms);
        assert((split_acc(base).0 + ms.drop_last()).push(m) =~= split_acc(base).0 + ms);
    }
}

proof fn lemma_missing_of_pats(e: Seq<char>, pats: Seq<Seq<char>>)
    ensures
        forall|j: int| 0 <= j < missing_patterns(e, pats).len() ==> pats.contains(#[trigger] missing_patterns(e, pats)[j]),
        forall|i: int| 0 <= i < pats.len() && !has_line(e, trim(#[trigger] pats[i])) ==> missing_patterns(e, pats).contains(pats[i]),
    decreases pats.len(),
{
    if pats.len() > 0 {
        lemma_missing_of_pats(e, pats.drop_last());
        let p = missing_patterns(e, pats.drop_last());
        assert forall|j: int| 0 <= j < missing_patterns(e, pats).len() implies pats.contains(#[trigger] missing_patterns(e, pats)[j]) by {
            if j < p.len() {
                assert(missing_patterns(e, pats)[j] == p[j]);
                let x = choose|x: int| 0 <= x < pats.drop_last().len() && pats.drop_last()[x] == p[j];
                assert(pats[x] == p[j]);
            } else {
                assert(pats[pats.len() - 1] == pats.last());
            }
        }
        assert forall|i: int| 0 <= i < pats.len() && !has_line(e, trim(#[trigger] pats[i])) implies missing_patterns(e, pats).contains(pats[i]) by {
            if i < pats.len() - 1 {
                assert(pats.drop_last()[i] == pats[i]);
                let x = choose|x: int| 0 <= x < p.len() && p[x] == pats[i];
                assert(missing_patterns(e, pats)[x] == pats[i]);
            } else {
                let mp = missing_patterns(e, pats);
                assert(mp[mp.len() - 1] == pats[i]);
            }
        }
    }
}

proof fn lemma_none_missing(e: Seq<char>, pats: Seq<Seq<char>>)
    requires
        forall|i: int| 0 <= i < pats.len() ==> has_line(e, trim(#[trigger] pats[i])),
    ensures
        missing_patterns(e, pats).len() == 0,
    decreases pats.len(),
{
    if pats.len() > 0 {
        assert forall|i: int| 0 <= i < pats.drop_last().len() implies has_line(e, trim(#[trigger] pats.drop_last()[i])) by {
            assert(pats.drop_last()[i] == pats[i]);
        }
        lemma_none_missing(e, pats.drop_last());
        assert(has_line(e, trim(pats[pats.len() - 1])));
    }
}

/// Applying a `.gitignore` update a second time changes nothing, for
/// patterns that are single lines.
pub proof fn law_gitignore_idempotent(e: Seq<char>, pats: Seq<Seq<char>>)
    requires
        forall|j: int, i: int| 0 <= j < pats.len() && 0 <= i < pats[j].len() ==> pats[j][i] != '\n',
    ensures
        ({
            let c1 = match gitignore_update(e, pats) {
                Some(t) => t,
                None => e,
            };
            gitignore_update(c1, pats) is None
        }),
{
    match gitignore_update(e, pats) {
        None => {},
        Some(c1) => {
            let miss = missing_patterns(e, pats);
            let base = with_final_newline(e);
            lemma_missing_of_pats(e, pats);
            assert forall|j: int, i: int| 0 <= j < miss.len() && 0 <= i < miss[j].len() implies miss[j][i] != '\n' by {
                let x = choose|x: int| 0 <= x < pats.len() && pats[x] == miss[j];
                assert(pats[x][i] == miss[j][i]);
            }
            lemma_split_final_newline(e);
            lemma_split_joined(base, miss);
            let le = lines(e);
            assert(lines(c1) == le + miss);
            assert forall|i: int| 0 <= i < pats.len() implies has_line(c1, trim(#[trigger] pats[i])) by {
                if has_line(e, trim(pats[i])) {
                    let k = choose|k: int| 0 <= k < le.len() && trim(#[trigger] le[k]) == trim(pats[i]);
                    assert(lines(c1)[k] == le[k]);
                } else {
                    let x = choose|x: int| 0 <= x < miss.len() && miss[x] == pats[i];
                    assert(lines(c1)[le.len() + x] == pats[i]);
                }
            }
            lemma_none_missing(c1, pats);
        },
    }
}

/// The line that marks an instruction section as present.
pub open spec fn marker() -> Seq<char> {
    "<!-- refstore -->"@
}

/// `m` occurs in `s`.
pub open spec fn contains_text(s: Seq<char>, m: Seq<char>) -> bool {
    exists|i: int| 0 <= i && i + m.len() <= s.len() && #[trigger] s.subrange(i, i + m.len()) == m
}

/// A blank line between existing text and an appended section.
pub open spec fn section_separator(c: Seq<char>) -> Seq<char> {
    if c.len() > 0 && c.last() == '\n' {
        seq!['\n']
    } else {
        seq!['\n', '\n']
    }
}

/// An agent file with the marked section appended, or nothing when the
/// marker is there already; a missing file gets the section alone.
pub open spec fn with_section(content: Option<Seq<char>>, body: Seq<char>) -> Option<Seq<char>> {
    match content {
        None => Some(marker() + body + seq!['\n']),
        Some(c) => if contains_text(c, marker()) {
            None
        } else {
            Some(c + section_separator(c) + marker() + body + seq!['\n'])
        },
    }
}

/// The instructions that follow the marker in an agent file.
pub open spec fn section_body_text() -> Seq<char> {
    "\n## refstore\n\nThis project uses refstore to manage reference documentation. Synced references live in `.references/` \u{2014} **read them directly with your filesystem tools** (Read, Grep, Glob). Each subdirectory maps to an entry in `refstore.toml`.\n\nDo NOT use MCP tools to read reference content. MCP tools are for discovery and management only.\n\nCommands: `refstore status`, `refstore sync`, `refstore list`, `refstore search <query>`, `refstore add <name>`, `refstore add --bundle <name>`, `refstore remove <name> --purge`\n\nMCP tools: `list_references`, `get_reference`, `add_to_project`, `list_bundles`, `get_bundle`, `get_tutorial`\n"@
}

pub fn section_body() -> (r: &'static str)
    ensures
        r@ == section_body_text(),
{
    "\n## refstore\n\nThis project uses refstore to manage reference documentation. Synced references live in `.references/` \u{2014} **read them directly with your filesystem tools** (Read, Grep, Glob). Each subdirectory maps to an entry in `refstore.toml`.\n\nDo NOT use MCP tools to read reference content. MCP tools are for discovery and management only.\n\nCommands: `refstore status`, `refstore sync`, `refstore list`, `refstore search <query>`, `refstore add <name>`, `refstore add --bundle <name>`, `refstore remove <name> --purge`\n\nMCP tools: `list_references`, `get_reference`, `add_to_project`, `list_bundles`, `get_bundle`, `get_tutorial`\n"
}

/// Whether `m` occurs in `s`.
pub fn find_text(s: &Vec<char>, m: &Vec<char>) -> (r: bool)
    ensures
        r == contains_text(s@, m@),
{
    if m.len() > s.len() {
        return false;
    }
    let last = s.len() - m.len();
    let mut i: usize = 0;
    while i <= last
        invariant
            last == s@.len() - m@.len(),
            m@.len() <= s@.len(),
            i <= last + 1,
            forall|x: int| 0 <= x < i ==> #[trigger] s@.subrange(x, x + m@.len()) != m@,
        decreases last + 1 - i,
    {
        let mut k: usize = 0;
        let mut same = true;
        while k < m.len()
            invariant
                i <= last,
                last == s@.len() - m@.len(),
                m@.len() <= s@.len(),
                k <= m@.len(),
                same == forall|y: int| 0 <= y < k ==> s@[i + y] == m@[y],
            decreases m@.len() - k,
        {
            let sl = s.len();
            assert(i + k < sl);
            if s[i + k] != m[k] {
                same = false;
            }
            k = k + 1;
        }
        if same {
            assert(s@.subrange(i as int, i + m@.len()) =~= m@);
            return true;
        }
        proof {
            let y = choose|y: int| 0 <= y < m@.len() && s@[i + y] != m@[y];
            assert(s@.subrange(i as int, i + m@.len())[y] != m@[y]);
        }
        if i == last {
            return false;
        }
        i = i + 1;
    }
    false
}

/// The new text of an agent file (`content`, or `None` when it does not
/// exist) with the marked instruction section appended; `None` when the
/// marker is there already.
pub fn append_section(content: Option<&str>) -> (r: Option<String>)
    ensures
        match r {
            Some(t) => with_section(crate::text::opt_str(content), section_body_text()) == Some(t@),
            None => with_section(crate::text::opt_str(content), section_body_text()) is None,
        },
{
    proof {
        reveal_strlit("\n");
        reveal_strlit("\n\n");
    }
    match content {
        None => {
            let mut out = String::from_str("<!-- refstore -->");
            out.append(section_body());
            out.append("\n");
            Some(out)
        },
        Some(c) => {
            let cs = to_chars(c);
            let ms = to_chars("<!-- refstore -->");
            if find_text(&cs, &ms) {
                return None;
            }
            let mut out = String::from_str(c);
            let n = cs.len();
            if n > 0 && cs[n - 1] == '\n' {
                out.append("\n");
            } else {
                out.append("\n\n");
            }
            out.append("<!-- refstore -->");
            out.append(section_body());
            out.append("\n");
            Some(out)
        },
    }
}

/// Appending the section a second time changes nothing: the marker occurs
/// in what the first append produced.
pub proof fn law_section_once(content: Option<Seq<char>>, body: Seq<char>)
    ensures
        with_section(content, body) matches Some(t) ==> with_section(Some(t), body) is None,
{
    if let Some(t) = with_section(content, body) {
        let pre = match content {
            None => Seq::<char>::empty(),
            Some(c) => c + section_separator(c),
        };
        assert(t =~= pre + marker() + body + seq!['\n']);
        assert(t.subrange(pre.len() as int, (pre.len() + marker().len()) as int) =~= marker());
    }
}

/// The positions among the first `n` agent files that exist and lack the section.
pub open spec fn pending_files(exists: Seq<bool>, marked: Seq<bool>, n: int) -> Seq<usize>
    decreases n,
{
    if n <= 0 {
        Seq::empty()
    } else {
        let p = pending_files(exists, marked, n - 1);
        if exists[n - 1] && !marked[n - 1] {
            p.push((n - 1) as usize)
        } else {
            p
        }
    }
}

/// The positions among the first `n` agent files that hold the section.
pub open spec fn marked_files(marked: Seq<bool>, n: int) -> Seq<usize>
    decreases n,
{
    if n <= 0 {
        Seq::empty()
    } else {
        let p = marked_files(marked, n - 1);
        if marked[n - 1] {
            p.push((n - 1) as usize)
        } else {
            p
        }
    }
}

/// What to do about the instruction section across the agent files.
#[derive(Debug)]
pub enum InstallPlan {
    /// Append the section to these files (by position), which exist without it.
    Append { files: Vec<usize> },
    /// No file lacks the section, and these hold it already.
    Present { files: Vec<usize> },
    /// No agent file exists: create the first one with the section.
    CreateDefault,
}

/// Which agent files get the instruction section, given for each whether it
/// exists and whether it holds the marker: those that exist without it;
/// when there are none, the ones that hold it are reported; when no file
/// holds it either, the first file is created.
pub fn install_plan(exists: &Vec<bool>, marked: &Vec<bool>) -> (r: InstallPlan)
    requires
        exists@.len() == marked@.len(),
    ensures
        match r {
            InstallPlan::Append { files } => files@ == pending_files(exists@, marked@, exists@.len() as int)
                && files@.len() > 0,
            InstallPlan::Present { files } => pending_files(exists@, marked@, exists@.len() as int).len() == 0
                && files@ == marked_files(marked@, marked@.len() as int) && files@.len() > 0,
            InstallPlan::CreateDefault => pending_files(exists@, marked@, exists@.len() as int).len() == 0
                && marked_files(marked@, marked@.len() as int).len() == 0,
        },
{
    let n = exists.len();
    let mut pending: Vec<usize> = Vec::new();
    let mut held: Vec<usize> = Vec::new();
    let mut i: usize = 0;
    while i < n
        invariant
            n == exists@.len(),
            n == marked@.len(),
            i <= n,
            pending@ == pending_files(exists@, marked@, i as int),
            held@ == marked_files(marked@, i as int),
        decreases n - i,
    {
        if exists[i] && !marked[i] {
            pending.push(i);
        }
        if marked[i] {
            held.push(i);
        }
        i = i + 1;
    }
    if pending.len() > 0 {
        InstallPlan::Append { files: pending }
    } else if held.len() > 0 {
        InstallPlan::Present { files: held }
    } else {
        InstallPlan::CreateDefault
    }
}

} // verus!
