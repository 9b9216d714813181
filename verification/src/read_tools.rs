//! The read-only workspace tools: which paths they may touch, how a line
//! range cuts a file, and how a directory listing is built and ordered.
use vstd::prelude::*;
use vstd::string::*;
use crate::paths::{join, join_path, path_starts_with, path_starts_with_exec};
use crate::text::{decimal, decimal_string, push_char};

verus! {

#[derive(Debug, Clone, PartialEq, Eq)]
pub struct ReadTools {
    workspace: String,
}

#[derive(Debug, Clone, Copy, PartialEq, Eq, Default)]
pub struct ReadFileRange {
    pub start_line: Option<usize>,
    pub end_line: Option<usize>,
}

#[derive(Debug, Clone, PartialEq, Eq)]
pub struct ReadFileOutput {
    pub path: String,
    pub content: String,
    pub start_line: Option<usize>,
    pub end_line: Option<usize>,
}

#[derive(Debug, Clone, PartialEq, Eq)]
pub struct DirectoryListing {
    pub path: String,
    pub entries: Vec<DirectoryEntry>,
}

#[derive(Debug, Clone, PartialEq, Eq)]
pub struct DirectoryEntry {
    pub name: String,
    pub path: String,
    pub kind: DirectoryEntryKind,
}

#[derive(Debug, Clone, Copy, PartialEq, Eq, Structural)]
pub enum DirectoryEntryKind {
    File,
    Directory,
    Symlink,
    Other,
}

/// What the file system reports of one directory entry.
#[derive(Debug, Clone, PartialEq, Eq)]
pub struct RawDirectoryEntry {
    pub name: String,
    pub is_symlink: bool,
    pub is_dir: bool,
    pub is_file: bool,
}

#[derive(Debug, Clone, PartialEq, Eq)]
pub enum ReadToolError {
    ResolveWorkspace { path: String, message: String },
    ResolvePath { path: String, message: String },
    EscapesWorkspace { path: String, workspace: String },
    NotFile { path: String },
    NotDirectory { path: String },
    ReadFile { path: String, message: String },
    ReadDirectory { path: String, message: String },
    ReadDirectoryEntry { path: String, message: String },
    InvalidLineRange,
    LineRangeOutOfBounds { start_line: usize, end_line: usize, line_count: usize },
}

// ----- lines -----

/// A line without the `\r` of a `\r\n` ending.
pub open spec fn strip_cr(line: Seq<char>) -> Seq<char> {
    if line.len() > 0 && line.last() == '\r' {
        line.drop_last()
    } else {
        line
    }
}

/// The finished lines of `s` and the unfinished last one.
pub open spec fn line_state(s: Seq<char>) -> (Seq<Seq<char>>, Seq<char>)
    decreases s.len(),
{
    if s.len() == 0 {
        (Seq::empty(), Seq::empty())
    } else {
        let (done, cur) = line_state(s.drop_last());
        if s.last() == '\n' {
            (done.push(strip_cr(cur)), Seq::empty())
        } else {
            (done, cur.push(s.last()))
        }
    }
}

/// The lines of a text, as `str::lines` gives them: split at `\n`, a `\r`
/// before the `\n` dropped, and no empty line after a final `\n`.
pub open spec fn text_lines(s: Seq<char>) -> Seq<Seq<char>> {
    let (done, cur) = line_state(s);
    if cur.len() == 0 {
        done
    } else {
        done.push(cur)
    }
}

/// Lines joined with `\n`.
pub open spec fn join_lines(ls: Seq<Seq<char>>) -> Seq<char>
    decreases ls.len(),
{
    if ls.len() == 0 {
        Seq::empty()
    } else if ls.len() == 1 {
        ls[0]
    } else {
        join_lines(ls.drop_last()) + seq!['\n'] + ls.last()
    }
}

/// What a line range makes of a file's content: the whole content when no
/// bound is given; otherwise the 1-based inclusive range of its lines (the
/// start defaulting to the first line and the end to the last), which must
/// be well-ordered and within the file.
pub open spec fn line_range_result(content: Seq<char>, start: Option<usize>, end: Option<usize>) -> LineRangeOutcome {
    if start is None && end is None {
        LineRangeOutcome::Text(content)
    } else if start == Some(0usize) || end == Some(0usize) {
        LineRangeOutcome::Invalid
    } else if start is Some && end is Some && start->Some_0 > end->Some_0 {
        LineRangeOutcome::Invalid
    } else {
        let lines = text_lines(content);
        let s: int = match start {
            Some(v) => v as int,
            None => 1,
        };
        let e: int = match end {
            Some(v) => v as int,
            None => lines.len() as int,
        };
        if s > lines.len() || e > lines.len() {
            LineRangeOutcome::OutOfBounds { start: s, end: e, count: lines.len() as int }
        } else {
            LineRangeOutcome::Text(join_lines(lines.subrange(s - 1, e)))
        }
    }
}

pub enum LineRangeOutcome {
    Text(Seq<char>),
    Invalid,
    OutOfBounds { start: int, end: int, count: int },
}

pub open spec fn line_range_matches(r: Result<String, ReadToolError>, o: LineRangeOutcome) -> bool {
    match o {
        LineRangeOutcome::Text(t) => r matches Ok(s) && s@ == t,
        LineRangeOutcome::Invalid => r matches Err(ReadToolError::InvalidLineRange),
        LineRangeOutcome::OutOfBounds { start, end, count } => r matches Err(
            ReadToolError::LineRangeOutOfBounds { start_line: a, end_line: b, line_count: c },
        ) && a == start && b == end && c == count,
    }
}

pub open spec fn texts(v: Seq<String>) -> Seq<Seq<char>> {
    v.map_values(|s: String| s@)
}

/// The lines of a text (see `text_lines`).
pub fn split_lines(content: &str) -> (lines: Vec<String>)
    ensures
        texts(lines@) == text_lines(content@),
{
    let n = content.unicode_len();
    let mut done: Vec<String> = Vec::new();
    let mut cur = String::new();
    let mut i: usize = 0;
    proof {
        assert(content@.take(0) =~= Seq::<char>::empty());
        assert(texts(done@) =~= Seq::<Seq<char>>::empty());
    }
    while i < n
        invariant
            n == content@.len(),
            i <= n,
            (texts(done@), cur@) == line_state(content@.take(i as int)),
        decreases n - i,
    {
        let c = content.get_char(i);
        proof {
            assert(content@.take(i + 1).drop_last() =~= content@.take(i as int));
            assert(content@.take(i + 1).last() == c);
        }
        if c == '\n' {
            let k = cur.as_str().unicode_len();
            let line: String = if k > 0 && cur.as_str().get_char(k - 1) == '\r' {
                let t = cur.as_str().substring_char(0, k - 1).to_owned();
                assert(t@ =~= cur@.drop_last());
                t
            } else {
                cur.clone()
            };
            let ghost before = texts(done@);
            done.push(line);
            proof {
                assert(texts(done@) =~= before.push(strip_cr(cur@)));
            }
            cur = String::new();
        } else {
            push_char(&mut cur, c);
        }
        i = i + 1;
    }
    proof {
        assert(content@.take(n as int) =~= content@);
    }
    if cur.as_str().unicode_len() > 0 {
        let ghost before = texts(done@);
        done.push(cur);
        proof {
            assert(texts(done@) =~= before.push(line_state(content@).1));
        }
    }
    done
}

/// Joins lines `[from, to)` of `lines` with `\n`.
fn join_range(lines: &Vec<String>, from: usize, to: usize) -> (r: String)
    requires
        from <= to <= lines@.len(),
    ensures
        r@ == join_lines(texts(lines@).subrange(from as int, to as int)),
{
    let mut out = String::new();
    let mut k: usize = from;
    proof {
        assert(texts(lines@).subrange(from as int, from as int) =~= Seq::<Seq<char>>::empty());
    }
    while k < to
        invariant
            from <= k <= to <= lines@.len(),
            out@ == join_lines(texts(lines@).subrange(from as int, k as int)),
        decreases to - k,
    {
        let ghost part = texts(lines@).subrange(from as int, k + 1);
        proof {
            assert(part.drop_last() =~= texts(lines@).subrange(from as int, k as int));
            assert(part.last() == lines@[k as int]@);
        }
        if k > from {
            push_char(&mut out, '\n');
        } else {
            assert(part =~= seq![lines@[k as int]@]);
        }
        out.append(lines[k].as_str());
        proof {
            assert(out@ =~= join_lines(part));
        }
        k = k + 1;
    }
    out
}

/// Cuts `content` to a line range (see `line_range_result`).
pub fn apply_line_range(content: &str, range: ReadFileRange) -> (r: Result<String, ReadToolError>)
    ensures
        line_range_matches(r, line_range_result(content@, range.start_line, range.end_line)),
{
    if range.start_line.is_none() && range.end_line.is_none() {
        return Ok(content.to_owned());
    }
    if range.start_line == Some(0usize) || range.end_line == Some(0usize) {
        return Err(ReadToolError::InvalidLineRange);
    }
    match (range.start_line, range.end_line) {
        (Some(s), Some(e)) => {
            if s > e {
                return Err(ReadToolError::InvalidLineRange);
            }
        },
        _ => {},
    }
    let lines = split_lines(content);
    let count = lines.len();
    let start = match range.start_line {
        Some(v) => v,
        None => 1,
    };
    let end = match range.end_line {
        Some(v) => v,
        None => count,
    };
    if start > count || end > count {
        return Err(
            ReadToolError::LineRangeOutOfBounds { start_line: start, end_line: end, line_count: count },
        );
    }
    Ok(join_range(&lines, start - 1, end))
}

// ----- paths -----

impl ReadTools {
    pub closed spec fn spec_workspace(&self) -> Seq<char> {
        self.workspace@
    }

    /// Tools rooted at a workspace, from the outcome of resolving it (its
    /// canonical path, or why that failed) and whether that path is a
    /// directory.
    pub fn new(workspace: &str, resolved: Result<String, String>, is_dir: bool) -> (r: Result<
        ReadTools,
        ReadToolError,
    >)
        ensures
            match resolved {
                Err(m) => r matches Err(ReadToolError::ResolveWorkspace { path, message })
                    && path@ == workspace@ && message@ == m@,
                Ok(w) => if is_dir {
                    r matches Ok(t) && t.spec_workspace() == w@
                } else {
                    r matches Err(ReadToolError::NotDirectory { path }) && path@ == w@
                },
            },
    {
        match resolved {
            Err(message) => Err(ReadToolError::ResolveWorkspace { path: workspace.to_owned(), message }),
            Ok(w) => {
                if is_dir {
                    Ok(ReadTools { workspace: w })
                } else {
                    Err(ReadToolError::NotDirectory { path: w })
                }
            },
        }
    }

    pub fn workspace(&self) -> (r: &str)
        ensures
            r@ == self.spec_workspace(),
    {
        self.workspace.as_str()
    }

    /// The path a tool request names: the workspace itself for an empty
    /// path, an absolute path as it is, and otherwise the path under the
    /// workspace.
    pub fn target_path(&self, path: &str) -> (r: String)
        ensures
            r@ == (if path@.len() == 0 {
                self.spec_workspace()
            } else {
                join(self.spec_workspace(), path@)
            }),
    {
        if path.unicode_len() == 0 {
            self.workspace.clone()
        } else {
            join_path(self.workspace.as_str(), path)
        }
    }

    /// Checks a target path once resolved (`resolved` is its canonical path,
    /// or why that failed): it must lie within the workspace.
    pub fn check_resolved(&self, target: &str, resolved: Result<String, String>) -> (r: Result<
        String,
        ReadToolError,
    >)
        ensures
            match resolved {
                Err(m) => r matches Err(ReadToolError::ResolvePath { path, message }) && path@
                    == target@ && message@ == m@,
                Ok(p) => if path_starts_with(p@, self.spec_workspace()) {
                    r matches Ok(q) && q@ == p@
                } else {
                    r matches Err(ReadToolError::EscapesWorkspace { path, workspace })
                        && path@ == p@ && workspace@ == self.spec_workspace()
                },
            },
    {
        match resolved {
            Err(message) => Err(ReadToolError::ResolvePath { path: target.to_owned(), message }),
            Ok(p) => {
                if path_starts_with_exec(p.as_str(), self.workspace.as_str()) {
                    Ok(p)
                } else {
                    Err(ReadToolError::EscapesWorkspace { path: p, workspace: self.workspace.clone() })
                }
            },
        }
    }
}

/// The outcome of reading a resolved file: it must be a file, its content
/// must be readable, and the range is then applied.
pub fn read_file_outcome(
    resolved: String,
    is_file: bool,
    content: Result<String, String>,
    range: ReadFileRange,
) -> (r: Result<ReadFileOutput, ReadToolError>)
    ensures
        !is_file ==> (r matches Err(ReadToolError::NotFile { path }) && path@ == resolved@),
        is_file ==> match content {
            Err(m) => r matches Err(ReadToolError::ReadFile { path, message }) && path@ == resolved@
                && message@ == m@,
            Ok(text) => match line_range_result(text@, range.start_line, range.end_line) {
                LineRangeOutcome::Text(t) => r matches Ok(out) && out.path@ == resolved@
                    && out.content@ == t && out.start_line == range.start_line && out.end_line
                    == range.end_line,
                LineRangeOutcome::Invalid => r matches Err(ReadToolError::InvalidLineRange),
                LineRangeOutcome::OutOfBounds { start, end, count } => r matches Err(
                    ReadToolError::LineRangeOutOfBounds { start_line: a, end_line: b, line_count: c },
                ) && a == start && b == end && c == count,
            },
        },
{
    if !is_file {
        return Err(ReadToolError::NotFile { path: resolved });
    }
    let text = match content {
        Err(message) => {
            return Err(ReadToolError::ReadFile { path: resolved, message });
        },
        Ok(t) => t,
    };
    match apply_line_range(text.as_str(), range) {
        Err(e) => Err(e),
        Ok(c) => Ok(
            ReadFileOutput {
                path: resolved,
                content: c,
                start_line: range.start_line,
                end_line: range.end_line,
            },
        ),
    }
}

// ----- directory listings -----

/// `a` sorts before `b`: the order of `String`, character by character
/// (which is the order of their UTF-8 bytes).
pub open spec fn text_before(a: Seq<char>, b: Seq<char>) -> bool
    decreases a.len(),
{
    if a.len() == 0 {
        b.len() > 0
    } else if b.len() == 0 {
        false
    } else if a[0] != b[0] {
        (a[0] as int) < (b[0] as int)
    } else {
        text_before(a.drop_first(), b.drop_first())
    }
}

pub proof fn lemma_text_before_irreflexive(a: Seq<char>)
    ensures
        !text_before(a, a),
    decreases a.len(),
{
    if a.len() > 0 {
        lemma_text_before_irreflexive(a.drop_first());
    }
}

pub proof fn lemma_text_before_transitive(a: Seq<char>, b: Seq<char>, c: Seq<char>)
    requires
        text_before(a, b),
        text_before(b, c),
    ensures
        text_before(a, c),
    decreases a.len(),
{
    if a.len() > 0 && b.len() > 0 && c.len() > 0 && a[0] == b[0] && b[0] == c[0] {
        lemma_text_before_transitive(a.drop_first(), b.drop_first(), c.drop_first());
    }
}

pub proof fn lemma_text_before_total(a: Seq<char>, b: Seq<char>)
    ensures
        a == b || text_before(a, b) || text_before(b, a),
    decreases a.len(),
{
    if a.len() > 0 && b.len() > 0 && a[0] == b[0] {
        lemma_text_before_total(a.drop_first(), b.drop_first());
        if a.drop_first() == b.drop_first() {
            assert(a =~= seq![a[0]] + a.drop_first());
            assert(b =~= seq![b[0]] + b.drop_first());
        }
    } else if a.len() == 0 && b.len() == 0 {
        assert(a =~= b);
    }
}

pub proof fn lemma_text_before_asymmetric(a: Seq<char>, b: Seq<char>)
    requires
        text_before(a, b),
    ensures
        !text_before(b, a),
{
    if text_before(b, a) {
        lemma_text_before_transitive(a, b, a);
        lemma_text_before_irreflexive(a);
    }
}

/// Whether `a` sorts before `b` (see `text_before`).
pub fn str_before(a: &str, b: &str) -> (r: bool)
    ensures
        r == text_before(a@, b@),
{
    let n = a.unicode_len();
    let m = b.unicode_len();
    let mut i: usize = 0;
    proof {
        assert(a@.skip(0) =~= a@);
        assert(b@.skip(0) =~= b@);
    }
    while i < n && i < m
        invariant
            n == a@.len(),
            m == b@.len(),
            i <= n,
            i <= m,
            text_before(a@, b@) == text_before(a@.skip(i as int), b@.skip(i as int)),
        decreases n - i,
    {
        let x = a.get_char(i);
        let y = b.get_char(i);
        proof {
            assert(a@.skip(i as int)[0] == x);
            assert(b@.skip(i as int)[0] == y);
            assert(a@.skip(i as int).drop_first() =~= a@.skip(i + 1));
            assert(b@.skip(i as int).drop_first() =~= b@.skip(i + 1));
        }
        if x != y {
            return (x as u32) < (y as u32);
        }
        i = i + 1;
    }
    i == n && i < m
}

/// Entries whose names are in order, equal names allowed.
pub open spec fn sorted_by_name(es: Seq<DirectoryEntry>) -> bool {
    forall|a: int, b: int| 0 <= a < b < es.len() ==> !text_before(#[trigger] es[b].name@, #[trigger] es[a].name@)
}

/// The kind of an entry: a symlink first, then a directory, then a file.
pub open spec fn entry_kind(raw: RawDirectoryEntry) -> DirectoryEntryKind {
    if raw.is_symlink {
        DirectoryEntryKind::Symlink
    } else if raw.is_dir {
        DirectoryEntryKind::Directory
    } else if raw.is_file {
        DirectoryEntryKind::File
    } else {
        DirectoryEntryKind::Other
    }
}

/// The entry the listing shows for a raw entry under `parent`.
pub open spec fn listed_entry(parent: Seq<char>, raw: RawDirectoryEntry, e: DirectoryEntry) -> bool {
    e.name@ == raw.name@ && e.path@ == join(parent, raw.name@) && e.kind == entry_kind(raw)
}

/// A directory entry as plain values.
pub open spec fn entry_view(e: DirectoryEntry) -> (Seq<char>, Seq<char>, DirectoryEntryKind) {
    (e.name@, e.path@, e.kind)
}

fn make_entry(parent: &str, raw: &RawDirectoryEntry) -> (e: DirectoryEntry)
    ensures
        listed_entry(parent@, *raw, e),
{
    let kind = if raw.is_symlink {
        DirectoryEntryKind::Symlink
    } else if raw.is_dir {
        DirectoryEntryKind::Directory
    } else if raw.is_file {
        DirectoryEntryKind::File
    } else {
        DirectoryEntryKind::Other
    };
    DirectoryEntry { path: join_path(parent, raw.name.as_str()), name: raw.name.clone(), kind }
}

/// Sorts entries by name, keeping entries of equal name in their order.
pub fn sort_by_name(entries: Vec<DirectoryEntry>) -> (r: Vec<DirectoryEntry>)
    ensures
        sorted_by_name(r@),
        r@.map_values(|e: DirectoryEntry| entry_view(e)).to_multiset() == entries@.map_values(
            |e: DirectoryEntry| entry_view(e),
        ).to_multiset(),
{
    broadcast use vstd::seq_lib::to_multiset_insert, vstd::seq_lib::to_multiset_build;

    let ghost input = entries@.map_values(|e: DirectoryEntry| entry_view(e));
    let mut out: Vec<DirectoryEntry> = Vec::new();
    let mut rest = entries;
    let ghost incoming = rest@;
    let n = rest.len();
    let mut i: usize = 0;
    proof {
        assert(out@.map_values(|e: DirectoryEntry| entry_view(e)) =~= Seq::empty());
        assert(input.take(0) =~= Seq::empty());
    }
    while rest.len() > 0
        invariant
            n == incoming.len(),
            input == incoming.map_values(|e: DirectoryEntry| entry_view(e)),
            i + rest@.len() == n,
            forall|k: int| 0 <= k < rest@.len() ==> #[trigger] rest@[k] == incoming[i + k],
            sorted_by_name(out@),
            out@.map_values(|e: DirectoryEntry| entry_view(e)).to_multiset() == input.take(
                i as int,
            ).to_multiset(),
        decreases rest@.len(),
    {
        let x = rest.remove(0);
        assert(x == incoming[i as int]);
        let m = out.len();
        let mut p: usize = 0;
        while p < m && !str_before(x.name.as_str(), out[p].name.as_str())
            invariant
                m == out@.len(),
                p <= m,
                forall|q: int| 0 <= q < p ==> !text_before(x.name@, #[trigger] out@[q].name@),
            decreases m - p,
        {
            p = p + 1;
        }
        let ghost before = out@;
        proof {
            assert forall|q: int| p <= q < m implies text_before(x.name@, #[trigger] before[q].name@) by {
                if p < m {
                    assert(text_before(x.name@, before[p as int].name@));
                    if q > p {
                        lemma_text_before_total(before[p as int].name@, before[q].name@);
                        if text_before(before[p as int].name@, before[q].name@) {
                            lemma_text_before_transitive(x.name@, before[p as int].name@, before[q].name@);
                        }
                    }
                }
            }
        }
        out.insert(p, x);
        proof {
            assert(out@ == before.insert(p as int, x));
            assert forall|a: int, b: int| 0 <= a < b < out@.len() implies !text_before(
                #[trigger] out@[b].name@,
                #[trigger] out@[a].name@,
            ) by {
                if a < p && b == p {
                    assert(!text_before(x.name@, before[a].name@));
                } else if a == p && b > p {
                    assert(text_before(x.name@, before[b - 1].name@));
                    lemma_text_before_asymmetric(x.name@, before[b - 1].name@);
                } else if a < p && b > p {
                    assert(!text_before(before[b - 1].name@, before[a].name@));
                } else if a > p {
                    assert(!text_before(before[b - 1].name@, before[a - 1].name@));
                } else {
                    assert(!text_before(before[b].name@, before[a].name@));
                }
            }
            assert(out@.map_values(|e: DirectoryEntry| entry_view(e)) =~= before.map_values(
                |e: DirectoryEntry| entry_view(e),
            ).insert(p as int, entry_view(x)));
            vstd::seq_lib::to_multiset_insert(
                before.map_values(|e: DirectoryEntry| entry_view(e)),
                p as int,
                entry_view(x),
            );
            assert(input[i as int] == entry_view(x));
            assert(input.take(i + 1) =~= input.take(i as int).push(entry_view(x)));
            vstd::seq_lib::to_multiset_build(input.take(i as int), entry_view(x));
        }
        i = i + 1;
    }
    proof {
        assert(input.take(n as int) =~= input);
    }
    out
}

/// The message of the first entry that could not be read, in reading order.
pub open spec fn first_entry_error(items: Seq<Result<RawDirectoryEntry, String>>) -> Option<String>
    decreases items.len(),
{
    if items.len() == 0 {
        None
    } else if items[0] is Err {
        Some(items[0]->Err_0)
    } else {
        first_entry_error(items.drop_first())
    }
}

/// The listed form of a raw entry under `parent`, as plain values.
pub open spec fn listed_view(parent: Seq<char>, item: Result<RawDirectoryEntry, String>) -> (
    Seq<char>,
    Seq<char>,
    DirectoryEntryKind,
) {
    let raw = item->Ok_0;
    (raw.name@, join(parent, raw.name@), entry_kind(raw))
}

/// The listing of a resolved path from whether it is a directory and what
/// reading it gave: an error when it is no directory, or for a failed read of
/// the directory or of an entry (the first one, in reading order); otherwise
/// every entry, with its path under the directory and its kind, in name
/// order.
#[verifier::loop_isolation(false)]
pub fn directory_listing(
    resolved: &str,
    is_dir: bool,
    read: Result<Vec<Result<RawDirectoryEntry, String>>, String>,
) -> (r: Result<DirectoryListing, ReadToolError>)
    ensures
        !is_dir ==> (r matches Err(ReadToolError::NotDirectory { path }) && path@ == resolved@),
        is_dir ==> match read {
            Err(m) => r matches Err(ReadToolError::ReadDirectory { path, message }) && path@
                == resolved@ && message@ == m@,
            Ok(items) => match first_entry_error(items@) {
                Some(m) => r matches Err(ReadToolError::ReadDirectoryEntry { path, message })
                    && path@ == resolved@ && message@ == m@,
                None => r matches Ok(listing) && listing.path@ == resolved@ && sorted_by_name(
                    listing.entries@,
                ) && listing.entries@.map_values(|e: DirectoryEntry| entry_view(e)).to_multiset()
                    == items@.map_values(
                    |it: Result<RawDirectoryEntry, String>| listed_view(resolved@, it),
                ).to_multiset(),
            },
        },
{
    if !is_dir {
        return Err(ReadToolError::NotDirectory { path: resolved.to_owned() });
    }
    let items = match read {
        Err(message) => {
            return Err(ReadToolError::ReadDirectory { path: resolved.to_owned(), message });
        },
        Ok(items) => items,
    };
    let n = items.len();
    let mut entries: Vec<DirectoryEntry> = Vec::new();
    let mut i: usize = 0;
    proof {
        assert(items@.skip(0) =~= items@);
    }
    while i < n
        invariant
            n == items@.len(),
            i <= n,
            first_entry_error(items@) == first_entry_error(items@.skip(i as int)),
            entries@.len() == i,
            forall|k: int| 0 <= k < i ==> items@[k] is Ok,
            forall|k: int|
                0 <= k < i ==> entry_view(#[trigger] entries@[k]) == listed_view(
                    resolved@,
                    items@[k],
                ),
        decreases n - i,
    {
        proof {
            assert(items@.skip(i as int)[0] == items@[i as int]);
            assert(items@.skip(i as int).drop_first() =~= items@.skip(i + 1));
        }
        match &items[i] {
            Err(message) => {
                return Err(
                    ReadToolError::ReadDirectoryEntry { path: resolved.to_owned(), message: message.clone() },
                );
            },
            Ok(raw) => {
                let e = make_entry(resolved, raw);
                entries.push(e);
            },
        }
        i = i + 1;
    }
    proof {
        assert(items@.skip(n as int) =~= Seq::<Result<RawDirectoryEntry, String>>::empty());
        assert(entries@.map_values(|e: DirectoryEntry| entry_view(e)) =~= items@.map_values(
            |it: Result<RawDirectoryEntry, String>| listed_view(resolved@, it),
        ));
    }
    let sorted = sort_by_name(entries);
    Ok(DirectoryListing { path: resolved.to_owned(), entries: sorted })
}

/// The message of a read-tool error, as it is shown to the user.
pub open spec fn read_tool_error_text(e: ReadToolError) -> Seq<char> {
    match e {
        ReadToolError::ResolveWorkspace { path, message } => "failed to resolve workspace "@ + path@
            + ": "@ + message@,
        ReadToolError::ResolvePath { path, message } => "failed to resolve path "@ + path@ + ": "@
            + message@,
        ReadToolError::EscapesWorkspace { path, workspace } => "path "@ + path@
            + " escapes workspace "@ + workspace@,
        ReadToolError::NotFile { path } => "path is not a file: "@ + path@,
        ReadToolError::NotDirectory { path } => "path is not a directory: "@ + path@,
        ReadToolError::ReadFile { path, message } => "failed to read file "@ + path@ + ": "@
            + message@,
        ReadToolError::ReadDirectory { path, message } => "failed to read directory "@ + path@
            + ": "@ + message@,
        ReadToolError::ReadDirectoryEntry { path, message } => "failed to inspect directory entry in "@
            + path@ + ": "@ + message@,
        ReadToolError::InvalidLineRange => "line ranges are 1-based and start_line must be less than or equal to end_line"@,
        ReadToolError::LineRangeOutOfBounds { start_line, end_line, line_count } => "line range "@
            + decimal(start_line as nat) + ".."@ + decimal(end_line as nat)
            + " exceeds file length "@ + decimal(line_count as nat),
    }
}

fn two_part(a: &str, b: &String, c: &str, d: &String) -> (t: String)
    ensures
        t@ == a@ + b@ + c@ + d@,
{
    let mut t = a.to_owned();
    t.append(b.as_str());
    t.append(c);
    t.append(d.as_str());
    t
}

impl ReadToolError {
    /// The error's message, as it is shown to the user.
    pub fn message(&self) -> (text: String)
        ensures
            text@ == read_tool_error_text(*self),
    {
        match self {
            ReadToolError::ResolveWorkspace { path, message } => two_part(
                "failed to resolve workspace ",
                path,
                ": ",
                message,
            ),
            ReadToolError::ResolvePath { path, message } => two_part(
                "failed to resolve path ",
                path,
                ": ",
                message,
            ),
            ReadToolError::EscapesWorkspace { path, workspace } => two_part(
                "path ",
                path,
                " escapes workspace ",
                workspace,
            ),
            ReadToolError::NotFile { path } => {
                let mut t = "path is not a file: ".to_owned();
                t.append(path.as_str());
                t
            },
            ReadToolError::NotDirectory { path } => {
                let mut t = "path is not a directory: ".to_owned();
                t.append(path.as_str());
                t
            },
            ReadToolError::ReadFile { path, message } => two_part(
                "failed to read file ",
                path,
                ": ",
                message,
            ),
            ReadToolError::ReadDirectory { path, message } => two_part(
                "failed to read directory ",
                path,
                ": ",
                message,
            ),
            ReadToolError::ReadDirectoryEntry { path, message } => two_part(
                "failed to inspect directory entry in ",
                path,
                ": ",
                message,
            ),
            ReadToolError::InvalidLineRange => "line ranges are 1-based and start_line must be less than or equal to end_line".to_owned(),
            ReadToolError::LineRangeOutOfBounds { start_line, end_line, line_count } => {
                let mut t = "line range ".to_owned();
                t.append(decimal_string(*start_line as u64).as_str());
                t.append("..");
                t.append(decimal_string(*end_line as u64).as_str());
                t.append(" exceeds file length ");
                t.append(decimal_string(*line_count as u64).as_str());
                t
            },
        }
    }
}

} // verus!
