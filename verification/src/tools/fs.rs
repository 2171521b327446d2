//! Reading and searching the files of a repository.

use vstd::prelude::*;
use vstd::string::*;

use super::descriptor::{
    all_mappings, lemma_declared, mappings_abs, observation_workflow, outcome_rows, recoverable,
    terminal, Effect, ExtensionAbs, ExtensionDescriptor, HookDeclaration, OperationKind, ToolAbs,
    ToolDeclaration, ToolWorkflowMapping,
};
use super::patch::{content_digest, file_digest};
use super::patch_plan::{PatchReceipt, ReceiptAbs};
use crate::json::{json_abs, json_abs_cases, Json, JsonAbs};
use crate::order::{ascend, insert_name};
use crate::text::{
    ascii_lowered, blank, chars_of, find, is_blank, lines, lines_of, lowered, position, precedes,
    precedes_irreflexive, same_text,
};
use crate::value::{contents, Abstract};
use vstd::utf8::*;

verus! {

pub const EXTENSION_ID: &'static str = "core.workspace";

pub const FS_READ_TOOL_ID: &'static str = "core.workspace:fs.read";

pub const FS_LIST_TOOL_ID: &'static str = "core.workspace:fs.list";

pub const FS_SEARCH_TOOL_ID: &'static str = "core.workspace:fs.search";

pub const FS_APPLY_PATCH_TOOL_ID: &'static str = "core.workspace:fs.apply_patch";

/// The lines that are read unless another number is asked for.
pub const DEFAULT_READ_LINES: usize = 200;

/// The most lines that are read at once.
pub const MAX_READ_LINES: usize = 500;

/// The matches that are told unless another number is asked for.
pub const DEFAULT_SEARCH_MATCHES: usize = 50;

/// The most matches that are told at once.
pub const MAX_SEARCH_MATCHES: usize = 200;

/// The largest file, in bytes, that is searched.
pub const MAX_SEARCH_FILE_BYTES: u64 = 1024 * 1024;

// ---------------------------------------------------------------------------
// Dispatch
// ---------------------------------------------------------------------------

/// The tools of the extension.
#[derive(Clone, Copy, Debug, Eq, PartialEq, Structural)]
pub enum FsTool {
    Read,
    List,
    Search,
    ApplyPatch,
}

/// The tool with that ID.
pub open spec fn fs_tool(name: Seq<char>) -> Option<FsTool> {
    if name == "core.workspace:fs.read"@ {
        Some(FsTool::Read)
    } else if name == "core.workspace:fs.list"@ {
        Some(FsTool::List)
    } else if name == "core.workspace:fs.search"@ {
        Some(FsTool::Search)
    } else if name == "core.workspace:fs.apply_patch"@ {
        Some(FsTool::ApplyPatch)
    } else {
        None
    }
}

/// The tool that a call is for.
pub fn dispatch(name: &str) -> (r: Result<FsTool, String>)
    ensures
        match r {
            Ok(tool) => fs_tool(name@) == Some(tool),
            Err(error) => fs_tool(name@) is None && error@ == "unknown core tool `"@ + name@
                + "`"@,
        },
{
    if same_text(name, "core.workspace:fs.read") {
        Ok(FsTool::Read)
    } else if same_text(name, "core.workspace:fs.list") {
        Ok(FsTool::List)
    } else if same_text(name, "core.workspace:fs.search") {
        Ok(FsTool::Search)
    } else if same_text(name, "core.workspace:fs.apply_patch") {
        Ok(FsTool::ApplyPatch)
    } else {
        Err("unknown core tool `".to_owned().concat(name).concat("`"))
    }
}

/// Whether an object has a member of that content.
pub open spec fn has_member(json: JsonAbs, key: Seq<char>, value: JsonAbs) -> bool {
    json matches JsonAbs::Object(members) && members.contains((key, value))
}

/// The path that a call names, where it is a text.
pub open spec fn named_path(arguments: JsonAbs) -> Option<Seq<char>> {
    if exists|path: Seq<char>| #[trigger] has_member(arguments, "path"@, JsonAbs::Text(path)) {
        Some(choose|path: Seq<char>| #[trigger] has_member(
            arguments,
            "path"@,
            JsonAbs::Text(path),
        ))
    } else {
        None
    }
}

/// The path that a reading call asks for; a search asks for the root where it
/// names none.
pub open spec fn requested_path(tool: Option<FsTool>, arguments: JsonAbs) -> Option<Seq<char>> {
    match tool {
        Some(FsTool::Read) => named_path(arguments),
        Some(FsTool::List) => named_path(arguments),
        Some(FsTool::Search) => match named_path(arguments) {
            Some(path) => Some(path),
            None => Some("."@),
        },
        _ => None,
    }
}

fn find_path(arguments: &Json) -> (r: Option<String>)
    ensures
        r.abs() == named_path(json_abs(*arguments)),
{
    broadcast use json_abs_cases;

    let ghost all = json_abs(*arguments);
    match arguments {
        Json::Object(map) => {
            let ghost members = map@;
            let _ = map.len();
            match map.get("path") {
                Some(value) => {
                    proof {
                        lemma_one_path(members, json_abs(*value));
                    }
                    match value {
                        Json::Text(path) => {
                            assert(has_member(all, "path"@, JsonAbs::Text(path@)));
                            Some(path.clone())
                        },
                        _ => None,
                    }
                },
                None => {
                    assert forall|path: Seq<char>| !#[trigger] has_member(
                        all,
                        "path"@,
                        JsonAbs::Text(path),
                    ) by {
                        if has_member(all, "path"@, JsonAbs::Text(path)) {
                            let i = choose|i: int|
                                0 <= i < members.len() && members[i] == ("path"@, JsonAbs::Text(
                                    path,
                                ));
                            assert(members[i].0 == "path"@);
                        }
                    }
                    None
                },
            }
        },
        _ => None,
    }
}

/// A key has one value.
pub(crate) proof fn lemma_one_path(members: Seq<(Seq<char>, JsonAbs)>, value: JsonAbs)
    requires
        crate::json::in_key_order(members),
        members.contains(("path"@, value)),
    ensures
        forall|other: JsonAbs| #[trigger] members.contains(("path"@, other)) ==> other == value,
{
    let i = choose|i: int| 0 <= i < members.len() && members[i] == ("path"@, value);
    assert forall|other: JsonAbs| #[trigger] members.contains(("path"@, other)) implies other
        == value by {
        let j = choose|j: int| 0 <= j < members.len() && members[j] == ("path"@, other);
        precedes_irreflexive("path"@);
        if i < j {
            assert(precedes(members[i].0, members[j].0));
        } else if j < i {
            assert(precedes(members[j].0, members[i].0));
        }
    }
}

/// The path that a reading call asks for.
pub fn requested_read_only_path(tool_id: &str, arguments: &Json) -> (r: Option<String>)
    ensures
        r.abs() == requested_path(fs_tool(tool_id@), json_abs(*arguments)),
{
    match dispatch(tool_id) {
        Ok(FsTool::Read) => find_path(arguments),
        Ok(FsTool::List) => find_path(arguments),
        Ok(FsTool::Search) => match find_path(arguments) {
            Some(path) => Some(path),
            None => Some(".".to_owned()),
        },
        _ => None,
    }
}

/// What is told of a path that was not found.
#[derive(Clone, Debug, Eq, PartialEq)]
pub struct MissingPath {
    pub code: &'static str,
    pub message: String,
    pub path: String,
}

/// An error of a reading tool as a missing path, where it is one: something
/// was not found, and the call names a path.
pub fn classify_read_only_error(tool_id: &str, arguments: &Json, is_not_found: bool) -> (r: Option<
    MissingPath,
>)
    ensures
        match requested_path(fs_tool(tool_id@), json_abs(*arguments)) {
            Some(path) => if is_not_found {
                r matches Some(told) && told.code == "not_found" && told.path@ == path
                    && told.message@ == "repository path was not found: "@ + path
            } else {
                r is None
            },
            None => r is None,
        },
{
    if !is_not_found {
        return None;
    }
    match requested_read_only_path(tool_id, arguments) {
        Some(path) => Some(
            MissingPath {
                code: "not_found",
                message: "repository path was not found: ".to_owned().concat(path.as_str()),
                path,
            },
        ),
        None => None,
    }
}

// ---------------------------------------------------------------------------
// Reading
// ---------------------------------------------------------------------------

/// A line with its number.
#[derive(Clone, Debug, Eq, PartialEq)]
pub struct ReadLine {
    pub line: usize,
    pub text: String,
}

/// Lines of a file.
#[derive(Clone, Debug, Eq, PartialEq)]
pub struct ReadPage {
    pub start_line: usize,
    pub end_line: usize,
    pub total_lines: usize,
    pub truncated: bool,
    pub digest: String,
    pub lines: Vec<ReadLine>,
}

/// The line that reading begins with.
pub open spec fn first_line(offset: Option<usize>) -> int {
    match offset {
        Some(line) => if line < 1 {
            1
        } else {
            line as int
        },
        None => 1,
    }
}

/// How many lines are read at most.
pub open spec fn line_limit(limit: Option<usize>) -> int {
    let wanted = match limit {
        Some(limit) => limit as int,
        None => DEFAULT_READ_LINES as int,
    };
    if wanted < MAX_READ_LINES {
        wanted
    } else {
        MAX_READ_LINES as int
    }
}

/// How many of the lines of a file are read.
pub open spec fn lines_read(total: int, start: int, limit: int) -> int {
    if start > total {
        0
    } else if total - (start - 1) < limit {
        total - (start - 1)
    } else {
        limit
    }
}

/// The smaller of a number and the largest machine number.
pub open spec fn saturated(n: int) -> int {
    if n > usize::MAX {
        usize::MAX as int
    } else {
        n
    }
}

/// Reads lines of a file, from a line on and up to a number of lines.
pub fn read_page(content: &str, offset_line: Option<usize>, limit_lines: Option<usize>) -> (r:
    ReadPage)
    ensures
        ({
            let all = lines_of(content@);
            let start = first_line(offset_line);
            let count = lines_read(all.len() as int, start, line_limit(limit_lines));
            &&& r.start_line == start
            &&& r.total_lines == all.len()
            &&& r.end_line == saturated(start + count) - 1
            &&& r.truncated == (r.end_line < r.total_lines)
            &&& r.digest@ == file_digest(encode_utf8(content@))
            &&& r.lines@.len() == count
            &&& forall|i: int|
                0 <= i < count ==> (#[trigger] r.lines@[i]).line == start + i && r.lines@[i].text@
                    == all[start - 1 + i]
        }),
{
    let all: Vec<String> = lines(content);
    let ghost view = lines_of(content@);
    let total: usize = all.len();
    let digest: String = content_digest(content.as_bytes());
    let start: usize = match offset_line {
        Some(line) => if line < 1 {
            1
        } else {
            line
        },
        None => 1,
    };
    let wanted: usize = match limit_lines {
        Some(limit) => limit,
        None => DEFAULT_READ_LINES,
    };
    let limit: usize = if wanted < MAX_READ_LINES {
        wanted
    } else {
        MAX_READ_LINES
    };
    let count: usize = if start > total {
        0
    } else if total - (start - 1) < limit {
        total - (start - 1)
    } else {
        limit
    };
    let mut out: Vec<ReadLine> = Vec::new();
    let mut i: usize = 0;
    while i < count
        invariant
            i <= count,
            1 <= start,
            count > 0 ==> start - 1 + count <= total,
            total == all@.len(),
            contents(all@) == view,
            out@.len() == i,
            forall|k: int|
                0 <= k < i ==> (#[trigger] out@[k]).line == start + k && out@[k].text@
                    == view[start - 1 + k],
        decreases count - i,
    {
        assert(view[start - 1 + i] == all@[start - 1 + i]@);
        let index: usize = start - 1 + i;
        out.push(ReadLine { line: index + 1, text: all[index].clone() });
        i += 1;
    }
    let end: usize = match start.checked_add(count) {
        Some(end) => end,
        None => usize::MAX,
    };
    let end_line: usize = end - 1;
    ReadPage {
        start_line: start,
        end_line,
        total_lines: total,
        truncated: end_line < total,
        digest,
        lines: out,
    }
}

// ---------------------------------------------------------------------------
// Searching
// ---------------------------------------------------------------------------

/// A line that matches.
#[derive(Clone, Debug, Eq, PartialEq)]
pub struct SearchMatch {
    pub path: String,
    pub line: usize,
    pub text: String,
}

/// The content of a match.
pub struct MatchAbs {
    pub path: Seq<char>,
    pub line: int,
    pub text: Seq<char>,
}

impl SearchMatch {
    pub open spec fn view(&self) -> MatchAbs {
        MatchAbs { path: self.path@, line: self.line as int, text: self.text@ }
    }
}

pub open spec fn matches_abs(matches: Seq<SearchMatch>) -> Seq<MatchAbs> {
    Seq::new(matches.len(), |i: int| matches[i]@)
}

/// A search on its way: what is looked for, and what has been found.
#[derive(Clone, Debug)]
pub struct Search {
    pub needle: String,
    pub case_sensitive: bool,
    pub max_matches: usize,
    pub matches: Vec<SearchMatch>,
}

/// An entry of a directory.
#[derive(Clone, Copy, Debug, Eq, PartialEq, Structural)]
pub enum EntryKind {
    Directory,
    File,
    Symlink,
    Other,
}

/// What a search does with an entry of a directory.
#[derive(Clone, Copy, Debug, Eq, PartialEq, Structural)]
pub enum EntryAction {
    Skip,
    Descend,
    Search,
}

/// A line as it is compared.
pub open spec fn compared(line: Seq<char>, case_sensitive: bool) -> Seq<char> {
    if case_sensitive {
        line
    } else {
        lowered(line)
    }
}

/// The matches in the first `n` lines of a file, after those that were found
/// before, up to the most that are told.
pub open spec fn found(
    before: Seq<MatchAbs>,
    path: Seq<char>,
    lines: Seq<Seq<char>>,
    needle: Seq<char>,
    case_sensitive: bool,
    max_matches: int,
    n: int,
) -> Seq<MatchAbs>
    decreases n,
{
    if n <= 0 {
        before
    } else {
        let so_far = found(before, path, lines, needle, case_sensitive, max_matches, n - 1);
        let line = lines[n - 1];
        if so_far.len() < max_matches && find(compared(line, case_sensitive), needle) is Some {
            so_far.push(MatchAbs { path, line: n, text: line })
        } else {
            so_far
        }
    }
}

proof fn lemma_found_full(
    before: Seq<MatchAbs>,
    path: Seq<char>,
    lines: Seq<Seq<char>>,
    needle: Seq<char>,
    case_sensitive: bool,
    max_matches: int,
    n: int,
    m: int,
)
    requires
        0 <= n <= m,
        found(before, path, lines, needle, case_sensitive, max_matches, n).len() >= max_matches,
    ensures
        found(before, path, lines, needle, case_sensitive, max_matches, m) == found(
            before,
            path,
            lines,
            needle,
            case_sensitive,
            max_matches,
            n,
        ),
    decreases m,
{
    if n < m {
        lemma_found_full(before, path, lines, needle, case_sensitive, max_matches, n, m - 1);
    }
}

fn occurs(text: &str, needle: &str) -> (b: bool)
    ensures
        b == (find(text@, needle@) is Some),
{
    let chars: Vec<char> = chars_of(text);
    let pattern: Vec<char> = chars_of(needle);
    position(&chars, &pattern).is_some()
}

impl Search {
    /// Begins a search for a pattern.
    pub fn new(
        pattern: &str,
        max_matches: Option<usize>,
        case_sensitive: Option<bool>,
    ) -> (r: Result<Search, &'static str>)
        ensures
            match r {
                Err(error) => is_blank(pattern@) && error
                    == "core.workspace:fs.search pattern cannot be blank",
                Ok(search) => {
                    let wanted = match max_matches {
                        Some(wanted) => wanted,
                        None => DEFAULT_SEARCH_MATCHES,
                    };
                    &&& !is_blank(pattern@)
                    &&& search.case_sensitive == (case_sensitive != Some(false))
                    &&& search.needle@ == compared(pattern@, search.case_sensitive)
                    &&& search.max_matches == if wanted < MAX_SEARCH_MATCHES {
                        wanted
                    } else {
                        MAX_SEARCH_MATCHES
                    }
                    &&& search.matches@.len() == 0
                },
            },
    {
        if blank(pattern) {
            return Err("core.workspace:fs.search pattern cannot be blank");
        }
        let wanted: usize = match max_matches {
            Some(wanted) => wanted,
            None => DEFAULT_SEARCH_MATCHES,
        };
        let exact: bool = match case_sensitive {
            Some(exact) => exact,
            None => true,
        };
        let needle: String = if exact {
            pattern.to_owned()
        } else {
            ascii_lowered(pattern)
        };
        Ok(
            Search {
                needle,
                case_sensitive: exact,
                max_matches: if wanted < MAX_SEARCH_MATCHES {
                    wanted
                } else {
                    MAX_SEARCH_MATCHES
                },
                matches: Vec::new(),
            },
        )
    }

    /// Whether as many matches have been found as are told. A search that is
    /// full looks at no further entry.
    pub fn is_full(&self) -> (b: bool)
        ensures
            b == (self.matches@.len() >= self.max_matches),
    {
        self.matches.len() >= self.max_matches
    }

    /// Looks through the lines of a file.
    pub fn search_file(&mut self, path: &str, content: &str)
        ensures
            final(self).needle == old(self).needle,
            final(self).case_sensitive == old(self).case_sensitive,
            final(self).max_matches == old(self).max_matches,
            matches_abs(final(self).matches@) == found(
                matches_abs(old(self).matches@),
                path@,
                lines_of(content@),
                old(self).needle@,
                old(self).case_sensitive,
                old(self).max_matches as int,
                lines_of(content@).len() as int,
            ),
    {
        let all: Vec<String> = lines(content);
        let ghost view = lines_of(content@);
        let ghost before = matches_abs(self.matches@);
        let mut i: usize = 0;
        while i < all.len()
            invariant
                i <= all@.len(),
                view == lines_of(content@),
                contents(all@) == view,
                before == matches_abs(old(self).matches@),
                self.needle == old(self).needle,
                self.case_sensitive == old(self).case_sensitive,
                self.max_matches == old(self).max_matches,
                matches_abs(self.matches@) == found(
                    before,
                    path@,
                    view,
                    self.needle@,
                    self.case_sensitive,
                    self.max_matches as int,
                    i as int,
                ),
            decreases all@.len() - i,
        {
            assert(view[i as int] == all@[i as int]@);
            if self.is_full() {
                proof {
                    lemma_found_full(
                        before,
                        path@,
                        view,
                        self.needle@,
                        self.case_sensitive,
                        self.max_matches as int,
                        i as int,
                        view.len() as int,
                    );
                }
                return ;
            }
            let line: &String = &all[i];
            let hit: bool = if self.case_sensitive {
                occurs(line.as_str(), self.needle.as_str())
            } else {
                occurs(ascii_lowered(line.as_str()).as_str(), self.needle.as_str())
            };
            if hit {
                let ghost so_far = matches_abs(self.matches@);
                let found_line: SearchMatch = SearchMatch {
                    path: path.to_owned(),
                    line: i + 1,
                    text: line.clone(),
                };
                self.matches.push(found_line);
                assert(matches_abs(self.matches@) =~= so_far.push(found_line@));
            }
            i += 1;
        }
    }
}

/// What a search does with an entry of a directory: it follows no symbolic
/// link and stays out of the repository's own directory.
pub fn entry_action(name: &str, kind: EntryKind) -> (r: EntryAction)
    ensures
        r == if kind == EntryKind::Symlink || name@ == ".git"@ {
            EntryAction::Skip
        } else {
            match kind {
                EntryKind::Directory => EntryAction::Descend,
                EntryKind::File => EntryAction::Search,
                _ => EntryAction::Skip,
            }
        },
{
    if kind == EntryKind::Symlink || same_text(name, ".git") {
        return EntryAction::Skip;
    }
    match kind {
        EntryKind::Directory => EntryAction::Descend,
        EntryKind::File => EntryAction::Search,
        _ => EntryAction::Skip,
    }
}

/// Whether a file of that size is searched.
pub fn is_searched(bytes: u64) -> (b: bool)
    ensures
        b == (bytes <= MAX_SEARCH_FILE_BYTES),
{
    bytes <= MAX_SEARCH_FILE_BYTES
}

/// The path that is shown for a path within the repository.
pub fn display_path(relative: &str) -> (r: String)
    ensures
        r@ == if relative@.len() == 0 {
            "."@
        } else {
            relative@
        },
{
    if relative.is_empty() {
        ".".to_owned()
    } else {
        relative.to_owned()
    }
}

/// A search tells no more matches than it may, keeps those that it found
/// before, and tells only lines of the file in which the pattern occurs.
pub proof fn matches_are_bounded(
    before: Seq<MatchAbs>,
    path: Seq<char>,
    lines: Seq<Seq<char>>,
    needle: Seq<char>,
    case_sensitive: bool,
    max_matches: int,
    n: int,
)
    requires
        0 <= n <= lines.len(),
        before.len() <= max_matches,
    ensures
        ({
            let after = found(before, path, lines, needle, case_sensitive, max_matches, n);
            &&& after.len() <= max_matches
            &&& before.is_prefix_of(after)
            &&& forall|i: int|
                before.len() <= i < after.len() ==> {
                    let hit = #[trigger] after[i];
                    &&& hit.path == path
                    &&& 1 <= hit.line <= n
                    &&& hit.text == lines[hit.line - 1]
                    &&& find(compared(hit.text, case_sensitive), needle) is Some
                }
        }),
    decreases n,
{
    if n > 0 {
        matches_are_bounded(before, path, lines, needle, case_sensitive, max_matches, n - 1);
    }
}

// ---------------------------------------------------------------------------
// Effects of a patch
// ---------------------------------------------------------------------------

/// Whether a receipt names a path.
pub open spec fn names_path(receipt: ReceiptAbs, path: Seq<char>) -> bool {
    receipt.path == Some(path) || receipt.from == Some(path) || receipt.to == Some(path)
}

/// Puts a path in its place, where there is one.
fn insert_path(paths: &mut Vec<String>, path: &Option<String>)
    requires
        ascend(contents(old(paths)@)),
    ensures
        ascend(contents(final(paths)@)),
        forall|text: Seq<char>|
            #![trigger contents(final(paths)@).contains(text)]
            contents(final(paths)@).contains(text) <==> contents(old(paths)@).contains(text)
                || path.abs() == Some(text),
{
    if let Some(name) = path {
        insert_name(paths, name.clone());
    }
}

/// The paths that a patch changed, in order and each once.
pub fn observed_paths(receipts: &Vec<PatchReceipt>) -> (r: Vec<String>)
    ensures
        ascend(contents(r@)),
        forall|path: Seq<char>|
            #![trigger contents(r@).contains(path)]
            contents(r@).contains(path) <==> exists|i: int|
                0 <= i < receipts@.len() && names_path((#[trigger] receipts@[i])@, path),
{
    let mut paths: Vec<String> = Vec::new();
    let mut i: usize = 0;
    assert(contents(paths@) =~= Seq::<Seq<char>>::empty());
    while i < receipts.len()
        invariant
            i <= receipts@.len(),
            ascend(contents(paths@)),
            forall|path: Seq<char>|
                #![trigger contents(paths@).contains(path)]
                contents(paths@).contains(path) <==> exists|k: int|
                    0 <= k < i && names_path((#[trigger] receipts@[k])@, path),
        decreases receipts@.len() - i,
    {
        let ghost before = contents(paths@);
        insert_path(&mut paths, &receipts[i].path);
        let ghost second = contents(paths@);
        insert_path(&mut paths, &receipts[i].from);
        let ghost third = contents(paths@);
        insert_path(&mut paths, &receipts[i].to);
        proof {
            let now = contents(paths@);
            let receipt = receipts@[i as int]@;
            assert forall|path: Seq<char>|
                #![trigger now.contains(path)]
                now.contains(path) <==> exists|k: int|
                    0 <= k < i + 1 && names_path((#[trigger] receipts@[k])@, path) by {
                assert(now.contains(path) <==> third.contains(path) || receipt.to == Some(path));
                assert(third.contains(path) <==> second.contains(path) || receipt.from == Some(
                    path,
                ));
                assert(second.contains(path) <==> before.contains(path) || receipt.path == Some(
                    path,
                ));
                if before.contains(path) {
                    let k = choose|k: int|
                        0 <= k < i && names_path((#[trigger] receipts@[k])@, path);
                    assert(0 <= k < i + 1 && names_path(receipts@[k]@, path));
                }
                if names_path(receipt, path) {
                    assert(0 <= i < i + 1 && names_path(receipts@[i as int]@, path));
                }
            }
        }
        i += 1;
    }
    paths
}

// ---------------------------------------------------------------------------
// Declaration
// ---------------------------------------------------------------------------

/// What the extension declares.
pub open spec fn declared() -> ExtensionAbs {
    ExtensionAbs {
        id: "core.workspace",
        name: "Core Tools",
        version: Some("1.2.0"),
        tools: seq![
            ToolAbs {
                id: "core.workspace:fs.read",
                description: "Read a UTF-8 file from the repository with line bounds.",
                operation_kind: OperationKind::Read,
                errors: seq![recoverable("not_found"), terminal("execution_failed")],
                state_effects: Seq::<Effect>::empty(),
                conditional_state_effects: Seq::<Effect>::empty(),
            },
            ToolAbs {
                id: "core.workspace:fs.list",
                description: "List repository directory entries.",
                operation_kind: OperationKind::Read,
                errors: seq![recoverable("not_found"), terminal("execution_failed")],
                state_effects: Seq::<Effect>::empty(),
                conditional_state_effects: Seq::<Effect>::empty(),
            },
            ToolAbs {
                id: "core.workspace:fs.search",
                description: "Search repository text files for a literal pattern.",
                operation_kind: OperationKind::Read,
                errors: seq![recoverable("not_found"), terminal("execution_failed")],
                state_effects: Seq::<Effect>::empty(),
                conditional_state_effects: Seq::<Effect>::empty(),
            },
            ToolAbs {
                id: "core.workspace:fs.apply_patch",
                description: "Atomically mutate repository files. Operation objects use `op` as the discriminator; create requires `expected_absent=true`, update applies exact `old_text`/`new_text` edits, and update/delete/move require the complete digest returned by `fs.read`, including its `sha256:` prefix. Use at most one operation per path and group all updates to that path in one `edits` array.",
                operation_kind: OperationKind::Write,
                errors: seq![
                    recoverable("invalid_patch"),
                    recoverable("not_found"),
                    recoverable("conflict"),
                    terminal("execution_failed"),
                    terminal("outcome_unknown"),
                ],
                state_effects: seq![Effect::RepoFiles],
                conditional_state_effects: Seq::<Effect>::empty(),
            },
        ],
        effects: seq![Effect::RepoFiles],
        hooks: Seq::<HookDeclaration>::empty(),
    }
}

/// The declaration of the extension.
pub fn declaration() -> (r: ExtensionDescriptor)
    ensures
        r@ == declared(),
{
    let tools: Vec<ToolDeclaration> = vec![
            ToolDeclaration {
                id: "core.workspace:fs.read",
                description: "Read a UTF-8 file from the repository with line bounds.",
                operation_kind: OperationKind::Read,
                errors: vec![recoverable("not_found"), terminal("execution_failed")],
                state_effects: Vec::new(),
                conditional_state_effects: Vec::new(),
            },
            ToolDeclaration {
                id: "core.workspace:fs.list",
                description: "List repository directory entries.",
                operation_kind: OperationKind::Read,
                errors: vec![recoverable("not_found"), terminal("execution_failed")],
                state_effects: Vec::new(),
                conditional_state_effects: Vec::new(),
            },
            ToolDeclaration {
                id: "core.workspace:fs.search",
                description: "Search repository text files for a literal pattern.",
                operation_kind: OperationKind::Read,
                errors: vec![recoverable("not_found"), terminal("execution_failed")],
                state_effects: Vec::new(),
                conditional_state_effects: Vec::new(),
            },
            ToolDeclaration {
                id: "core.workspace:fs.apply_patch",
                description: "Atomically mutate repository files. Operation objects use `op` as the discriminator; create requires `expected_absent=true`, update applies exact `old_text`/`new_text` edits, and update/delete/move require the complete digest returned by `fs.read`, including its `sha256:` prefix. Use at most one operation per path and group all updates to that path in one `edits` array.",
                operation_kind: OperationKind::Write,
                errors: vec![
                    recoverable("invalid_patch"),
                    recoverable("not_found"),
                    recoverable("conflict"),
                    terminal("execution_failed"),
                    terminal("outcome_unknown"),
                ],
                state_effects: vec![Effect::RepoFiles],
                conditional_state_effects: Vec::new(),
            },
        ];
    let effects: Vec<Effect> = vec![Effect::RepoFiles];
    let hooks: Vec<HookDeclaration> = Vec::new();
    let descriptor: ExtensionDescriptor = ExtensionDescriptor {
        id: "core.workspace",
        name: "Core Tools",
        version: Some("1.2.0"),
        tools,
        effects,
        hooks,
    };
    proof {
        lemma_declared(descriptor, declared());
    }
    descriptor
}

/// What a run observes of the tools: their outcomes, whose codes `outcomes`
/// holds for each of them, and the errors after which a caller can go on.
pub fn workflow(outcomes: &Vec<Vec<String>>) -> (r: Vec<ToolWorkflowMapping>)
    ensures
        mappings_abs(r@) == all_mappings(
            declared().tools,
            outcome_rows(outcomes@),
            declared().tools.len() as int,
        ),
{
    observation_workflow(&declaration(), outcomes)
}

} // verus!
