//! Copies of a workspace: what a shell changed in one, and whether it may be
//! committed.

use vstd::prelude::*;
use vstd::string::*;
use vstd::utf8::*;

use super::patch::{content_digest, file_digest};
use super::path_order::{
    find_place, in_path_order, is_placed, locations, path_before, path_order_is_irreflexive,
    path_order_is_total, path_order_is_transitive, path_precedes, place_of, placing_keeps_order,
    Located,
};
use super::repo_path::{slashed, RepoPath};
use crate::agent::run::{equal_paths, paths_equal};
use crate::text::{
    begins, chars_of, read_utf8, same_text, starts_with, strip_prefix, strip_suffix,
    without_prefix, without_suffix,
};
use crate::value::{contents, Abstract};

verus! {

/// The most files of a workspace that is copied.
pub const MAX_COW_FILES: usize = 20_000;

/// The most bytes of a workspace that is copied.
pub const MAX_COW_BYTES: usize = 256 * 1024 * 1024;

/// The most files that a shell may change.
pub const MAX_COW_CHANGES: usize = 64;

// ---------------------------------------------------------------------------
// Trees
// ---------------------------------------------------------------------------

/// A file of a workspace.
#[derive(Clone, Debug)]
pub struct WorkspaceFile {
    pub path: RepoPath,
    pub bytes: Vec<u8>,
    pub mode: u32,
}

/// The content of a file of a workspace.
pub struct FileAbs {
    pub path: Seq<Seq<char>>,
    pub bytes: Seq<u8>,
    pub mode: u32,
}

impl WorkspaceFile {
    pub open spec fn view(&self) -> FileAbs {
        FileAbs { path: self.path@, bytes: self.bytes@, mode: self.mode }
    }
}

pub open spec fn files_abs(files: Seq<WorkspaceFile>) -> Seq<FileAbs> {
    Seq::new(files.len(), |i: int| files[i]@)
}

/// A symbolic link of a workspace. The target is held byte for byte: each
/// character stands for the byte of its number.
#[derive(Clone, Debug)]
pub struct WorkspaceLink {
    pub path: RepoPath,
    pub target: String,
}

pub struct LinkAbs {
    pub path: Seq<Seq<char>>,
    pub target: Seq<char>,
}

impl WorkspaceLink {
    pub open spec fn view(&self) -> LinkAbs {
        LinkAbs { path: self.path@, target: self.target@ }
    }
}

pub open spec fn links_abs(links: Seq<WorkspaceLink>) -> Seq<LinkAbs> {
    Seq::new(links.len(), |i: int| links[i]@)
}

/// Whether links stand at the same paths and lead to equal ones.
pub open spec fn equal_links(left: Seq<LinkAbs>, right: Seq<LinkAbs>) -> bool {
    &&& left.len() == right.len()
    &&& forall|k: int|
        0 <= k < left.len() ==> (#[trigger] left[k]).path == right[k].path && equal_paths(
            left[k].target,
            right[k].target,
        )
}

/// The files and links of a workspace, each in the order of the paths.
#[derive(Debug)]
pub struct WorkspaceTree {
    files: Vec<WorkspaceFile>,
    symlinks: Vec<WorkspaceLink>,
    total_bytes: usize,
}

/// The content of a workspace.
pub struct TreeAbs {
    pub files: Seq<FileAbs>,
    pub symlinks: Seq<LinkAbs>,
    pub total_bytes: int,
}

impl Located for WorkspaceFile {
    open spec fn at(&self) -> Seq<Seq<char>> {
        self.path@
    }

    fn location(&self) -> &RepoPath {
        &self.path
    }
}

impl Located for WorkspaceLink {
    open spec fn at(&self) -> Seq<Seq<char>> {
        self.path@
    }

    fn location(&self) -> &RepoPath {
        &self.path
    }
}

/// The paths of files.
pub open spec fn file_paths(files: Seq<FileAbs>) -> Seq<Seq<Seq<char>>> {
    Seq::new(files.len(), |i: int| files[i].path)
}

/// The paths of links.
pub open spec fn link_paths(links: Seq<LinkAbs>) -> Seq<Seq<Seq<char>>> {
    Seq::new(links.len(), |i: int| links[i].path)
}

/// The files with one more, or with another one under a path.
pub open spec fn with_file(files: Seq<FileAbs>, file: FileAbs) -> Seq<FileAbs> {
    let i = place_of(file_paths(files), file.path) as int;
    if is_placed(file_paths(files), file.path) {
        files.update(i, file)
    } else {
        files.insert(i, file)
    }
}

/// The links with one more, or with another one under a path.
pub open spec fn with_link(links: Seq<LinkAbs>, link: LinkAbs) -> Seq<LinkAbs> {
    let i = place_of(link_paths(links), link.path) as int;
    if is_placed(link_paths(links), link.path) {
        links.update(i, link)
    } else {
        links.insert(i, link)
    }
}

impl WorkspaceTree {
    pub closed spec fn view(&self) -> TreeAbs {
        TreeAbs {
            files: files_abs(self.files@),
            symlinks: links_abs(self.symlinks@),
            total_bytes: self.total_bytes as int,
        }
    }

    /// Whether the files stand in order.
    pub open spec fn wf(&self) -> bool {
        in_path_order(file_paths(self@.files))
    }

    pub fn new() -> (r: WorkspaceTree)
        ensures
            r.wf(),
            r@.files == Seq::<FileAbs>::empty(),
            r@.symlinks == Seq::<LinkAbs>::empty(),
            r@.total_bytes == 0,
    {
        let tree: WorkspaceTree = WorkspaceTree {
            files: Vec::new(),
            symlinks: Vec::new(),
            total_bytes: 0,
        };
        assert(tree@.files =~= Seq::<FileAbs>::empty());
        assert(tree@.symlinks =~= Seq::<LinkAbs>::empty());
        tree
    }

    /// Takes a file into the tree.
    pub fn record_file(&mut self, file: WorkspaceFile) -> (r: Result<(), &'static str>)
        requires
            old(self).wf(),
        ensures
            final(self).wf(),
            ({
                let total = old(self)@.total_bytes + file.bytes@.len();
                if total > usize::MAX {
                    r == Err::<(), &'static str>("shell workspace byte count overflow")
                        && final(self)@ == old(self)@
                } else if old(self)@.files.len() >= MAX_COW_FILES || total > MAX_COW_BYTES {
                    r == Err::<(), &'static str>(
                        "shell workspace exceeds the copy-on-write bound of 20000 files or 268435456 bytes",
                    ) && final(self)@ == old(self)@
                } else {
                    r is Ok && final(self)@ == (TreeAbs {
                        files: with_file(old(self)@.files, file@),
                        total_bytes: total,
                        ..old(self)@
                    })
                }
            }),
    {
        let total: usize = match self.total_bytes.checked_add(file.bytes.len()) {
            Some(total) => total,
            None => {
                return Err("shell workspace byte count overflow");
            },
        };
        if self.files.len() >= MAX_COW_FILES || total > MAX_COW_BYTES {
            return Err(
                "shell workspace exceeds the copy-on-write bound of 20000 files or 268435456 bytes",
            );
        }
        let ghost before = self@;
        let ghost paths = file_paths(before.files);
        assert(paths =~= locations(self.files@));
        let (i, present): (usize, bool) = find_place(&self.files, &file.path);
        self.total_bytes = total;
        let ghost fresh = file@;
        if present {
            self.files.set(i, file);
            assert(self@.files =~= before.files.update(i as int, fresh));
            assert(file_paths(self@.files) =~= paths);
        } else {
            proof {
                placing_keeps_order(paths, file.path@);
            }
            self.files.insert(i, file);
            assert(self@.files =~= before.files.insert(i as int, fresh));
            assert(file_paths(self@.files) =~= paths.insert(i as int, fresh.path));
        }
        Ok(())
    }

    /// Takes a symbolic link into the tree.
    pub fn record_link(&mut self, link: WorkspaceLink)
        requires
            old(self).wf(),
        ensures
            final(self).wf(),
            final(self)@ == (TreeAbs {
                symlinks: with_link(old(self)@.symlinks, link@),
                ..old(self)@
            }),
    {
        let ghost before = self@;
        let ghost fresh = link@;
        assert(link_paths(before.symlinks) =~= locations(self.symlinks@));
        let (i, present): (usize, bool) = find_place(&self.symlinks, &link.path);
        if present {
            self.symlinks.set(i, link);
            assert(self@.symlinks =~= before.symlinks.update(i as int, fresh));
        } else {
            self.symlinks.insert(i, link);
            assert(self@.symlinks =~= before.symlinks.insert(i as int, fresh));
        }
    }
}

/// An entry of a directory of a workspace.
#[derive(Clone, Copy, Debug, Eq, PartialEq, Structural)]
pub enum CaptureKind {
    Directory,
    Symlink,
    File,
    Other,
}

/// What is done with an entry of a directory of a workspace.
#[derive(Clone, Copy, Debug, Eq, PartialEq, Structural)]
pub enum CaptureAction {
    Skip,
    Descend,
    Link,
    Copy,
    Refuse,
}

/// What is done with an entry of a directory of a workspace: at the root the
/// repository's own directory and build outputs are left out.
pub fn capture_action(at_root: bool, name: &str, kind: CaptureKind) -> (r: CaptureAction)
    ensures
        r == if at_root && ((name@ == ".git"@ && kind == CaptureKind::Directory) || name@
            == "target"@) {
            CaptureAction::Skip
        } else {
            match kind {
                CaptureKind::Directory => CaptureAction::Descend,
                CaptureKind::Symlink => CaptureAction::Link,
                CaptureKind::File => CaptureAction::Copy,
                CaptureKind::Other => CaptureAction::Refuse,
            }
        },
{
    if at_root && ((same_text(name, ".git") && kind == CaptureKind::Directory) || same_text(
        name,
        "target",
    )) {
        return CaptureAction::Skip;
    }
    match kind {
        CaptureKind::Directory => CaptureAction::Descend,
        CaptureKind::Symlink => CaptureAction::Link,
        CaptureKind::File => CaptureAction::Copy,
        CaptureKind::Other => CaptureAction::Refuse,
    }
}

// ---------------------------------------------------------------------------
// Envelopes
// ---------------------------------------------------------------------------

/// Whether an expected path covers an observed one: a path with a slash behind
/// it covers itself and all that lies below it.
pub open spec fn covers(expected: Seq<char>, observed: Seq<char>) -> bool {
    match without_suffix(expected, seq!['/']) {
        Some(prefix) => observed == prefix || match without_prefix(observed, prefix) {
            Some(suffix) => begins(suffix, seq!['/']),
            None => false,
        },
        None => observed == expected,
    }
}

/// Whether an expected path covers an observed one.
pub fn expected_workspace_path_matches(expected: &str, observed: &str) -> (b: bool)
    ensures
        b == covers(expected@, observed@),
{
    proof {
        reveal_strlit("/");
        assert("/"@ =~= seq!['/']);
    }
    match strip_suffix(expected, "/") {
        Some(prefix) => {
            if same_text(observed, prefix.as_str()) {
                return true;
            }
            match strip_prefix(observed, prefix.as_str()) {
                Some(suffix) => starts_with(suffix.as_str(), "/"),
                None => false,
            }
        },
        None => same_text(observed, expected),
    }
}

/// Whether one of the expected paths covers an observed one.
pub open spec fn is_expected(expected: Seq<Seq<char>>, observed: Seq<char>) -> bool {
    exists|i: int| 0 <= i < expected.len() && covers(#[trigger] expected[i], observed)
}

fn any_matches(expected: &Vec<String>, observed: &str) -> (b: bool)
    ensures
        b == is_expected(contents(expected@), observed@),
{
    let ghost all = contents(expected@);
    let mut i: usize = 0;
    while i < expected.len()
        invariant
            i <= expected@.len(),
            all == contents(expected@),
            forall|k: int| 0 <= k < i ==> !covers(#[trigger] all[k], observed@),
        decreases expected@.len() - i,
    {
        assert(all[i as int] == expected@[i as int]@);
        if expected_workspace_path_matches(expected[i].as_str(), observed) {
            assert(covers(all[i as int], observed@));
            return true;
        }
        i += 1;
    }
    false
}

// ---------------------------------------------------------------------------
// Differences
// ---------------------------------------------------------------------------

/// A file that differs between two trees.
pub enum Difference {
    Created { after: FileAbs },
    Deleted { before: FileAbs },
    Changed { before: FileAbs, after: FileAbs },
}

/// The files that differ, in the order of their paths.
pub open spec fn differences(before: Seq<FileAbs>, after: Seq<FileAbs>) -> Seq<Difference>
    decreases before.len() + after.len(),
{
    if before.len() == 0 && after.len() == 0 {
        Seq::empty()
    } else if after.len() == 0 || (before.len() > 0 && path_precedes(
        before[0].path,
        after[0].path,
    )) {
        seq![Difference::Deleted { before: before[0] }] + differences(before.drop_first(), after)
    } else if before.len() == 0 || path_precedes(after[0].path, before[0].path) {
        seq![Difference::Created { after: after[0] }] + differences(before, after.drop_first())
    } else if before[0].bytes == after[0].bytes && before[0].mode == after[0].mode {
        differences(before.drop_first(), after.drop_first())
    } else {
        seq![Difference::Changed { before: before[0], after: after[0] }] + differences(
            before.drop_first(),
            after.drop_first(),
        )
    }
}

/// A file that differs, by its places in the two trees.
#[derive(Clone, Copy, Debug, Eq, PartialEq, Structural)]
enum Place {
    Created { after: usize },
    Deleted { before: usize },
    Changed { before: usize, after: usize },
}

spec fn placed(before: Seq<FileAbs>, after: Seq<FileAbs>, place: Place) -> Difference {
    match place {
        Place::Created { after: j } => Difference::Created { after: after[j as int] },
        Place::Deleted { before: i } => Difference::Deleted { before: before[i as int] },
        Place::Changed { before: i, after: j } => Difference::Changed {
            before: before[i as int],
            after: after[j as int],
        },
    }
}

spec fn all_placed(before: Seq<FileAbs>, after: Seq<FileAbs>, places: Seq<Place>) -> Seq<
    Difference,
> {
    Seq::new(places.len(), |i: int| placed(before, after, places[i]))
}

spec fn places_in_range(before: int, after: int, places: Seq<Place>) -> bool {
    forall|i: int|
        0 <= i < places.len() ==> match #[trigger] places[i] {
            Place::Created { after: j } => j < after,
            Place::Deleted { before: k } => k < before,
            Place::Changed { before: k, after: j } => k < before && j < after,
        }
}

fn same_bytes(left: &Vec<u8>, right: &Vec<u8>) -> (b: bool)
    ensures
        b == (left@ == right@),
{
    if left.len() != right.len() {
        return false;
    }
    let mut i: usize = 0;
    while i < left.len()
        invariant
            i <= left@.len(),
            left@.len() == right@.len(),
            forall|k: int| 0 <= k < i ==> left@[k] == right@[k],
        decreases left@.len() - i,
    {
        if left[i] != right[i] {
            return false;
        }
        i += 1;
    }
    assert(left@ =~= right@);
    true
}

fn find_differences(before: &Vec<WorkspaceFile>, after: &Vec<WorkspaceFile>) -> (r: Vec<Place>)
    ensures
        all_placed(files_abs(before@), files_abs(after@), r@) == differences(
            files_abs(before@),
            files_abs(after@),
        ),
        places_in_range(before@.len() as int, after@.len() as int, r@),
{
    let ghost old_files = files_abs(before@);
    let ghost new_files = files_abs(after@);
    let ghost all = differences(old_files, new_files);
    let n: usize = before.len();
    let m: usize = after.len();
    let mut out: Vec<Place> = Vec::new();
    let mut i: usize = 0;
    let mut j: usize = 0;
    proof {
        assert(old_files.subrange(0, n as int) =~= old_files);
        assert(new_files.subrange(0, m as int) =~= new_files);
        assert(all_placed(old_files, new_files, out@) =~= Seq::<Difference>::empty());
        assert(Seq::<Difference>::empty() + all =~= all);
    }
    while i < n || j < m
        invariant
            i <= n,
            j <= m,
            n == before@.len(),
            m == after@.len(),
            old_files == files_abs(before@),
            new_files == files_abs(after@),
            all == differences(old_files, new_files),
            places_in_range(n as int, m as int, out@),
            all == all_placed(old_files, new_files, out@) + differences(
                old_files.subrange(i as int, n as int),
                new_files.subrange(j as int, m as int),
            ),
        decreases (n - i) + (m - j),
    {
        let ghost rest_old = old_files.subrange(i as int, n as int);
        let ghost rest_new = new_files.subrange(j as int, m as int);
        let ghost done = all_placed(old_files, new_files, out@);
        proof {
            if i < n {
                assert(rest_old[0] == before@[i as int]@);
                assert(rest_old.drop_first() =~= old_files.subrange(i + 1, n as int));
            }
            if j < m {
                assert(rest_new[0] == after@[j as int]@);
                assert(rest_new.drop_first() =~= new_files.subrange(j + 1, m as int));
            }
        }
        let deleted: bool = j == m || (i < n && path_before(&before[i].path, &after[j].path));
        if deleted {
            out.push(Place::Deleted { before: i });
            i += 1;
            proof {
                let next = Difference::Deleted { before: rest_old[0] };
                assert(all_placed(old_files, new_files, out@) =~= done.push(next));
                assert(all =~= done.push(next) + differences(rest_old.drop_first(), rest_new));
            }
        } else if i == n || path_before(&after[j].path, &before[i].path) {
            out.push(Place::Created { after: j });
            j += 1;
            proof {
                let next = Difference::Created { after: rest_new[0] };
                assert(all_placed(old_files, new_files, out@) =~= done.push(next));
                assert(all =~= done.push(next) + differences(rest_old, rest_new.drop_first()));
            }
        } else {
            let same: bool = same_bytes(&before[i].bytes, &after[j].bytes) && before[i].mode
                == after[j].mode;
            if !same {
                out.push(Place::Changed { before: i, after: j });
                proof {
                    let next = Difference::Changed { before: rest_old[0], after: rest_new[0] };
                    assert(all_placed(old_files, new_files, out@) =~= done.push(next));
                    assert(all =~= done.push(next) + differences(
                        rest_old.drop_first(),
                        rest_new.drop_first(),
                    ));
                }
            }
            i += 1;
            j += 1;
        }
    }
    proof {
        assert(old_files.subrange(i as int, n as int).len() == 0);
        assert(new_files.subrange(j as int, m as int).len() == 0);
        assert(all =~= all_placed(old_files, new_files, out@));
    }
    out
}

// ---------------------------------------------------------------------------
// Operations
// ---------------------------------------------------------------------------

/// An operation that commits what a shell changed.
#[derive(Clone, Debug, Eq, PartialEq)]
pub enum CowOperation {
    Create { path: String, content: String },
    Delete { path: String, expected_digest: String },
    Update { path: String, expected_digest: String, old_text: String, new_text: String },
}

pub enum CowOperationAbs {
    Create { path: Seq<char>, content: Seq<char> },
    Delete { path: Seq<char>, expected_digest: Seq<char> },
    Update {
        path: Seq<char>,
        expected_digest: Seq<char>,
        old_text: Seq<char>,
        new_text: Seq<char>,
    },
}

impl CowOperation {
    pub open spec fn view(&self) -> CowOperationAbs {
        match self {
            CowOperation::Create { path, content } => CowOperationAbs::Create {
                path: path@,
                content: content@,
            },
            CowOperation::Delete { path, expected_digest } => CowOperationAbs::Delete {
                path: path@,
                expected_digest: expected_digest@,
            },
            CowOperation::Update { path, expected_digest, old_text, new_text } => {
                CowOperationAbs::Update {
                    path: path@,
                    expected_digest: expected_digest@,
                    old_text: old_text@,
                    new_text: new_text@,
                }
            },
        }
    }
}

/// Why what a shell changed cannot be committed.
#[derive(Clone, Debug, Eq, PartialEq)]
pub enum CowError {
    /// The shell changed what it did not say it would.
    Envelope(String),
    /// The change cannot be written as a patch.
    Content(&'static str),
}

pub enum CowErrorAbs {
    Envelope(Seq<char>),
    Content(&'static str),
}

impl CowError {
    pub open spec fn view(&self) -> CowErrorAbs {
        match self {
            CowError::Envelope(message) => CowErrorAbs::Envelope(message@),
            CowError::Content(message) => CowErrorAbs::Content(*message),
        }
    }
}

/// A path as it is told: with forward slashes.
pub open spec fn shown(path: Seq<Seq<char>>) -> Seq<char> {
    let text = slashed(path);
    Seq::new(
        text.len(),
        |i: int|
            if text[i] == '\\' {
                '/'
            } else {
                text[i]
            },
    )
}

fn show(path: &RepoPath) -> (r: String)
    ensures
        r@ == shown(path@),
{
    let text: String = path.display();
    let chars: Vec<char> = chars_of(text.as_str());
    let mut out: String = String::new();
    let mut i: usize = 0;
    while i < chars.len()
        invariant
            i <= chars@.len(),
            chars@ == slashed(path@),
            out@ == shown(path@).take(i as int),
        decreases chars@.len() - i,
    {
        if chars[i] == '\\' {
            out.push('/');
        } else {
            out.push(chars[i]);
        }
        i += 1;
        assert(out@ =~= shown(path@).take(i as int));
    }
    assert(out@ =~= shown(path@));
    out
}

/// The path of a difference.
pub open spec fn path_of(difference: Difference) -> Seq<Seq<char>> {
    match difference {
        Difference::Created { after } => after.path,
        Difference::Deleted { before } => before.path,
        Difference::Changed { before, after } => before.path,
    }
}

/// The operation that commits a difference, or why it cannot be committed.
pub open spec fn operation_of(difference: Difference, expected: Seq<Seq<char>>) -> Result<
    CowOperationAbs,
    CowErrorAbs,
> {
    let path = shown(path_of(difference));
    let outside = Err(
        CowErrorAbs::Envelope(
            "shell changed `"@ + path + "` outside its expected-effect envelope"@,
        ),
    );
    match difference {
        Difference::Created { after } => if !is_expected(expected, path) {
            outside
        } else if !valid_utf8(after.bytes) {
            Err(CowErrorAbs::Content("shell-created files must be UTF-8 for atomic commit"))
        } else {
            Ok(CowOperationAbs::Create { path, content: decode_utf8(after.bytes) })
        },
        Difference::Deleted { before } => if !is_expected(expected, path) {
            outside
        } else {
            Ok(CowOperationAbs::Delete { path, expected_digest: file_digest(before.bytes) })
        },
        Difference::Changed { before, after } => if before.mode != after.mode {
            Err(
                CowErrorAbs::Envelope(
                    "shell workspace transaction cannot change file permissions: "@ + slashed(
                        before.path,
                    ),
                ),
            )
        } else if !is_expected(expected, path) {
            outside
        } else if !valid_utf8(before.bytes) || !valid_utf8(after.bytes) {
            Err(CowErrorAbs::Content("shell-updated files must be UTF-8 for atomic commit"))
        } else {
            Ok(
                CowOperationAbs::Update {
                    path,
                    expected_digest: file_digest(before.bytes),
                    old_text: decode_utf8(before.bytes),
                    new_text: decode_utf8(after.bytes),
                },
            )
        },
    }
}

/// The operations that commit the first `n` differences.
pub open spec fn operations_of(
    differences: Seq<Difference>,
    expected: Seq<Seq<char>>,
    n: int,
) -> Result<Seq<CowOperationAbs>, CowErrorAbs>
    decreases n,
{
    if n <= 0 {
        Ok(Seq::empty())
    } else {
        match operations_of(differences, expected, n - 1) {
            Err(error) => Err(error),
            Ok(operations) => match operation_of(differences[n - 1], expected) {
                Err(error) => Err(error),
                Ok(operation) => Ok(operations.push(operation)),
            },
        }
    }
}

/// The paths of the differences.
pub open spec fn changed_paths(differences: Seq<Difference>) -> Seq<Seq<char>> {
    Seq::new(differences.len(), |i: int| shown(path_of(differences[i])))
}

/// What commits the changes of a shell, or why they cannot be committed.
pub open spec fn diff(before: TreeAbs, after: TreeAbs, expected: Seq<Seq<char>>) -> Result<
    Seq<CowOperationAbs>,
    CowErrorAbs,
> {
    if !equal_links(before.symlinks, after.symlinks) {
        Err(
            CowErrorAbs::Envelope(
                "shell workspace transaction cannot create, remove, or change symbolic links"@,
            ),
        )
    } else {
        let all = differences(before.files, after.files);
        match operations_of(all, expected, all.len() as int) {
            Err(error) => Err(error),
            Ok(operations) => if operations.len() > MAX_COW_CHANGES {
                Err(
                    CowErrorAbs::Envelope(
                        "shell workspace transaction changed more than 64 files"@,
                    ),
                )
            } else {
                Ok(operations)
            },
        }
    }
}

/// What a shell changed.
#[derive(Clone, Debug)]
pub struct CowWorkspaceDiff {
    pub operations: Vec<CowOperation>,
    pub changed_paths: Vec<String>,
}

pub open spec fn operations_abs(operations: Seq<CowOperation>) -> Seq<CowOperationAbs> {
    Seq::new(operations.len(), |i: int| operations[i]@)
}

fn same_links(left: &Vec<WorkspaceLink>, right: &Vec<WorkspaceLink>) -> (b: bool)
    ensures
        b == equal_links(links_abs(left@), links_abs(right@)),
{
    let ghost a = links_abs(left@);
    let ghost c = links_abs(right@);
    if left.len() != right.len() {
        assert(a.len() != c.len());
        return false;
    }
    let mut i: usize = 0;
    while i < left.len()
        invariant
            i <= left@.len(),
            left@.len() == right@.len(),
            a == links_abs(left@),
            c == links_abs(right@),
            forall|k: int|
                0 <= k < i ==> (#[trigger] a[k]).path == c[k].path && equal_paths(
                    a[k].target,
                    c[k].target,
                ),
        decreases left@.len() - i,
    {
        assert(a[i as int] == left@[i as int]@);
        assert(c[i as int] == right@[i as int]@);
        if !left[i].path.same(&right[i].path) || !paths_equal(
            left[i].target.as_str(),
            right[i].target.as_str(),
        ) {
            return false;
        }
        i += 1;
    }
    true
}

fn envelope(display: &str) -> (r: CowError)
    ensures
        r@ == CowErrorAbs::Envelope(
            "shell changed `"@ + display@ + "` outside its expected-effect envelope"@,
        ),
{
    CowError::Envelope(
        "shell changed `".to_owned().concat(display).concat(
            "` outside its expected-effect envelope",
        ),
    )
}

fn make_create(after: &WorkspaceFile, expected: &Vec<String>) -> (r: Result<
    (CowOperation, String),
    CowError,
>)
    ensures
        ({
            let difference = Difference::Created { after: after@ };
            match r {
                Ok((operation, path)) => operation_of(difference, contents(expected@)) == Ok::<
                    CowOperationAbs,
                    CowErrorAbs,
                >(operation@) && path@ == shown(after.path@),
                Err(error) => operation_of(difference, contents(expected@)) == Err::<
                    CowOperationAbs,
                    CowErrorAbs,
                >(error@),
            }
        }),
{
    let path: String = show(&after.path);
    if !any_matches(expected, path.as_str()) {
        return Err(envelope(path.as_str()));
    }
    match read_utf8(after.bytes.as_slice()) {
        Some(content) => Ok((CowOperation::Create { path: path.clone(), content }, path)),
        None => Err(CowError::Content("shell-created files must be UTF-8 for atomic commit")),
    }
}

fn make_delete(before: &WorkspaceFile, expected: &Vec<String>) -> (r: Result<
    (CowOperation, String),
    CowError,
>)
    ensures
        ({
            let difference = Difference::Deleted { before: before@ };
            match r {
                Ok((operation, path)) => operation_of(difference, contents(expected@)) == Ok::<
                    CowOperationAbs,
                    CowErrorAbs,
                >(operation@) && path@ == shown(before.path@),
                Err(error) => operation_of(difference, contents(expected@)) == Err::<
                    CowOperationAbs,
                    CowErrorAbs,
                >(error@),
            }
        }),
{
    let path: String = show(&before.path);
    if !any_matches(expected, path.as_str()) {
        return Err(envelope(path.as_str()));
    }
    let digest: String = content_digest(before.bytes.as_slice());
    Ok((CowOperation::Delete { path: path.clone(), expected_digest: digest }, path))
}

fn make_update(before: &WorkspaceFile, after: &WorkspaceFile, expected: &Vec<String>) -> (r: Result<
    (CowOperation, String),
    CowError,
>)
    ensures
        ({
            let difference = Difference::Changed { before: before@, after: after@ };
            match r {
                Ok((operation, path)) => operation_of(difference, contents(expected@)) == Ok::<
                    CowOperationAbs,
                    CowErrorAbs,
                >(operation@) && path@ == shown(before.path@),
                Err(error) => operation_of(difference, contents(expected@)) == Err::<
                    CowOperationAbs,
                    CowErrorAbs,
                >(error@),
            }
        }),
{
    if before.mode != after.mode {
        return Err(
            CowError::Envelope(
                "shell workspace transaction cannot change file permissions: ".to_owned().concat(
                    before.path.display().as_str(),
                ),
            ),
        );
    }
    let path: String = show(&before.path);
    if !any_matches(expected, path.as_str()) {
        return Err(envelope(path.as_str()));
    }
    match (read_utf8(before.bytes.as_slice()), read_utf8(after.bytes.as_slice())) {
        (Some(old_text), Some(new_text)) => {
            let digest: String = content_digest(before.bytes.as_slice());
            Ok(
                (
                    CowOperation::Update {
                        path: path.clone(),
                        expected_digest: digest,
                        old_text,
                        new_text,
                    },
                    path,
                ),
            )
        },
        _ => Err(CowError::Content("shell-updated files must be UTF-8 for atomic commit")),
    }
}

proof fn lemma_operations_fail(
    differences: Seq<Difference>,
    expected: Seq<Seq<char>>,
    n: int,
    m: int,
)
    requires
        0 <= n <= m,
        operations_of(differences, expected, n) is Err,
    ensures
        operations_of(differences, expected, m) == operations_of(differences, expected, n),
    decreases m,
{
    if n < m {
        lemma_operations_fail(differences, expected, n, m - 1);
    }
}

/// What a shell changed between two trees, and the operations that commit it.
pub fn workspace_diff(before: &WorkspaceTree, after: &WorkspaceTree, expected: &Vec<String>) -> (r:
    Result<CowWorkspaceDiff, CowError>)
    ensures
        match r {
            Ok(told) => diff(before@, after@, contents(expected@)) == Ok::<
                Seq<CowOperationAbs>,
                CowErrorAbs,
            >(operations_abs(told.operations@)) && contents(told.changed_paths@) == changed_paths(
                differences(before@.files, after@.files),
            ),
            Err(error) => diff(before@, after@, contents(expected@)) == Err::<
                Seq<CowOperationAbs>,
                CowErrorAbs,
            >(error@),
        },
{
    if !same_links(&before.symlinks, &after.symlinks) {
        return Err(
            CowError::Envelope(
                "shell workspace transaction cannot create, remove, or change symbolic links".to_owned(),
            ),
        );
    }
    let places: Vec<Place> = find_differences(&before.files, &after.files);
    let ghost old_files = before@.files;
    let ghost new_files = after@.files;
    let ghost all = differences(old_files, new_files);
    let ghost wanted = contents(expected@);
    let mut operations: Vec<CowOperation> = Vec::new();
    let mut paths: Vec<String> = Vec::new();
    let mut i: usize = 0;
    assert(operations_abs(operations@) =~= Seq::<CowOperationAbs>::empty());
    assert(contents(paths@) =~= changed_paths(all).take(0));
    while i < places.len()
        invariant
            i <= places@.len(),
            old_files == files_abs(before.files@),
            new_files == files_abs(after.files@),
            before@.files == old_files,
            after@.files == new_files,
            equal_links(before@.symlinks, after@.symlinks),
            all == differences(old_files, new_files),
            all == all_placed(old_files, new_files, places@),
            places_in_range(old_files.len() as int, new_files.len() as int, places@),
            wanted == contents(expected@),
            operations_of(all, wanted, i as int) == Ok::<Seq<CowOperationAbs>, CowErrorAbs>(
                operations_abs(operations@),
            ),
            operations@.len() == i,
            contents(paths@) == changed_paths(all).take(i as int),
        decreases places@.len() - i,
    {
        let place: Place = places[i];
        assert(all[i as int] == placed(old_files, new_files, place));
        let made: Result<(CowOperation, String), CowError> = match place {
            Place::Created { after: j } => {
                assert(new_files[j as int] == after.files@[j as int]@);
                make_create(&after.files[j], expected)
            },
            Place::Deleted { before: k } => {
                assert(old_files[k as int] == before.files@[k as int]@);
                make_delete(&before.files[k], expected)
            },
            Place::Changed { before: k, after: j } => {
                assert(old_files[k as int] == before.files@[k as int]@);
                assert(new_files[j as int] == after.files@[j as int]@);
                make_update(&before.files[k], &after.files[j], expected)
            },
        };
        match made {
            Ok((operation, path)) => {
                let ghost done = operations_abs(operations@);
                let ghost told = contents(paths@);
                operations.push(operation);
                paths.push(path);
                assert(operations_abs(operations@) =~= done.push(operation@));
                assert(contents(paths@) =~= told.push(path@));
                assert(changed_paths(all).take(i + 1) =~= told.push(path@));
            },
            Err(error) => {
                proof {
                    lemma_operations_fail(all, wanted, i + 1, all.len() as int);
                }
                return Err(error);
            },
        }
        i += 1;
    }
    assert(changed_paths(all).take(i as int) =~= changed_paths(all));
    assert(operations_abs(operations@).len() == operations@.len());
    if operations.len() > MAX_COW_CHANGES {
        return Err(
            CowError::Envelope(
                "shell workspace transaction changed more than 64 files".to_owned(),
            ),
        );
    }
    Ok(CowWorkspaceDiff { operations, changed_paths: paths })
}

/// What becomes of the changes of a shell.
#[derive(Clone, Copy, Debug, Eq, PartialEq)]
pub struct CowDecision {
    pub state: &'static str,
    /// Whether the operations are to be applied to the workspace.
    pub apply: bool,
}

/// What becomes of the changes of a shell: they are committed only where it
/// ended with the code zero.
pub fn decide(exit_code: Option<i32>, diff: &CowWorkspaceDiff) -> (r: CowDecision)
    ensures
        r.state == if exit_code == Some(0i32) {
            "committed"
        } else {
            "discarded"
        },
        r.apply == (exit_code == Some(0i32) && diff.operations@.len() > 0),
{
    let committed: bool = match exit_code {
        Some(code) => code == 0,
        None => false,
    };
    CowDecision {
        state: if committed {
            "committed"
        } else {
            "discarded"
        },
        apply: committed && diff.operations.len() > 0,
    }
}

// ---------------------------------------------------------------------------
// Laws
// ---------------------------------------------------------------------------

/// The file under a path, if there is one.
pub open spec fn file_at(files: Seq<FileAbs>, path: Seq<Seq<char>>, file: FileAbs) -> bool {
    exists|i: int| 0 <= i < files.len() && #[trigger] files[i] == file && file.path == path
}

/// Whether a path names no file.
pub open spec fn is_absent(files: Seq<FileAbs>, path: Seq<Seq<char>>) -> bool {
    forall|i: int| 0 <= i < files.len() ==> (#[trigger] files[i]).path != path
}

/// Whether a path is the same in both trees.
pub open spec fn is_unchanged(before: Seq<FileAbs>, after: Seq<FileAbs>, path: Seq<Seq<char>>) -> bool {
    ||| is_absent(before, path) && is_absent(after, path)
    ||| exists|file: FileAbs| #[trigger]
        file_at(before, path, file) && exists|other: FileAbs| #[trigger]
            file_at(after, path, other) && file.bytes == other.bytes && file.mode == other.mode
}

/// Whether a path is among the differences.
pub open spec fn differs(all: Seq<Difference>, path: Seq<Seq<char>>) -> bool {
    exists|i: int| 0 <= i < all.len() && path_of(#[trigger] all[i]) == path
}

/// A path that is not among the differences is the same in both trees.
pub proof fn differences_are_complete(
    before: Seq<FileAbs>,
    after: Seq<FileAbs>,
    path: Seq<Seq<char>>,
)
    requires
        in_path_order(file_paths(before)),
        in_path_order(file_paths(after)),
        !differs(differences(before, after), path),
    ensures
        is_unchanged(before, after, path),
    decreases before.len() + after.len(),
{
    let all = differences(before, after);
    if before.len() == 0 && after.len() == 0 {
    } else if after.len() == 0 || (before.len() > 0 && path_precedes(
        before[0].path,
        after[0].path,
    )) {
        let rest = differences(before.drop_first(), after);
        lemma_tail_differs(all, rest, path);
        assert(path_of(all[0]) == before[0].path);
        lemma_rest_in_order(before);
        differences_are_complete(before.drop_first(), after, path);
        lemma_unchanged_left(before, after, path);
    } else if before.len() == 0 || path_precedes(after[0].path, before[0].path) {
        let rest = differences(before, after.drop_first());
        lemma_tail_differs(all, rest, path);
        assert(path_of(all[0]) == after[0].path);
        lemma_rest_in_order(after);
        differences_are_complete(before, after.drop_first(), path);
        lemma_unchanged_right(before, after, path);
    } else {
        path_order_is_total(before[0].path, after[0].path);
        lemma_rest_in_order(before);
        lemma_rest_in_order(after);
        let rest = differences(before.drop_first(), after.drop_first());
        if before[0].bytes == after[0].bytes && before[0].mode == after[0].mode {
            if path == before[0].path {
                assert(file_at(before, path, before[0]));
                assert(file_at(after, path, after[0]));
            } else {
                differences_are_complete(before.drop_first(), after.drop_first(), path);
                lemma_unchanged_both(before, after, path);
            }
        } else {
            lemma_tail_differs(all, rest, path);
            assert(path_of(all[0]) == before[0].path);
            differences_are_complete(before.drop_first(), after.drop_first(), path);
            lemma_unchanged_both(before, after, path);
        }
    }
}

proof fn lemma_tail_differs(all: Seq<Difference>, rest: Seq<Difference>, path: Seq<Seq<char>>)
    requires
        all.len() == rest.len() + 1,
        forall|i: int| 0 <= i < rest.len() ==> all[i + 1] == #[trigger] rest[i],
        !differs(all, path),
    ensures
        !differs(rest, path),
        path_of(all[0]) != path,
{
    if differs(rest, path) {
        let i = choose|i: int| 0 <= i < rest.len() && path_of(#[trigger] rest[i]) == path;
        assert(path_of(all[i + 1]) == path);
    }
    assert(path_of(all[0]) != path);
}

proof fn lemma_rest_in_order(files: Seq<FileAbs>)
    requires
        in_path_order(file_paths(files)),
    ensures
        files.len() > 0 ==> in_path_order(file_paths(files.drop_first())),
{
    if files.len() > 0 {
        let all = file_paths(files);
        let rest = file_paths(files.drop_first());
        assert forall|i: int, j: int| 0 <= i < j < rest.len() implies path_precedes(
            #[trigger] rest[i],
            #[trigger] rest[j],
        ) by {
            assert(path_precedes(all[i + 1], all[j + 1]));
        }
    }
}

proof fn lemma_file_in_rest(files: Seq<FileAbs>, path: Seq<Seq<char>>)
    requires
        files.len() > 0,
    ensures
        forall|file: FileAbs| #[trigger]
            file_at(files.drop_first(), path, file) ==> file_at(files, path, file),
        files[0].path != path && is_absent(files.drop_first(), path) ==> is_absent(files, path),
{
    let rest = files.drop_first();
    assert forall|file: FileAbs| #[trigger] file_at(rest, path, file) implies file_at(
        files,
        path,
        file,
    ) by {
        let i = choose|i: int| 0 <= i < rest.len() && #[trigger] rest[i] == file && file.path
            == path;
        assert(files[i + 1] == file);
    }
    if files[0].path != path && is_absent(rest, path) {
        assert forall|i: int| 0 <= i < files.len() implies (#[trigger] files[i]).path != path by {
            if i > 0 {
                assert(rest[i - 1] == files[i]);
            }
        }
    }
}

proof fn lemma_unchanged_left(before: Seq<FileAbs>, after: Seq<FileAbs>, path: Seq<Seq<char>>)
    requires
        before.len() > 0,
        before[0].path != path,
        is_unchanged(before.drop_first(), after, path),
    ensures
        is_unchanged(before, after, path),
{
    lemma_file_in_rest(before, path);
    if !(is_absent(before.drop_first(), path) && is_absent(after, path)) {
        let file = choose|file: FileAbs| #[trigger]
            file_at(before.drop_first(), path, file) && exists|other: FileAbs| #[trigger]
                file_at(after, path, other) && file.bytes == other.bytes && file.mode
                    == other.mode;
        assert(file_at(before, path, file));
    }
}

proof fn lemma_unchanged_right(before: Seq<FileAbs>, after: Seq<FileAbs>, path: Seq<Seq<char>>)
    requires
        after.len() > 0,
        after[0].path != path,
        is_unchanged(before, after.drop_first(), path),
    ensures
        is_unchanged(before, after, path),
{
    lemma_file_in_rest(after, path);
    if !(is_absent(before, path) && is_absent(after.drop_first(), path)) {
        let file = choose|file: FileAbs| #[trigger]
            file_at(before, path, file) && exists|other: FileAbs| #[trigger]
                file_at(after.drop_first(), path, other) && file.bytes == other.bytes && file.mode
                    == other.mode;
        let other = choose|other: FileAbs| #[trigger]
            file_at(after.drop_first(), path, other) && file.bytes == other.bytes && file.mode
                == other.mode;
        assert(file_at(after, path, other));
    }
}

proof fn lemma_unchanged_both(before: Seq<FileAbs>, after: Seq<FileAbs>, path: Seq<Seq<char>>)
    requires
        before.len() > 0,
        after.len() > 0,
        before[0].path != path,
        after[0].path == before[0].path,
        is_unchanged(before.drop_first(), after.drop_first(), path),
    ensures
        is_unchanged(before, after, path),
{
    lemma_unchanged_right(before.drop_first(), after, path);
    lemma_unchanged_left(before, after, path);
}

/// Whether a difference is one of the two trees.
pub open spec fn is_real(before: Seq<FileAbs>, after: Seq<FileAbs>, difference: Difference) -> bool {
    match difference {
        Difference::Created { after: file } => after.contains(file) && is_absent(
            before,
            file.path,
        ),
        Difference::Deleted { before: file } => before.contains(file) && is_absent(
            after,
            file.path,
        ),
        Difference::Changed { before: old_file, after: new_file } => {
            &&& before.contains(old_file)
            &&& after.contains(new_file)
            &&& old_file.path == new_file.path
            &&& (old_file.bytes != new_file.bytes || old_file.mode != new_file.mode)
        },
    }
}

proof fn lemma_earlier_is_absent(files: Seq<FileAbs>, path: Seq<Seq<char>>)
    requires
        in_path_order(file_paths(files)),
        files.len() > 0 ==> path_precedes(path, files[0].path),
    ensures
        is_absent(files, path),
{
    assert forall|i: int| 0 <= i < files.len() implies (#[trigger] files[i]).path != path by {
        let paths = file_paths(files);
        assert(paths[0] == files[0].path && paths[i] == files[i].path);
        if i > 0 {
            path_order_is_transitive(path, paths[0], paths[i]);
        }
        path_order_is_irreflexive(path);
    }
}

proof fn lemma_rest_is_part(files: Seq<FileAbs>)
    requires
        files.len() > 0,
    ensures
        files.contains(files[0]),
        forall|file: FileAbs| #[trigger]
            files.drop_first().contains(file) ==> files.contains(file),
        forall|path: Seq<Seq<char>>|
            is_absent(files.drop_first(), path) && path != files[0].path ==> #[trigger] is_absent(
                files,
                path,
            ),
{
    let rest = files.drop_first();
    assert forall|file: FileAbs| #[trigger] rest.contains(file) implies files.contains(file) by {
        let k = choose|k: int| 0 <= k < rest.len() && rest[k] == file;
        assert(files[k + 1] == file);
    }
    assert forall|path: Seq<Seq<char>>|
        is_absent(rest, path) && path != files[0].path implies #[trigger] is_absent(
        files,
        path,
    ) by {
        assert forall|i: int| 0 <= i < files.len() implies (#[trigger] files[i]).path != path by {
            if i > 0 {
                assert(rest[i - 1] == files[i]);
            }
        }
    }
}

proof fn lemma_first_is_absent_later(files: Seq<FileAbs>)
    requires
        in_path_order(file_paths(files)),
        files.len() > 0,
    ensures
        is_absent(files.drop_first(), files[0].path),
{
    let rest = files.drop_first();
    let paths = file_paths(files);
    lemma_rest_in_order(files);
    if rest.len() > 0 {
        assert(rest[0] == files[1]);
        assert(paths[0] == files[0].path && paths[1] == files[1].path);
    }
    lemma_earlier_is_absent(rest, files[0].path);
}

/// A path that is among the differences is not the same in both trees: the
/// file was made, or is gone, or has other bytes or permissions.
pub proof fn differences_are_real(before: Seq<FileAbs>, after: Seq<FileAbs>, i: int)
    requires
        in_path_order(file_paths(before)),
        in_path_order(file_paths(after)),
        0 <= i < differences(before, after).len(),
    ensures
        is_real(before, after, differences(before, after)[i]),
    decreases before.len() + after.len(),
{
    let all = differences(before, after);
    if after.len() == 0 || (before.len() > 0 && path_precedes(before[0].path, after[0].path)) {
        lemma_rest_in_order(before);
        lemma_rest_is_part(before);
        lemma_earlier_is_absent(after, before[0].path);
        if i > 0 {
            let rest = differences(before.drop_first(), after);
            assert(all[i] == rest[i - 1]);
            differences_are_real(before.drop_first(), after, i - 1);
        }
    } else if before.len() == 0 || path_precedes(after[0].path, before[0].path) {
        lemma_rest_in_order(after);
        lemma_rest_is_part(after);
        lemma_earlier_is_absent(before, after[0].path);
        if i > 0 {
            let rest = differences(before, after.drop_first());
            assert(all[i] == rest[i - 1]);
            differences_are_real(before, after.drop_first(), i - 1);
        }
    } else {
        path_order_is_total(before[0].path, after[0].path);
        lemma_rest_in_order(before);
        lemma_rest_in_order(after);
        lemma_rest_is_part(before);
        lemma_rest_is_part(after);
        lemma_first_is_absent_later(before);
        lemma_first_is_absent_later(after);
        let rest = differences(before.drop_first(), after.drop_first());
        if before[0].bytes == after[0].bytes && before[0].mode == after[0].mode {
            differences_are_real(before.drop_first(), after.drop_first(), i);
        } else if i > 0 {
            assert(all[i] == rest[i - 1]);
            differences_are_real(before.drop_first(), after.drop_first(), i - 1);
        }
    }
}

/// Files by path, with their permissions.
pub type Tree = Map<Seq<Seq<char>>, (Seq<u8>, u32)>;

/// A tree with some more files.
pub open spec fn with_files(tree: Tree, files: Seq<FileAbs>) -> Tree
    decreases files.len(),
{
    if files.len() == 0 {
        tree
    } else {
        with_files(
            tree.insert(files[0].path, (files[0].bytes, files[0].mode)),
            files.drop_first(),
        )
    }
}

/// A tree with a difference made.
pub open spec fn with_difference(tree: Tree, difference: Difference) -> Tree {
    match difference {
        Difference::Created { after } => tree.insert(after.path, (after.bytes, after.mode)),
        Difference::Deleted { before } => tree.remove(before.path),
        Difference::Changed { before, after } => tree.insert(
            after.path,
            (after.bytes, after.mode),
        ),
    }
}

/// A tree with some differences made, one after the other.
pub open spec fn with_differences(tree: Tree, all: Seq<Difference>) -> Tree
    decreases all.len(),
{
    if all.len() == 0 {
        tree
    } else {
        with_differences(with_difference(tree, all[0]), all.drop_first())
    }
}

proof fn lemma_insert_later(
    tree: Tree,
    files: Seq<FileAbs>,
    path: Seq<Seq<char>>,
    value: (Seq<u8>, u32),
)
    requires
        is_absent(files, path),
    ensures
        with_files(tree, files).insert(path, value) == with_files(tree.insert(path, value), files),
    decreases files.len(),
{
    if files.len() > 0 {
        let first = files[0];
        let rest = files.drop_first();
        let content = (first.bytes, first.mode);
        assert(is_absent(rest, path)) by {
            assert forall|i: int| 0 <= i < rest.len() implies (#[trigger] rest[i]).path
                != path by {
                assert(files[i + 1] == rest[i]);
            }
        }
        lemma_insert_later(tree.insert(first.path, content), rest, path, value);
        assert(tree.insert(first.path, content).insert(path, value) =~= tree.insert(
            path,
            value,
        ).insert(first.path, content));
    }
}

proof fn lemma_remove_later(tree: Tree, files: Seq<FileAbs>, path: Seq<Seq<char>>)
    requires
        is_absent(files, path),
    ensures
        with_files(tree, files).remove(path) == with_files(tree.remove(path), files),
    decreases files.len(),
{
    if files.len() > 0 {
        let first = files[0];
        let rest = files.drop_first();
        let content = (first.bytes, first.mode);
        assert(is_absent(rest, path)) by {
            assert forall|i: int| 0 <= i < rest.len() implies (#[trigger] rest[i]).path
                != path by {
                assert(files[i + 1] == rest[i]);
            }
        }
        lemma_remove_later(tree.insert(first.path, content), rest, path);
        assert(tree.insert(first.path, content).remove(path) =~= tree.remove(path).insert(
            first.path,
            content,
        ));
    }
}

/// Whether a tree has none of the files.
pub open spec fn is_apart(tree: Tree, files: Seq<FileAbs>) -> bool {
    forall|i: int| 0 <= i < files.len() ==> !tree.contains_key((#[trigger] files[i]).path)
}

proof fn lemma_rest_is_apart(tree: Tree, files: Seq<FileAbs>)
    requires
        is_apart(tree, files),
    ensures
        files.len() > 0 ==> is_apart(tree, files.drop_first()),
{
    if files.len() > 0 {
        let rest = files.drop_first();
        assert forall|i: int| 0 <= i < rest.len() implies !tree.contains_key(
            (#[trigger] rest[i]).path,
        ) by {
            assert(files[i + 1] == rest[i]);
        }
    }
}

proof fn lemma_rebuilt(tree: Tree, before: Seq<FileAbs>, after: Seq<FileAbs>)
    requires
        in_path_order(file_paths(before)),
        in_path_order(file_paths(after)),
        is_apart(tree, before),
        is_apart(tree, after),
    ensures
        with_differences(with_files(tree, before), differences(before, after)) == with_files(
            tree,
            after,
        ),
    decreases before.len() + after.len(),
{
    let all = differences(before, after);
    lemma_rest_in_order(before);
    lemma_rest_in_order(after);
    lemma_rest_is_apart(tree, before);
    lemma_rest_is_apart(tree, after);
    if before.len() == 0 && after.len() == 0 {
    } else if after.len() == 0 || (before.len() > 0 && path_precedes(
        before[0].path,
        after[0].path,
    )) {
        let first = before[0];
        let rest = before.drop_first();
        let content = (first.bytes, first.mode);
        assert(all[0] == Difference::Deleted { before: first });
        assert(all.drop_first() =~= differences(rest, after));
        lemma_first_is_absent_later(before);
        lemma_remove_later(tree.insert(first.path, content), rest, first.path);
        assert(tree.insert(first.path, content).remove(first.path) =~= tree);
        lemma_rebuilt(tree, rest, after);
    } else if before.len() == 0 || path_precedes(after[0].path, before[0].path) {
        let first = after[0];
        let rest = after.drop_first();
        let content = (first.bytes, first.mode);
        let next = tree.insert(first.path, content);
        assert(all[0] == Difference::Created { after: first });
        assert(all.drop_first() =~= differences(before, rest));
        lemma_earlier_is_absent(before, first.path);
        lemma_first_is_absent_later(after);
        lemma_insert_later(tree, before, first.path, content);
        lemma_rebuilt(next, before, rest);
    } else {
        path_order_is_total(before[0].path, after[0].path);
        let old_file = before[0];
        let new_file = after[0];
        let content = (new_file.bytes, new_file.mode);
        let next = tree.insert(new_file.path, content);
        let rest = differences(before.drop_first(), after.drop_first());
        lemma_first_is_absent_later(before);
        lemma_first_is_absent_later(after);
        lemma_rebuilt(next, before.drop_first(), after.drop_first());
        if old_file.bytes != new_file.bytes || old_file.mode != new_file.mode {
            let held = tree.insert(old_file.path, (old_file.bytes, old_file.mode));
            assert(all[0] == Difference::Changed { before: old_file, after: new_file });
            assert(all.drop_first() =~= rest);
            lemma_insert_later(held, before.drop_first(), new_file.path, content);
            assert(held.insert(new_file.path, content) =~= next);
        }
    }
}

/// The differences between two trees make the one from the other.
pub proof fn differences_rebuild_the_tree(before: Seq<FileAbs>, after: Seq<FileAbs>)
    requires
        in_path_order(file_paths(before)),
        in_path_order(file_paths(after)),
    ensures
        with_differences(
            with_files(Map::empty(), before),
            differences(before, after),
        ) == with_files(Map::empty(), after),
{
    lemma_rebuilt(Map::empty(), before, after);
}

/// Whatever is committed lies in the envelope that the shell declared: every
/// path that differs is covered by an expected path, keeps its permissions,
/// and no symbolic link has changed.
pub proof fn commits_stay_in_the_envelope(
    before: TreeAbs,
    after: TreeAbs,
    expected: Seq<Seq<char>>,
    i: int,
)
    requires
        diff(before, after, expected) is Ok,
        0 <= i < differences(before.files, after.files).len(),
    ensures
        ({
            let difference = differences(before.files, after.files)[i];
            &&& is_expected(expected, shown(path_of(difference)))
            &&& difference matches Difference::Changed { before: b, after: a } ==> b.mode
                == a.mode
            &&& equal_links(before.symlinks, after.symlinks)
            &&& differences(before.files, after.files).len() <= MAX_COW_CHANGES
        }),
{
    let all = differences(before.files, after.files);
    lemma_operations(all, expected, all.len() as int, i);
}

proof fn lemma_operations(all: Seq<Difference>, expected: Seq<Seq<char>>, n: int, i: int)
    requires
        operations_of(all, expected, n) is Ok,
        0 <= i < n <= all.len(),
    ensures
        operation_of(all[i], expected) is Ok,
        operations_of(all, expected, n)->Ok_0.len() == n,
    decreases n,
{
    if n > 1 {
        if i < n - 1 {
            lemma_operations(all, expected, n - 1, i);
        } else {
            lemma_operations(all, expected, n - 1, 0);
        }
    } else {
        assert(operations_of(all, expected, 0)->Ok_0.len() == 0);
    }
}

} // verus!
