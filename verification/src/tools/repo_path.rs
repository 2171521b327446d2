//! Paths within a repository.

use vstd::prelude::*;
use vstd::string::*;

use crate::text::{
    begins, blank, contains_char, is_blank, pieces, same_text, split, starts_with,
};
use crate::value::{contents, Abstract};

verus! {

/// A normalized path below the root of a repository, segment by segment. The
/// root has no segments.
#[derive(Clone, Debug, Eq, PartialEq)]
pub struct RepoPath {
    pub segments: Vec<String>,
}

/// Segments with slashes between them.
pub open spec fn slashed(segments: Seq<Seq<char>>) -> Seq<char>
    decreases segments.len(),
{
    if segments.len() == 0 {
        Seq::empty()
    } else if segments.len() == 1 {
        segments[0]
    } else {
        slashed(segments.drop_last()) + "/"@ + segments.last()
    }
}

/// Whether a path lies at or below another.
pub open spec fn lies_below(path: Seq<Seq<char>>, prefix: Seq<Seq<char>>) -> bool {
    prefix.len() <= path.len() && path.take(prefix.len() as int) == prefix
}

impl RepoPath {
    pub open spec fn view(&self) -> Seq<Seq<char>> {
        contents(self.segments@)
    }

    /// The path as text.
    pub fn display(&self) -> (r: String)
        ensures
            r@ == slashed(self@),
    {
        let ghost all = self@;
        let mut out: String = String::new();
        let mut i: usize = 0;
        assert(slashed(all.take(0)) =~= Seq::<char>::empty());
        while i < self.segments.len()
            invariant
                i <= self.segments@.len(),
                all == contents(self.segments@),
                out@ == slashed(all.take(i as int)),
            decreases self.segments@.len() - i,
        {
            let ghost next = all.take(i + 1);
            assert(next.drop_last() =~= all.take(i as int));
            assert(next.last() == self.segments@[i as int]@);
            if i > 0 {
                out.append("/");
            }
            out.append(self.segments[i].as_str());
            i += 1;
            assert(out@ =~= slashed(next));
        }
        assert(all.take(i as int) =~= all);
        out
    }

    pub fn is_below(&self, prefix: &RepoPath) -> (b: bool)
        ensures
            b == lies_below(self@, prefix@),
    {
        if prefix.segments.len() > self.segments.len() {
            return false;
        }
        let ghost head = self@.take(prefix@.len() as int);
        let mut i: usize = 0;
        while i < prefix.segments.len()
            invariant
                i <= prefix.segments@.len(),
                prefix.segments@.len() <= self.segments@.len(),
                head == self@.take(prefix@.len() as int),
                forall|k: int| 0 <= k < i ==> head[k] == #[trigger] prefix@[k],
            decreases prefix.segments@.len() - i,
        {
            assert(head[i as int] == self.segments@[i as int]@);
            assert(prefix@[i as int] == prefix.segments@[i as int]@);
            if self.segments[i] != prefix.segments[i] {
                assert(head[i as int] != prefix@[i as int]);
                return false;
            }
            i += 1;
        }
        assert(head =~= prefix@);
        true
    }

    pub fn same(&self, other: &RepoPath) -> (b: bool)
        ensures
            b == (self@ == other@),
    {
        self.segments.same(&other.segments)
    }

    pub fn duplicate(&self) -> (r: RepoPath)
        ensures
            r@ == self@,
    {
        RepoPath { segments: self.segments.duplicate() }
    }
}

/// Why a segment may not stand in a path.
pub open spec fn segment_failure(segment: Seq<char>) -> Option<&'static str> {
    if segment == ".."@ {
        Some("repository path cannot contain parent traversal")
    } else if segment == ".git"@ {
        Some("repository path cannot enter .git")
    } else if begins(segment, ".agl-fs-transaction-"@) {
        Some("repository path cannot enter the Tool transaction namespace")
    } else {
        None
    }
}

/// The first `n` pieces of a path, without those that are empty or stay where
/// they are.
pub open spec fn normalized(parts: Seq<Seq<char>>, n: int) -> Result<Seq<Seq<char>>, &'static str>
    decreases n,
{
    if n <= 0 {
        Ok(Seq::empty())
    } else {
        match normalized(parts, n - 1) {
            Err(error) => Err(error),
            Ok(segments) => if parts[n - 1].len() == 0 || parts[n - 1] == "."@ {
                Ok(segments)
            } else {
                match segment_failure(parts[n - 1]) {
                    Some(error) => Err(error),
                    None => Ok(segments.push(parts[n - 1])),
                }
            },
        }
    }
}

/// The path within a repository that a text names, or why it names none.
pub open spec fn repo_path(raw: Seq<char>, allow_root: bool) -> Result<
    Seq<Seq<char>>,
    &'static str,
> {
    if is_blank(raw) {
        Err("repository path cannot be blank")
    } else if raw.contains('\0') {
        Err("repository path contains NUL")
    } else if raw.contains('\\') {
        Err("repository path must use forward slashes")
    } else if begins(raw, seq!['/']) {
        Err("repository path cannot be absolute")
    } else {
        match normalized(pieces(raw, '/'), pieces(raw, '/').len() as int) {
            Err(error) => Err(error),
            Ok(segments) => if !allow_root && segments.len() == 0 {
                Err("repository path must name a file or subdirectory")
            } else {
                Ok(segments)
            },
        }
    }
}

fn check_segment(segment: &str) -> (r: Option<&'static str>)
    ensures
        r == segment_failure(segment@),
{
    if same_text(segment, "..") {
        Some("repository path cannot contain parent traversal")
    } else if same_text(segment, ".git") {
        Some("repository path cannot enter .git")
    } else if starts_with(segment, ".agl-fs-transaction-") {
        Some("repository path cannot enter the Tool transaction namespace")
    } else {
        None
    }
}

proof fn lemma_normalized_fails(parts: Seq<Seq<char>>, n: int, m: int)
    requires
        0 <= n <= m,
        normalized(parts, n) is Err,
    ensures
        normalized(parts, m) == normalized(parts, n),
    decreases m,
{
    if n < m {
        lemma_normalized_fails(parts, n, m - 1);
    }
}

/// The path within a repository that a text names.
pub fn normalize_repo_path(raw: &str, allow_root: bool) -> (r: Result<RepoPath, &'static str>)
    ensures
        match r {
            Ok(path) => repo_path(raw@, allow_root) == Ok::<Seq<Seq<char>>, &'static str>(path@),
            Err(error) => repo_path(raw@, allow_root) == Err::<Seq<Seq<char>>, &'static str>(
                error,
            ),
        },
{
    if blank(raw) {
        return Err("repository path cannot be blank");
    }
    if contains_char(raw, '\0') {
        return Err("repository path contains NUL");
    }
    if contains_char(raw, '\\') {
        return Err("repository path must use forward slashes");
    }
    proof {
        reveal_strlit("/");
        assert("/"@ =~= seq!['/']);
    }
    if starts_with(raw, "/") {
        return Err("repository path cannot be absolute");
    }
    let parts: Vec<String> = split(raw, '/');
    let ghost all = pieces(raw@, '/');
    let mut segments: Vec<String> = Vec::new();
    let mut i: usize = 0;
    assert(contents(segments@) =~= Seq::<Seq<char>>::empty());
    while i < parts.len()
        invariant
            i <= parts@.len(),
            all == pieces(raw@, '/'),
            contents(parts@) == all,
            !is_blank(raw@),
            !raw@.contains('\0'),
            !raw@.contains('\\'),
            !begins(raw@, seq!['/']),
            normalized(all, i as int) == Ok::<Seq<Seq<char>>, &'static str>(contents(segments@)),
        decreases parts@.len() - i,
    {
        assert(all[i as int] == parts@[i as int]@);
        let part: &String = &parts[i];
        if !part.as_str().is_empty() && !same_text(part.as_str(), ".") {
            if let Some(error) = check_segment(part.as_str()) {
                proof {
                    lemma_normalized_fails(all, i + 1, all.len() as int);
                }
                return Err(error);
            }
            let ghost before = contents(segments@);
            segments.push(part.clone());
            assert(contents(segments@) =~= before.push(part@));
        }
        i += 1;
    }
    if !allow_root && segments.len() == 0 {
        return Err("repository path must name a file or subdirectory");
    }
    Ok(RepoPath { segments })
}

/// A normalized path has no empty segment, never goes up, stays out of the
/// repository's own directory and out of transactions.
pub proof fn repo_paths_stay_inside(raw: Seq<char>, allow_root: bool, i: int)
    requires
        repo_path(raw, allow_root) is Ok,
        0 <= i < repo_path(raw, allow_root)->Ok_0.len(),
    ensures
        ({
            let segment = repo_path(raw, allow_root)->Ok_0[i];
            &&& segment.len() > 0
            &&& segment != "."@
            &&& segment != ".."@
            &&& segment != ".git"@
            &&& !begins(segment, ".agl-fs-transaction-"@)
        }),
{
    lemma_normalized_segments(pieces(raw, '/'), pieces(raw, '/').len() as int, i);
}

proof fn lemma_normalized_segments(parts: Seq<Seq<char>>, n: int, i: int)
    requires
        normalized(parts, n) is Ok,
        0 <= i < normalized(parts, n)->Ok_0.len(),
    ensures
        ({
            let segment = normalized(parts, n)->Ok_0[i];
            &&& segment.len() > 0
            &&& segment != "."@
            &&& segment_failure(segment) is None
        }),
    decreases n,
{
    if n > 0 {
        let before = normalized(parts, n - 1)->Ok_0;
        if i < before.len() {
            lemma_normalized_segments(parts, n - 1, i);
        }
    }
}

} // verus!
