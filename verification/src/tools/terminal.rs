//! Programs and directories that terminals may use.

use vstd::prelude::*;
use vstd::string::*;

use super::path_order::{in_path_order, insert_path, paths_abs};
use super::repo_path::{lies_below, slashed, RepoPath};
use crate::ids::{quoted, quoted_text};
use crate::text::{begins, contains_char, pieces, same_text, split, starts_with};
use crate::value::{contents, Abstract};

verus! {

// ---------------------------------------------------------------------------
// Programs
// ---------------------------------------------------------------------------

/// How a program is looked for.
#[derive(Clone, Copy, Debug, Eq, PartialEq, Structural)]
pub enum ProgramLookup {
    /// At its own path.
    Absolute,
    /// Below the working directory.
    Relative,
    /// In the directories of `PATH`.
    Search,
}

/// How many components the first `n` pieces of a path make: empty pieces and
/// the current directory make none, but for one at the beginning.
pub open spec fn component_count(parts: Seq<Seq<char>>, n: int) -> int
    decreases n,
{
    if n <= 0 {
        0
    } else {
        component_count(parts, n - 1) + if parts[n - 1].len() == 0 || (parts[n - 1] == "."@ && n
            > 1) {
            0int
        } else {
            1int
        }
    }
}

/// How a program is looked for.
pub open spec fn lookup_of(program: Seq<char>) -> ProgramLookup {
    let parts = pieces(program, '/');
    if begins(program, seq!['/']) {
        ProgramLookup::Absolute
    } else if component_count(parts, parts.len() as int) > 1 {
        ProgramLookup::Relative
    } else {
        ProgramLookup::Search
    }
}

/// How a program is looked for.
pub fn program_lookup(program: &str) -> (r: ProgramLookup)
    ensures
        r == lookup_of(program@),
{
    proof {
        reveal_strlit("/");
        assert("/"@ =~= seq!['/']);
    }
    if starts_with(program, "/") {
        return ProgramLookup::Absolute;
    }
    let parts: Vec<String> = split(program, '/');
    let ghost all = pieces(program@, '/');
    let mut count: usize = 0;
    let mut i: usize = 0;
    while i < parts.len()
        invariant
            i <= parts@.len(),
            contents(parts@) == all,
            count == component_count(all, i as int),
            count <= i,
        decreases parts@.len() - i,
    {
        assert(all[i as int] == parts@[i as int]@);
        let skipped: bool = parts[i].as_str().is_empty() || (same_text(parts[i].as_str(), ".") && i
            > 0);
        if !skipped {
            count += 1;
        }
        i += 1;
    }
    if count > 1 {
        ProgramLookup::Relative
    } else {
        ProgramLookup::Search
    }
}

/// What was found where a program was looked for.
#[derive(Clone, Debug)]
pub struct ProgramProbe {
    /// Whether the environment has a `PATH`.
    pub has_path: bool,
    /// Whether a file was found.
    pub found: bool,
    /// Where the file really is.
    pub canonical: Option<String>,
    /// Whether that is a regular file, and its mode.
    pub metadata: Option<(bool, u32)>,
}

/// A program that can be run.
#[derive(Clone, Debug, Eq, PartialEq)]
pub struct ResolvedProgram {
    pub executable: String,
    pub argv0: String,
}

/// Whether a mode lets anyone execute the file.
pub open spec fn is_executable(mode: u32) -> bool {
    mode / 64 % 2 == 1 || mode / 8 % 2 == 1 || mode % 2 == 1
}

/// Whether a program exists, where that can be told.
pub fn program_candidate_exists(program: &str, probe: &ProgramProbe) -> (r: Option<bool>)
    ensures
        r == if lookup_of(program@) == ProgramLookup::Search && !probe.has_path {
            None::<bool>
        } else {
            Some(probe.found)
        },
{
    if program_lookup(program) == ProgramLookup::Search && !probe.has_path {
        None
    } else {
        Some(probe.found)
    }
}

/// Why a program cannot be run.
pub open spec fn program_failure(program: Seq<char>, probe: ProgramProbe) -> Option<Seq<char>> {
    let searched = lookup_of(program) == ProgramLookup::Search;
    if searched && !probe.has_path {
        Some("relative process program requires admitted PATH"@)
    } else if searched && !probe.found {
        Some("process program was not found in admitted PATH"@)
    } else {
        match (probe.canonical, probe.metadata) {
            (None, _) => Some("failed to resolve process program "@ + quoted(program)),
            (Some(path), None) => Some("failed to inspect process program "@ + path@),
            (Some(path), Some((is_file, mode))) => if !is_file {
                Some("process program is not a regular file"@)
            } else if !is_executable(mode) {
                Some("process program is not executable"@)
            } else {
                None
            },
        }
    }
}

/// The program that a name stands for. It is run under the name that was asked
/// for, whatever file it leads to.
pub fn resolve_program(program: &str, probe: &ProgramProbe) -> (r: Result<ResolvedProgram, String>)
    ensures
        match program_failure(program@, *probe) {
            Some(error) => r is Err && r->Err_0@ == error,
            None => r matches Ok(resolved) && resolved.argv0@ == program@ && Some(
                resolved.executable@,
            ) == probe.canonical.abs(),
        },
{
    let searched: bool = program_lookup(program) == ProgramLookup::Search;
    if searched && !probe.has_path {
        return Err("relative process program requires admitted PATH".to_owned());
    }
    if searched && !probe.found {
        return Err("process program was not found in admitted PATH".to_owned());
    }
    let executable: String = match &probe.canonical {
        Some(path) => path.clone(),
        None => {
            return Err(
                "failed to resolve process program ".to_owned().concat(
                    quoted_text(program).as_str(),
                ),
            );
        },
    };
    let (is_file, mode): (bool, u32) = match probe.metadata {
        Some(metadata) => metadata,
        None => {
            return Err(
                "failed to inspect process program ".to_owned().concat(executable.as_str()),
            );
        },
    };
    if !is_file {
        return Err("process program is not a regular file".to_owned());
    }
    if !(mode / 64 % 2 == 1 || mode / 8 % 2 == 1 || mode % 2 == 1) {
        return Err("process program is not executable".to_owned());
    }
    Ok(ResolvedProgram { executable, argv0: program.to_owned() })
}

/// What is told of a program that does not exist.
pub fn missing_program(program: &str) -> (r: String)
    ensures
        r@ == "process program was not found: "@ + quoted(program@),
{
    "process program was not found: ".to_owned().concat(quoted_text(program).as_str())
}

// ---------------------------------------------------------------------------
// Runtime roots
// ---------------------------------------------------------------------------

/// A configured directory, by its segments from the root, and where it really
/// is.
#[derive(Clone, Debug)]
pub struct RootProbe {
    pub path: RepoPath,
    pub canonical: Option<RepoPath>,
    pub is_directory: bool,
}

/// Why the first of the first `n` configured directories that is refused is.
pub open spec fn roots_failure(configured: Seq<RootProbe>, n: int) -> Option<Seq<char>>
    decreases n,
{
    if n <= 0 {
        None
    } else {
        match roots_failure(configured, n - 1) {
            Some(error) => Some(error),
            None => match configured[n - 1].canonical {
                None => Some(
                    "failed to canonicalize terminal runtime root /"@ + slashed(
                        configured[n - 1].path@,
                    ),
                ),
                Some(canonical) => if canonical@ != configured[n - 1].path@
                    || !configured[n - 1].is_directory {
                    Some("terminal runtime roots must be existing canonical directories"@)
                } else {
                    None
                },
            },
        }
    }
}

proof fn lemma_roots_fail(configured: Seq<RootProbe>, n: int, m: int)
    requires
        0 <= n <= m,
        roots_failure(configured, n) is Some,
    ensures
        roots_failure(configured, m) == roots_failure(configured, n),
    decreases m,
{
    if n < m {
        lemma_roots_fail(configured, n, m - 1);
    }
}

/// Whether a path is one of the first `n` directories.
pub open spec fn is_root(
    standard: Seq<RepoPath>,
    configured: Seq<RootProbe>,
    n: int,
    path: Seq<Seq<char>>,
) -> bool {
    paths_abs(standard).contains(path) || exists|i: int|
        0 <= i < n && (#[trigger] configured[i]).path@ == path
}

/// The directories that a terminal may read: the standard and the configured
/// ones, in order and each once.
pub fn canonical_terminal_runtime_roots(standard: &Vec<RepoPath>, configured: &Vec<RootProbe>) -> (r:
    Result<Vec<RepoPath>, String>)
    ensures
        match roots_failure(configured@, configured@.len() as int) {
            Some(error) => r is Err && r->Err_0@ == error,
            None => if standard@.len() == 0 && configured@.len() == 0 {
                r is Err && r->Err_0@ == "persistent terminal has no admitted Linux runtime roots"@
            } else {
                r matches Ok(roots) && in_path_order(paths_abs(roots@)) && forall|path: Seq<Seq<char>>|
                    #![trigger paths_abs(roots@).contains(path)]
                    paths_abs(roots@).contains(path) <==> is_root(
                        standard@,
                        configured@,
                        configured@.len() as int,
                        path,
                    )
            },
        },
{
    let mut roots: Vec<RepoPath> = Vec::new();
    let mut i: usize = 0;
    assert(paths_abs(roots@) =~= Seq::<Seq<Seq<char>>>::empty());
    while i < standard.len()
        invariant
            i <= standard@.len(),
            in_path_order(paths_abs(roots@)),
            forall|path: Seq<Seq<char>>|
                #![trigger paths_abs(roots@).contains(path)]
                paths_abs(roots@).contains(path) <==> paths_abs(standard@).take(
                    i as int,
                ).contains(path),
        decreases standard@.len() - i,
    {
        let ghost before = paths_abs(roots@);
        let ghost all = paths_abs(standard@);
        insert_path(&mut roots, standard[i].duplicate());
        proof {
            let now = paths_abs(roots@);
            let less = all.take(i as int);
            let more = all.take(i + 1);
            assert(all[i as int] == standard@[i as int]@);
            assert forall|path: Seq<Seq<char>>|
                #![trigger now.contains(path)]
                now.contains(path) <==> more.contains(path) by {
                assert(now.contains(path) <==> before.contains(path) || all[i as int] == path);
                assert(before.contains(path) <==> less.contains(path));
                if less.contains(path) {
                    let k = choose|k: int| 0 <= k < less.len() && less[k] == path;
                    assert(more[k] == path);
                }
                if all[i as int] == path {
                    assert(more[i as int] == path);
                }
                if more.contains(path) {
                    let k = choose|k: int| 0 <= k < more.len() && more[k] == path;
                    if k < i {
                        assert(less[k] == path);
                    }
                }
            }
        }
        i += 1;
    }
    assert(paths_abs(standard@).take(i as int) =~= paths_abs(standard@));
    let mut j: usize = 0;
    while j < configured.len()
        invariant
            j <= configured@.len(),
            roots_failure(configured@, j as int) is None,
            in_path_order(paths_abs(roots@)),
            forall|path: Seq<Seq<char>>|
                #![trigger paths_abs(roots@).contains(path)]
                paths_abs(roots@).contains(path) <==> is_root(
                    standard@,
                    configured@,
                    j as int,
                    path,
                ),
        decreases configured@.len() - j,
    {
        let probe: &RootProbe = &configured[j];
        let valid: bool = match &probe.canonical {
            None => {
                proof {
                    lemma_roots_fail(configured@, j + 1, configured@.len() as int);
                }
                return Err(
                    "failed to canonicalize terminal runtime root /".to_owned().concat(
                        probe.path.display().as_str(),
                    ),
                );
            },
            Some(canonical) => canonical.same(&probe.path) && probe.is_directory,
        };
        if !valid {
            proof {
                lemma_roots_fail(configured@, j + 1, configured@.len() as int);
            }
            return Err(
                "terminal runtime roots must be existing canonical directories".to_owned(),
            );
        }
        let ghost before = paths_abs(roots@);
        insert_path(&mut roots, probe.path.duplicate());
        proof {
            let now = paths_abs(roots@);
            assert forall|path: Seq<Seq<char>>|
                #![trigger now.contains(path)]
                now.contains(path) <==> is_root(standard@, configured@, j + 1, path) by {
                assert(now.contains(path) <==> before.contains(path) || probe.path@ == path);
                assert(before.contains(path) <==> is_root(standard@, configured@, j as int, path));
                if probe.path@ == path {
                    assert(configured@[j as int].path@ == path);
                }
                if is_root(standard@, configured@, j as int, path) && !paths_abs(
                    standard@,
                ).contains(path) {
                    let k = choose|k: int|
                        0 <= k < j && (#[trigger] configured@[k]).path@ == path;
                    assert(configured@[k].path@ == path);
                }
            }
        }
        j += 1;
    }
    if roots.len() == 0 {
        proof {
            let all = paths_abs(roots@);
            assert(all.len() == 0);
            if standard@.len() > 0 {
                assert(paths_abs(standard@).contains(paths_abs(standard@)[0]));
                assert(is_root(
                    standard@,
                    configured@,
                    configured@.len() as int,
                    paths_abs(standard@)[0],
                ));
                assert(all.contains(paths_abs(standard@)[0]));
            }
            if configured@.len() > 0 {
                assert(configured@[0].path@ == configured@[0].path@);
                assert(is_root(
                    standard@,
                    configured@,
                    configured@.len() as int,
                    configured@[0].path@,
                ));
                assert(all.contains(configured@[0].path@));
            }
        }
        return Err("persistent terminal has no admitted Linux runtime roots".to_owned());
    }
    proof {
        if standard@.len() == 0 && configured@.len() == 0 {
            let all = paths_abs(roots@);
            assert(all.contains(all[0]));
            assert(is_root(standard@, configured@, 0, all[0]));
        }
    }
    Ok(roots)
}

// ---------------------------------------------------------------------------
// The search path of a terminal
// ---------------------------------------------------------------------------

/// A directory that may come into the search path.
#[derive(Clone, Debug)]
pub struct PathCandidate {
    pub path: RepoPath,
    pub is_directory: bool,
    /// Whether it holds the `ls` utility.
    pub has_ls: bool,
}

/// A root with the directory of programs in it.
#[derive(Clone, Debug)]
pub struct RootCandidate {
    pub root: PathCandidate,
    pub bin: Option<PathCandidate>,
}

/// Whether a path lies at or below one of the roots.
pub open spec fn is_admitted(roots: Seq<RepoPath>, path: Seq<Seq<char>>) -> bool {
    exists|i: int| 0 <= i < roots.len() && lies_below(path, (#[trigger] roots[i])@)
}

fn admits(roots: &Vec<RepoPath>, path: &RepoPath) -> (b: bool)
    ensures
        b == is_admitted(roots@, path@),
{
    let mut i: usize = 0;
    while i < roots.len()
        invariant
            i <= roots@.len(),
            forall|k: int| 0 <= k < i ==> !lies_below(path@, (#[trigger] roots@[k])@),
        decreases roots@.len() - i,
    {
        if path.is_below(&roots[i]) {
            assert(lies_below(path@, roots@[i as int]@));
            return true;
        }
        i += 1;
    }
    false
}

/// The admitted ones of the first `n` candidates, each once and in their
/// order.
pub open spec fn search_path(
    roots: Seq<RepoPath>,
    candidates: Seq<PathCandidate>,
    n: int,
) -> Seq<Seq<Seq<char>>>
    decreases n,
{
    if n <= 0 {
        Seq::empty()
    } else {
        let before = search_path(roots, candidates, n - 1);
        let candidate = candidates[n - 1];
        if candidate.is_directory && is_admitted(roots, candidate.path@) && !before.contains(
            candidate.path@,
        ) {
            before.push(candidate.path@)
        } else {
            before
        }
    }
}

/// Whether an admitted one of the first `n` candidates holds `ls`. Of a path
/// that occurs more than once the first candidate counts.
pub open spec fn provides_ls(
    roots: Seq<RepoPath>,
    candidates: Seq<PathCandidate>,
    n: int,
) -> bool
    decreases n,
{
    if n <= 0 {
        false
    } else {
        let before = search_path(roots, candidates, n - 1);
        let candidate = candidates[n - 1];
        provides_ls(roots, candidates, n - 1) || (candidate.has_ls && candidate.is_directory
            && is_admitted(roots, candidate.path@) && !before.contains(candidate.path@))
    }
}

/// The candidates in the order in which they are looked at: the inherited
/// path, the directory of the shell, and of each root the root itself, where
/// it is a directory of programs, and the one in it.
pub fn path_candidates(
    inherited: &Vec<PathCandidate>,
    shell_parent: &Option<PathCandidate>,
    roots: &Vec<RootCandidate>,
) -> (r: Vec<PathCandidate>)
    ensures
        candidates_abs(r@) == candidates_abs(inherited@) + parent_candidates(*shell_parent)
            + root_candidates(roots@, roots@.len() as int),
{
    let mut out: Vec<PathCandidate> = Vec::new();
    let mut i: usize = 0;
    assert(candidates_abs(out@) =~= candidates_abs(inherited@).take(0));
    while i < inherited.len()
        invariant
            i <= inherited@.len(),
            candidates_abs(out@) == candidates_abs(inherited@).take(i as int),
        decreases inherited@.len() - i,
    {
        let ghost before = candidates_abs(out@);
        let next: PathCandidate = copy_candidate(&inherited[i]);
        out.push(next);
        assert(candidates_abs(out@) =~= before.push(candidate_abs(inherited@[i as int])));
        i += 1;
        assert(candidates_abs(inherited@).take(i as int) =~= before.push(
            candidate_abs(inherited@[i - 1]),
        ));
    }
    assert(candidates_abs(inherited@).take(i as int) =~= candidates_abs(inherited@));
    let ghost first = candidates_abs(out@);
    if let Some(parent) = shell_parent {
        out.push(copy_candidate(parent));
    }
    assert(candidates_abs(out@) =~= first + parent_candidates(*shell_parent));
    let ghost second = candidates_abs(out@);
    let mut j: usize = 0;
    assert(candidates_abs(out@) =~= second + root_candidates(roots@, 0));
    while j < roots.len()
        invariant
            j <= roots@.len(),
            candidates_abs(out@) == second + root_candidates(roots@, j as int),
        decreases roots@.len() - j,
    {
        let ghost before = candidates_abs(out@);
        let root: &RootCandidate = &roots[j];
        let count: usize = root.root.path.segments.len();
        if count > 0 {
            assert(root.root.path@.last() == root.root.path.segments@[count - 1]@);
        }
        if count > 0 && same_text(root.root.path.segments[count - 1].as_str(), "bin") {
            out.push(copy_candidate(&root.root));
        }
        if let Some(bin) = &root.bin {
            out.push(copy_candidate(bin));
        }
        j += 1;
        assert(candidates_abs(out@) =~= before + one_root(*root));
        assert(candidates_abs(out@) =~= second + root_candidates(roots@, j as int));
    }
    out
}

/// The content of a candidate.
pub struct CandidateAbs {
    pub path: Seq<Seq<char>>,
    pub is_directory: bool,
    pub has_ls: bool,
}

pub open spec fn candidate_abs(candidate: PathCandidate) -> CandidateAbs {
    CandidateAbs {
        path: candidate.path@,
        is_directory: candidate.is_directory,
        has_ls: candidate.has_ls,
    }
}

pub open spec fn candidates_abs(candidates: Seq<PathCandidate>) -> Seq<CandidateAbs> {
    Seq::new(candidates.len(), |i: int| candidate_abs(candidates[i]))
}

pub open spec fn parent_candidates(parent: Option<PathCandidate>) -> Seq<CandidateAbs> {
    match parent {
        Some(parent) => seq![candidate_abs(parent)],
        None => Seq::empty(),
    }
}

/// The candidates of one root.
pub open spec fn one_root(root: RootCandidate) -> Seq<CandidateAbs> {
    (if root.root.path@.len() > 0 && root.root.path@.last() == "bin"@ {
        seq![candidate_abs(root.root)]
    } else {
        Seq::empty()
    }) + (match root.bin {
        Some(bin) => seq![candidate_abs(bin)],
        None => Seq::empty(),
    })
}

/// The candidates of the first `n` roots.
pub open spec fn root_candidates(roots: Seq<RootCandidate>, n: int) -> Seq<CandidateAbs>
    decreases n,
{
    if n <= 0 {
        Seq::empty()
    } else {
        root_candidates(roots, n - 1) + one_root(roots[n - 1])
    }
}

fn copy_candidate(candidate: &PathCandidate) -> (r: PathCandidate)
    ensures
        candidate_abs(r) == candidate_abs(*candidate),
{
    PathCandidate {
        path: candidate.path.duplicate(),
        is_directory: candidate.is_directory,
        has_ls: candidate.has_ls,
    }
}

fn has_path(paths: &Vec<RepoPath>, path: &RepoPath) -> (b: bool)
    ensures
        b == paths_abs(paths@).contains(path@),
{
    let ghost all = paths_abs(paths@);
    let mut i: usize = 0;
    while i < paths.len()
        invariant
            i <= paths@.len(),
            all == paths_abs(paths@),
            forall|k: int| 0 <= k < i ==> #[trigger] all[k] != path@,
        decreases paths@.len() - i,
    {
        assert(all[i as int] == paths@[i as int]@);
        if paths[i].same(path) {
            assert(all[i as int] == path@);
            return true;
        }
        i += 1;
    }
    false
}

/// The search path of a managed terminal: the candidates that lie in admitted
/// directories. The shell itself must lie there, and `ls` must be found.
pub fn build_managed_terminal_path(
    shell_program: &RepoPath,
    admitted_roots: &Vec<RepoPath>,
    candidates: &Vec<PathCandidate>,
) -> (r: Result<Vec<RepoPath>, &'static str>)
    ensures
        ({
            let n = candidates@.len() as int;
            if !is_admitted(admitted_roots@, shell_program@) {
                r == Err::<Vec<RepoPath>, &'static str>(
                    "configured shell is outside admitted terminal runtime roots",
                )
            } else if !provides_ls(admitted_roots@, candidates@, n) {
                r == Err::<Vec<RepoPath>, &'static str>(
                    "admitted terminal PATH does not provide the required `ls` utility",
                )
            } else {
                r matches Ok(paths) && paths_abs(paths@) == search_path(
                    admitted_roots@,
                    candidates@,
                    n,
                )
            }
        }),
{
    if !admits(admitted_roots, shell_program) {
        return Err("configured shell is outside admitted terminal runtime roots");
    }
    let mut paths: Vec<RepoPath> = Vec::new();
    let mut lists: bool = false;
    let mut i: usize = 0;
    assert(paths_abs(paths@) =~= Seq::<Seq<Seq<char>>>::empty());
    while i < candidates.len()
        invariant
            i <= candidates@.len(),
            is_admitted(admitted_roots@, shell_program@),
            paths_abs(paths@) == search_path(admitted_roots@, candidates@, i as int),
            lists == provides_ls(admitted_roots@, candidates@, i as int),
        decreases candidates@.len() - i,
    {
        let candidate: &PathCandidate = &candidates[i];
        if candidate.is_directory && admits(admitted_roots, &candidate.path) && !has_path(
            &paths,
            &candidate.path,
        ) {
            let ghost before = paths_abs(paths@);
            paths.push(candidate.path.duplicate());
            assert(paths_abs(paths@) =~= before.push(candidate.path@));
            lists = lists || candidate.has_ls;
        }
        i += 1;
    }
    if !lists {
        return Err("admitted terminal PATH does not provide the required `ls` utility");
    }
    Ok(paths)
}

/// A search path as text: absolute paths, with colons between them.
pub open spec fn joined(paths: Seq<Seq<Seq<char>>>) -> Seq<char>
    decreases paths.len(),
{
    if paths.len() == 0 {
        Seq::empty()
    } else if paths.len() == 1 {
        "/"@ + slashed(paths[0])
    } else {
        joined(paths.drop_last()) + ":"@ + ("/"@ + slashed(paths.last()))
    }
}

/// Whether one of the paths cannot stand in a search path.
pub open spec fn holds_colon(paths: Seq<Seq<Seq<char>>>) -> bool {
    exists|i: int| 0 <= i < paths.len() && slashed(#[trigger] paths[i]).contains(':')
}

/// The text of a search path.
pub fn join_paths(paths: &Vec<RepoPath>) -> (r: Result<String, &'static str>)
    ensures
        if holds_colon(paths_abs(paths@)) {
            r == Err::<String, &'static str>("failed to join admitted terminal PATH")
        } else {
            r is Ok && r->Ok_0@ == joined(paths_abs(paths@))
        },
{
    let ghost all = paths_abs(paths@);
    let mut out: String = String::new();
    let mut i: usize = 0;
    assert(joined(all.take(0)) =~= Seq::<char>::empty());
    while i < paths.len()
        invariant
            i <= paths@.len(),
            all == paths_abs(paths@),
            out@ == joined(all.take(i as int)),
            forall|k: int| 0 <= k < i ==> !slashed(#[trigger] all[k]).contains(':'),
        decreases paths@.len() - i,
    {
        let ghost next = all.take(i + 1);
        assert(next.drop_last() =~= all.take(i as int));
        assert(next.last() == all[i as int]);
        assert(all[i as int] == paths@[i as int]@);
        let shown: String = paths[i].display();
        if contains_char(shown.as_str(), ':') {
            assert(slashed(all[i as int]).contains(':'));
            return Err("failed to join admitted terminal PATH");
        }
        if i > 0 {
            out.append(":");
        }
        out.append("/");
        out.append(shown.as_str());
        i += 1;
        assert(out@ =~= joined(next));
    }
    assert(all.take(i as int) =~= all);
    Ok(out)
}

/// Every directory of the search path lies in an admitted one, and none occurs
/// twice.
pub proof fn search_paths_are_admitted(
    roots: Seq<RepoPath>,
    candidates: Seq<PathCandidate>,
    n: int,
)
    requires
        0 <= n <= candidates.len(),
    ensures
        search_path(roots, candidates, n).no_duplicates(),
        forall|i: int|
            0 <= i < search_path(roots, candidates, n).len() ==> is_admitted(
                roots,
                #[trigger] search_path(roots, candidates, n)[i],
            ),
    decreases n,
{
    if n > 0 {
        search_paths_are_admitted(roots, candidates, n - 1);
        let before = search_path(roots, candidates, n - 1);
        let now = search_path(roots, candidates, n);
        assert forall|i: int| 0 <= i < now.len() implies is_admitted(roots, #[trigger] now[i]) by {
            if i < before.len() {
                assert(now[i] == before[i]);
            }
        }
    }
}

} // verus!
