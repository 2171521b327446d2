//! Artifacts that are registered in a repository, and access to them.

use vstd::prelude::*;
use vstd::string::*;

use super::repo_path::{
    lies_below, normalize_repo_path, repo_path, slashed, RepoPath,
};
use crate::text::{
    after, chars_of, is_whitespace, lines, lines_of, pieces, same_text, split, strip_prefix,
    strip_suffix, text_of, trim, trimmed, whitespace, without_prefix, without_suffix,
};
use crate::value::{contents, Abstract};

verus! {

// ---------------------------------------------------------------------------
// Registrations
// ---------------------------------------------------------------------------

/// What stands before and after the first white space.
pub open spec fn cut_at_space(s: Seq<char>, from: int) -> Option<(Seq<char>, Seq<char>)>
    decreases s.len() - from,
{
    if from >= s.len() {
        None
    } else if is_whitespace(s[from]) {
        Some((s.subrange(0, from), after(s, from + 1)))
    } else {
        cut_at_space(s, from + 1)
    }
}

fn split_at_space(text: &str) -> (r: Option<(String, String)>)
    ensures
        match r {
            Some((head, tail)) => cut_at_space(text@, 0) == Some((head@, tail@)),
            None => cut_at_space(text@, 0) is None,
        },
{
    let chars: Vec<char> = chars_of(text);
    let size: usize = chars.len();
    let mut i: usize = 0;
    while i < size
        invariant
            i <= size,
            size == chars@.len(),
            chars@ == text@,
            cut_at_space(text@, 0) == cut_at_space(text@, i as int),
        decreases size - i,
    {
        if whitespace(chars[i]) {
            return Some((text_of(&chars, 0, i), text_of(&chars, i + 1, size)));
        }
        i += 1;
    }
    None
}

/// The name and the path of a registration.
pub open spec fn registration(line: Seq<char>) -> Result<(Seq<char>, Seq<char>), &'static str> {
    match cut_at_space(line, 0) {
        None => Err("malformed .gitmodules Artifact registration"),
        Some((key, raw)) => match without_prefix(key, "submodule."@) {
            None => Err("malformed .gitmodules Artifact registration key"),
            Some(rest) => match without_suffix(rest, ".path"@) {
                None => Err("malformed .gitmodules Artifact registration key"),
                Some(name) => Ok((name, trimmed(raw))),
            },
        },
    }
}

/// Whether a path lies below `.agl`, and is not it.
pub open spec fn is_artifact_path(path: Seq<Seq<char>>) -> bool {
    path.len() > 1 && path[0] == ".agl"@
}

/// Whether a path begins with the current directory.
pub open spec fn begins_here(raw: Seq<char>) -> bool {
    pieces(raw, '/')[0] == "."@
}

/// What has been registered.
pub struct RegistrationsAbs {
    pub names: Seq<Seq<char>>,
    pub paths: Seq<Seq<Seq<char>>>,
}

/// One more registration. A submodule whose name is not that of an artifact is
/// passed over.
pub open spec fn register_line(
    registered: RegistrationsAbs,
    line: Seq<char>,
    is_artifact: bool,
) -> Result<RegistrationsAbs, Seq<char>> {
    match registration(line) {
        Err(error) => Err(error@),
        Ok((name, raw)) => if !is_artifact {
            Ok(registered)
        } else if registered.names.contains(name) {
            Err("duplicate Artifact registration: "@ + name)
        } else {
            match repo_path(raw, false) {
                Err(error) => Err(error@),
                Ok(path) => if begins_here(raw) || !is_artifact_path(path) {
                    Err(
                        "Artifact submodule path must be an explicit relative path below .agl: "@
                            + raw,
                    )
                } else if registered.paths.contains(path) {
                    Err("duplicate Artifact submodule path: "@ + raw)
                } else {
                    Ok(
                        RegistrationsAbs {
                            names: registered.names.push(name),
                            paths: registered.paths.push(path),
                        },
                    )
                },
            }
        },
    }
}

/// Whether the name of the line `i` is that of an artifact.
pub open spec fn flag_at(flags: Seq<bool>, i: int) -> bool {
    0 <= i < flags.len() && flags[i]
}

/// The registrations of the first `n` lines.
pub open spec fn register_lines(lines: Seq<Seq<char>>, flags: Seq<bool>, n: int) -> Result<
    RegistrationsAbs,
    Seq<char>,
>
    decreases n,
{
    if n <= 0 {
        Ok(RegistrationsAbs { names: Seq::empty(), paths: Seq::empty() })
    } else {
        match register_lines(lines, flags, n - 1) {
            Err(error) => Err(error),
            Ok(registered) => register_line(registered, lines[n - 1], flag_at(flags, n - 1)),
        }
    }
}

proof fn lemma_registering_fails(lines: Seq<Seq<char>>, flags: Seq<bool>, n: int, m: int)
    requires
        0 <= n <= m,
        register_lines(lines, flags, n) is Err,
    ensures
        register_lines(lines, flags, m) == register_lines(lines, flags, n),
    decreases m,
{
    if n < m {
        lemma_registering_fails(lines, flags, n, m - 1);
    }
}

fn read_registration(line: &str) -> (r: Result<(String, String), &'static str>)
    ensures
        match r {
            Ok((name, raw)) => registration(line@) == Ok::<
                (Seq<char>, Seq<char>),
                &'static str,
            >((name@, raw@)),
            Err(error) => registration(line@) == Err::<(Seq<char>, Seq<char>), &'static str>(
                error,
            ),
        },
{
    let (key, raw): (String, String) = match split_at_space(line) {
        Some(parts) => parts,
        None => {
            return Err("malformed .gitmodules Artifact registration");
        },
    };
    match strip_prefix(key.as_str(), "submodule.") {
        None => Err("malformed .gitmodules Artifact registration key"),
        Some(rest) => match strip_suffix(rest.as_str(), ".path") {
            None => Err("malformed .gitmodules Artifact registration key"),
            Some(name) => Ok((name, trim(raw.as_str()))),
        },
    }
}

/// The name in each registration line; empty where the line is malformed.
pub fn registration_names(listing: &str) -> (r: Vec<String>)
    ensures
        r@.len() == lines_of(listing@).len(),
        forall|i: int|
            0 <= i < r@.len() ==> (#[trigger] r@[i])@ == match registration(lines_of(listing@)[i]) {
                Ok((name, raw)) => name,
                Err(_) => Seq::empty(),
            },
{
    let all: Vec<String> = lines(listing);
    let ghost view = lines_of(listing@);
    let mut out: Vec<String> = Vec::new();
    let mut i: usize = 0;
    while i < all.len()
        invariant
            i <= all@.len(),
            view == lines_of(listing@),
            contents(all@) == view,
            out@.len() == i,
            forall|k: int|
                0 <= k < i ==> (#[trigger] out@[k])@ == match registration(view[k]) {
                    Ok((name, raw)) => name,
                    Err(_) => Seq::empty(),
                },
        decreases all@.len() - i,
    {
        assert(view[i as int] == all@[i as int]@);
        match read_registration(all[i].as_str()) {
            Ok((name, raw)) => {
                out.push(name);
            },
            Err(_) => {
                out.push(String::new());
            },
        }
        i += 1;
    }
    out
}

spec fn paths_of(paths: Seq<RepoPath>) -> Seq<Seq<Seq<char>>> {
    Seq::new(paths.len(), |i: int| paths[i]@)
}

fn has_path(paths: &Vec<RepoPath>, path: &RepoPath) -> (b: bool)
    ensures
        b == Seq::new(paths@.len(), |i: int| paths@[i]@).contains(path@),
{
    let ghost all = Seq::new(paths@.len(), |i: int| paths@[i]@);
    let mut i: usize = 0;
    while i < paths.len()
        invariant
            i <= paths@.len(),
            all == Seq::new(paths@.len(), |i: int| paths@[i]@),
            forall|k: int| 0 <= k < i ==> #[trigger] all[k] != path@,
        decreases paths@.len() - i,
    {
        assert(all[i as int] == paths@[i as int]@);
        if paths[i].same(path) {
            assert(all[i as int] == path@);
            return true;
        }
        i += 1;
    }
    false
}

fn has_name(names: &Vec<String>, name: &String) -> (b: bool)
    ensures
        b == contents(names@).contains(name@),
{
    let ghost all = contents(names@);
    let mut i: usize = 0;
    while i < names.len()
        invariant
            i <= names@.len(),
            all == contents(names@),
            forall|k: int| 0 <= k < i ==> #[trigger] all[k] != name@,
        decreases names@.len() - i,
    {
        assert(all[i as int] == names@[i as int]@);
        if names[i] == *name {
            assert(all[i as int] == name@);
            return true;
        }
        i += 1;
    }
    false
}

/// The paths of the registered artifacts, from the listing of the submodule
/// paths of a repository: one `submodule.<name>.path <path>` on each line.
/// `is_artifact` tells of each line whether its name is that of an artifact;
/// ordinary submodules are none.
pub fn registered_paths(listing: &str, is_artifact: &Vec<bool>) -> (r: Result<
    Vec<RepoPath>,
    String,
>)
    ensures
        ({
            let read = register_lines(
                lines_of(listing@),
                is_artifact@,
                lines_of(listing@).len() as int,
            );
            match r {
                Ok(paths) => read is Ok && read->Ok_0.paths == Seq::new(
                    paths@.len(),
                    |i: int| paths@[i]@,
                ),
                Err(error) => read == Err::<RegistrationsAbs, Seq<char>>(error@),
            }
        }),
{
    let all: Vec<String> = lines(listing);
    let ghost view = lines_of(listing@);
    let ghost flags = is_artifact@;
    let mut names: Vec<String> = Vec::new();
    let mut paths: Vec<RepoPath> = Vec::new();
    let mut i: usize = 0;
    assert(contents(names@) =~= Seq::<Seq<char>>::empty());
    assert(paths_of(paths@) =~= Seq::<Seq<Seq<char>>>::empty());
    while i < all.len()
        invariant
            i <= all@.len(),
            view == lines_of(listing@),
            contents(all@) == view,
            flags == is_artifact@,
            register_lines(view, flags, i as int) == Ok::<RegistrationsAbs, Seq<char>>(
                RegistrationsAbs { names: contents(names@), paths: paths_of(paths@) },
            ),
        decreases all@.len() - i,
    {
        assert(view[i as int] == all@[i as int]@);
        let ghost before = RegistrationsAbs { names: contents(names@), paths: paths_of(paths@) };
        let (name, raw): (String, String) = match read_registration(all[i].as_str()) {
            Ok(parts) => parts,
            Err(error) => {
                proof {
                    lemma_registering_fails(view, flags, i + 1, view.len() as int);
                }
                return Err(error.to_owned());
            },
        };
        let wanted: bool = i < is_artifact.len() && is_artifact[i];
        if wanted {
            if has_name(&names, &name) {
                proof {
                    lemma_registering_fails(view, flags, i + 1, view.len() as int);
                }
                return Err("duplicate Artifact registration: ".to_owned().concat(name.as_str()));
            }
            let path: RepoPath = match normalize_repo_path(raw.as_str(), false) {
                Ok(path) => path,
                Err(error) => {
                    proof {
                        lemma_registering_fails(view, flags, i + 1, view.len() as int);
                    }
                    return Err(error.to_owned());
                },
            };
            if path_begins_here(raw.as_str()) || !below_agl(&path) {
                proof {
                    lemma_registering_fails(view, flags, i + 1, view.len() as int);
                }
                return Err(
                    "Artifact submodule path must be an explicit relative path below .agl: ".to_owned().concat(
                        raw.as_str(),
                    ),
                );
            }
            if has_path(&paths, &path) {
                proof {
                    lemma_registering_fails(view, flags, i + 1, view.len() as int);
                }
                return Err("duplicate Artifact submodule path: ".to_owned().concat(raw.as_str()));
            }
            names.push(name);
            paths.push(path);
            assert(contents(names@) =~= before.names.push(name@));
            assert(paths_of(paths@) =~= before.paths.push(path@));
        }
        i += 1;
    }
    assert(paths_of(paths@) =~= Seq::new(paths@.len(), |i: int| paths@[i]@));
    Ok(paths)
}

fn path_begins_here(raw: &str) -> (b: bool)
    ensures
        b == begins_here(raw@),
{
    let parts: Vec<String> = split(raw, '/');
    assert(pieces(raw@, '/')[0] == parts@[0]@);
    same_text(parts[0].as_str(), ".")
}

fn below_agl(path: &RepoPath) -> (b: bool)
    ensures
        b == is_artifact_path(path@),
{
    if path.segments.len() < 2 {
        return false;
    }
    assert(path@[0] == path.segments@[0]@);
    same_text(path.segments[0].as_str(), ".agl")
}

// ---------------------------------------------------------------------------
// Access
// ---------------------------------------------------------------------------

/// What is to be done with the files of an artifact.
#[derive(Clone, Copy, Debug, Eq, PartialEq, Structural)]
pub enum ArtifactAccess {
    ReadTree,
    MutateTree,
}

/// A registered artifact with the access that it admits.
#[derive(Clone, Debug)]
pub struct ArtifactRoute {
    pub path: RepoPath,
    /// Why its files may not be read, if they may not.
    pub read_denial: Option<String>,
    /// Why its files may not be changed, if they may not.
    pub mutate_denial: Option<String>,
}

/// The registered artifacts of a repository, and the routes to those that are
/// admitted.
#[derive(Clone, Debug)]
pub struct ArtifactRoutes {
    pub registered: Vec<RepoPath>,
    pub routes: Vec<ArtifactRoute>,
}

/// The longest of the first `n` registered paths at or above a path.
pub open spec fn protecting(registered: Seq<RepoPath>, path: Seq<Seq<char>>, n: int) -> Option<
    Seq<Seq<char>>,
>
    decreases n,
{
    if n <= 0 {
        None
    } else {
        let best = protecting(registered, path, n - 1);
        let next = registered[n - 1]@;
        if lies_below(path, next) && (best is None || best->Some_0.len() <= next.len()) {
            Some(next)
        } else {
            best
        }
    }
}

/// The first of the first `n` routes to a path.
pub open spec fn route_to(routes: Seq<ArtifactRoute>, path: Seq<Seq<char>>, n: int) -> Option<
    ArtifactRoute,
>
    decreases n,
{
    if n <= 0 {
        None
    } else {
        match route_to(routes, path, n - 1) {
            Some(route) => Some(route),
            None => if routes[n - 1].path@ == path {
                Some(routes[n - 1])
            } else {
                None
            },
        }
    }
}

/// Why a route does not admit an access.
pub open spec fn denial(route: ArtifactRoute, access: ArtifactAccess) -> Option<Seq<char>> {
    match access {
        ArtifactAccess::ReadTree => route.read_denial.abs(),
        ArtifactAccess::MutateTree => route.mutate_denial.abs(),
    }
}

impl ArtifactRoutes {
    /// The registered artifact that a path belongs to.
    pub open spec fn owner(&self, path: Seq<Seq<char>>) -> Option<Seq<Seq<char>>> {
        protecting(self.registered@, path, self.registered@.len() as int)
    }

    /// Why a path may not be accessed: it belongs to an artifact that is not
    /// bound, or that does not admit the access.
    pub open spec fn access_failure(
        &self,
        path: Seq<Seq<char>>,
        access: ArtifactAccess,
    ) -> Option<Seq<char>> {
        match self.owner(path) {
            None => None,
            Some(prefix) => match route_to(self.routes@, prefix, self.routes@.len() as int) {
                None => Some(
                    "path `"@ + slashed(path) + "` belongs to registered Artifact `"@ + slashed(
                        prefix,
                    ) + "` but no admitted ArtifactHandle is bound"@,
                ),
                Some(route) => denial(route, access),
            },
        }
    }

    pub fn new(registered: Vec<RepoPath>) -> (r: ArtifactRoutes)
        ensures
            r.registered == registered,
            r.routes@.len() == 0,
    {
        ArtifactRoutes { registered, routes: Vec::new() }
    }

    /// Where the registered artifact stands that a path belongs to.
    fn find_owner(&self, path: &RepoPath) -> (r: Option<usize>)
        ensures
            match r {
                Some(i) => i < self.registered@.len() && self.owner(path@) == Some(
                    self.registered@[i as int]@,
                ),
                None => self.owner(path@) is None,
            },
    {
        let mut best: Option<usize> = None;
        let mut i: usize = 0;
        while i < self.registered.len()
            invariant
                i <= self.registered@.len(),
                match best {
                    Some(k) => k < self.registered@.len() && protecting(
                        self.registered@,
                        path@,
                        i as int,
                    ) == Some(self.registered@[k as int]@),
                    None => protecting(self.registered@, path@, i as int) is None,
                },
            decreases self.registered@.len() - i,
        {
            if path.is_below(&self.registered[i]) {
                let better: bool = match best {
                    Some(k) => self.registered[k].segments.len()
                        <= self.registered[i].segments.len(),
                    None => true,
                };
                if better {
                    best = Some(i);
                }
            }
            i += 1;
        }
        best
    }

    fn find_route(&self, path: &RepoPath) -> (r: Option<usize>)
        ensures
            match r {
                Some(i) => i < self.routes@.len() && route_to(
                    self.routes@,
                    path@,
                    self.routes@.len() as int,
                ) == Some(self.routes@[i as int]),
                None => route_to(self.routes@, path@, self.routes@.len() as int) is None,
            },
    {
        let mut i: usize = 0;
        while i < self.routes.len()
            invariant
                i <= self.routes@.len(),
                route_to(self.routes@, path@, i as int) is None,
            decreases self.routes@.len() - i,
        {
            if self.routes[i].path.same(path) {
                proof {
                    lemma_route(self.routes@, path@, i + 1, self.routes@.len() as int);
                }
                return Some(i);
            }
            i += 1;
        }
        None
    }

    /// Whether a path may be accessed.
    pub fn enforce_artifact_access(&self, relative: &RepoPath, access: ArtifactAccess) -> (r: Result<
        (),
        String,
    >)
        ensures
            match r {
                Ok(_) => self.access_failure(relative@, access) is None,
                Err(error) => self.access_failure(relative@, access) == Some(error@),
            },
    {
        let owner: &RepoPath = match self.find_owner(relative) {
            Some(i) => &self.registered[i],
            None => {
                return Ok(());
            },
        };
        let route: &ArtifactRoute = match self.find_route(owner) {
            Some(i) => &self.routes[i],
            None => {
                return Err(
                    "path `".to_owned().concat(relative.display().as_str()).concat(
                        "` belongs to registered Artifact `",
                    ).concat(owner.display().as_str()).concat(
                        "` but no admitted ArtifactHandle is bound",
                    ),
                );
            },
        };
        let denied: &Option<String> = match access {
            ArtifactAccess::ReadTree => &route.read_denial,
            ArtifactAccess::MutateTree => &route.mutate_denial,
        };
        match denied {
            Some(reason) => Err(reason.clone()),
            None => Ok(()),
        }
    }

    /// Admits a registered artifact.
    pub fn with_artifact_route(&mut self, route: ArtifactRoute) -> (r: Result<(), String>)
        ensures
            ({
                let path = route.path@;
                let known = Seq::new(
                    old(self).registered@.len(),
                    |i: int| old(self).registered@[i]@,
                );
                let failure = if !is_artifact_path(path) {
                    Some("Artifact route must be a path below .agl"@)
                } else if !known.contains(path) {
                    Some("Artifact route is not registered in .gitmodules: "@ + slashed(path))
                } else if route_to(
                    old(self).routes@,
                    path,
                    old(self).routes@.len() as int,
                ) is Some {
                    Some("duplicate Artifact route: "@ + slashed(path))
                } else {
                    None
                };
                match failure {
                    Some(error) => r is Err && r->Err_0@ == error && *final(self) == *old(self),
                    None => r is Ok && final(self).registered == old(self).registered
                        && final(self).routes@ == old(self).routes@.push(route),
                }
            }),
    {
        if !below_agl(&route.path) {
            return Err("Artifact route must be a path below .agl".to_owned());
        }
        if !has_path(&self.registered, &route.path) {
            return Err(
                "Artifact route is not registered in .gitmodules: ".to_owned().concat(
                    route.path.display().as_str(),
                ),
            );
        }
        if self.find_route(&route.path).is_some() {
            return Err(
                "duplicate Artifact route: ".to_owned().concat(route.path.display().as_str()),
            );
        }
        self.routes.push(route);
        Ok(())
    }
}

proof fn lemma_route(routes: Seq<ArtifactRoute>, path: Seq<Seq<char>>, n: int, m: int)
    requires
        0 <= n <= m,
        route_to(routes, path, n) is Some,
    ensures
        route_to(routes, path, m) == route_to(routes, path, n),
    decreases m,
{
    if n < m {
        lemma_route(routes, path, n, m - 1);
    }
}

/// A path at or below a registered artifact is owned by the longest registered
/// path at or above it; every other path may be accessed freely.
pub proof fn artifacts_are_protected(
    routes: ArtifactRoutes,
    path: Seq<Seq<char>>,
    access: ArtifactAccess,
)
    ensures
        match routes.owner(path) {
            Some(prefix) => lies_below(path, prefix) && forall|i: int|
                0 <= i < routes.registered@.len() && lies_below(
                    path,
                    (#[trigger] routes.registered@[i])@,
                ) ==> routes.registered@[i]@.len() <= prefix.len(),
            None => routes.access_failure(path, access) is None && forall|i: int|
                0 <= i < routes.registered@.len() ==> !lies_below(
                    path,
                    (#[trigger] routes.registered@[i])@,
                ),
        },
{
    lemma_protecting(routes.registered@, path, routes.registered@.len() as int);
}

proof fn lemma_protecting(registered: Seq<RepoPath>, path: Seq<Seq<char>>, n: int)
    requires
        0 <= n <= registered.len(),
    ensures
        match protecting(registered, path, n) {
            Some(prefix) => lies_below(path, prefix) && forall|i: int|
                0 <= i < n && lies_below(path, (#[trigger] registered[i])@) ==> registered[i]@.len()
                    <= prefix.len(),
            None => forall|i: int|
                0 <= i < n ==> !lies_below(path, (#[trigger] registered[i])@),
        },
    decreases n,
{
    if n > 0 {
        lemma_protecting(registered, path, n - 1);
    }
}

} // verus!
