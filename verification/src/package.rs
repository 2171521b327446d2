//! Immutable, exact package identities and bounded package trees.

use std::str::FromStr;

use vstd::prelude::*;
use vstd::string::*;
use vstd::utf8::*;

use crate::digest::{digest_in, digest_round_trip, digest_text, parse_digest, render_digest, sha256,
    sha256_of};
use crate::order::{in_order, sort_by_name, sorting_ignores_order, Named};
use crate::text::{
    begins, byte_len, bytes_in, chars_of, contains_char, control, digit, is_control, is_digit,
    is_lower, lower, pieces, same_text, split, starts_with,
};
use crate::value::{contents, Abstract};

verus! {

/// The largest package tree, in bytes of its files.
pub const MAX_PACKAGE_BYTES: u64 = 67_108_864;

#[derive(Debug, Clone, Eq, PartialEq)]
pub enum PackageError {
    InvalidIdentifier { field: &'static str, value: String },
    InvalidVersion(String),
    InvalidRelativePath(String),
    Symlink(String),
    NotRegular(String),
    MissingFile(String),
    DuplicateFile(String),
    ReservedFile(String),
    TreeTooLarge,
    InvalidDigest(String),
    Io { path: String, reason: String },
}

/// The content of `PackageError`.
pub enum PackageErrorAbs {
    InvalidIdentifier { field: &'static str, value: Seq<char> },
    InvalidVersion(Seq<char>),
    InvalidRelativePath(Seq<char>),
    Symlink(Seq<char>),
    NotRegular(Seq<char>),
    MissingFile(Seq<char>),
    DuplicateFile(Seq<char>),
    ReservedFile(Seq<char>),
    TreeTooLarge,
    InvalidDigest(Seq<char>),
    Io { path: Seq<char>, reason: Seq<char> },
}

impl PackageError {
    pub open spec fn view(&self) -> PackageErrorAbs {
        match self {
            PackageError::InvalidIdentifier { field, value } => PackageErrorAbs::InvalidIdentifier {
                field: *field,
                value: value@,
            },
            PackageError::InvalidVersion(s) => PackageErrorAbs::InvalidVersion(s@),
            PackageError::InvalidRelativePath(s) => PackageErrorAbs::InvalidRelativePath(s@),
            PackageError::Symlink(s) => PackageErrorAbs::Symlink(s@),
            PackageError::NotRegular(s) => PackageErrorAbs::NotRegular(s@),
            PackageError::MissingFile(s) => PackageErrorAbs::MissingFile(s@),
            PackageError::DuplicateFile(s) => PackageErrorAbs::DuplicateFile(s@),
            PackageError::ReservedFile(s) => PackageErrorAbs::ReservedFile(s@),
            PackageError::TreeTooLarge => PackageErrorAbs::TreeTooLarge,
            PackageError::InvalidDigest(s) => PackageErrorAbs::InvalidDigest(s@),
            PackageError::Io { path, reason } => PackageErrorAbs::Io {
                path: path@,
                reason: reason@,
            },
        }
    }

    /// The sentence that tells a reader of this error.
    pub open spec fn message(&self) -> Seq<char> {
        match self@ {
            PackageErrorAbs::InvalidIdentifier { field, value } => "invalid "@ + field@ + ": "@
                + value,
            PackageErrorAbs::InvalidVersion(s) => "invalid package version: "@ + s,
            PackageErrorAbs::InvalidRelativePath(s) => "invalid relative package path: "@ + s,
            PackageErrorAbs::Symlink(s) => "package path is a symlink: "@ + s,
            PackageErrorAbs::NotRegular(s) =>
                "package path is not a regular file or directory: "@ + s,
            PackageErrorAbs::MissingFile(s) => "package file is missing: "@ + s,
            PackageErrorAbs::DuplicateFile(s) => "duplicate package file: "@ + s,
            PackageErrorAbs::ReservedFile(s) => "reserved package file: "@ + s,
            PackageErrorAbs::TreeTooLarge => "package tree exceeds its bound"@,
            PackageErrorAbs::InvalidDigest(s) => "invalid package digest: "@ + s,
            PackageErrorAbs::Io { path, reason } => "package I/O at "@ + path + ": "@ + reason,
        }
    }

    pub fn to_string(&self) -> (r: String)
        ensures
            r@ == self.message(),
    {
        match self {
            PackageError::InvalidIdentifier { field, value } => "invalid ".to_owned().concat(
                field,
            ).concat(": ").concat(value.as_str()),
            PackageError::InvalidVersion(s) => "invalid package version: ".to_owned().concat(
                s.as_str(),
            ),
            PackageError::InvalidRelativePath(s) =>
                "invalid relative package path: ".to_owned().concat(s.as_str()),
            PackageError::Symlink(s) => "package path is a symlink: ".to_owned().concat(s.as_str()),
            PackageError::NotRegular(s) =>
                "package path is not a regular file or directory: ".to_owned().concat(s.as_str()),
            PackageError::MissingFile(s) => "package file is missing: ".to_owned().concat(
                s.as_str(),
            ),
            PackageError::DuplicateFile(s) => "duplicate package file: ".to_owned().concat(
                s.as_str(),
            ),
            PackageError::ReservedFile(s) => "reserved package file: ".to_owned().concat(
                s.as_str(),
            ),
            PackageError::TreeTooLarge => "package tree exceeds its bound".to_owned(),
            PackageError::InvalidDigest(s) => "invalid package digest: ".to_owned().concat(
                s.as_str(),
            ),
            PackageError::Io { path, reason } => "package I/O at ".to_owned().concat(
                path.as_str(),
            ).concat(": ").concat(reason.as_str()),
        }
    }
}

// ---------------------------------------------------------------------------
// Identifiers and versions
// ---------------------------------------------------------------------------

/// A character that may stand in a package identifier.
pub open spec fn is_package_char(c: char) -> bool {
    is_lower(c) || is_digit(c) || c == '-' || c == '_' || c == '.'
}

/// A package identifier: a lowercase letter, then at most 127 lowercase
/// letters, digits, hyphens, underscores and dots.
pub open spec fn is_package_id(s: Seq<char>) -> bool {
    &&& 0 < s.len() <= 128
    &&& is_lower(s[0])
    &&& forall|i: int| 0 <= i < s.len() ==> is_package_char(#[trigger] s[i])
}

fn valid_package_id(value: &str) -> (b: bool)
    ensures
        b == is_package_id(value@),
{
    let chars: Vec<char> = chars_of(value);
    if chars.len() == 0 || chars.len() > 128 || !lower(chars[0]) {
        return false;
    }
    let mut i: usize = 0;
    while i < chars.len()
        invariant
            i <= chars@.len(),
            chars@ == value@,
            forall|k: int| 0 <= k < i ==> is_package_char(#[trigger] chars@[k]),
        decreases chars@.len() - i,
    {
        let c: char = chars[i];
        if !(lower(c) || digit(c) || c == '-' || c == '_' || c == '.') {
            return false;
        }
        i += 1;
    }
    true
}

/// The identifier of a package.
#[derive(Debug, Eq, Hash, Ord, PartialEq, PartialOrd)]
pub struct PackageId {
    text: String,
}

impl PackageId {
    #[verifier::type_invariant]
    spec fn is_identifier(self) -> bool {
        is_package_id(self.text@)
    }

    pub closed spec fn view(&self) -> Seq<char> {
        self.text@
    }

    pub fn new(value: &str) -> (r: Result<PackageId, PackageError>)
        ensures
            match r {
                Ok(id) => is_package_id(value@) && id@ == value@,
                Err(error) => !is_package_id(value@) && error@
                    == (PackageErrorAbs::InvalidIdentifier { field: "package ID", value: value@ }),
            },
    {
        if valid_package_id(value) {
            Ok(PackageId { text: value.to_owned() })
        } else {
            Err(PackageError::InvalidIdentifier { field: "package ID", value: value.to_owned() })
        }
    }

    pub fn as_str(&self) -> (r: &str)
        ensures
            r@ == self@,
            is_package_id(r@),
    {
        proof {
            use_type_invariant(self);
        }
        self.text.as_str()
    }

    pub fn to_string(&self) -> (r: String)
        ensures
            r@ == self@,
    {
        self.text.clone()
    }
}

impl Clone for PackageId {
    fn clone(&self) -> (r: PackageId)
        ensures
            r@ == self@,
    {
        self.duplicate()
    }
}

impl FromStr for PackageId {
    type Err = PackageError;

    fn from_str(value: &str) -> Result<PackageId, PackageError> {
        PackageId::new(value)
    }
}

impl Abstract for PackageId {
    type Abs = Seq<char>;

    open spec fn abs(&self) -> Seq<char> {
        self@
    }

    fn duplicate(&self) -> PackageId {
        proof {
            use_type_invariant(self);
        }
        PackageId { text: self.text.clone() }
    }

    fn same(&self, other: &PackageId) -> bool {
        self.text == other.text
    }
}

/// `semver::Version`, a version of the `semver` crate.
#[verifier::external_type_specification]
#[verifier::external_body]
pub struct ExVersion(semver::Version);

/// The text in which a `semver::Version` is written.
pub uninterp spec fn held_version(version: semver::Version) -> Seq<char>;

/// Whether `semver` reads a text as a version.
pub uninterp spec fn is_version(text: Seq<char>) -> bool;

/// `semver::Version::parse`. Of the result is claimed that whether the text is
/// a version depends on the text alone, and that the version is written as it
/// was read: there is no other way to write its numbers, and its labels are
/// kept letter for letter.
#[verifier::external_body]
fn read_version(text: &str) -> (r: Option<semver::Version>)
    ensures
        match r {
            Some(version) => is_version(text@) && held_version(version) == text@,
            None => !is_version(text@),
        },
{
    semver::Version::parse(text).ok()
}

/// `semver::Version` as text, by its `Display`.
#[verifier::external_body]
fn written_version(version: &semver::Version) -> (r: String)
    ensures
        r@ == held_version(*version),
{
    version.to_string()
}

/// `semver::Version::clone`: the copy is written like the version.
#[verifier::external_body]
fn copy_version(version: &semver::Version) -> (r: semver::Version)
    ensures
        held_version(r) == held_version(*version),
{
    version.clone()
}

/// The version of a package, in the order of semantic versioning.
#[derive(Debug, Eq, Hash, Ord, PartialEq, PartialOrd)]
pub struct PackageVersion {
    version: semver::Version,
}

impl PackageVersion {
    #[verifier::type_invariant]
    spec fn was_read(self) -> bool {
        is_version(held_version(self.version))
    }

    /// The version as it is written.
    pub closed spec fn view(&self) -> Seq<char> {
        held_version(self.version)
    }

    pub fn new(value: &str) -> (r: Result<PackageVersion, PackageError>)
        ensures
            match r {
                Ok(version) => is_version(value@) && version@ == value@,
                Err(error) => !is_version(value@) && error@
                    == PackageErrorAbs::InvalidVersion(value@),
            },
    {
        match read_version(value) {
            Some(version) => Ok(PackageVersion { version }),
            None => Err(PackageError::InvalidVersion(value.to_owned())),
        }
    }

    /// The text of a version, which can be read again.
    pub fn to_string(&self) -> (r: String)
        ensures
            r@ == self@,
            is_version(r@),
    {
        proof {
            use_type_invariant(self);
        }
        written_version(&self.version)
    }
}

impl Clone for PackageVersion {
    fn clone(&self) -> (r: PackageVersion)
        ensures
            r@ == self@,
    {
        self.duplicate()
    }
}

impl FromStr for PackageVersion {
    type Err = PackageError;

    fn from_str(value: &str) -> Result<PackageVersion, PackageError> {
        PackageVersion::new(value)
    }
}

impl Abstract for PackageVersion {
    type Abs = Seq<char>;

    open spec fn abs(&self) -> Seq<char> {
        self@
    }

    fn duplicate(&self) -> PackageVersion {
        proof {
            use_type_invariant(self);
        }
        PackageVersion { version: copy_version(&self.version) }
    }

    fn same(&self, other: &PackageVersion) -> bool {
        same_text(self.to_string().as_str(), other.to_string().as_str())
    }
}

// ---------------------------------------------------------------------------
// Paths
// ---------------------------------------------------------------------------

/// A component of a contained path.
pub open spec fn is_path_component(s: Seq<char>) -> bool {
    s.len() > 0 && s != seq!['.'] && s != seq!['.', '.']
}

/// A path that stays inside its package: components with slashes between
/// them, none of them empty, `.` or `..`, and no backslash, colon or control
/// character.
pub open spec fn is_package_path(s: Seq<char>) -> bool {
    &&& !s.contains('\\')
    &&& !s.contains(':')
    &&& forall|i: int| 0 <= i < s.len() ==> !is_control(#[trigger] s[i])
    &&& forall|k: int|
        0 <= k < pieces(s, '/').len() ==> is_path_component(#[trigger] pieces(s, '/')[k])
}

fn valid_package_path(value: &str) -> (b: bool)
    ensures
        b == is_package_path(value@),
{
    if contains_char(value, '\\') || contains_char(value, ':') {
        return false;
    }
    let chars: Vec<char> = chars_of(value);
    let mut i: usize = 0;
    while i < chars.len()
        invariant
            i <= chars@.len(),
            chars@ == value@,
            forall|k: int| 0 <= k < i ==> !is_control(#[trigger] chars@[k]),
        decreases chars@.len() - i,
    {
        if control(chars[i]) {
            return false;
        }
        i += 1;
    }
    let parts: Vec<String> = split(value, '/');
    proof {
        reveal_strlit(".");
        reveal_strlit("..");
        assert("."@ =~= seq!['.']);
        assert(".."@ =~= seq!['.', '.']);
    }
    i = 0;
    while i < parts.len()
        invariant
            i <= parts@.len(),
            contents(parts@) == pieces(value@, '/'),
            "."@ == seq!['.'],
            ".."@ == seq!['.', '.'],
            forall|k: int| 0 <= k < i ==> is_path_component(#[trigger] pieces(value@, '/')[k]),
        decreases parts@.len() - i,
    {
        let part: &str = parts[i].as_str();
        assert(pieces(value@, '/')[i as int] == part@);
        if part.is_empty() || same_text(part, ".") || same_text(part, "..") {
            return false;
        }
        i += 1;
    }
    true
}

/// The path of a file in a package.
#[derive(Debug, Eq, Hash, Ord, PartialEq, PartialOrd)]
pub struct PackageRelativePath {
    text: String,
}

impl PackageRelativePath {
    #[verifier::type_invariant]
    spec fn is_contained(self) -> bool {
        is_package_path(self.text@)
    }

    pub closed spec fn view(&self) -> Seq<char> {
        self.text@
    }

    pub fn new(value: &str) -> (r: Result<PackageRelativePath, PackageError>)
        ensures
            match r {
                Ok(path) => is_package_path(value@) && path@ == value@,
                Err(error) => !is_package_path(value@) && error@
                    == PackageErrorAbs::InvalidRelativePath(value@),
            },
    {
        if valid_package_path(value) {
            Ok(PackageRelativePath { text: value.to_owned() })
        } else {
            Err(PackageError::InvalidRelativePath(value.to_owned()))
        }
    }

    pub fn as_str(&self) -> (r: &str)
        ensures
            r@ == self@,
            is_package_path(r@),
    {
        proof {
            use_type_invariant(self);
        }
        self.text.as_str()
    }

    pub fn to_string(&self) -> (r: String)
        ensures
            r@ == self@,
    {
        self.text.clone()
    }
}

impl Clone for PackageRelativePath {
    fn clone(&self) -> (r: PackageRelativePath)
        ensures
            r@ == self@,
    {
        self.duplicate()
    }
}

impl FromStr for PackageRelativePath {
    type Err = PackageError;

    fn from_str(value: &str) -> Result<PackageRelativePath, PackageError> {
        PackageRelativePath::new(value)
    }
}

impl Abstract for PackageRelativePath {
    type Abs = Seq<char>;

    open spec fn abs(&self) -> Seq<char> {
        self@
    }

    fn duplicate(&self) -> PackageRelativePath {
        proof {
            use_type_invariant(self);
        }
        PackageRelativePath { text: self.text.clone() }
    }

    fn same(&self, other: &PackageRelativePath) -> bool {
        self.text == other.text
    }
}

impl Named for PackageRelativePath {
    fn name(&self) -> &str {
        self.text.as_str()
    }
}

// ---------------------------------------------------------------------------
// Package trees
// ---------------------------------------------------------------------------

/// The files of an immutable package tree.
pub trait PackageView: Sized + Send + Sync {
    /// The paths of the files.
    spec fn listing(&self) -> Result<Seq<Seq<char>>, PackageErrorAbs>;

    /// The bytes of a file.
    spec fn file(&self, path: Seq<char>) -> Result<Seq<u8>, PackageErrorAbs>;

    fn files(&self) -> (r: Result<Vec<PackageRelativePath>, PackageError>)
        ensures
            match r {
                Ok(paths) => self.listing() == Ok::<Seq<Seq<char>>, PackageErrorAbs>(
                    contents(paths@),
                ),
                Err(error) => self.listing() == Err::<Seq<Seq<char>>, PackageErrorAbs>(error@),
            },
    ;

    fn read_file(&self, path: &PackageRelativePath) -> (r: Result<Vec<u8>, PackageError>)
        ensures
            match r {
                Ok(bytes) => self.file(path@) == Ok::<Seq<u8>, PackageErrorAbs>(bytes@),
                Err(error) => self.file(path@) == Err::<Seq<u8>, PackageErrorAbs>(error@),
            },
    ;
}

/// A package tree held in memory.
#[derive(Clone, Debug)]
pub struct InMemoryPackageView {
    files: Vec<(PackageRelativePath, Vec<u8>)>,
}

impl Default for InMemoryPackageView {
    fn default() -> (r: InMemoryPackageView)
        ensures
            r@ == Seq::<(Seq<char>, Seq<u8>)>::empty(),
    {
        let r = InMemoryPackageView { files: Vec::new() };
        assert(r@ =~= Seq::<(Seq<char>, Seq<u8>)>::empty());
        r
    }
}

/// Files by path and bytes.
pub open spec fn file_contents(files: Seq<(PackageRelativePath, Vec<u8>)>) -> Seq<
    (Seq<char>, Seq<u8>),
> {
    Seq::new(files.len(), |i: int| (files[i].0@, files[i].1@))
}

/// The paths of files.
pub open spec fn file_paths(files: Seq<(Seq<char>, Seq<u8>)>) -> Seq<Seq<char>> {
    Seq::new(files.len(), |i: int| files[i].0)
}

/// Where the first file with that path is.
pub open spec fn file_index(files: Seq<(Seq<char>, Seq<u8>)>, path: Seq<char>) -> Option<int>
    decreases files.len(),
{
    if files.len() == 0 {
        None
    } else {
        match file_index(files.drop_last(), path) {
            Some(i) => Some(i),
            None => if files.last().0 == path {
                Some(files.len() - 1)
            } else {
                None
            },
        }
    }
}

/// The position of the first file whose path occurred before.
pub open spec fn first_repeated(files: Seq<(Seq<char>, Seq<u8>)>) -> Option<int>
    decreases files.len(),
{
    if files.len() == 0 {
        None
    } else {
        match first_repeated(files.drop_last()) {
            Some(i) => Some(i),
            None => if file_index(files.drop_last(), files.last().0) is Some {
                Some(files.len() - 1)
            } else {
                None
            },
        }
    }
}

/// A repetition in the first files is the first repetition of all.
proof fn lemma_first_repeated_prefix(files: Seq<(Seq<char>, Seq<u8>)>, n: int)
    requires
        0 <= n <= files.len(),
        first_repeated(files.take(n)) is Some,
    ensures
        first_repeated(files) == first_repeated(files.take(n)),
    decreases files.len(),
{
    if n == files.len() {
        assert(files.take(n) =~= files);
    } else {
        assert(files.drop_last().take(n) =~= files.take(n));
        lemma_first_repeated_prefix(files.drop_last(), n);
    }
}

impl InMemoryPackageView {
    /// The files, in the order in which they were given.
    pub closed spec fn view(&self) -> Seq<(Seq<char>, Seq<u8>)> {
        file_contents(self.files@)
    }

    fn position(&self, path: &PackageRelativePath) -> (r: Option<usize>)
        ensures
            match r {
                Some(i) => file_index(self@, path@) == Some(i as int) && i < self.files@.len(),
                None => file_index(self@, path@) is None,
            },
    {
        let mut i: usize = 0;
        assert(self@.take(0) =~= Seq::<(Seq<char>, Seq<u8>)>::empty());
        let mut found: Option<usize> = None;
        while i < self.files.len()
            invariant
                i <= self.files@.len(),
                self@.len() == self.files@.len(),
                match found {
                    Some(k) => file_index(self@.take(i as int), path@) == Some(k as int) && k < i,
                    None => file_index(self@.take(i as int), path@) is None,
                },
            decreases self.files@.len() - i,
        {
            assert(self@.take(i + 1).drop_last() =~= self@.take(i as int));
            assert(self@.take(i + 1).last() == self@[i as int]);
            if found.is_none() && self.files[i].0.same(path) {
                found = Some(i);
            }
            i += 1;
        }
        assert(self@.take(i as int) =~= self@);
        found
    }

    /// The tree with those files; refused where a path occurs twice.
    pub fn new(files: Vec<(PackageRelativePath, Vec<u8>)>) -> (r: Result<
        InMemoryPackageView,
        PackageError,
    >)
        ensures
            match r {
                Ok(tree) => first_repeated(file_contents(files@)) is None && tree@ == file_contents(
                    files@,
                ),
                Err(error) => first_repeated(file_contents(files@)) matches Some(i) && error@
                    == PackageErrorAbs::DuplicateFile(files@[i].0@),
            },
    {
        let ghost all = file_contents(files@);
        let mut output: InMemoryPackageView = InMemoryPackageView::default();
        let mut i: usize = 0;
        assert(all.take(0) =~= Seq::<(Seq<char>, Seq<u8>)>::empty());
        let ghost given = files@;
        for file in it: files
            invariant
                it.seq() == given,
                all == file_contents(given),
                output@ == all.take(it.index() as int),
                first_repeated(all.take(it.index() as int)) is None,
        {
            let ghost k = it.index() as int;
            assert(file == given[k]);
            assert(all.take(k + 1).drop_last() =~= all.take(k));
            assert(all.take(k + 1).last() == (file.0@, file.1@));
            if output.position(&file.0).is_some() {
                proof {
                    lemma_first_repeated_prefix(all, k + 1);
                }
                return Err(PackageError::DuplicateFile(file.0.to_string()));
            }
            let ghost before = output.files@;
            output.files.push(file);
            assert(output@ =~= all.take(k + 1));
        }
        assert(all.take(given.len() as int) =~= all);
        Ok(output)
    }
}

impl PackageView for InMemoryPackageView {
    open spec fn listing(&self) -> Result<Seq<Seq<char>>, PackageErrorAbs> {
        Ok(in_order(file_paths(self@)))
    }

    open spec fn file(&self, path: Seq<char>) -> Result<Seq<u8>, PackageErrorAbs> {
        match file_index(self@, path) {
            Some(i) => Ok(self@[i].1),
            None => Err(PackageErrorAbs::MissingFile(path)),
        }
    }

    fn files(&self) -> Result<Vec<PackageRelativePath>, PackageError> {
        let mut paths: Vec<PackageRelativePath> = Vec::new();
        let mut i: usize = 0;
        while i < self.files.len()
            invariant
                i <= self.files@.len(),
                paths@.len() == i,
                forall|k: int| 0 <= k < i ==> (#[trigger] paths@[k])@ == self.files@[k].0@,
            decreases self.files@.len() - i,
        {
            paths.push(self.files[i].0.duplicate());
            i += 1;
        }
        assert(contents(paths@) =~= file_paths(self@));
        Ok(sort_by_name(paths))
    }

    fn read_file(&self, path: &PackageRelativePath) -> Result<Vec<u8>, PackageError> {
        match self.position(path) {
            Some(i) => {
                let bytes: Vec<u8> = copy_bytes(&self.files[i].1);
                Ok(bytes)
            },
            None => Err(PackageError::MissingFile(path.to_string())),
        }
    }
}

/// The same bytes once more.
pub fn copy_bytes(bytes: &[u8]) -> (r: Vec<u8>)
    ensures
        r@ == bytes@,
{
    let mut out: Vec<u8> = Vec::new();
    push_bytes(&mut out, bytes);
    assert(out@ =~= bytes@);
    out
}

/// Appends bytes.
pub fn push_bytes(out: &mut Vec<u8>, bytes: &[u8])
    ensures
        final(out)@ == old(out)@ + bytes@,
{
    let mut i: usize = 0;
    assert(out@ =~= old(out)@ + bytes@.take(0));
    while i < bytes.len()
        invariant
            i <= bytes@.len(),
            out@ == old(out)@ + bytes@.take(i as int),
        decreases bytes@.len() - i,
    {
        out.push(bytes[i]);
        i += 1;
        assert(out@ =~= old(out)@ + bytes@.take(i as int));
    }
    assert(bytes@.take(i as int) =~= bytes@);
}

/// A number in big-endian bytes.
pub open spec fn big_endian(n: nat, width: nat) -> Seq<u8>
    decreases width,
{
    if width == 0 {
        Seq::empty()
    } else {
        big_endian(n / 256, (width - 1) as nat).push((n % 256) as u8)
    }
}

/// Appends a number in `width` big-endian bytes.
pub fn push_big_endian(out: &mut Vec<u8>, n: u64, width: usize)
    ensures
        final(out)@ == old(out)@ + big_endian(n as nat, width as nat),
    decreases width,
{
    if width > 0 {
        push_big_endian(out, n / 256, width - 1);
        out.push((n % 256) as u8);
    }
    assert(out@ =~= old(out)@ + big_endian(n as nat, width as nat));
}

/// Whether a path is kept for the runtime and cannot be part of a package.
pub open spec fn is_reserved(path: Seq<char>) -> bool {
    ||| exists|k: int| 0 <= k < pieces(path, '/').len() && #[trigger] pieces(path, '/')[k] == ".git"@
    ||| path == "workspace.toml"@
    ||| path == "package-lock.toml"@
    ||| begins(path, "config/"@)
    ||| begins(path, "state/"@)
    ||| begins(path, "cache/"@)
}

/// A file in the framed form of a tree: the length of the path and the path,
/// the length of the file and the file.
pub open spec fn framed_file(path: Seq<char>, bytes: Seq<u8>) -> Seq<u8> {
    big_endian(byte_len(path), 8) + encode_utf8(path) + big_endian(bytes.len(), 8) + bytes
}

/// The framed form of the files from the `i`-th path on, behind what is
/// framed already, or what is wrong with the first bad one.
pub open spec fn framed_from<V: PackageView>(
    view: V,
    paths: Seq<Seq<char>>,
    i: int,
    total: nat,
    framed: Seq<u8>,
) -> Result<Seq<u8>, PackageErrorAbs>
    decreases paths.len() - i,
{
    if i >= paths.len() {
        Ok(framed)
    } else if i > 0 && paths[i] == paths[i - 1] {
        Err(PackageErrorAbs::DuplicateFile(paths[i]))
    } else if is_reserved(paths[i]) {
        Err(PackageErrorAbs::ReservedFile(paths[i]))
    } else {
        match view.file(paths[i]) {
            Err(error) => Err(error),
            Ok(bytes) => if total + bytes.len() > MAX_PACKAGE_BYTES {
                Err(PackageErrorAbs::TreeTooLarge)
            } else {
                framed_from(
                    view,
                    paths,
                    i + 1,
                    total + bytes.len(),
                    framed + framed_file(paths[i], bytes),
                )
            },
        }
    }
}

/// The bytes that stand before the framed files.
pub open spec fn tree_domain() -> Seq<u8> {
    encode_utf8("agentlibre.package-tree.v1\0"@)
}

/// The digest of a tree: of its files in path order.
pub open spec fn tree_digest<V: PackageView>(view: V) -> Result<Seq<char>, PackageErrorAbs> {
    match view.listing() {
        Err(error) => Err(error),
        Ok(paths) => match framed_from(view, in_order(paths), 0, 0, tree_domain()) {
            Err(error) => Err(error),
            Ok(framed) => Ok(digest_text(sha256(framed))),
        },
    }
}

/// The digest of a package tree.
#[derive(Clone, Debug, Eq, Hash, Ord, PartialEq, PartialOrd)]
pub struct PackageTreeDigest {
    text: String,
}

impl PackageTreeDigest {
    pub closed spec fn view(&self) -> Seq<char> {
        self.text@
    }

    pub fn new(value: &str) -> (r: Result<PackageTreeDigest, PackageError>)
        ensures
            match r {
                Ok(digest) => digest_in(value@) is Ok && digest@ == value@,
                Err(error) => digest_in(value@) is Err && error@ == PackageErrorAbs::InvalidDigest(
                    value@,
                ),
            },
    {
        match parse_digest(value) {
            Ok(_) => Ok(PackageTreeDigest { text: value.to_owned() }),
            Err(_) => Err(PackageError::InvalidDigest(value.to_owned())),
        }
    }

    pub fn as_str(&self) -> (r: &str)
        ensures
            r@ == self@,
    {
        self.text.as_str()
    }

    pub fn to_string(&self) -> (r: String)
        ensures
            r@ == self@,
    {
        self.text.clone()
    }
}

/// The digest of the files of a package, whatever order they are listed in.
pub fn compute_package_digest<V: PackageView>(view: &V) -> (r: Result<
    PackageTreeDigest,
    PackageError,
>)
    ensures
        match r {
            Ok(digest) => tree_digest(*view) == Ok::<Seq<char>, PackageErrorAbs>(digest@),
            Err(error) => tree_digest(*view) == Err::<Seq<char>, PackageErrorAbs>(error@),
        },
{
    let files: Vec<PackageRelativePath> = match view.files() {
        Ok(files) => sort_by_name(files),
        Err(error) => {
            return Err(error);
        },
    };
    let ghost paths = contents(files@);
    let mut framed: Vec<u8> = copy_bytes("agentlibre.package-tree.v1\0".as_bytes());
    let mut total: u64 = 0;
    let mut i: usize = 0;
    while i < files.len()
        invariant
            i <= files@.len(),
            paths == contents(files@),
            total <= MAX_PACKAGE_BYTES,
            framed_from(*view, paths, 0, 0, tree_domain()) == framed_from(
                *view,
                paths,
                i as int,
                total as nat,
                framed@,
            ),
            tree_digest(*view) == (match framed_from(*view, paths, 0, 0, tree_domain()) {
                Err(error) => Err::<Seq<char>, PackageErrorAbs>(error),
                Ok(framed) => Ok(digest_text(sha256(framed))),
            }),
        decreases files@.len() - i,
    {
        let path: &PackageRelativePath = &files[i];
        assert(paths[i as int] == path@);
        if i > 0 {
            assert(paths[i - 1] == files@[i - 1]@);
        }
        if i > 0 && files[i - 1].same(path) {
            return Err(PackageError::DuplicateFile(path.to_string()));
        }
        if reserved(path) {
            return Err(PackageError::ReservedFile(path.to_string()));
        }
        let bytes: Vec<u8> = match view.read_file(path) {
            Ok(bytes) => bytes,
            Err(error) => {
                return Err(error);
            },
        };
        let size: u64 = bytes.len() as u64;
        if size > MAX_PACKAGE_BYTES || total + size > MAX_PACKAGE_BYTES {
            return Err(PackageError::TreeTooLarge);
        }
        total = total + size;
        let ghost before = framed@;
        push_big_endian(&mut framed, bytes_in(path.as_str()) as u64, 8);
        push_bytes(&mut framed, path.as_str().as_bytes());
        push_big_endian(&mut framed, size, 8);
        push_bytes(&mut framed, &bytes);
        assert(framed@ =~= before + framed_file(path@, bytes@));
        i += 1;
    }
    let digest: [u8; 32] = sha256_of(&framed);
    proof {
        digest_round_trip(digest@);
    }
    PackageTreeDigest::new(render_digest(&digest).as_str())
}

fn reserved(path: &PackageRelativePath) -> (b: bool)
    ensures
        b == is_reserved(path@),
{
    let value: &str = path.as_str();
    let parts: Vec<String> = split(value, '/');
    let mut i: usize = 0;
    while i < parts.len()
        invariant
            i <= parts@.len(),
            contents(parts@) == pieces(value@, '/'),
            value@ == path@,
            forall|k: int| 0 <= k < i ==> #[trigger] pieces(value@, '/')[k] != ".git"@,
        decreases parts@.len() - i,
    {
        assert(pieces(value@, '/')[i as int] == parts@[i as int]@);
        if same_text(parts[i].as_str(), ".git") {
            return true;
        }
        i += 1;
    }
    same_text(value, "workspace.toml") || same_text(value, "package-lock.toml") || starts_with(
        value,
        "config/",
    ) || starts_with(value, "state/") || starts_with(value, "cache/")
}

/// Framing depends on the files alone.
proof fn lemma_framed_from_same<V: PackageView, W: PackageView>(
    left: V,
    right: W,
    paths: Seq<Seq<char>>,
    i: int,
    total: nat,
    framed: Seq<u8>,
)
    requires
        forall|path: Seq<char>| #[trigger] left.file(path) == right.file(path),
    ensures
        framed_from(left, paths, i, total, framed) == framed_from(right, paths, i, total, framed),
    decreases paths.len() - i,
{
    if i < paths.len() {
        assert(left.file(paths[i]) == right.file(paths[i]));
        if left.file(paths[i]) is Ok {
            let bytes = left.file(paths[i])->Ok_0;
            lemma_framed_from_same(
                left,
                right,
                paths,
                i + 1,
                total + bytes.len(),
                framed + framed_file(paths[i], bytes),
            );
        }
    }
}

/// The digest of a package does not depend on the order in which its files
/// are listed.
pub proof fn package_digest_is_order_independent<V: PackageView, W: PackageView>(left: V, right: W)
    requires
        left.listing() matches Ok(l) && right.listing() matches Ok(r) && l.to_multiset()
            == r.to_multiset(),
        forall|path: Seq<char>| #[trigger] left.file(path) == right.file(path),
    ensures
        tree_digest(left) == tree_digest(right),
{
    let l = left.listing()->Ok_0;
    let r = right.listing()->Ok_0;
    sorting_ignores_order(l, r);
    lemma_framed_from_same(left, right, in_order(l), 0, 0, tree_domain());
}

} // verus!
