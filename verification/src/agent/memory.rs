//! Memory claims and their type validation.

use vstd::prelude::*;

use crate::correlation_id::MessageId;
use crate::text::{
    blank, chars_of, contains_char, cut, digit, is_blank, is_digit, is_lower, lower, pieces,
    split, split_once, strip_prefix, without_prefix,
};
use crate::value::{contains_value, contents, Abstract};

verus! {

/// One durable fact extracted from the compaction semantic summary.
/// 
/// `files` carries workspace-relative paths without digests: the daemon stamps
/// `@sha256-12` at write time. `supersedes` is optional; each reference is
/// `slug#claim-n`, where `n` is the claim ordinal in `## Claims`, not a physical
/// file line.
#[derive(Clone, Debug, Eq, PartialEq)]
pub struct MemoryClaim {
    pub text: String,
    pub sources: Vec<MessageId>,
    pub files: Vec<String>,
    pub supersedes: Option<Vec<String>>,
}

/// The content of `MemoryClaim`.
pub struct MemoryClaimAbs {
    pub text: Seq<char>,
    pub sources: Seq<Seq<char>>,
    pub files: Seq<Seq<char>>,
    pub supersedes: Option<Seq<Seq<char>>>,
}

impl Abstract for MemoryClaim {
    type Abs = MemoryClaimAbs;

    open spec fn abs(&self) -> MemoryClaimAbs {
        MemoryClaimAbs {
            text: self.text.abs(),
            sources: self.sources.abs(),
            files: self.files.abs(),
            supersedes: self.supersedes.abs(),
        }
    }

    fn duplicate(&self) -> MemoryClaim {
        MemoryClaim {
            text: self.text.duplicate(),
            sources: self.sources.duplicate(),
            files: self.files.duplicate(),
            supersedes: self.supersedes.duplicate(),
        }
    }

    fn same(&self, other: &MemoryClaim) -> bool {
        self.text.same(&other.text) && self.sources.same(&other.sources)
            && self.files.same(&other.files) && self.supersedes.same(&other.supersedes)
    }
}

/// A memory topic as carried in the model payload: one entry file per slug.
#[derive(Clone, Debug, Eq, PartialEq)]
pub struct MemoryTopic {
    pub slug: String,
    pub claims: Vec<MemoryClaim>,
}

/// The content of `MemoryTopic`.
pub struct MemoryTopicAbs {
    pub slug: Seq<char>,
    pub claims: Seq<MemoryClaimAbs>,
}

impl Abstract for MemoryTopic {
    type Abs = MemoryTopicAbs;

    open spec fn abs(&self) -> MemoryTopicAbs {
        MemoryTopicAbs {
            slug: self.slug.abs(),
            claims: self.claims.abs(),
        }
    }

    fn duplicate(&self) -> MemoryTopic {
        MemoryTopic {
            slug: self.slug.duplicate(),
            claims: self.claims.duplicate(),
        }
    }

    fn same(&self, other: &MemoryTopic) -> bool {
        self.slug.same(&other.slug) && self.claims.same(&other.claims)
    }
}

/// Memory claim rejection reasons.
/// 
/// Type validation produces `InvalidSlug`, `InvalidShape`, `InvalidSources`,
/// `MissingSources` and `InvalidSupersession`; `UnreadableOrEscapingPath`,
/// `IndexCapReached` and `NotDurable` are decided at write time, not here.
#[derive(Clone, Copy, Debug, Eq, PartialEq, Structural)]
pub enum MemoryClaimRejection {
    InvalidSlug,
    MissingSources,
    UnreadableOrEscapingPath,
    IndexCapReached,
    InvalidShape,
    InvalidSources,
    InvalidSupersession,
    NotDurable,
}

impl Abstract for MemoryClaimRejection {
    type Abs = MemoryClaimRejection;

    open spec fn abs(&self) -> MemoryClaimRejection {
        *self
    }

    fn duplicate(&self) -> MemoryClaimRejection {
        *self
    }

    fn same(&self, other: &MemoryClaimRejection) -> bool {
        *self == *other
    }
}

/// Per-claim validation outcome. The rejection recorder consumes the
/// `Rejected` variants together with the topic slug and the claim at `index`.
#[derive(Clone, Debug, Eq, PartialEq)]
pub enum MemoryClaimOutcome {
    Accepted { index: usize, claim: MemoryClaim },
    Rejected { index: usize, reason: MemoryClaimRejection },
}

/// One segment of a slug: lowercase letters and digits.
pub open spec fn is_slug_segment(s: Seq<char>) -> bool {
    s.len() > 0 && forall|i: int|
        0 <= i < s.len() ==> is_lower(#[trigger] s[i]) || is_digit(s[i])
}

/// Slugs are ASCII kebab-case: lowercase segments separated by single hyphens.
/// No length limit is imposed.
pub open spec fn is_slug(s: Seq<char>) -> bool {
    forall|k: int| 0 <= k < pieces(s, '-').len() ==> is_slug_segment(#[trigger] pieces(s, '-')[k])
}

/// Whether the text is a slug.
pub fn is_valid_slug(slug: &str) -> (b: bool)
    ensures
        b == is_slug(slug@),
{
    let parts: Vec<String> = split(slug, '-');
    let mut i: usize = 0;
    while i < parts.len()
        invariant
            i <= parts@.len(),
            contents(parts@) == pieces(slug@, '-'),
            forall|k: int| 0 <= k < i ==> is_slug_segment(#[trigger] pieces(slug@, '-')[k]),
        decreases parts@.len() - i,
    {
        assert(pieces(slug@, '-')[i as int] == parts@[i as int]@);
        if !slug_segment(parts[i].as_str()) {
            return false;
        }
        i += 1;
    }
    true
}

fn slug_segment(segment: &str) -> (b: bool)
    ensures
        b == is_slug_segment(segment@),
{
    let chars: Vec<char> = chars_of(segment);
    let mut i: usize = 0;
    while i < chars.len()
        invariant
            i <= chars@.len(),
            chars@ == segment@,
            forall|k: int| 0 <= k < i ==> is_lower(#[trigger] chars@[k]) || is_digit(chars@[k]),
        decreases chars@.len() - i,
    {
        if !lower(chars[i]) && !digit(chars[i]) {
            return false;
        }
        i += 1;
    }
    chars.len() > 0
}

/// File paths are supplied workspace-relative without digests. Only shape is
/// checked here; escaping paths and readability are contained at write time.
pub open spec fn is_memory_path(path: Seq<char>) -> bool {
    path.len() > 0 && !path.contains('\0') && path[0] != '/'
}

/// Whether the text has the shape of a file path.
pub fn is_valid_file_path(path: &str) -> (b: bool)
    ensures
        b == is_memory_path(path@),
{
    let chars: Vec<char> = chars_of(path);
    chars.len() > 0 && !contains_char(path, '\0') && chars[0] != '/'
}

/// A claim ordinal: digits without a leading zero.
pub open spec fn is_ordinal(s: Seq<char>) -> bool {
    s.len() > 0 && s[0] != '0' && forall|i: int| 0 <= i < s.len() ==> is_digit(#[trigger] s[i])
}

/// Supersession references are `slug#claim-n` where `n` is the 1-based claim
/// ordinal in `## Claims`, not a physical file line.
pub open spec fn is_supersession(reference: Seq<char>) -> bool {
    match cut(reference, seq!['#']) {
        Some((slug, ordinal)) => is_slug(slug) && match without_prefix(ordinal, "claim-"@) {
            Some(number) => is_ordinal(number),
            None => false,
        },
        None => false,
    }
}

/// Whether the text is a supersession reference.
#[verifier::loop_isolation(false)]
pub fn is_valid_supersession_ref(reference: &str) -> (b: bool)
    ensures
        b == is_supersession(reference@),
{
    proof {
        reveal_strlit("#");
        assert("#"@ =~= seq!['#']);
    }
    let (slug, ordinal): (String, String) = match split_once(reference, "#") {
        Some(parts) => parts,
        None => {
            return false;
        },
    };
    if !is_valid_slug(slug.as_str()) {
        return false;
    }
    let number: String = match strip_prefix(ordinal.as_str(), "claim-") {
        Some(number) => number,
        None => {
            return false;
        },
    };
    let chars: Vec<char> = chars_of(number.as_str());
    if chars.len() == 0 || chars[0] == '0' {
        return false;
    }
    let mut i: usize = 0;
    while i < chars.len()
        invariant
            i <= chars@.len(),
            chars@ == number@,
            forall|k: int| 0 <= k < i ==> is_digit(#[trigger] chars@[k]),
        decreases chars@.len() - i,
    {
        if !digit(chars[i]) {
            return false;
        }
        i += 1;
    }
    true
}

/// Why a claim is rejected, if it is.
///
/// A claim with no message source is still sourceful when it cites a file
/// path; a claim with neither is not written.
pub open spec fn claim_rejection(
    claim: MemoryClaimAbs,
    source: Seq<Seq<char>>,
) -> Option<MemoryClaimRejection> {
    if is_blank(claim.text) || claim.text.contains('\n') || claim.text.contains('\r') {
        Some(MemoryClaimRejection::InvalidShape)
    } else if exists|i: int|
        0 <= i < claim.sources.len() && !source.contains(#[trigger] claim.sources[i]) {
        Some(MemoryClaimRejection::InvalidSources)
    } else if claim.sources.len() == 0 && claim.files.len() == 0 {
        Some(MemoryClaimRejection::MissingSources)
    } else if exists|i: int|
        0 <= i < claim.files.len() && !is_memory_path(#[trigger] claim.files[i]) {
        Some(MemoryClaimRejection::InvalidShape)
    } else if claim.supersedes matches Some(references) && exists|i: int|
        0 <= i < references.len() && !is_supersession(#[trigger] references[i]) {
        Some(MemoryClaimRejection::InvalidSupersession)
    } else {
        None
    }
}

fn validate_claim(claim: &MemoryClaim, source: &[MessageId]) -> (r: Option<MemoryClaimRejection>)
    ensures
        r == claim_rejection(claim.abs(), contents(source@)),
{
    let text: &str = claim.text.as_str();
    if blank(text) || contains_char(text, '\n') || contains_char(text, '\r') {
        return Some(MemoryClaimRejection::InvalidShape);
    }
    let ghost abs = claim.abs();
    let mut i: usize = 0;
    while i < claim.sources.len()
        invariant
            i <= claim.sources@.len(),
            abs == claim.abs(),
            forall|k: int| 0 <= k < i ==> contents(source@).contains(#[trigger] abs.sources[k]),
            !(is_blank(abs.text) || abs.text.contains('\n') || abs.text.contains('\r')),
        decreases claim.sources@.len() - i,
    {
        assert(abs.sources[i as int] == claim.sources@[i as int]@);
        if !contains_value(source, &claim.sources[i]) {
            return Some(MemoryClaimRejection::InvalidSources);
        }
        i += 1;
    }
    if claim.sources.len() == 0 && claim.files.len() == 0 {
        return Some(MemoryClaimRejection::MissingSources);
    }
    i = 0;
    while i < claim.files.len()
        invariant
            i <= claim.files@.len(),
            abs == claim.abs(),
            forall|k: int|
                0 <= k < abs.sources.len() ==> contents(source@).contains(
                    #[trigger] abs.sources[k],
                ),
            !(is_blank(abs.text) || abs.text.contains('\n') || abs.text.contains('\r')),
            !(abs.sources.len() == 0 && abs.files.len() == 0),
            forall|k: int| 0 <= k < i ==> is_memory_path(#[trigger] abs.files[k]),
        decreases claim.files@.len() - i,
    {
        assert(abs.files[i as int] == claim.files@[i as int]@);
        if !is_valid_file_path(claim.files[i].as_str()) {
            return Some(MemoryClaimRejection::InvalidShape);
        }
        i += 1;
    }
    if let Some(references) = &claim.supersedes {
        let ghost refs = contents(references@);
        i = 0;
        while i < references.len()
            invariant
                i <= references@.len(),
                refs == contents(references@),
                abs == claim.abs(),
                abs.supersedes == Some(refs),
                forall|k: int|
                    0 <= k < abs.sources.len() ==> contents(source@).contains(
                        #[trigger] abs.sources[k],
                    ),
                forall|k: int| 0 <= k < abs.files.len() ==> is_memory_path(#[trigger] abs.files[k]),
                !(is_blank(abs.text) || abs.text.contains('\n') || abs.text.contains('\r')),
                !(abs.sources.len() == 0 && abs.files.len() == 0),
                forall|k: int| 0 <= k < i ==> is_supersession(#[trigger] refs[k]),
            decreases references@.len() - i,
        {
            assert(refs[i as int] == references@[i as int]@);
            if !is_valid_supersession_ref(references[i].as_str()) {
                assert(!is_supersession(refs[i as int]));
                assert(claim.abs().supersedes->Some_0 == refs);
                return Some(MemoryClaimRejection::InvalidSupersession);
            }
            i += 1;
        }
    }
    None
}

/// The outcome of a claim of a topic.
pub open spec fn claim_outcome(
    topic: MemoryTopicAbs,
    source: Seq<Seq<char>>,
    index: int,
) -> Option<MemoryClaimRejection> {
    if !is_slug(topic.slug) {
        Some(MemoryClaimRejection::InvalidSlug)
    } else {
        claim_rejection(topic.claims[index], source)
    }
}

impl MemoryTopic {
    /// Validate every claim of this topic against the summarized source.
    ///
    /// Only type-level rules are enforced here: slug form, nonempty
    /// single-line text, source membership, file path shape, and supersession
    /// reference form. File I/O, digest stamping, workspace containment, and
    /// the durability judgment are not type validation.
    pub fn validate(&self, source: &[MessageId]) -> (r: Vec<MemoryClaimOutcome>)
        ensures
            r@.len() == self.claims@.len(),
            forall|i: int|
                0 <= i < r@.len() ==> match #[trigger] r@[i] {
                    MemoryClaimOutcome::Accepted { index, claim } => index == i && claim.abs()
                        == self.claims@[i].abs() && claim_outcome(
                        self.abs(),
                        contents(source@),
                        i,
                    ) is None,
                    MemoryClaimOutcome::Rejected { index, reason } => index == i && claim_outcome(
                        self.abs(),
                        contents(source@),
                        i,
                    ) == Some(reason),
                },
    {
        let slug: bool = is_valid_slug(self.slug.as_str());
        let mut out: Vec<MemoryClaimOutcome> = Vec::new();
        let mut i: usize = 0;
        while i < self.claims.len()
            invariant
                i <= self.claims@.len(),
                out@.len() == i,
                slug == is_slug(self.slug@),
                forall|k: int|
                    0 <= k < i ==> match #[trigger] out@[k] {
                        MemoryClaimOutcome::Accepted { index, claim } => index == k && claim.abs()
                            == self.claims@[k].abs() && claim_outcome(
                            self.abs(),
                            contents(source@),
                            k,
                        ) is None,
                        MemoryClaimOutcome::Rejected { index, reason } => index == k
                            && claim_outcome(self.abs(), contents(source@), k) == Some(reason),
                    },
            decreases self.claims@.len() - i,
        {
            assert(self.abs().claims[i as int] == self.claims@[i as int].abs());
            let reason: Option<MemoryClaimRejection> = if !slug {
                Some(MemoryClaimRejection::InvalidSlug)
            } else {
                validate_claim(&self.claims[i], source)
            };
            match reason {
                Some(reason) => {
                    out.push(MemoryClaimOutcome::Rejected { index: i, reason });
                },
                None => {
                    out.push(
                        MemoryClaimOutcome::Accepted {
                            index: i,
                            claim: self.claims[i].duplicate(),
                        },
                    );
                },
            }
            i += 1;
        }
        out
    }
}

} // verus!
