//! Identities of requests, messages, daemon instances, runs and
//! conversations: a prefix and a version 7 UUID.

use std::str::FromStr;

use uuid::Uuid;
use vstd::prelude::*;
use vstd::string::*;

use crate::hex::{
    digit_round_trip, nibble, nibble_at, nibble_char, nibble_digit, nibble_round_trip,
    nibble_value,
};
use crate::text::{after, is_lower_hex, strip_prefix, without_prefix};
use crate::value::Abstract;

verus! {

// ---------------------------------------------------------------------------
// UUID text
// ---------------------------------------------------------------------------

/// Whether a hyphen stands at this position of a hyphenated UUID.
pub open spec fn hyphen_at(i: int) -> bool {
    i == 8 || i == 13 || i == 18 || i == 23
}

/// Where the hexadecimal digit `j` of a UUID stands in its hyphenated form.
pub open spec fn digit_place(j: int) -> int {
    if j < 8 {
        j
    } else if j < 12 {
        j + 1
    } else if j < 16 {
        j + 2
    } else if j < 20 {
        j + 3
    } else {
        j + 4
    }
}

/// Which hexadecimal digit stands at this position of a hyphenated UUID.
pub open spec fn digit_index(i: int) -> int {
    if i < 8 {
        i
    } else if i < 13 {
        i - 1
    } else if i < 18 {
        i - 2
    } else if i < 23 {
        i - 3
    } else {
        i - 4
    }
}

/// The hyphenated lowercase text of the 16 bytes of a UUID.
#[verifier::opaque]
pub open spec fn hyphenated(bytes: Seq<u8>) -> Seq<char> {
    Seq::new(
        36,
        |i: int|
            if hyphen_at(i) {
                '-'
            } else {
                nibble_char(nibble_at(bytes, digit_index(i)))
            },
    )
}

/// Whether a text is a UUID in hyphenated lowercase form.
#[verifier::opaque]
pub open spec fn is_hyphenated(s: Seq<char>) -> bool {
    &&& s.len() == 36
    &&& forall|i: int|
        0 <= i < 36 ==> if hyphen_at(i) {
            #[trigger] s[i] == '-'
        } else {
            is_lower_hex(s[i])
        }
}

/// The bytes that a hyphenated lowercase UUID stands for.
#[verifier::opaque]
pub open spec fn uuid_bytes(s: Seq<char>) -> Seq<u8> {
    Seq::new(
        16,
        |k: int|
            (16 * nibble_value(s[digit_place(2 * k)]) + nibble_value(
                s[digit_place(2 * k + 1)],
            )) as u8,
    )
}

/// Whether the version field of a UUID says 7.
pub open spec fn is_version7(bytes: Seq<u8>) -> bool {
    bytes[6] / 16 == 7
}

/// The hyphenated form of a UUID is canonical and is read back as the UUID.
pub proof fn hyphenated_round_trip(bytes: Seq<u8>)
    requires
        bytes.len() == 16,
    ensures
        is_hyphenated(hyphenated(bytes)),
        uuid_bytes(hyphenated(bytes)) == bytes,
        hyphenated(bytes).len() == 36,
{
    reveal(hyphenated);
    reveal(is_hyphenated);
    reveal(uuid_bytes);
    let s = hyphenated(bytes);
    assert forall|i: int| 0 <= i < 36 implies (if hyphen_at(i) {
        #[trigger] s[i] == '-'
    } else {
        is_lower_hex(s[i])
    }) by {
        if !hyphen_at(i) {
            nibble_round_trip(nibble_at(bytes, digit_index(i)));
        }
    }
    assert forall|k: int| 0 <= k < 16 implies uuid_bytes(s)[k] == bytes[k] by {
        nibble_round_trip(bytes[k] as int / 16);
        nibble_round_trip(bytes[k] as int % 16);
        assert(digit_index(digit_place(2 * k)) == 2 * k);
        assert(digit_index(digit_place(2 * k + 1)) == 2 * k + 1);
        assert(!hyphen_at(digit_place(2 * k)) && !hyphen_at(digit_place(2 * k + 1)));
        assert((2 * k) / 2 == k && (2 * k + 1) / 2 == k);
    }
    assert(uuid_bytes(s) =~= bytes);
}

/// A hyphenated lowercase UUID is the form of the UUID that it stands for.
pub proof fn canonical_text_is_hyphenated(s: Seq<char>)
    requires
        is_hyphenated(s),
    ensures
        hyphenated(uuid_bytes(s)) == s,
{
    reveal(hyphenated);
    reveal(is_hyphenated);
    reveal(uuid_bytes);
    let b = uuid_bytes(s);
    assert forall|i: int| 0 <= i < 36 implies hyphenated(b)[i] == s[i] by {
        if hyphen_at(i) {
            assert(s[i] == '-');
        } else {
            let j = digit_index(i);
            let k = j / 2;
            let p = digit_place(2 * k);
            let q = digit_place(2 * k + 1);
            assert(!hyphen_at(p) && !hyphen_at(q));
            assert(is_lower_hex(s[p]) && is_lower_hex(s[q]));
            digit_round_trip(s[p]);
            digit_round_trip(s[q]);
            assert(b[k] as int / 16 == nibble_value(s[p]));
            assert(b[k] as int % 16 == nibble_value(s[q]));
            if j % 2 == 0 {
                assert(j == 2 * k && p == i);
            } else {
                assert(j == 2 * k + 1 && q == i);
            }
        }
    }
    assert(hyphenated(b) =~= s);
}

/// What `Uuid::parse_str` makes of a text: the bytes of the UUID, in any of
/// the notations that it knows.
pub uninterp spec fn uuid_in(text: Seq<char>) -> Option<Seq<u8>>;

/// `Uuid::parse_str`. Of its result is claimed that it is the same for the
/// same text, and that a UUID in hyphenated lowercase form gives the bytes
/// that its digits stand for.
#[verifier::external_body]
fn read_uuid(text: &str) -> (r: Option<[u8; 16]>)
    ensures
        r is Some <==> uuid_in(text@) is Some,
        r matches Some(bytes) ==> uuid_in(text@) == Some(bytes@),
        is_hyphenated(text@) ==> r is Some && r->Some_0@ == uuid_bytes(text@),
{
    match Uuid::parse_str(text) {
        Ok(uuid) => Some(uuid.into_bytes()),
        Err(_) => None,
    }
}

/// `Uuid::now_v7`. Of the fresh UUID is claimed only its version.
#[verifier::external_body]
pub(crate) fn fresh_uuid() -> (r: [u8; 16])
    ensures
        is_version7(r@),
{
    Uuid::now_v7().into_bytes()
}

/// The hyphenated lowercase text of a UUID.
pub fn hyphenated_text(bytes: &[u8; 16]) -> (r: String)
    ensures
        r@ == hyphenated(bytes@),
{
    let mut out: String = String::new();
    let mut i: usize = 0;
    proof {
        reveal(hyphenated);
    }
    while i < 36
        invariant
            i <= 36,
            bytes@.len() == 16,
            out@ == hyphenated(bytes@).take(i as int),
        decreases 36 - i,
    {
        if i == 8 || i == 13 || i == 18 || i == 23 {
            out.push('-');
        } else {
            let j: usize = if i < 8 {
                i
            } else if i < 13 {
                i - 1
            } else if i < 18 {
                i - 2
            } else if i < 23 {
                i - 3
            } else {
                i - 4
            };
            out.push(nibble_digit(nibble(bytes, j)));
        }
        i += 1;
        proof {
            reveal(hyphenated);
        }
        assert(out@ =~= hyphenated(bytes@).take(i as int));
    }
    assert(out@ =~= hyphenated(bytes@));
    out
}

// ---------------------------------------------------------------------------
// Prefixed identities
// ---------------------------------------------------------------------------

#[derive(Clone, Copy, Debug, Eq, PartialEq)]
pub enum ParseIdError {
    PrefixMismatch { expected: &'static str },
    InvalidUuid,
    NonCanonical,
    UnsupportedUuidVersion,
}

impl ParseIdError {
    /// The sentence that tells a reader of this error.
    pub open spec fn message(&self) -> Seq<char> {
        match self {
            ParseIdError::PrefixMismatch { expected } => "ID must start with "@ + expected@,
            ParseIdError::InvalidUuid => "ID payload must be a UUID"@,
            ParseIdError::NonCanonical => "ID UUID must be canonical lowercase hyphenated text"@,
            ParseIdError::UnsupportedUuidVersion => "ID payload must be a UUIDv7"@,
        }
    }

    pub fn to_string(&self) -> (r: String)
        ensures
            r@ == self.message(),
    {
        match self {
            ParseIdError::PrefixMismatch {
                expected,
            } => "ID must start with ".to_owned().concat(expected),
            ParseIdError::InvalidUuid => "ID payload must be a UUID".to_owned(),
            ParseIdError::NonCanonical => "ID UUID must be canonical lowercase hyphenated text".to_owned(),
            ParseIdError::UnsupportedUuidVersion => "ID payload must be a UUIDv7".to_owned(),
        }
    }
}

/// What a text identifies under a prefix: the bytes of the UUID, or why it is
/// no identity. Only the hyphenated lowercase form of a version 7 UUID behind
/// the prefix is one.
pub open spec fn identified(value: Seq<char>, prefix: &'static str) -> Result<
    Seq<u8>,
    ParseIdError,
> {
    match without_prefix(value, prefix@) {
        None => Err(ParseIdError::PrefixMismatch { expected: prefix }),
        Some(payload) => if is_hyphenated(payload) {
            if is_version7(uuid_bytes(payload)) {
                Ok(uuid_bytes(payload))
            } else {
                Err(ParseIdError::UnsupportedUuidVersion)
            }
        } else if uuid_in(payload) is Some {
            Err(ParseIdError::NonCanonical)
        } else {
            Err(ParseIdError::InvalidUuid)
        },
    }
}

/// The text of an identity.
pub open spec fn identity_text(prefix: &'static str, bytes: Seq<u8>) -> Seq<char> {
    prefix@ + hyphenated(bytes)
}

/// The text of an identity identifies exactly the bytes that it was made of.
pub proof fn identity_round_trip(prefix: &'static str, bytes: Seq<u8>)
    requires
        bytes.len() == 16,
        is_version7(bytes),
    ensures
        identified(identity_text(prefix, bytes), prefix) == Ok::<Seq<u8>, ParseIdError>(bytes),
{
    let text = identity_text(prefix, bytes);
    hyphenated_round_trip(bytes);
    assert(text.subrange(0, prefix@.len() as int) =~= prefix@);
    assert(after(text, prefix@.len() as int) =~= hyphenated(bytes));
}

/// A text that identifies bytes is the text of that identity: no two texts
/// stand for the same one.
pub proof fn identity_text_is_unique(value: Seq<char>, prefix: &'static str)
    requires
        identified(value, prefix) is Ok,
    ensures
        value == identity_text(prefix, identified(value, prefix)->Ok_0),
        identified(value, prefix)->Ok_0.len() == 16,
        is_version7(identified(value, prefix)->Ok_0),
{
    let payload = after(value, prefix@.len() as int);
    canonical_text_is_hyphenated(payload);
    assert(uuid_bytes(payload).len() == 16) by {
        reveal(uuid_bytes);
    }
    assert(value =~= prefix@ + payload);
}

pub(crate) fn parse_uuid(value: &str, prefix: &'static str) -> (r: Result<
    [u8; 16],
    ParseIdError,
>)
    ensures
        match r {
            Ok(bytes) => identified(value@, prefix) == Ok::<Seq<u8>, ParseIdError>(bytes@),
            Err(error) => identified(value@, prefix) == Err::<Seq<u8>, ParseIdError>(error),
        },
{
    let payload: String = match strip_prefix(value, prefix) {
        Some(payload) => payload,
        None => {
            return Err(ParseIdError::PrefixMismatch { expected: prefix });
        },
    };
    let bytes: [u8; 16] = match read_uuid(payload.as_str()) {
        Some(bytes) => bytes,
        None => {
            return Err(ParseIdError::InvalidUuid);
        },
    };
    let canonical: String = hyphenated_text(&bytes);
    proof {
        hyphenated_round_trip(bytes@);
        if is_hyphenated(payload@) {
            canonical_text_is_hyphenated(payload@);
        }
    }
    if payload != canonical {
        return Err(ParseIdError::NonCanonical);
    }
    if bytes[6] / 16 != 7 {
        return Err(ParseIdError::UnsupportedUuidVersion);
    }
    Ok(bytes)
}

/// Whether two UUIDs have the same bytes.
pub(crate) fn same_bytes(left: &[u8; 16], right: &[u8; 16]) -> (b: bool)
    ensures
        b == (left@ == right@),
{
    let mut i: usize = 0;
    while i < 16
        invariant
            i <= 16,
            forall|k: int| 0 <= k < i ==> left@[k] == right@[k],
        decreases 16 - i,
    {
        if left[i] != right[i] {
            return false;
        }
        i += 1;
    }
    assert(left@ =~= right@);
    true
}

/// The identity of a request: `req_` and a version 7 UUID.
#[derive(Debug, Eq, Hash, Ord, PartialEq, PartialOrd)]
pub struct RequestId {
    text: String,
}

impl RequestId {
    #[verifier::type_invariant]
    spec fn is_identity(self) -> bool {
        identified(self.text@, "req_") is Ok
    }

    pub closed spec fn view(&self) -> Seq<char> {
        self.text@
    }

    /// A fresh identity.
    pub fn generate() -> (r: RequestId)
        ensures
            identified(r@, "req_") is Ok,
    {
        let bytes: [u8; 16] = fresh_uuid();
        proof {
            identity_round_trip("req_", bytes@);
        }
        RequestId { text: "req_".to_owned().concat(hyphenated_text(&bytes).as_str()) }
    }

    /// The identity with that text.
    pub fn parse(value: &str) -> (r: Result<RequestId, ParseIdError>)
        ensures
            match r {
                Ok(id) => identified(value@, "req_") is Ok && id@ == value@,
                Err(error) => identified(value@, "req_") == Err::<Seq<u8>, ParseIdError>(error),
            },
    {
        match parse_uuid(value, "req_") {
            Ok(_) => Ok(RequestId { text: value.to_owned() }),
            Err(error) => Err(error),
        }
    }

    pub fn as_str(&self) -> (r: &str)
        ensures
            r@ == self@,
            identified(r@, "req_") is Ok,
    {
        proof {
            use_type_invariant(self);
        }
        self.text.as_str()
    }

    pub fn to_string(&self) -> (r: String)
        ensures
            r@ == self@,
    {
        self.text.clone()
    }
}

impl Clone for RequestId {
    fn clone(&self) -> (r: RequestId)
        ensures
            r@ == self@,
    {
        self.duplicate()
    }
}

impl FromStr for RequestId {
    type Err = ParseIdError;

    fn from_str(value: &str) -> Result<RequestId, ParseIdError> {
        RequestId::parse(value)
    }
}

impl Abstract for RequestId {
    type Abs = Seq<char>;

    open spec fn abs(&self) -> Seq<char> {
        self@
    }

    fn duplicate(&self) -> RequestId {
        proof {
            use_type_invariant(self);
        }
        RequestId { text: self.text.clone() }
    }

    fn same(&self, other: &RequestId) -> bool {
        self.text == other.text
    }
}

/// The identity of a message: `msg_` and a version 7 UUID.
#[derive(Debug, Eq, Hash, Ord, PartialEq, PartialOrd)]
pub struct MessageId {
    text: String,
}

impl MessageId {
    #[verifier::type_invariant]
    spec fn is_identity(self) -> bool {
        identified(self.text@, "msg_") is Ok
    }

    pub closed spec fn view(&self) -> Seq<char> {
        self.text@
    }

    /// A fresh identity.
    pub fn generate() -> (r: MessageId)
        ensures
            identified(r@, "msg_") is Ok,
    {
        let bytes: [u8; 16] = fresh_uuid();
        proof {
            identity_round_trip("msg_", bytes@);
        }
        MessageId { text: "msg_".to_owned().concat(hyphenated_text(&bytes).as_str()) }
    }

    /// The identity with that text.
    pub fn parse(value: &str) -> (r: Result<MessageId, ParseIdError>)
        ensures
            match r {
                Ok(id) => identified(value@, "msg_") is Ok && id@ == value@,
                Err(error) => identified(value@, "msg_") == Err::<Seq<u8>, ParseIdError>(error),
            },
    {
        match parse_uuid(value, "msg_") {
            Ok(_) => Ok(MessageId { text: value.to_owned() }),
            Err(error) => Err(error),
        }
    }

    pub fn as_str(&self) -> (r: &str)
        ensures
            r@ == self@,
            identified(r@, "msg_") is Ok,
    {
        proof {
            use_type_invariant(self);
        }
        self.text.as_str()
    }

    pub fn to_string(&self) -> (r: String)
        ensures
            r@ == self@,
    {
        self.text.clone()
    }
}

impl Clone for MessageId {
    fn clone(&self) -> (r: MessageId)
        ensures
            r@ == self@,
    {
        self.duplicate()
    }
}

impl FromStr for MessageId {
    type Err = ParseIdError;

    fn from_str(value: &str) -> Result<MessageId, ParseIdError> {
        MessageId::parse(value)
    }
}

impl Abstract for MessageId {
    type Abs = Seq<char>;

    open spec fn abs(&self) -> Seq<char> {
        self@
    }

    fn duplicate(&self) -> MessageId {
        proof {
            use_type_invariant(self);
        }
        MessageId { text: self.text.clone() }
    }

    fn same(&self, other: &MessageId) -> bool {
        self.text == other.text
    }
}

/// The identity of a daemon instance: `daemon_` and a version 7 UUID.
#[derive(Debug, Eq, Hash, Ord, PartialEq, PartialOrd)]
pub struct DaemonInstanceId {
    text: String,
}

impl DaemonInstanceId {
    #[verifier::type_invariant]
    spec fn is_identity(self) -> bool {
        identified(self.text@, "daemon_") is Ok
    }

    pub closed spec fn view(&self) -> Seq<char> {
        self.text@
    }

    /// A fresh identity.
    pub fn generate() -> (r: DaemonInstanceId)
        ensures
            identified(r@, "daemon_") is Ok,
    {
        let bytes: [u8; 16] = fresh_uuid();
        proof {
            identity_round_trip("daemon_", bytes@);
        }
        DaemonInstanceId { text: "daemon_".to_owned().concat(hyphenated_text(&bytes).as_str()) }
    }

    /// The identity with that text.
    pub fn parse(value: &str) -> (r: Result<DaemonInstanceId, ParseIdError>)
        ensures
            match r {
                Ok(id) => identified(value@, "daemon_") is Ok && id@ == value@,
                Err(error) => identified(value@, "daemon_") == Err::<Seq<u8>, ParseIdError>(error),
            },
    {
        match parse_uuid(value, "daemon_") {
            Ok(_) => Ok(DaemonInstanceId { text: value.to_owned() }),
            Err(error) => Err(error),
        }
    }

    pub fn as_str(&self) -> (r: &str)
        ensures
            r@ == self@,
            identified(r@, "daemon_") is Ok,
    {
        proof {
            use_type_invariant(self);
        }
        self.text.as_str()
    }

    pub fn to_string(&self) -> (r: String)
        ensures
            r@ == self@,
    {
        self.text.clone()
    }
}

impl Clone for DaemonInstanceId {
    fn clone(&self) -> (r: DaemonInstanceId)
        ensures
            r@ == self@,
    {
        self.duplicate()
    }
}

impl FromStr for DaemonInstanceId {
    type Err = ParseIdError;

    fn from_str(value: &str) -> Result<DaemonInstanceId, ParseIdError> {
        DaemonInstanceId::parse(value)
    }
}

impl Abstract for DaemonInstanceId {
    type Abs = Seq<char>;

    open spec fn abs(&self) -> Seq<char> {
        self@
    }

    fn duplicate(&self) -> DaemonInstanceId {
        proof {
            use_type_invariant(self);
        }
        DaemonInstanceId { text: self.text.clone() }
    }

    fn same(&self, other: &DaemonInstanceId) -> bool {
        self.text == other.text
    }
}

/// The identity of an agent run: 16 bytes, written as `run_` and a version 7
/// UUID.
#[derive(Clone, Copy, Debug, Eq, Hash, Ord, PartialEq, PartialOrd)]
pub struct AgentRunId {
    bytes: [u8; 16],
}

impl AgentRunId {
    #[verifier::type_invariant]
    spec fn is_identity(self) -> bool {
        is_version7(self.bytes@)
    }

    /// The bytes of the UUID.
    pub closed spec fn view(&self) -> Seq<u8> {
        self.bytes@
    }

    /// A fresh identity.
    pub fn generate() -> (r: AgentRunId)
        ensures
            r@.len() == 16,
            is_version7(r@),
    {
        AgentRunId { bytes: fresh_uuid() }
    }

    /// The identity with that text.
    pub fn parse(value: &str) -> (r: Result<AgentRunId, ParseIdError>)
        ensures
            match r {
                Ok(id) => identified(value@, "run_") == Ok::<Seq<u8>, ParseIdError>(id@),
                Err(error) => identified(value@, "run_") == Err::<Seq<u8>, ParseIdError>(error),
            },
    {
        match parse_uuid(value, "run_") {
            Ok(bytes) => Ok(AgentRunId { bytes }),
            Err(error) => Err(error),
        }
    }

    /// The identity with those bytes, which must be those of a version 7 UUID.
    pub fn from_bytes(bytes: [u8; 16]) -> (r: Result<AgentRunId, ParseIdError>)
        ensures
            match r {
                Ok(id) => is_version7(bytes@) && id@ == bytes@,
                Err(error) => !is_version7(bytes@) && error
                    == ParseIdError::UnsupportedUuidVersion,
            },
    {
        if bytes[6] / 16 != 7 {
            return Err(ParseIdError::UnsupportedUuidVersion);
        }
        Ok(AgentRunId { bytes })
    }

    pub fn as_bytes(&self) -> (r: &[u8; 16])
        ensures
            r@ == self@,
            is_version7(r@),
    {
        proof {
            use_type_invariant(self);
        }
        &self.bytes
    }

    pub fn into_bytes(self) -> (r: [u8; 16])
        ensures
            r@ == self@,
            is_version7(r@),
    {
        proof {
            use_type_invariant(self);
        }
        self.bytes
    }

    pub fn to_string(&self) -> (r: String)
        ensures
            r@ == identity_text("run_", self@),
            self@.len() == 16,
            is_version7(self@),
    {
        proof {
            use_type_invariant(self);
        }
        "run_".to_owned().concat(hyphenated_text(&self.bytes).as_str())
    }
}

impl FromStr for AgentRunId {
    type Err = ParseIdError;

    fn from_str(value: &str) -> Result<AgentRunId, ParseIdError> {
        AgentRunId::parse(value)
    }
}

impl Abstract for AgentRunId {
    type Abs = Seq<u8>;

    open spec fn abs(&self) -> Seq<u8> {
        self@
    }

    fn duplicate(&self) -> AgentRunId {
        *self
    }

    fn same(&self, other: &AgentRunId) -> bool {
        same_bytes(&self.bytes, &other.bytes)
    }
}

/// The identity of a conversation: 16 bytes, written as `conv_` and a version 7
/// UUID.
#[derive(Clone, Copy, Debug, Eq, Hash, Ord, PartialEq, PartialOrd)]
pub struct ConversationId {
    bytes: [u8; 16],
}

impl ConversationId {
    #[verifier::type_invariant]
    spec fn is_identity(self) -> bool {
        is_version7(self.bytes@)
    }

    /// The bytes of the UUID.
    pub closed spec fn view(&self) -> Seq<u8> {
        self.bytes@
    }

    /// A fresh identity.
    pub fn generate() -> (r: ConversationId)
        ensures
            r@.len() == 16,
            is_version7(r@),
    {
        ConversationId { bytes: fresh_uuid() }
    }

    /// The identity with that text.
    pub fn parse(value: &str) -> (r: Result<ConversationId, ParseIdError>)
        ensures
            match r {
                Ok(id) => identified(value@, "conv_") == Ok::<Seq<u8>, ParseIdError>(id@),
                Err(error) => identified(value@, "conv_") == Err::<Seq<u8>, ParseIdError>(error),
            },
    {
        match parse_uuid(value, "conv_") {
            Ok(bytes) => Ok(ConversationId { bytes }),
            Err(error) => Err(error),
        }
    }

    /// The identity with those bytes, which must be those of a version 7 UUID.
    pub fn from_bytes(bytes: [u8; 16]) -> (r: Result<ConversationId, ParseIdError>)
        ensures
            match r {
                Ok(id) => is_version7(bytes@) && id@ == bytes@,
                Err(error) => !is_version7(bytes@) && error
                    == ParseIdError::UnsupportedUuidVersion,
            },
    {
        if bytes[6] / 16 != 7 {
            return Err(ParseIdError::UnsupportedUuidVersion);
        }
        Ok(ConversationId { bytes })
    }

    pub fn as_bytes(&self) -> (r: &[u8; 16])
        ensures
            r@ == self@,
            is_version7(r@),
    {
        proof {
            use_type_invariant(self);
        }
        &self.bytes
    }

    pub fn into_bytes(self) -> (r: [u8; 16])
        ensures
            r@ == self@,
            is_version7(r@),
    {
        proof {
            use_type_invariant(self);
        }
        self.bytes
    }

    pub fn to_string(&self) -> (r: String)
        ensures
            r@ == identity_text("conv_", self@),
            self@.len() == 16,
            is_version7(self@),
    {
        proof {
            use_type_invariant(self);
        }
        "conv_".to_owned().concat(hyphenated_text(&self.bytes).as_str())
    }
}

impl FromStr for ConversationId {
    type Err = ParseIdError;

    fn from_str(value: &str) -> Result<ConversationId, ParseIdError> {
        ConversationId::parse(value)
    }
}

impl Abstract for ConversationId {
    type Abs = Seq<u8>;

    open spec fn abs(&self) -> Seq<u8> {
        self@
    }

    fn duplicate(&self) -> ConversationId {
        *self
    }

    fn same(&self, other: &ConversationId) -> bool {
        same_bytes(&self.bytes, &other.bytes)
    }
}

} // verus!
