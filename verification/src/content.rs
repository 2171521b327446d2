//! Bounded text content.

use vstd::prelude::*;
use vstd::string::*;

use crate::text::{byte_len, bytes_in, decimal, decimal_text};
use crate::value::Abstract;

verus! {

/// The largest content text, in bytes.
pub const MAX_TEXT_BYTES: usize = 1_048_576;

/// A text that a message may carry.
#[derive(Clone, Debug, Eq, PartialEq)]
pub struct Content {
    text: String,
}

#[derive(Clone, Debug, Eq, PartialEq)]
pub enum ContentError {
    EmptyText,
    TextTooLarge(usize),
}

/// Why a text cannot be content, if it cannot.
pub open spec fn content_failure(text: Seq<char>) -> Option<ContentError> {
    if text.len() == 0 {
        Some(ContentError::EmptyText)
    } else if byte_len(text) > MAX_TEXT_BYTES {
        Some(ContentError::TextTooLarge(byte_len(text) as usize))
    } else {
        None
    }
}

impl Content {
    /// The text.
    pub closed spec fn view(&self) -> Seq<char> {
        self.text@
    }

    /// Content with that text: accepted exactly when the text is not empty
    /// and not longer than `MAX_TEXT_BYTES`.
    pub fn text(text: &str) -> (r: Result<Content, ContentError>)
        ensures
            match r {
                Ok(content) => content_failure(text@) is None && content@ == text@,
                Err(error) => content_failure(text@) == Some(error),
            },
    {
        match validate_text(text) {
            Ok(_) => Ok(Content { text: text.to_owned() }),
            Err(error) => Err(error),
        }
    }

    pub fn validate(&self) -> (r: Result<(), ContentError>)
        ensures
            match r {
                Ok(_) => content_failure(self@) is None,
                Err(error) => content_failure(self@) == Some(error),
            },
    {
        validate_text(self.text.as_str())
    }

    pub fn as_text(&self) -> (r: &str)
        ensures
            r@ == self@,
    {
        self.text.as_str()
    }

    pub fn into_text(self) -> (r: String)
        ensures
            r@ == self@,
    {
        self.text
    }

    pub fn text_byte_len(&self) -> (r: usize)
        ensures
            r == byte_len(self@),
    {
        bytes_in(self.text.as_str())
    }
}

impl Abstract for Content {
    type Abs = Seq<char>;

    open spec fn abs(&self) -> Seq<char> {
        self@
    }

    fn duplicate(&self) -> Content {
        Content { text: self.text.clone() }
    }

    fn same(&self, other: &Content) -> bool {
        self.text == other.text
    }
}

fn validate_text(text: &str) -> (r: Result<(), ContentError>)
    ensures
        match r {
            Ok(_) => content_failure(text@) is None,
            Err(error) => content_failure(text@) == Some(error),
        },
{
    if text.is_empty() {
        return Err(ContentError::EmptyText);
    }
    let bytes: usize = bytes_in(text);
    if bytes > MAX_TEXT_BYTES {
        return Err(ContentError::TextTooLarge(bytes));
    }
    Ok(())
}

impl ContentError {
    /// The sentence that tells a reader of this error.
    pub open spec fn message(&self) -> Seq<char> {
        match self {
            ContentError::EmptyText => "content text cannot be empty"@,
            ContentError::TextTooLarge(bytes) => "content text is too large: "@ + decimal(
                *bytes as nat,
            ),
        }
    }

    pub fn to_string(&self) -> (r: String)
        ensures
            r@ == self.message(),
    {
        match self {
            ContentError::EmptyText => "content text cannot be empty".to_owned(),
            ContentError::TextTooLarge(bytes) => {
                "content text is too large: ".to_owned().concat(
                    decimal_text(*bytes).as_str(),
                )
            },
        }
    }
}

} // verus!
