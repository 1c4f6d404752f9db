//! A streaming tokenizer for XML and HTML-like markup.
//!
//! The crate turns a byte source (an in-memory buffer, or any implementor of
//! a small pull-read trait) into a flat, ordered sequence of lexical tokens:
//! tag boundaries, attributes, text runs, comments and declarations. The
//! low-level event decoding is delegated to `quick_xml`; everything that this
//! crate decides — token classification, nesting depth, whitespace policy,
//! attribute ordering, error surfacing — is verified. Whitespace, throughout,
//! means XML's four whitespace characters (tab, line feed, carriage return,
//! space); see [`text::ws_byte`].

use vstd::prelude::*;

pub mod decoder;
pub mod laws;
pub mod model;
pub mod source;
pub mod text;
pub mod tokenizer;

pub use source::BufferSource;
pub use source::ByteReader;
pub use source::ReadFailure;
pub use source::ThrottledSource;
pub use tokenizer::read_failure_tokens;
pub use tokenizer::tokenize;
pub use tokenizer::tokenize_bytes;

verus! {

/// The kind of a lexical token, as a closed enumeration with stable wire codes
/// (see [`Token::wire_code`]).
#[derive(Clone, Copy, Debug, PartialEq, Eq, Structural)]
pub enum Token {
    Error,
    XMLDeclaration,
    XMLDoctype,
    XMLInstruction,
    TagOpen,
    TagClose,
    TagAttribute,
    Text,
    CData,
    Comment,
}

impl Token {
    /// The stable integer wire code of this token kind.
    pub fn wire_code(&self) -> (r: u8)
        ensures
            r == self.spec_wire_code(),
    {
        match self {
            Token::Error => 0,
            Token::XMLDeclaration => 1,
            Token::XMLDoctype => 2,
            Token::XMLInstruction => 3,
            Token::TagOpen => 4,
            Token::TagClose => 5,
            Token::TagAttribute => 6,
            Token::Text => 7,
            Token::CData => 8,
            Token::Comment => 9,
        }
    }

    /// Wire code of each token kind; codes are never reused or reordered.
    pub open spec fn spec_wire_code(self) -> u8 {
        match self {
            Token::Error => 0,
            Token::XMLDeclaration => 1,
            Token::XMLDoctype => 2,
            Token::XMLInstruction => 3,
            Token::TagOpen => 4,
            Token::TagClose => 5,
            Token::TagAttribute => 6,
            Token::Text => 7,
            Token::CData => 8,
            Token::Comment => 9,
        }
    }
}

/// The kind of an auxiliary parser-state marker.
#[derive(Clone, Copy, Debug, PartialEq, Eq, Structural)]
pub enum State {
    ParseAttribute,
}

impl State {
    /// The stable integer wire code of this state kind.
    pub fn wire_code(&self) -> (r: u8)
        ensures
            r == 1,
    {
        match self {
            State::ParseAttribute => 1,
        }
    }
}

/// One emitted token: its kind, its decoded text, and — for attribute tokens
/// only — the attribute value.
pub struct TokenRecord {
    /// What lexical region the token stands for.
    pub kind: Token,
    /// Decoded text; its meaning depends on `kind` (tag name, text run,
    /// attribute key, error description, ...).
    pub value: String,
    /// The attribute value, present exactly on `TagAttribute` tokens.
    pub detail: Option<String>,
}

impl View for TokenRecord {
    type V = model::TokenModel;

    open spec fn view(&self) -> model::TokenModel {
        model::TokenModel {
            kind: self.kind,
            value: self.value@,
            detail: match self.detail {
                Some(s) => Some(s@),
                None => None,
            },
        }
    }
}

/// One auxiliary parser-state marker: its kind and the byte offset in the
/// source at which the state began.
pub struct StateRecord {
    /// What parser state the marker stands for.
    pub kind: State,
    /// Byte offset in the source at which the state began.
    pub position: usize,
}

impl View for StateRecord {
    type V = model::StateModel;

    open spec fn view(&self) -> model::StateModel {
        model::StateModel { kind: self.kind, position: self.position as nat }
    }
}

} // verus!
