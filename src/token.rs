use vstd::prelude::*;

verus! {

/// The class of a lexical unit.
#[derive(Debug, Clone, Copy, PartialEq, Eq, Structural)]
pub enum TokenKind {
    /// An operator or a keyword.
    Reserved,
    /// An identifier.
    Ident,
    /// An integer literal with its value.
    Num(i32),
    /// The sentinel that closes the stream.
    Eof,
}

/// A classified lexical unit with the source text it was read from.
#[derive(Debug, Clone)]
pub struct Token {
    pub kind: TokenKind,
    pub raw_str: String,
}

impl Token {
    pub fn new(kind: TokenKind, raw_str: &str) -> (r: Token)
        ensures
            r.kind == kind,
            r.raw_str@ == raw_str@,
    {
        Token { kind, raw_str: raw_str.to_owned() }
    }
}

} // verus!
