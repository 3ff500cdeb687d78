//! The reserved words of the language.

use crate::lex_errors::{CarbideLexerError, LexerErrorView};
use crate::text::str_eq;
use vstd::prelude::*;

verus! {

/// A reserved word.
#[derive(Debug, Clone, Copy, PartialEq, Eq, Hash, Structural)]
pub enum Keywords {
    Let,
    Fn,
    Return,
}

impl Keywords {
    /// Every keyword, in table order.
    pub const ALL: [Keywords; 3] = [Keywords::Let, Keywords::Fn, Keywords::Return];

    /// The spelling of the keyword.
    pub open spec fn spelling(self) -> Seq<char> {
        match self {
            Keywords::Let => "let"@,
            Keywords::Fn => "fn"@,
            Keywords::Return => "return"@,
        }
    }

    /// The keyword that `text` spells, if any.
    pub open spec fn lookup(text: Seq<char>) -> Option<Keywords> {
        if text == "let"@ {
            Some(Keywords::Let)
        } else if text == "fn"@ {
            Some(Keywords::Fn)
        } else if text == "return"@ {
            Some(Keywords::Return)
        } else {
            None
        }
    }

    /// The spelling of the keyword.
    pub fn as_str(&self) -> (s: &'static str)
        ensures
            s@ == self.spelling(),
    {
        match self {
            Keywords::Let => "let",
            Keywords::Fn => "fn",
            Keywords::Return => "return",
        }
    }

    /// The name of the keyword's variant.
    pub open spec fn name(self) -> Seq<char> {
        match self {
            Keywords::Let => "Let"@,
            Keywords::Fn => "Fn"@,
            Keywords::Return => "Return"@,
        }
    }

    /// The name of the keyword's variant.
    pub fn variant_name(&self) -> (s: &'static str)
        ensures
            s@ == self.name(),
    {
        match self {
            Keywords::Let => "Let",
            Keywords::Fn => "Fn",
            Keywords::Return => "Return",
        }
    }

    /// The keyword that `ident` spells exactly.
    pub fn try_from(ident: &str) -> (r: Result<Self, CarbideLexerError>)
        ensures
            match r {
                Ok(k) => Self::lookup(ident@) == Some(k),
                Err(e) => Self::lookup(ident@) is None && e@ == LexerErrorView::CastKeywordFailed(
                    ident@,
                ),
            },
    {
        if str_eq(ident, "let") {
            Ok(Keywords::Let)
        } else if str_eq(ident, "fn") {
            Ok(Keywords::Fn)
        } else if str_eq(ident, "return") {
            Ok(Keywords::Return)
        } else {
            Err(CarbideLexerError::CastKeywordFailed(ident.to_owned()))
        }
    }

    /// Each keyword is found again by its own spelling, and by no other.
    pub proof fn lemma_lookup_spelling(self)
        ensures
            Self::lookup(self.spelling()) == Some(self),
    {
        reveal_strlit("let");
        reveal_strlit("fn");
        reveal_strlit("return");
        assert("let"@.len() == 3 && "fn"@.len() == 2 && "return"@.len() == 6);
    }

    /// A spelling that is found is the spelling of the keyword found.
    pub proof fn lemma_lookup_found(text: Seq<char>)
        ensures
            Self::lookup(text) matches Some(k) ==> k.spelling() == text,
    {
    }
}

} // verus!
