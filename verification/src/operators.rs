//! The operators of the language and their spellings.

use crate::lex_errors::{CarbideLexerError, LexerErrorView};
use crate::text::str_eq;
use vstd::prelude::*;

verus! {

/// An operator between two operands.
#[derive(Debug, Clone, Copy, PartialEq, Eq, Hash, Structural)]
pub enum BinaryOperators {
    /// Equality, `==`.
    EqEq,
    /// Inequality, `!=`.
    NotEq,
    /// At most, `<=`.
    LessEq,
    /// At least, `>=`.
    GreaterEq,
    /// Logical and, `&&`.
    And,
    /// Logical or, `||`.
    Or,
    /// Assignment, `=`.
    Eq,
    /// Less than, `<`.
    Less,
    /// Greater than, `>`.
    Greater,
    /// Addition, `+`.
    Plus,
    /// Subtraction, `-`.
    Minus,
    /// Multiplication, `*`.
    Star,
    /// Division, `/`.
    Slash,
    /// Remainder, `%`.
    Percent,
}

impl BinaryOperators {
    /// Every binary operator, two-character spellings first.
    pub const ALL: [BinaryOperators; 14] = [
        BinaryOperators::EqEq,
        BinaryOperators::NotEq,
        BinaryOperators::LessEq,
        BinaryOperators::GreaterEq,
        BinaryOperators::And,
        BinaryOperators::Or,
        BinaryOperators::Eq,
        BinaryOperators::Less,
        BinaryOperators::Greater,
        BinaryOperators::Plus,
        BinaryOperators::Minus,
        BinaryOperators::Star,
        BinaryOperators::Slash,
        BinaryOperators::Percent,
    ];

    /// The name of the operator's variant.
    pub open spec fn name(self) -> Seq<char> {
        match self {
            BinaryOperators::EqEq => "EqEq"@,
            BinaryOperators::NotEq => "NotEq"@,
            BinaryOperators::LessEq => "LessEq"@,
            BinaryOperators::GreaterEq => "GreaterEq"@,
            BinaryOperators::And => "And"@,
            BinaryOperators::Or => "Or"@,
            BinaryOperators::Eq => "Eq"@,
            BinaryOperators::Less => "Less"@,
            BinaryOperators::Greater => "Greater"@,
            BinaryOperators::Plus => "Plus"@,
            BinaryOperators::Minus => "Minus"@,
            BinaryOperators::Star => "Star"@,
            BinaryOperators::Slash => "Slash"@,
            BinaryOperators::Percent => "Percent"@,
        }
    }

    /// The name of the operator's variant.
    pub fn variant_name(&self) -> (s: &'static str)
        ensures
            s@ == self.name(),
    {
        match self {
            BinaryOperators::EqEq => "EqEq",
            BinaryOperators::NotEq => "NotEq",
            BinaryOperators::LessEq => "LessEq",
            BinaryOperators::GreaterEq => "GreaterEq",
            BinaryOperators::And => "And",
            BinaryOperators::Or => "Or",
            BinaryOperators::Eq => "Eq",
            BinaryOperators::Less => "Less",
            BinaryOperators::Greater => "Greater",
            BinaryOperators::Plus => "Plus",
            BinaryOperators::Minus => "Minus",
            BinaryOperators::Star => "Star",
            BinaryOperators::Slash => "Slash",
            BinaryOperators::Percent => "Percent",
        }
    }

    /// The spelling of the operator.
    pub open spec fn spelling(self) -> Seq<char> {
        match self {
            BinaryOperators::EqEq => "=="@,
            BinaryOperators::NotEq => "!="@,
            BinaryOperators::LessEq => "<="@,
            BinaryOperators::GreaterEq => ">="@,
            BinaryOperators::And => "&&"@,
            BinaryOperators::Or => "||"@,
            BinaryOperators::Eq => "="@,
            BinaryOperators::Less => "<"@,
            BinaryOperators::Greater => ">"@,
            BinaryOperators::Plus => "+"@,
            BinaryOperators::Minus => "-"@,
            BinaryOperators::Star => "*"@,
            BinaryOperators::Slash => "/"@,
            BinaryOperators::Percent => "%"@,
        }
    }

    /// The operator of the table that `text` spells, if any.
    pub open spec fn lookup(text: Seq<char>) -> Option<BinaryOperators> {
        if text == "=="@ {
            Some(BinaryOperators::EqEq)
        } else if text == "!="@ {
            Some(BinaryOperators::NotEq)
        } else if text == "<="@ {
            Some(BinaryOperators::LessEq)
        } else if text == ">="@ {
            Some(BinaryOperators::GreaterEq)
        } else if text == "&&"@ {
            Some(BinaryOperators::And)
        } else if text == "||"@ {
            Some(BinaryOperators::Or)
        } else if text == "="@ {
            Some(BinaryOperators::Eq)
        } else if text == "<"@ {
            Some(BinaryOperators::Less)
        } else if text == ">"@ {
            Some(BinaryOperators::Greater)
        } else if text == "+"@ {
            Some(BinaryOperators::Plus)
        } else if text == "-"@ {
            Some(BinaryOperators::Minus)
        } else if text == "*"@ {
            Some(BinaryOperators::Star)
        } else if text == "/"@ {
            Some(BinaryOperators::Slash)
        } else if text == "%"@ {
            Some(BinaryOperators::Percent)
        } else {
            None
        }
    }

    /// Whether some operator of the table starts with `c`.
    pub open spec fn can_start(c: char) -> bool {
        c == '=' || c == '!' || c == '<' || c == '>' || c == '&' || c == '|' || c == '+' || c == '-' || c == '*' || c == '/' || c == '%'
    }

    /// The spelling of the operator.
    pub fn as_str(&self) -> (s: &'static str)
        ensures
            s@ == self.spelling(),
    {
        match self {
            BinaryOperators::EqEq => "==",
            BinaryOperators::NotEq => "!=",
            BinaryOperators::LessEq => "<=",
            BinaryOperators::GreaterEq => ">=",
            BinaryOperators::And => "&&",
            BinaryOperators::Or => "||",
            BinaryOperators::Eq => "=",
            BinaryOperators::Less => "<",
            BinaryOperators::Greater => ">",
            BinaryOperators::Plus => "+",
            BinaryOperators::Minus => "-",
            BinaryOperators::Star => "*",
            BinaryOperators::Slash => "/",
            BinaryOperators::Percent => "%",
        }
    }

    /// Whether some operator of the table starts with `ch`.
    pub fn starts_with(ch: char) -> (b: bool)
        ensures
            b == Self::can_start(ch),
    {
        ch == '=' || ch == '!' || ch == '<' || ch == '>' || ch == '&' || ch == '|' || ch == '+' || ch == '-' || ch == '*' || ch == '/' || ch == '%'
    }

    /// The operator of the table that `ident` spells exactly.
    pub fn try_from(ident: &str) -> (r: Result<Self, CarbideLexerError>)
        ensures
            match r {
                Ok(op) => Self::lookup(ident@) == Some(op),
                Err(e) => Self::lookup(ident@) is None && e@ == LexerErrorView::CastBinaryOpFailed(ident@),
            },
    {
        if str_eq(ident, "==") {
            Ok(BinaryOperators::EqEq)
        } else if str_eq(ident, "!=") {
            Ok(BinaryOperators::NotEq)
        } else if str_eq(ident, "<=") {
            Ok(BinaryOperators::LessEq)
        } else if str_eq(ident, ">=") {
            Ok(BinaryOperators::GreaterEq)
        } else if str_eq(ident, "&&") {
            Ok(BinaryOperators::And)
        } else if str_eq(ident, "||") {
            Ok(BinaryOperators::Or)
        } else if str_eq(ident, "=") {
            Ok(BinaryOperators::Eq)
        } else if str_eq(ident, "<") {
            Ok(BinaryOperators::Less)
        } else if str_eq(ident, ">") {
            Ok(BinaryOperators::Greater)
        } else if str_eq(ident, "+") {
            Ok(BinaryOperators::Plus)
        } else if str_eq(ident, "-") {
            Ok(BinaryOperators::Minus)
        } else if str_eq(ident, "*") {
            Ok(BinaryOperators::Star)
        } else if str_eq(ident, "/") {
            Ok(BinaryOperators::Slash)
        } else if str_eq(ident, "%") {
            Ok(BinaryOperators::Percent)
        } else {
            Err(CarbideLexerError::CastBinaryOpFailed(ident.to_owned()))
        }
    }

    /// Whether the operator stands in the table of spellings.
    pub open spec fn in_table(self) -> bool {
        true
    }

    /// Each operator of the table is found again by its own spelling, has
    /// a spelling of one or two characters, and starts with a character
    /// that starts an operator.
    pub proof fn lemma_lookup_spelling(self)
        requires
            self.in_table(),
        ensures
            Self::lookup(self.spelling()) == Some(self),
            1 <= self.spelling().len() <= 2,
            Self::can_start(self.spelling()[0]),
    {
        reveal_strlit("==");
        reveal_strlit("!=");
        reveal_strlit("<=");
        reveal_strlit(">=");
        reveal_strlit("&&");
        reveal_strlit("||");
        reveal_strlit("=");
        reveal_strlit("<");
        reveal_strlit(">");
        reveal_strlit("+");
        reveal_strlit("-");
        reveal_strlit("*");
        reveal_strlit("/");
        reveal_strlit("%");
        assert("=="@.len() == 2 && "=="@[0] == '=' && "=="@[1] == '=');
        assert("!="@.len() == 2 && "!="@[0] == '!' && "!="@[1] == '=');
        assert("<="@.len() == 2 && "<="@[0] == '<' && "<="@[1] == '=');
        assert(">="@.len() == 2 && ">="@[0] == '>' && ">="@[1] == '=');
        assert("&&"@.len() == 2 && "&&"@[0] == '&' && "&&"@[1] == '&');
        assert("||"@.len() == 2 && "||"@[0] == '|' && "||"@[1] == '|');
        assert("="@.len() == 1 && "="@[0] == '=');
        assert("<"@.len() == 1 && "<"@[0] == '<');
        assert(">"@.len() == 1 && ">"@[0] == '>');
        assert("+"@.len() == 1 && "+"@[0] == '+');
        assert("-"@.len() == 1 && "-"@[0] == '-');
        assert("*"@.len() == 1 && "*"@[0] == '*');
        assert("/"@.len() == 1 && "/"@[0] == '/');
        assert("%"@.len() == 1 && "%"@[0] == '%');
    }

    /// A spelling that is found is the spelling of the operator found.
    pub proof fn lemma_lookup_found(text: Seq<char>)
        ensures
            Self::lookup(text) matches Some(op) ==> op.spelling() == text && op.in_table(),
    {
    }
}

/// An operator before its one operand.
#[derive(Debug, Clone, Copy, PartialEq, Eq, Hash, Structural)]
pub enum UnaryOperators {
    /// Logical negation, `!`.
    Not,
    /// Arithmetic negation, `-`. It is spelled like subtraction, so the
    /// scanner never yields it: the parser makes it of a minus that stands
    /// before an operand.
    Negate,
}

impl UnaryOperators {
    /// The unary operators that the scanner yields as tokens of their own.
    pub const ALL: [UnaryOperators; 1] = [
        UnaryOperators::Not,
    ];

    /// The name of the operator's variant.
    pub open spec fn name(self) -> Seq<char> {
        match self {
            UnaryOperators::Not => "Not"@,
            UnaryOperators::Negate => "Negate"@,
        }
    }

    /// The name of the operator's variant.
    pub fn variant_name(&self) -> (s: &'static str)
        ensures
            s@ == self.name(),
    {
        match self {
            UnaryOperators::Not => "Not",
            UnaryOperators::Negate => "Negate",
        }
    }

    /// The spelling of the operator.
    pub open spec fn spelling(self) -> Seq<char> {
        match self {
            UnaryOperators::Not => "!"@,
            UnaryOperators::Negate => "-"@,
        }
    }

    /// The operator of the table that `text` spells, if any.
    pub open spec fn lookup(text: Seq<char>) -> Option<UnaryOperators> {
        if text == "!"@ {
            Some(UnaryOperators::Not)
        } else {
            None
        }
    }

    /// Whether some operator of the table starts with `c`.
    pub open spec fn can_start(c: char) -> bool {
        c == '!'
    }

    /// The spelling of the operator.
    pub fn as_str(&self) -> (s: &'static str)
        ensures
            s@ == self.spelling(),
    {
        match self {
            UnaryOperators::Not => "!",
            UnaryOperators::Negate => "-",
        }
    }

    /// Whether some operator of the table starts with `ch`.
    pub fn starts_with(ch: char) -> (b: bool)
        ensures
            b == Self::can_start(ch),
    {
        ch == '!'
    }

    /// The operator of the table that `ident` spells exactly.
    pub fn try_from(ident: &str) -> (r: Result<Self, CarbideLexerError>)
        ensures
            match r {
                Ok(op) => Self::lookup(ident@) == Some(op),
                Err(e) => Self::lookup(ident@) is None && e@ == LexerErrorView::CastUnaryOpFailed(ident@),
            },
    {
        if str_eq(ident, "!") {
            Ok(UnaryOperators::Not)
        } else {
            Err(CarbideLexerError::CastUnaryOpFailed(ident.to_owned()))
        }
    }

    /// Whether the operator stands in the table of spellings.
    pub open spec fn in_table(self) -> bool {
        self == UnaryOperators::Not
    }

    /// Each operator of the table is found again by its own spelling, has
    /// a spelling of one or two characters, and starts with a character
    /// that starts an operator.
    pub proof fn lemma_lookup_spelling(self)
        requires
            self.in_table(),
        ensures
            Self::lookup(self.spelling()) == Some(self),
            1 <= self.spelling().len() <= 2,
            Self::can_start(self.spelling()[0]),
    {
        reveal_strlit("!");
    }

    /// A spelling that is found is the spelling of the operator found.
    pub proof fn lemma_lookup_found(text: Seq<char>)
        ensures
            Self::lookup(text) matches Some(op) ==> op.spelling() == text && op.in_table(),
    {
    }
}

} // verus!
