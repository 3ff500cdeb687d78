//! Stable numeric codes of the diagnostics. Scanner codes lie below 1000,
//! parser codes from 1000 on.

use crate::text::{decimal, decimal_string, push_text, zero_padded};
use vstd::prelude::*;

verus! {

/// Scanner: any other failure.
pub const E0000: u32 = 0;

/// Scanner: a character outside ASCII.
pub const E0001: u32 = 1;

/// Scanner: the input ended too early.
pub const E0002: u32 = 2;

/// Scanner: a character that starts no token.
pub const E0003: u32 = 3;

/// Scanner: a string without its closing quote.
pub const E0004: u32 = 4;

/// Scanner: an interpolation without its closing brace.
pub const E0005: u32 = 5;

/// Scanner: a malformed number.
pub const E0006: u32 = 6;

/// Parser: any other failure.
pub const E1000: u32 = 1000;

/// Parser: the tokens ended too early.
pub const E1001: u32 = 1001;

/// Parser: a token that does not fit.
pub const E1002: u32 = 1002;

/// Parser: an identifier was expected.
pub const E1010: u32 = 1010;

/// Parser: an expression was expected.
pub const E1011: u32 = 1011;

/// Parser: too many parameters.
pub const E1020: u32 = 1020;

/// Parser: too many arguments.
pub const E1021: u32 = 1021;

/// Parser: the left side of an assignment cannot be assigned to.
pub const E1030: u32 = 1030;

/// Parser: `break` outside a loop.
pub const E1040: u32 = 1040;

/// Parser: `continue` outside a loop.
pub const E1041: u32 = 1041;

/// Parser: `return` outside a function.
pub const E1042: u32 = 1042;

/// The stable numeric code of a diagnostic.
#[derive(Debug, Clone, Copy, PartialEq, Eq, Hash, Structural)]
pub struct ErrCode(pub u32);

impl ErrCode {
    /// The code as it is shown: `E` and the number in at least four digits.
    pub open spec fn text(self) -> Seq<char> {
        seq!['E'] + zero_padded(decimal(self.0 as nat), 4)
    }

    /// Whether the code belongs to the scanner.
    pub open spec fn is_lexer_code(self) -> bool {
        self.0 < 1000
    }

    /// Whether the code belongs to the parser.
    pub open spec fn is_parser_code(self) -> bool {
        1000 <= self.0 < 2000
    }

    /// The code as it is shown, such as `E0042`.
    pub fn to_string(&self) -> (s: String)
        ensures
            s@ == self.text(),
    {
        let digits = decimal_string(self.0 as u64);
        let mut out = String::new();
        out.push('E');
        let n = digits.as_str().unicode_len();
        let mut k: usize = n;
        while k < 4
            invariant
                n == digits@.len(),
                n <= k,
                k <= 4 || k == n,
                out@ == seq!['E'] + Seq::new((k - n) as nat, |i: int| '0'),
            decreases 4 - k,
        {
            out.push('0');
            k += 1;
            assert(out@ =~= seq!['E'] + Seq::new((k - n) as nat, |i: int| '0'));
        }
        push_text(&mut out, digits.as_str());
        assert(out@ =~= self.text());
        out
    }
}

} // verus!
