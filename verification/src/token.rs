//! Tokens: a classified, positioned lexical unit, together with its
//! mathematical model.

use vstd::prelude::*;
use crate::codepos::Codepos;
use crate::token_t::TokenT;

verus! {

/// The mathematical model of a token: its kind, its text as a character
/// sequence, and the position at which it starts.
pub struct TokM {
    pub kind: TokenT,
    pub text: Seq<char>,
    pub line: nat,
    pub col: nat,
    pub file: Option<Seq<char>>,
}

/// A classified, positioned lexical unit. Immutable once created.
#[derive(Debug, Clone, PartialEq, Eq)]
pub struct Token {
    pub token_t: TokenT,
    pub value: String,
    pub codepos: Codepos,
}

impl View for Token {
    type V = TokM;

    open spec fn view(&self) -> TokM {
        TokM {
            kind: self.token_t,
            text: self.value@,
            line: self.codepos.line as nat,
            col: self.codepos.col as nat,
            file: match self.codepos.file {
                Some(f) => Some(f@),
                None => None,
            },
        }
    }
}

/// The models of a sequence of tokens.
pub open spec fn toks_m(ts: Seq<Token>) -> Seq<TokM> {
    ts.map_values(|t: Token| t@)
}

impl Token {
    pub fn new(token_t: TokenT, value: String, codepos: Codepos) -> (r: Token)
        ensures
            r.token_t == token_t,
            r.value == value,
            r.codepos == codepos,
    {
        Token { token_t, value, codepos }
    }
}

} // verus!
