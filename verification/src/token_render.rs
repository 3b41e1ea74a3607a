//! The read-only, forward-only cursor over the lexer's output.
//!
//! The parser never removes tokens from the sequence or puts one back: it
//! looks at the current token ([`TokenRender::peek`]), consumes it
//! ([`TokenRender::next`]), conditionally consumes it by kind
//! ([`TokenRender::try_token`]) or checks it against an expectation
//! ([`TokenRender::expect`]).

use vstd::prelude::*;

use crate::sentence::{ParseErr, ParseErrType};
use crate::token::{token_views, Token, TokenInfo, TokenInfoView, TokenView};

verus! {

/// Whether a token's kind matches a pattern kind: numbers match any number
/// (the value is ignored), symbols match exactly.
pub open spec fn kind_matches(have: TokenInfoView, want: TokenInfoView) -> bool {
    match (have, want) {
        (TokenInfoView::Number(_), TokenInfoView::Number(_)) => true,
        (TokenInfoView::Symbol(a), TokenInfoView::Symbol(b)) => a == b,
        _ => false,
    }
}

/// Executable form of [`kind_matches`].
fn info_matches(have: &TokenInfo, want: &TokenInfo) -> (r: bool)
    ensures
        r == kind_matches(have@, want@),
{
    match (have, want) {
        (TokenInfo::Number(_), TokenInfo::Number(_)) => true,
        (TokenInfo::Symbol(a), TokenInfo::Symbol(b)) => *a == *b,
        _ => false,
    }
}

/// Forward cursor over a token sequence.
pub struct TokenRender {
    tokens: Vec<Token>,
    current_position: usize,
}

impl TokenRender {
    /// The views of the underlying tokens (the cursor never changes them).
    pub closed spec fn toks(&self) -> Seq<TokenView> {
        token_views(self.tokens@)
    }

    /// How many tokens the cursor has consumed.
    pub closed spec fn at(&self) -> nat {
        self.current_position as nat
    }

    /// The cursor never passes the end of the sequence.
    pub open spec fn wf(&self) -> bool {
        self.at() <= self.toks().len()
    }

    /// Wrap a token sequence; the cursor starts at the first token.
    pub fn new_with_tokens(tokens: Vec<Token>) -> (r: TokenRender)
        ensures
            r.toks() == token_views(tokens@),
            r.at() == 0,
            r.wf(),
    {
        TokenRender { tokens, current_position: 0 }
    }

    /// True when the cursor has passed the last token.
    pub fn is_empty(&self) -> (r: bool)
        ensures
            r <==> self.at() >= self.toks().len(),
    {
        self.current_position >= self.tokens.len()
    }

    /// The current token, not consumed. Must not be called when empty.
    pub fn peek(&self) -> (r: &Token)
        requires
            self.at() < self.toks().len(),
        ensures
            r@ == self.toks()[self.at() as int],
    {
        &self.tokens[self.current_position]
    }

    /// Consume one token.
    pub fn next(&mut self)
        requires
            old(self).at() < old(self).toks().len(),
        ensures
            final(self).toks() == old(self).toks(),
            final(self).at() == old(self).at() + 1,
    {
        let n = self.tokens.len();
        proof {
            assert(self.toks().len() == self.tokens@.len());
            assert(self.current_position < n);
        }
        self.current_position = self.current_position + 1;
    }

    /// If the current token's kind matches `token_info`, consume it and
    /// return true; otherwise leave the cursor unchanged and return false.
    pub fn try_token(&mut self, token_info: TokenInfo) -> (r: bool)
        requires
            old(self).wf(),
        ensures
            final(self).toks() == old(self).toks(),
            final(self).wf(),
            ({
                let ts = old(self).toks();
                let i = old(self).at() as int;
                if i < ts.len() && kind_matches(ts[i].info, token_info@) {
                    r && final(self).at() == old(self).at() + 1
                } else {
                    !r && final(self).at() == old(self).at()
                }
            }),
    {
        if !self.is_empty() {
            let matched = info_matches(&self.peek().info, &token_info);
            if matched {
                self.next();
                return true;
            }
        }
        false
    }

    /// Check the current token against `token_info` without consuming it.
    /// When the cursor is empty the result is an `Insufficient` error built
    /// from `empty_reason`; on a kind mismatch it is an `Unexpected` error
    /// built from `reason` and carrying the offending token.
    pub fn expect(&self, token_info: TokenInfo, reason: &str, empty_reason: &str) -> (r: Result<
        Token,
        ParseErr,
    >)
        requires
            self.wf(),
        ensures
            ({
                let ts = self.toks();
                let i = self.at() as int;
                match r {
                    Ok(t) => i < ts.len() && kind_matches(ts[i].info, token_info@) && t@ == ts[i],
                    Err(e) => {
                        if i < ts.len() {
                            &&& !kind_matches(ts[i].info, token_info@)
                            &&& e.err_type is Unexpected
                            &&& e.err_type->Unexpected_0@ == ts[i]
                            &&& e.reason@ == reason@
                        } else {
                            &&& e.err_type is Insufficient
                            &&& e.reason@ == empty_reason@
                        }
                    },
                }
            }),
    {
        if !self.is_empty() {
            let token = self.peek();
            if info_matches(&token.info, &token_info) {
                Ok(token.clone())
            } else {
                Err(
                    ParseErr {
                        reason: reason.to_owned(),
                        err_type: ParseErrType::Unexpected(token.clone()),
                    },
                )
            }
        } else {
            Err(
                ParseErr { reason: empty_reason.to_owned(), err_type: ParseErrType::Insufficient },
            )
        }
    }
}

} // verus!
