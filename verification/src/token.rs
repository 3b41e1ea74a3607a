//! Lexical analysis: scanning raw text into an ordered sequence of
//! positioned tokens.
//!
//! The scanner walks the input one character at a time. Characters with a
//! fixed single-character meaning (parentheses, the four operators,
//! whitespace) close the pending run of unclassified characters, which must
//! then read as a decimal literal; the run becomes a `Number` token and the
//! symbol (unless it is whitespace) becomes a one-character `Symbol` token.
//! The whole scan is specified by [`lex_from`].

use vstd::prelude::*;
use vstd::string::StringExecFns;

use bigdecimal::BigDecimal;

use crate::number::{
    bd_from_str, bd_model, bd_scale, dec_fits, dec_lit_val, is_decimal_literal, DecVal,
    SCALE_LIMIT,
};

verus! {

/// The single-character symbols of the language.
#[derive(Clone, Copy, PartialEq, Eq, Structural, Debug)]
pub enum SymbolType {
    LeftBracket,
    RightBracket,
    /// Whitespace: consumed by the lexer, never emitted as a token.
    Blank,
    Add,
    Sub,
    Mul,
    Div,
}

/// What a token is: a number with its exact decimal value, or a symbol.
#[derive(Debug)]
pub enum TokenInfo {
    Number(BigDecimal),
    Symbol(SymbolType),
}

/// A token of the input: its start offset, its meaning, and the exact
/// substring of the source it spans.
#[derive(Debug)]
pub struct Token {
    pub position: usize,
    pub info: TokenInfo,
    pub original_str: String,
}

/// A lexical error: the offending run of characters, where it starts, and a
/// human-readable reason.
#[derive(Debug)]
pub struct LexerErr {
    pub reason: String,
    pub position: usize,
    pub original_str: String,
}

/// Mathematical image of a [`TokenInfo`]: numbers abstract to their value.
pub ghost enum TokenInfoView {
    Number(DecVal),
    Symbol(SymbolType),
}

/// Mathematical image of a [`Token`].
#[verifier::ext_equal]
pub ghost struct TokenView {
    pub pos: nat,
    pub info: TokenInfoView,
    pub text: Seq<char>,
}

impl View for TokenInfo {
    type V = TokenInfoView;

    open spec fn view(&self) -> TokenInfoView {
        match self {
            TokenInfo::Number(d) => TokenInfoView::Number(bd_model(*d)),
            TokenInfo::Symbol(s) => TokenInfoView::Symbol(*s),
        }
    }
}

impl View for Token {
    type V = TokenView;

    open spec fn view(&self) -> TokenView {
        TokenView { pos: self.position as nat, info: self.info@, text: self.original_str@ }
    }
}

impl Clone for TokenInfo {
    fn clone(&self) -> (r: TokenInfo)
        ensures
            r@ == self@,
    {
        match self {
            TokenInfo::Number(d) => TokenInfo::Number(d.clone()),
            TokenInfo::Symbol(s) => TokenInfo::Symbol(*s),
        }
    }
}

impl Clone for Token {
    fn clone(&self) -> (r: Token)
        ensures
            r@ == self@,
    {
        Token {
            position: self.position,
            info: self.info.clone(),
            original_str: self.original_str.clone(),
        }
    }
}

pub open spec fn token_views(ts: Seq<Token>) -> Seq<TokenView> {
    ts.map_values(|t: Token| t@)
}

/// The fixed character-to-symbol table.
pub open spec fn sym_of(c: char) -> Option<SymbolType> {
    if c == ' ' || c == '\n' || c == '\t' {
        Some(SymbolType::Blank)
    } else if c == '(' {
        Some(SymbolType::LeftBracket)
    } else if c == ')' {
        Some(SymbolType::RightBracket)
    } else if c == '+' {
        Some(SymbolType::Add)
    } else if c == '-' {
        Some(SymbolType::Sub)
    } else if c == '*' {
        Some(SymbolType::Mul)
    } else if c == '/' {
        Some(SymbolType::Div)
    } else {
        None
    }
}

/// Executable form of the symbol table ([`sym_of`]).
pub fn symbol_of(c: char) -> (r: Option<SymbolType>)
    ensures
        r == sym_of(c),
{
    if c == ' ' || c == '\n' || c == '\t' {
        Some(SymbolType::Blank)
    } else if c == '(' {
        Some(SymbolType::LeftBracket)
    } else if c == ')' {
        Some(SymbolType::RightBracket)
    } else if c == '+' {
        Some(SymbolType::Add)
    } else if c == '-' {
        Some(SymbolType::Sub)
    } else if c == '*' {
        Some(SymbolType::Mul)
    } else if c == '/' {
        Some(SymbolType::Div)
    } else {
        None
    }
}

/// Outcome of lexing: the token sequence, or the first offending run.
#[verifier::ext_equal]
pub ghost enum LexResult {
    Tokens(Seq<TokenView>),
    Error { position: nat, text: Seq<char> },
}

/// A run the lexer accepts as a number: a decimal literal whose stored
/// scale also lies within the library's supported range ([`dec_fits`]).
pub open spec fn accepted_literal(s: Seq<char>) -> bool {
    is_decimal_literal(s) && dec_fits(dec_lit_val(s))
}

/// The reason a lexical error carries: the empty run stands for an input
/// with no token at all; an offending run is named in the message, with the
/// grammar and the scale range told apart.
pub open spec fn lex_reason(text: Seq<char>) -> Seq<char> {
    if text.len() == 0 {
        "no expression found in the input"@
    } else if !is_decimal_literal(text) {
        "this run of characters is not a valid number: '"@ + text + "'"@
    } else {
        "this number's decimal exponent is out of the supported range: '"@ + text + "'"@
    }
}

/// The number token made of the run `s[run..end]`.
pub open spec fn run_token(s: Seq<char>, run: int, end: int) -> TokenView {
    TokenView {
        pos: run as nat,
        info: TokenInfoView::Number(dec_lit_val(s.subrange(run, end))),
        text: s.subrange(run, end),
    }
}

/// The symbol token for the single character at `i`.
pub open spec fn sym_token(s: Seq<char>, i: int, st: SymbolType) -> TokenView {
    TokenView { pos: i as nat, info: TokenInfoView::Symbol(st), text: s.subrange(i, i + 1) }
}

/// The tokens of `s[i..]`, a run pending since `run`: whenever a symbol
/// character or the end of input is reached, the pending run must read as a
/// decimal literal and is flushed as a `Number` token; symbol characters
/// other than whitespace become one-character `Symbol` tokens.
pub open spec fn lex_from(s: Seq<char>, i: int, run: int) -> LexResult
    decreases s.len() - i,
{
    if i >= s.len() {
        if run < i {
            if accepted_literal(s.subrange(run, i)) {
                LexResult::Tokens(seq![run_token(s, run, i)])
            } else {
                LexResult::Error { position: run as nat, text: s.subrange(run, i) }
            }
        } else {
            LexResult::Tokens(Seq::empty())
        }
    } else {
        match sym_of(s[i]) {
            Some(st) => {
                let sym_toks: Seq<TokenView> = if st == SymbolType::Blank {
                    Seq::empty()
                } else {
                    seq![sym_token(s, i, st)]
                };
                if run < i && !accepted_literal(s.subrange(run, i)) {
                    LexResult::Error { position: run as nat, text: s.subrange(run, i) }
                } else {
                    let flushed: Seq<TokenView> = if run < i {
                        seq![run_token(s, run, i)]
                    } else {
                        Seq::empty()
                    };
                    match lex_from(s, i + 1, i + 1) {
                        LexResult::Tokens(rest) => LexResult::Tokens(flushed + sym_toks + rest),
                        LexResult::Error { position, text } => LexResult::Error { position, text },
                    }
                }
            },
            None => lex_from(s, i + 1, run),
        }
    }
}

/// The full lexical analysis of `s`: [`lex_from`] from the start, with an
/// input yielding no token at all rejected as "no expression" at offset 0.
pub open spec fn spec_tokens(s: Seq<char>) -> LexResult {
    match lex_from(s, 0, 0) {
        LexResult::Tokens(tv) => {
            if tv.len() == 0 {
                LexResult::Error { position: 0, text: Seq::empty() }
            } else {
                LexResult::Tokens(tv)
            }
        },
        LexResult::Error { position, text } => LexResult::Error { position, text },
    }
}

/// What holds of every token emitted for the source text `s`: the token's
/// text is exactly the span of `s` it was scanned from, a number token's
/// text is a decimal literal free of symbol characters whose value the token
/// carries, and a symbol token is the one character it stands for.
pub open spec fn token_sound(s: Seq<char>, t: TokenView) -> bool {
    &&& t.text.len() > 0
    &&& t.pos + t.text.len() <= s.len()
    &&& t.text == s.subrange(t.pos as int, t.pos + t.text.len() as int)
    &&& match t.info {
        TokenInfoView::Number(v) => {
            &&& accepted_literal(t.text)
            &&& v == dec_lit_val(t.text)
            &&& forall|k: int| 0 <= k < t.text.len() ==> sym_of(#[trigger] t.text[k]) is None
        },
        TokenInfoView::Symbol(st) => {
            &&& st != SymbolType::Blank
            &&& t.text.len() == 1
            &&& sym_of(t.text[0]) == Some(st)
        },
    }
}

proof fn lemma_lex_sound(s: Seq<char>, i: int, run: int)
    requires
        0 <= run <= i <= s.len(),
        forall|k: int| run <= k < i ==> sym_of(#[trigger] s[k]) is None,
    ensures
        match lex_from(s, i, run) {
            LexResult::Tokens(tv) => {
                &&& forall|j: int| 0 <= j < tv.len() ==> token_sound(s, #[trigger] tv[j])
                &&& forall|j: int| 0 <= j < tv.len() ==> #[trigger] tv[j].pos >= run
                &&& forall|j1: int, j2: int|
                    0 <= j1 < j2 < tv.len() ==> #[trigger] tv[j1].pos < #[trigger] tv[j2].pos
            },
            LexResult::Error { position, text } => true,
        },
    decreases s.len() - i,
{
    if i >= s.len() {
        if run < i && accepted_literal(s.subrange(run, i)) {
            let t = run_token(s, run, i);
            assert(forall|k: int| 0 <= k < t.text.len() ==> sym_of(#[trigger] t.text[k]) is None)
                by {
                assert(forall|k: int|
                    0 <= k < t.text.len() ==> #[trigger] t.text[k] == s[run + k]);
            }
            assert(token_sound(s, t));
        }
    } else {
        match sym_of(s[i]) {
            Some(st) => {
                lemma_lex_sound(s, i + 1, i + 1);
                if run < i && !accepted_literal(s.subrange(run, i)) {
                } else {
                    let flushed: Seq<TokenView> = if run < i {
                        seq![run_token(s, run, i)]
                    } else {
                        Seq::empty()
                    };
                    let sym_toks: Seq<TokenView> = if st == SymbolType::Blank {
                        Seq::empty()
                    } else {
                        seq![sym_token(s, i, st)]
                    };
                    if run < i {
                        let t = run_token(s, run, i);
                        assert(forall|k: int|
                            0 <= k < t.text.len() ==> sym_of(#[trigger] t.text[k]) is None) by {
                            assert(forall|k: int|
                                0 <= k < t.text.len() ==> #[trigger] t.text[k] == s[run + k]);
                        }
                        assert(token_sound(s, t));
                    }
                    if st != SymbolType::Blank {
                        let u = sym_token(s, i, st);
                        assert(u.text[0] == s[i]);
                        assert(token_sound(s, u));
                    }
                    match lex_from(s, i + 1, i + 1) {
                        LexResult::Tokens(rest) => {
                            let head = flushed + sym_toks;
                            let tv = head + rest;
                            assert(forall|j: int|
                                0 <= j < head.len() ==> token_sound(s, #[trigger] head[j])
                                    && head[j].pos >= run && head[j].pos <= i);
                            assert(forall|j: int|
                                0 <= j < tv.len() ==> token_sound(s, #[trigger] tv[j]));
                            assert(forall|j: int| 0 <= j < tv.len() ==> #[trigger] tv[j].pos >= run);
                            assert(forall|j1: int, j2: int|
                                0 <= j1 < j2 < tv.len() ==> #[trigger] tv[j1].pos
                                    < #[trigger] tv[j2].pos) by {
                                assert(forall|j: int|
                                    head.len() <= j < tv.len() ==> #[trigger] tv[j].pos >= i + 1);
                            }
                        },
                        LexResult::Error { position, text } => {},
                    }
                }
            },
            None => {
                lemma_lex_sound(s, i + 1, run);
            },
        }
    }
}

/// Helper: on a text with no symbol character at all, the scan just extends
/// the pending run to the end of the input.
proof fn lemma_lex_runs_to_end(s: Seq<char>, i: int)
    requires
        0 <= i <= s.len(),
        forall|k: int| 0 <= k < s.len() ==> sym_of(#[trigger] s[k]) is None,
    ensures
        lex_from(s, i, 0) == lex_from(s, s.len() as int, 0),
    decreases s.len() - i,
{
    if i < s.len() {
        lemma_lex_runs_to_end(s, i + 1);
    }
}

/// Re-tokenizing the exact text of any single emitted token, in isolation,
/// reproduces one token of the same kind and value, at offset 0.
pub proof fn lemma_retokenize_token(s: Seq<char>, j: int)
    requires
        spec_tokens(s) is Tokens,
        0 <= j < spec_tokens(s)->Tokens_0.len(),
    ensures
        ({
            let t = spec_tokens(s)->Tokens_0[j];
            &&& spec_tokens(t.text) is Tokens
            &&& spec_tokens(t.text)->Tokens_0.len() == 1
            &&& spec_tokens(t.text)->Tokens_0[0].info == t.info
            &&& spec_tokens(t.text)->Tokens_0[0].pos == 0
            &&& spec_tokens(t.text)->Tokens_0[0].text == t.text
        }),
{
    lemma_lex_sound(s, 0, 0);
    let t = spec_tokens(s)->Tokens_0[j];
    assert(token_sound(s, t));
    let u = t.text;
    match t.info {
        TokenInfoView::Number(v) => {
            lemma_lex_runs_to_end(u, 0);
            assert(u.subrange(0, u.len() as int) =~= u);
            assert(lex_from(u, u.len() as int, 0) =~= LexResult::Tokens(
                seq![run_token(u, 0, u.len() as int)],
            ));
            assert(run_token(u, 0, u.len() as int).info == t.info);
        },
        TokenInfoView::Symbol(st) => {
            assert(u.subrange(0, 1) =~= u);
            assert(lex_from(u, 1, 1) =~= LexResult::Tokens(Seq::<TokenView>::empty()));
            assert(lex_from(u, 0, 0) =~= LexResult::Tokens(seq![sym_token(u, 0, st)]));
        },
    }
}

/// Scan `input` into its token sequence, or report the first offending run.
///
/// The result is exactly [`spec_tokens`] of the input: on success the
/// returned tokens' views are the specified sequence; on failure the error
/// carries the specified offset and offending substring.
pub fn tokenization(input: &str) -> (r: Result<Vec<Token>, LexerErr>)
    ensures
        ({
            match spec_tokens(input@) {
                LexResult::Tokens(tv) => r matches Ok(toks) && token_views(toks@) == tv,
                LexResult::Error { position, text } => r matches Err(e) && e.position == position
                    && e.original_str@ == text && e.reason@ == lex_reason(text),
            }
        }),
        r matches Ok(toks) ==> forall|j: int|
            0 <= j < toks@.len() ==> token_sound(input@, #[trigger] toks@[j]@),
        r matches Ok(toks) ==> forall|j1: int, j2: int|
            0 <= j1 < j2 < toks@.len() ==> #[trigger] toks@[j1]@.pos < #[trigger] toks@[j2]@.pos,
{
    let ghost s = input@;
    let n = input.unicode_len();
    let mut tokens: Vec<Token> = Vec::new();
    let mut run_start: usize = 0;
    let mut i: usize = 0;
    while i < n
        invariant
            s == input@,
            n == s.len(),
            run_start <= i <= n,
            forall|k: int| run_start <= k < i ==> sym_of(s[k]) is None,
            lex_from(s, 0, 0) == (match lex_from(s, i as int, run_start as int) {
                LexResult::Tokens(rest) => LexResult::Tokens(token_views(tokens@) + rest),
                LexResult::Error { position, text } => LexResult::Error { position, text },
            }),
        decreases n - i,
    {
        let c = input.get_char(i);
        match symbol_of(c) {
            None => {
                proof {
                    assert(lex_from(s, i as int, run_start as int) == lex_from(
                        s,
                        i + 1,
                        run_start as int,
                    ));
                }
                i = i + 1;
            },
            Some(st) => {
                let ghost tokens_before = tokens@;
                let ghost flushed: Seq<TokenView> = if run_start < i {
                    seq![run_token(s, run_start as int, i as int)]
                } else {
                    Seq::empty()
                };
                if run_start < i {
                    let run_text = input.substring_char(run_start, i);
                    match bd_from_str(run_text) {
                        Some(d) => {
                            let sc = bd_scale(&d);
                            if sc < -SCALE_LIMIT || sc > SCALE_LIMIT {
                                let mut reason =
                                    "this number's decimal exponent is out of the supported range: '".to_owned();
                                reason.append(run_text);
                                reason.append("'");
                                return Err(
                                    LexerErr {
                                        reason,
                                        position: run_start,
                                        original_str: run_text.to_owned(),
                                    },
                                );
                            }
                            let tok = Token {
                                position: run_start,
                                info: TokenInfo::Number(d),
                                original_str: run_text.to_owned(),
                            };
                            proof {
                                assert(tok@ =~= run_token(s, run_start as int, i as int));
                            }
                            tokens.push(tok);
                        },
                        None => {
                            let mut reason =
                                "this run of characters is not a valid number: '".to_owned();
                            reason.append(run_text);
                            reason.append("'");
                            return Err(
                                LexerErr {
                                    reason,
                                    position: run_start,
                                    original_str: run_text.to_owned(),
                                },
                            );
                        },
                    }
                }
                let ghost sym_toks: Seq<TokenView> = if st == SymbolType::Blank {
                    Seq::empty()
                } else {
                    seq![sym_token(s, i as int, st)]
                };
                match st {
                    SymbolType::Blank => {},
                    _ => {
                        let sym_text = input.substring_char(i, i + 1);
                        let tok = Token {
                            position: i,
                            info: TokenInfo::Symbol(st),
                            original_str: sym_text.to_owned(),
                        };
                        proof {
                            assert(tok@ =~= sym_token(s, i as int, st));
                        }
                        tokens.push(tok);
                    },
                }
                proof {
                    assert(token_views(tokens@) =~= token_views(tokens_before) + flushed
                        + sym_toks);
                    assert(lex_from(s, i as int, run_start as int) == (match lex_from(
                        s,
                        i + 1,
                        i + 1,
                    ) {
                        LexResult::Tokens(rest) => LexResult::Tokens(flushed + sym_toks + rest),
                        LexResult::Error { position, text } => LexResult::Error { position, text },
                    }));
                    assert(match lex_from(s, i + 1, i + 1) {
                        LexResult::Tokens(rest) => {
                            token_views(tokens_before) + (flushed + sym_toks + rest)
                                =~= token_views(tokens@) + rest
                        },
                        LexResult::Error { position, text } => true,
                    });
                }
                i = i + 1;
                run_start = i;
            },
        }
    }
    if run_start < n {
        let run_text = input.substring_char(run_start, n);
        match bd_from_str(run_text) {
            Some(d) => {
                let sc = bd_scale(&d);
                if sc < -SCALE_LIMIT || sc > SCALE_LIMIT {
                    let mut reason =
                        "this number's decimal exponent is out of the supported range: '".to_owned();
                    reason.append(run_text);
                    reason.append("'");
                    return Err(
                        LexerErr { reason, position: run_start, original_str: run_text.to_owned() },
                    );
                }
                let tok = Token {
                    position: run_start,
                    info: TokenInfo::Number(d),
                    original_str: run_text.to_owned(),
                };
                proof {
                    assert(tok@ =~= run_token(s, run_start as int, n as int));
                    assert(token_views(tokens@.push(tok)) =~= token_views(tokens@) + seq![tok@]);
                }
                tokens.push(tok);
            },
            None => {
                let mut reason = "this run of characters is not a valid number: '".to_owned();
                reason.append(run_text);
                reason.append("'");
                return Err(
                    LexerErr { reason, position: run_start, original_str: run_text.to_owned() },
                );
            },
        }
    }
    proof {
        assert(lex_from(s, 0, 0) =~= LexResult::Tokens(token_views(tokens@)));
        lemma_lex_sound(s, 0, 0);
        let tv = token_views(tokens@);
        assert(forall|j: int| 0 <= j < tokens@.len() ==> #[trigger] tokens@[j]@ == tv[j]);
        assert(forall|j: int|
            0 <= j < tokens@.len() ==> token_sound(s, #[trigger] tokens@[j]@));
        assert(forall|j1: int, j2: int|
            0 <= j1 < j2 < tokens@.len() ==> #[trigger] tokens@[j1]@.pos
                < #[trigger] tokens@[j2]@.pos) by {
            assert(forall|j1: int, j2: int|
                0 <= j1 < j2 < tv.len() ==> #[trigger] tv[j1].pos < #[trigger] tv[j2].pos);
        }
    }
    if tokens.len() == 0 {
        return Err(
            LexerErr {
                reason: "no expression found in the input".to_owned(),
                position: 0,
                original_str: String::new(),
            },
        );
    }
    Ok(tokens)
}

} // verus!
