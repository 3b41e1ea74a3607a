//! Syntactic analysis: a recursive-descent parser over the token cursor,
//! emitting a postfix (reverse-Polish) sequence.
//!
//! The grammar has two precedence levels plus parenthesization:
//!
//! ```text
//! Sum     := Term (('+' | '-') Term)*
//! Term    := Factor (('*' | '/') Factor)*
//! Factor  := ['-'] Primary      -- the '-' only as the leading factor of a Sum
//! Primary := Number | '(' Sum ')'
//! ```
//!
//! A unary minus is accepted only on the first factor of a sum, and every
//! parenthesized sub-expression starts a fresh sum, so `-(2)` and `(-2)` are
//! both accepted while `2 - -3` is not. The whole parse is specified by
//! [`sp_parse`], which produces the expression tree; the executable parser
//! emits exactly the postfix form of that tree ([`postfix_of`]).

use vstd::prelude::*;

use bigdecimal::BigDecimal;

use crate::number::{bd_model, DecVal};
use crate::token::{SymbolType, Token, TokenInfo, TokenInfoView, TokenView};
use crate::token_render::TokenRender;

verus! {

/// An operator of the postfix form: the four binary operators and the unary
/// negation (printed `@`).
#[derive(Clone, Copy, PartialEq, Eq, Structural, Debug)]
pub enum Operator {
    Add,
    Sub,
    Mul,
    Div,
    /// Unary negation.
    Minus,
}

/// One item of the postfix sequence, consumed left to right by the
/// evaluator.
#[derive(Debug)]
pub enum RPNItem {
    Operator(Operator),
    Number(BigDecimal),
}

/// Mathematical image of an [`RPNItem`]: numbers abstract to their value.
pub ghost enum RpnItemView {
    Operator(Operator),
    Number(DecVal),
}

impl View for RPNItem {
    type V = RpnItemView;

    open spec fn view(&self) -> RpnItemView {
        match self {
            RPNItem::Operator(op) => RpnItemView::Operator(*op),
            RPNItem::Number(d) => RpnItemView::Number(bd_model(*d)),
        }
    }
}

pub open spec fn rpn_views(s: Seq<RPNItem>) -> Seq<RpnItemView> {
    s.map_values(|x: RPNItem| x@)
}

/// A syntactic error.
#[derive(Debug)]
pub struct ParseErr {
    pub reason: String,
    pub err_type: ParseErrType,
}

/// The three syntactic failure shapes: a wrong token is present, the input
/// ended where a token was required, or a valid prefix was parsed but
/// trailing input remains (its start offset is carried).
#[derive(Debug)]
pub enum ParseErrType {
    Unexpected(Token),
    Insufficient,
    Redundant(usize),
}

impl Clone for ParseErrType {
    fn clone(&self) -> (r: ParseErrType)
        ensures
            match *self {
                ParseErrType::Unexpected(ref t) => r is Unexpected && r->Unexpected_0@ == t@,
                ParseErrType::Insufficient => r is Insufficient,
                ParseErrType::Redundant(p) => r == ParseErrType::Redundant(p),
            },
    {
        match self {
            ParseErrType::Unexpected(t) => ParseErrType::Unexpected(t.clone()),
            ParseErrType::Insufficient => ParseErrType::Insufficient,
            ParseErrType::Redundant(p) => ParseErrType::Redundant(*p),
        }
    }
}

impl Clone for ParseErr {
    fn clone(&self) -> (r: ParseErr)
        ensures
            r.reason@ == self.reason@,
            match self.err_type {
                ParseErrType::Unexpected(ref t) => r.err_type is Unexpected
                    && r.err_type->Unexpected_0@ == t@,
                ParseErrType::Insufficient => r.err_type is Insufficient,
                ParseErrType::Redundant(p) => r.err_type == ParseErrType::Redundant(p),
            },
    {
        ParseErr { reason: self.reason.clone(), err_type: self.err_type.clone() }
    }
}

// ---------------------------------------------------------------------------
// The expression tree and its postfix form.
// ---------------------------------------------------------------------------

/// A binary operator of the expression tree.
pub ghost enum BinOp {
    Add,
    Sub,
    Mul,
    Div,
}

/// An expression tree: a literal value, a negation, or a binary operation.
/// Each node owns its children outright; the tree is built once by the
/// parser and consumed once.
pub ghost enum Expr {
    Num(DecVal),
    Neg(Box<Expr>),
    Bin(BinOp, Box<Expr>, Box<Expr>),
}

/// The postfix operator symbol of a tree operator.
pub open spec fn bin_rpn(op: BinOp) -> Operator {
    match op {
        BinOp::Add => Operator::Add,
        BinOp::Sub => Operator::Sub,
        BinOp::Mul => Operator::Mul,
        BinOp::Div => Operator::Div,
    }
}

/// The tree operator written by a (binary) postfix operator.
pub open spec fn binop_of(op: Operator) -> BinOp {
    match op {
        Operator::Add => BinOp::Add,
        Operator::Sub => BinOp::Sub,
        Operator::Mul => BinOp::Mul,
        Operator::Div => BinOp::Div,
        Operator::Minus => BinOp::Add,
    }
}

/// The postfix (postorder) rendering of an expression tree: operands first,
/// every operator after both (or, for negation, its one) operand.
pub open spec fn postfix_of(e: Expr) -> Seq<RpnItemView>
    decreases e,
{
    match e {
        Expr::Num(v) => seq![RpnItemView::Number(v)],
        Expr::Neg(inner) => postfix_of(*inner) + seq![RpnItemView::Operator(Operator::Minus)],
        Expr::Bin(op, l, r) => postfix_of(*l) + postfix_of(*r)
            + seq![RpnItemView::Operator(bin_rpn(op))],
    }
}

// ---------------------------------------------------------------------------
// The specification-level parser.
// ---------------------------------------------------------------------------

pub open spec fn tok_is_sym(t: TokenView, st: crate::token::SymbolType) -> bool {
    t.info == TokenInfoView::Symbol(st)
}

pub open spec fn tok_is_num(t: TokenView) -> bool {
    t.info is Number
}

/// What a failing grammar rule was looking for: the start of a primary
/// (a number or an opening parenthesis), or the closing parenthesis of a
/// parenthesized sum.
pub ghost enum Expecting {
    PrimaryStart,
    CloseBracket,
}

/// A failure of one grammar rule: the offending token's index, or the end
/// of the input where a token was required -- and, either way, what the
/// rule was expecting, which fixes the error's message.
pub ghost enum SynErr {
    Unexpected { at: int, expecting: Expecting },
    Insufficient { expecting: Expecting },
}

/// The message a syntactic error carries, fixed by its shape.
pub open spec fn syn_reason(err: SynErr) -> Seq<char> {
    match err {
        SynErr::Unexpected { at, expecting } => match expecting {
            Expecting::PrimaryStart => "expected '(' or a number, got a different token"@,
            Expecting::CloseBracket => "expected ')', got a different token"@,
        },
        SynErr::Insufficient { expecting } => match expecting {
            Expecting::PrimaryStart => "expected '(' or a number, but the input ended"@,
            Expecting::CloseBracket => "expected ')', but the input ended"@,
        },
    }
}

/// The message a `Redundant` error carries.
pub open spec fn redundant_reason() -> Seq<char> {
    "the expression ended but input remains unconsumed"@
}

/// Outcome of one grammar rule starting at token index `i`: the parsed tree
/// and the index of the first unconsumed token, or a failure.
pub ghost enum ParseStep {
    Parsed { e: Expr, next: int },
    Failed { err: SynErr },
}

/// Clamp a continuation index into `[lo, hi]`. The specification parser
/// threads every continuation index through this so that its recursion is
/// visibly well-founded; a successful rule always consumes at least one
/// token and never passes the end, so the clamp never actually changes the
/// index.
pub open spec fn clamp_idx(lo: int, x: int, hi: int) -> int {
    if x < lo {
        lo
    } else if x > hi {
        if hi < lo {
            lo
        } else {
            hi
        }
    } else {
        x
    }
}

/// `Primary := Number | '(' Sum ')'`.
pub open spec fn sp_primary(ts: Seq<TokenView>, i: int) -> ParseStep
    decreases ts.len() - i, 0int,
{
    if i >= ts.len() {
        ParseStep::Failed { err: SynErr::Insufficient { expecting: Expecting::PrimaryStart } }
    } else if tok_is_num(ts[i]) {
        ParseStep::Parsed { e: Expr::Num(ts[i].info->Number_0), next: i + 1 }
    } else if tok_is_sym(ts[i], crate::token::SymbolType::LeftBracket) {
        match sp_sum(ts, i + 1) {
            ParseStep::Parsed { e, next } => {
                if next < ts.len() && tok_is_sym(ts[next], crate::token::SymbolType::RightBracket) {
                    ParseStep::Parsed { e, next: next + 1 }
                } else if next >= ts.len() {
                    ParseStep::Failed {
                        err: SynErr::Insufficient { expecting: Expecting::CloseBracket },
                    }
                } else {
                    ParseStep::Failed {
                        err: SynErr::Unexpected { at: next, expecting: Expecting::CloseBracket },
                    }
                }
            },
            ParseStep::Failed { err } => ParseStep::Failed { err },
        }
    } else {
        ParseStep::Failed { err: SynErr::Unexpected { at: i, expecting: Expecting::PrimaryStart } }
    }
}

/// `Factor := ['-'] Primary`, the minus only when this factor leads a sum.
pub open spec fn sp_factor(ts: Seq<TokenView>, i: int, first: bool) -> ParseStep
    decreases ts.len() - i, 1int,
{
    if first && i < ts.len() && tok_is_sym(ts[i], crate::token::SymbolType::Sub) {
        match sp_primary(ts, i + 1) {
            ParseStep::Parsed { e, next } => ParseStep::Parsed {
                e: Expr::Neg(Box::new(e)),
                next,
            },
            ParseStep::Failed { err } => ParseStep::Failed { err },
        }
    } else {
        sp_primary(ts, i)
    }
}

/// The `(('*' | '/') Factor)*` tail of a term, folded left onto `acc`.
///
/// The index argument of each recursive call is forced strictly upward
/// (every successful factor consumes at least one token, so the adjustment
/// never actually changes the index).
pub open spec fn sp_term_rest(ts: Seq<TokenView>, acc: Expr, i: int) -> ParseStep
    decreases ts.len() - i, 0int,
{
    if i < ts.len() && (tok_is_sym(ts[i], crate::token::SymbolType::Mul) || tok_is_sym(
        ts[i],
        crate::token::SymbolType::Div,
    )) {
        let op = if tok_is_sym(ts[i], crate::token::SymbolType::Mul) {
            BinOp::Mul
        } else {
            BinOp::Div
        };
        match sp_factor(ts, i + 1, false) {
            ParseStep::Parsed { e, next } => sp_term_rest(
                ts,
                Expr::Bin(op, Box::new(acc), Box::new(e)),
                clamp_idx(i + 1, next, ts.len() as int),
            ),
            ParseStep::Failed { err } => ParseStep::Failed { err },
        }
    } else {
        ParseStep::Parsed { e: acc, next: i }
    }
}

/// `Term := Factor (('*' | '/') Factor)*`.
pub open spec fn sp_term(ts: Seq<TokenView>, i: int, first: bool) -> ParseStep
    decreases ts.len() - i, 2int,
{
    match sp_factor(ts, i, first) {
        ParseStep::Parsed { e, next } => sp_term_rest(
            ts,
            e,
            clamp_idx(i, next, ts.len() as int),
        ),
        ParseStep::Failed { err } => ParseStep::Failed { err },
    }
}

/// The `(('+' | '-') Term)*` tail of a sum, folded left onto `acc`.
pub open spec fn sp_sum_rest(ts: Seq<TokenView>, acc: Expr, i: int) -> ParseStep
    decreases ts.len() - i, 0int,
{
    if i < ts.len() && (tok_is_sym(ts[i], crate::token::SymbolType::Add) || tok_is_sym(
        ts[i],
        crate::token::SymbolType::Sub,
    )) {
        let op = if tok_is_sym(ts[i], crate::token::SymbolType::Add) {
            BinOp::Add
        } else {
            BinOp::Sub
        };
        match sp_term(ts, i + 1, false) {
            ParseStep::Parsed { e, next } => sp_sum_rest(
                ts,
                Expr::Bin(op, Box::new(acc), Box::new(e)),
                clamp_idx(i + 1, next, ts.len() as int),
            ),
            ParseStep::Failed { err } => ParseStep::Failed { err },
        }
    } else {
        ParseStep::Parsed { e: acc, next: i }
    }
}

/// `Sum := Term (('+' | '-') Term)*`; only the first term may lead with a
/// unary minus.
pub open spec fn sp_sum(ts: Seq<TokenView>, i: int) -> ParseStep
    decreases ts.len() - i, 3int,
{
    match sp_term(ts, i, true) {
        ParseStep::Parsed { e, next } => sp_sum_rest(
            ts,
            e,
            clamp_idx(i, next, ts.len() as int),
        ),
        ParseStep::Failed { err } => ParseStep::Failed { err },
    }
}

/// Outcome of the whole parse from token index `i`.
pub ghost enum ParseOutcome {
    Parsed(Expr),
    Unexpected { at: int, expecting: Expecting },
    Insufficient { expecting: Expecting },
    Redundant { at: int },
}

/// One `Sum` must cover the whole remaining input; a remaining token makes
/// the parse `Redundant` at that token's index.
pub open spec fn sp_parse(ts: Seq<TokenView>, i: int) -> ParseOutcome {
    match sp_sum(ts, i) {
        ParseStep::Parsed { e, next } => {
            if next >= ts.len() {
                ParseOutcome::Parsed(e)
            } else {
                ParseOutcome::Redundant { at: next }
            }
        },
        ParseStep::Failed { err } => match err {
            SynErr::Unexpected { at, expecting } => ParseOutcome::Unexpected { at, expecting },
            SynErr::Insufficient { expecting } => ParseOutcome::Insufficient { expecting },
        },
    }
}

/// Whether the executable error `pe` is the one the specification calls
/// for: the same failure shape, and for `Unexpected` the very token at the
/// specified index.
pub open spec fn err_corresponds(pe: ParseErr, ts: Seq<TokenView>, err: SynErr) -> bool {
    &&& pe.reason@ == syn_reason(err)
    &&& match err {
        SynErr::Unexpected { at, expecting } => {
            &&& 0 <= at < ts.len()
            &&& pe.err_type is Unexpected
            &&& pe.err_type->Unexpected_0@ == ts[at]
        },
        SynErr::Insufficient { expecting } => pe.err_type is Insufficient,
    }
}

// ---------------------------------------------------------------------------
// The executable parser.
// ---------------------------------------------------------------------------

/// Consume a `+` or `-` token if one is current, returning its operator.
fn try_op1(render: &mut TokenRender) -> (r: Option<Operator>)
    requires
        old(render).wf(),
    ensures
        final(render).wf(),
        final(render).toks() == old(render).toks(),
        ({
            let ts = old(render).toks();
            let i = old(render).at() as int;
            match r {
                Some(op) => i < ts.len() && final(render).at() == i + 1 && (op == Operator::Add
                    || op == Operator::Sub) && (op == Operator::Add <==> tok_is_sym(
                    ts[i],
                    SymbolType::Add,
                )) && (op == Operator::Sub <==> tok_is_sym(ts[i], SymbolType::Sub)),
                None => final(render).at() == old(render).at() && (i >= ts.len() || (!tok_is_sym(
                    ts[i],
                    SymbolType::Add,
                ) && !tok_is_sym(ts[i], SymbolType::Sub))),
            }
        }),
{
    if render.try_token(TokenInfo::Symbol(SymbolType::Add)) {
        return Some(Operator::Add);
    }
    if render.try_token(TokenInfo::Symbol(SymbolType::Sub)) {
        return Some(Operator::Sub);
    }
    None
}

/// Consume a `*` or `/` token if one is current, returning its operator.
fn try_op2(render: &mut TokenRender) -> (r: Option<Operator>)
    requires
        old(render).wf(),
    ensures
        final(render).wf(),
        final(render).toks() == old(render).toks(),
        ({
            let ts = old(render).toks();
            let i = old(render).at() as int;
            match r {
                Some(op) => i < ts.len() && final(render).at() == i + 1 && (op == Operator::Mul
                    || op == Operator::Div) && (op == Operator::Mul <==> tok_is_sym(
                    ts[i],
                    SymbolType::Mul,
                )) && (op == Operator::Div <==> tok_is_sym(ts[i], SymbolType::Div)),
                None => final(render).at() == old(render).at() && (i >= ts.len() || (!tok_is_sym(
                    ts[i],
                    SymbolType::Mul,
                ) && !tok_is_sym(ts[i], SymbolType::Div))),
            }
        }),
{
    if render.try_token(TokenInfo::Symbol(SymbolType::Mul)) {
        return Some(Operator::Mul);
    }
    if render.try_token(TokenInfo::Symbol(SymbolType::Div)) {
        return Some(Operator::Div);
    }
    None
}

/// `Primary := Number | '(' Sum ')'`: push the number, or parse the
/// parenthesized sum. Emits [`postfix_of`] of the parsed tree onto `output`.
fn parse_primary(render: &mut TokenRender, output: &mut Vec<RPNItem>) -> (r: Result<(), ParseErr>)
    requires
        old(render).wf(),
    ensures
        final(render).wf(),
        final(render).toks() == old(render).toks(),
        ({
            let ts = old(render).toks();
            let i0 = old(render).at() as int;
            match r {
                Ok(()) => sp_primary(ts, i0) matches ParseStep::Parsed { e, next } && rpn_views(
                    final(output)@,
                ) == rpn_views(old(output)@) + postfix_of(e) && final(render).at() == next && i0
                    < next <= ts.len(),
                Err(pe) => sp_primary(ts, i0) matches ParseStep::Failed { err } && err_corresponds(
                    pe,
                    ts,
                    err,
                ),
            }
        }),
    decreases render.toks().len() - render.at(), 0int,
{
    let ghost ts = render.toks();
    let ghost i0 = render.at() as int;
    let mut num_val: Option<BigDecimal> = None;
    if !render.is_empty() {
        match &render.peek().info {
            TokenInfo::Number(d) => {
                num_val = Some(d.clone());
            },
            _ => {},
        }
    }
    match num_val {
        Some(d) => {
            let ghost dv = bd_model(d);
            proof {
                assert(tok_is_num(ts[i0]));
                assert(ts[i0].info->Number_0 == dv);
            }
            render.next();
            let ghost out_mid = output@;
            output.push(RPNItem::Number(d));
            proof {
                assert(rpn_views(output@) =~= rpn_views(out_mid) + postfix_of(Expr::Num(dv)));
            }
            return Ok(());
        },
        None => {},
    }
    let lp = render.expect(
        TokenInfo::Symbol(SymbolType::LeftBracket),
        "expected '(' or a number, got a different token",
        "expected '(' or a number, but the input ended",
    );
    match lp {
        Err(e) => {
            return Err(e);
        },
        Ok(_) => {},
    }
    render.next();
    match parse_sum(render, output) {
        Err(e) => {
            return Err(e);
        },
        Ok(()) => {},
    }
    let rp = render.expect(
        TokenInfo::Symbol(SymbolType::RightBracket),
        "expected ')', got a different token",
        "expected ')', but the input ended",
    );
    match rp {
        Err(e) => {
            return Err(e);
        },
        Ok(_) => {},
    }
    render.next();
    Ok(())
}

/// `Factor := ['-'] Primary`: the leading minus only when this factor leads
/// its sum; a parsed minus is emitted after the operand's postfix form.
fn parse_factor(render: &mut TokenRender, output: &mut Vec<RPNItem>, is_first: bool) -> (r: Result<
    (),
    ParseErr,
>)
    requires
        old(render).wf(),
    ensures
        final(render).wf(),
        final(render).toks() == old(render).toks(),
        ({
            let ts = old(render).toks();
            let i0 = old(render).at() as int;
            match r {
                Ok(()) => sp_factor(ts, i0, is_first) matches ParseStep::Parsed { e, next }
                    && rpn_views(final(output)@) == rpn_views(old(output)@) + postfix_of(e)
                    && final(render).at() == next && i0 < next <= ts.len(),
                Err(pe) => sp_factor(ts, i0, is_first) matches ParseStep::Failed { err }
                    && err_corresponds(pe, ts, err),
            }
        }),
    decreases render.toks().len() - render.at(), 1int,
{
    let ghost ts = render.toks();
    let ghost i0 = render.at() as int;
    let mut neg = false;
    if is_first {
        if render.try_token(TokenInfo::Symbol(SymbolType::Sub)) {
            neg = true;
        }
    }
    match parse_primary(render, output) {
        Err(e) => {
            return Err(e);
        },
        Ok(()) => {},
    }
    if neg {
        let ghost out_mid = output@;
        output.push(RPNItem::Operator(Operator::Minus));
        proof {
            let e = sp_primary(ts, i0 + 1)->Parsed_e;
            assert(rpn_views(output@) =~= rpn_views(out_mid) + seq![
                RpnItemView::Operator(Operator::Minus),
            ]);
            assert(rpn_views(output@) =~= rpn_views(old(output)@) + postfix_of(
                Expr::Neg(Box::new(e)),
            ));
        }
    }
    Ok(())
}

/// `Term := Factor (('*' | '/') Factor)*`, folded left; each operator is
/// emitted right after its second operand's postfix form.
#[verifier::loop_isolation(false)]
fn parse_term(render: &mut TokenRender, output: &mut Vec<RPNItem>, is_first: bool) -> (r: Result<
    (),
    ParseErr,
>)
    requires
        old(render).wf(),
    ensures
        final(render).wf(),
        final(render).toks() == old(render).toks(),
        ({
            let ts = old(render).toks();
            let i0 = old(render).at() as int;
            match r {
                Ok(()) => sp_term(ts, i0, is_first) matches ParseStep::Parsed { e, next }
                    && rpn_views(final(output)@) == rpn_views(old(output)@) + postfix_of(e)
                    && final(render).at() == next && i0 < next <= ts.len(),
                Err(pe) => sp_term(ts, i0, is_first) matches ParseStep::Failed { err }
                    && err_corresponds(pe, ts, err),
            }
        }),
    decreases render.toks().len() - render.at(), 2int,
{
    let ghost ts = render.toks();
    let ghost i0 = render.at() as int;
    let ghost out0 = output@;
    match parse_factor(render, output, is_first) {
        Err(e) => {
            return Err(e);
        },
        Ok(()) => {},
    }
    let ghost mut acc = sp_factor(ts, i0, is_first)->Parsed_e;
    proof {
        assert(sp_term(ts, i0, is_first) == sp_term_rest(ts, acc, render.at() as int));
    }
    let mut done = false;
    while !done
        invariant
            render.wf(),
            render.toks() == ts,
            i0 < render.at() <= ts.len(),
            sp_term(ts, i0, is_first) == sp_term_rest(ts, acc, render.at() as int),
            rpn_views(output@) == rpn_views(out0) + postfix_of(acc),
            done ==> render.at() >= ts.len() || (!tok_is_sym(
                ts[render.at() as int],
                SymbolType::Mul,
            ) && !tok_is_sym(ts[render.at() as int], SymbolType::Div)),
        decreases ts.len() - render.at() + (if done { 0int } else { 1int }),
    {
        let ghost p = render.at() as int;
        let op_opt = try_op2(render);
        match op_opt {
            None => {
                done = true;
            },
            Some(op) => {
                match parse_factor(render, output, false) {
                    Err(e) => {
                        return Err(e);
                    },
                    Ok(()) => {},
                }
                let ghost out_mid = output@;
                output.push(RPNItem::Operator(op));
                proof {
                    let e2 = sp_factor(ts, p + 1, false)->Parsed_e;
                    let newacc = Expr::Bin(binop_of(op), Box::new(acc), Box::new(e2));
                    assert(rpn_views(output@) =~= rpn_views(out_mid) + seq![
                        RpnItemView::Operator(op),
                    ]);
                    assert(rpn_views(output@) =~= rpn_views(out0) + postfix_of(newacc));
                    assert(sp_term_rest(ts, acc, p) == sp_term_rest(
                        ts,
                        newacc,
                        render.at() as int,
                    ));
                    acc = newacc;
                }
            },
        }
    }
    proof {
        assert(sp_term_rest(ts, acc, render.at() as int) == (ParseStep::Parsed {
            e: acc,
            next: render.at() as int,
        }));
    }
    Ok(())
}

/// `Sum := Term (('+' | '-') Term)*`, folded left; only the first term may
/// lead with a unary minus.
#[verifier::loop_isolation(false)]
fn parse_sum(render: &mut TokenRender, output: &mut Vec<RPNItem>) -> (r: Result<(), ParseErr>)
    requires
        old(render).wf(),
    ensures
        final(render).wf(),
        final(render).toks() == old(render).toks(),
        ({
            let ts = old(render).toks();
            let i0 = old(render).at() as int;
            match r {
                Ok(()) => sp_sum(ts, i0) matches ParseStep::Parsed { e, next } && rpn_views(
                    final(output)@,
                ) == rpn_views(old(output)@) + postfix_of(e) && final(render).at() == next && i0
                    < next <= ts.len(),
                Err(pe) => sp_sum(ts, i0) matches ParseStep::Failed { err } && err_corresponds(
                    pe,
                    ts,
                    err,
                ),
            }
        }),
    decreases render.toks().len() - render.at(), 3int,
{
    let ghost ts = render.toks();
    let ghost i0 = render.at() as int;
    let ghost out0 = output@;
    match parse_term(render, output, true) {
        Err(e) => {
            return Err(e);
        },
        Ok(()) => {},
    }
    let ghost mut acc = sp_term(ts, i0, true)->Parsed_e;
    proof {
        assert(sp_sum(ts, i0) == sp_sum_rest(ts, acc, render.at() as int));
    }
    let mut done = false;
    while !done
        invariant
            render.wf(),
            render.toks() == ts,
            i0 < render.at() <= ts.len(),
            sp_sum(ts, i0) == sp_sum_rest(ts, acc, render.at() as int),
            rpn_views(output@) == rpn_views(out0) + postfix_of(acc),
            done ==> render.at() >= ts.len() || (!tok_is_sym(
                ts[render.at() as int],
                SymbolType::Add,
            ) && !tok_is_sym(ts[render.at() as int], SymbolType::Sub)),
        decreases ts.len() - render.at() + (if done { 0int } else { 1int }),
    {
        let ghost p = render.at() as int;
        let op_opt = try_op1(render);
        match op_opt {
            None => {
                done = true;
            },
            Some(op) => {
                match parse_term(render, output, false) {
                    Err(e) => {
                        return Err(e);
                    },
                    Ok(()) => {},
                }
                let ghost out_mid = output@;
                output.push(RPNItem::Operator(op));
                proof {
                    let e2 = sp_term(ts, p + 1, false)->Parsed_e;
                    let newacc = Expr::Bin(binop_of(op), Box::new(acc), Box::new(e2));
                    assert(rpn_views(output@) =~= rpn_views(out_mid) + seq![
                        RpnItemView::Operator(op),
                    ]);
                    assert(rpn_views(output@) =~= rpn_views(out0) + postfix_of(newacc));
                    assert(sp_sum_rest(ts, acc, p) == sp_sum_rest(ts, newacc, render.at() as int));
                    acc = newacc;
                }
            },
        }
    }
    proof {
        assert(sp_sum_rest(ts, acc, render.at() as int) == (ParseStep::Parsed {
            e: acc,
            next: render.at() as int,
        }));
    }
    Ok(())
}

/// Parse one whole expression from the cursor into its postfix sequence.
///
/// On success the returned items are exactly the postfix form of the
/// expression tree given by [`sp_parse`]; a remaining token yields a
/// `Redundant` error at that token's source offset, and the failures of the
/// grammar yield `Unexpected` (with the offending token) or `Insufficient`.
pub fn parse_sentence(render: &mut TokenRender) -> (r: Result<Vec<RPNItem>, ParseErr>)
    requires
        old(render).wf(),
    ensures
        final(render).wf(),
        final(render).toks() == old(render).toks(),
        ({
            let ts = old(render).toks();
            let i0 = old(render).at() as int;
            match sp_parse(ts, i0) {
                ParseOutcome::Parsed(e) => r matches Ok(v) && rpn_views(v@) == postfix_of(e)
                    && final(render).at() == ts.len(),
                ParseOutcome::Unexpected { at, expecting } => r matches Err(pe) && pe.err_type
                    is Unexpected && pe.err_type->Unexpected_0@ == ts[at] && pe.reason@
                    == syn_reason(SynErr::Unexpected { at, expecting }),
                ParseOutcome::Insufficient { expecting } => r matches Err(pe) && pe.err_type
                    is Insufficient && pe.reason@ == syn_reason(
                    SynErr::Insufficient { expecting },
                ),
                ParseOutcome::Redundant { at } => r matches Err(pe) && pe.err_type is Redundant
                    && pe.err_type->Redundant_0 == ts[at].pos && pe.reason@ == redundant_reason(),
            }
        }),
{
    let mut output: Vec<RPNItem> = Vec::new();
    match parse_sum(render, &mut output) {
        Err(e) => {
            return Err(e);
        },
        Ok(()) => {},
    }
    if render.is_empty() {
        Ok(output)
    } else {
        let position = render.peek().position;
        Err(
            ParseErr {
                reason: "the expression ended but input remains unconsumed".to_owned(),
                err_type: ParseErrType::Redundant(position),
            },
        )
    }
}

// ---------------------------------------------------------------------------
// Every number the parser emits comes from a token, so a bound that holds
// of the token values holds of the postfix sequence.
// ---------------------------------------------------------------------------

/// All number tokens of the sequence carry a pair within the supported
/// scale range.
pub open spec fn toks_nums_fit(ts: Seq<TokenView>) -> bool {
    forall|i: int|
        0 <= i < ts.len() ==> ((#[trigger] ts[i]).info is Number ==> crate::number::dec_fits(
            ts[i].info->Number_0,
        ))
}

/// All number leaves of the tree carry a pair within the supported range.
pub open spec fn expr_fits(e: Expr) -> bool
    decreases e,
{
    match e {
        Expr::Num(v) => crate::number::dec_fits(v),
        Expr::Neg(inner) => expr_fits(*inner),
        Expr::Bin(op, l, r) => expr_fits(*l) && expr_fits(*r),
    }
}

/// All number items of a postfix sequence carry a pair within the
/// supported range.
pub open spec fn items_nums_fit(items: Seq<RpnItemView>) -> bool {
    forall|k: int|
        0 <= k < items.len() ==> ((#[trigger] items[k]) is Number ==> crate::number::dec_fits(
            items[k]->Number_0,
        ))
}

proof fn lemma_sp_primary_fits(ts: Seq<TokenView>, i: int)
    requires
        0 <= i,
        toks_nums_fit(ts),
    ensures
        sp_primary(ts, i) matches ParseStep::Parsed { e, next } ==> expr_fits(e),
    decreases ts.len() - i, 0int,
{
    if 0 <= i < ts.len() && tok_is_num(ts[i]) {
        assert(ts[i].info is Number);
    } else if 0 <= i < ts.len() && tok_is_sym(ts[i], crate::token::SymbolType::LeftBracket) {
        lemma_sp_sum_fits(ts, i + 1);
    }
}

proof fn lemma_sp_factor_fits(ts: Seq<TokenView>, i: int, first: bool)
    requires
        0 <= i,
        toks_nums_fit(ts),
    ensures
        sp_factor(ts, i, first) matches ParseStep::Parsed { e, next } ==> expr_fits(e),
    decreases ts.len() - i, 1int,
{
    if first && i < ts.len() && tok_is_sym(ts[i], crate::token::SymbolType::Sub) {
        lemma_sp_primary_fits(ts, i + 1);
    } else {
        lemma_sp_primary_fits(ts, i);
    }
}

proof fn lemma_sp_term_rest_fits(ts: Seq<TokenView>, acc: Expr, i: int)
    requires
        0 <= i,
        toks_nums_fit(ts),
        expr_fits(acc),
    ensures
        sp_term_rest(ts, acc, i) matches ParseStep::Parsed { e, next } ==> expr_fits(e),
    decreases ts.len() - i, 0int,
{
    if i < ts.len() && (tok_is_sym(ts[i], crate::token::SymbolType::Mul) || tok_is_sym(
        ts[i],
        crate::token::SymbolType::Div,
    )) {
        let op = if tok_is_sym(ts[i], crate::token::SymbolType::Mul) {
            BinOp::Mul
        } else {
            BinOp::Div
        };
        lemma_sp_factor_fits(ts, i + 1, false);
        match sp_factor(ts, i + 1, false) {
            ParseStep::Parsed { e, next } => {
                lemma_sp_term_rest_fits(
                    ts,
                    Expr::Bin(op, Box::new(acc), Box::new(e)),
                    clamp_idx(i + 1, next, ts.len() as int),
                );
            },
            ParseStep::Failed { err } => {},
        }
    }
}

proof fn lemma_sp_term_fits(ts: Seq<TokenView>, i: int, first: bool)
    requires
        0 <= i,
        toks_nums_fit(ts),
    ensures
        sp_term(ts, i, first) matches ParseStep::Parsed { e, next } ==> expr_fits(e),
    decreases ts.len() - i, 2int,
{
    lemma_sp_factor_fits(ts, i, first);
    match sp_factor(ts, i, first) {
        ParseStep::Parsed { e, next } => {
            lemma_sp_term_rest_fits(ts, e, clamp_idx(i, next, ts.len() as int));
        },
        ParseStep::Failed { err } => {},
    }
}

proof fn lemma_sp_sum_rest_fits(ts: Seq<TokenView>, acc: Expr, i: int)
    requires
        0 <= i,
        toks_nums_fit(ts),
        expr_fits(acc),
    ensures
        sp_sum_rest(ts, acc, i) matches ParseStep::Parsed { e, next } ==> expr_fits(e),
    decreases ts.len() - i, 0int,
{
    if i < ts.len() && (tok_is_sym(ts[i], crate::token::SymbolType::Add) || tok_is_sym(
        ts[i],
        crate::token::SymbolType::Sub,
    )) {
        let op = if tok_is_sym(ts[i], crate::token::SymbolType::Add) {
            BinOp::Add
        } else {
            BinOp::Sub
        };
        lemma_sp_term_fits(ts, i + 1, false);
        match sp_term(ts, i + 1, false) {
            ParseStep::Parsed { e, next } => {
                lemma_sp_sum_rest_fits(
                    ts,
                    Expr::Bin(op, Box::new(acc), Box::new(e)),
                    clamp_idx(i + 1, next, ts.len() as int),
                );
            },
            ParseStep::Failed { err } => {},
        }
    }
}

proof fn lemma_sp_sum_fits(ts: Seq<TokenView>, i: int)
    requires
        0 <= i,
        toks_nums_fit(ts),
    ensures
        sp_sum(ts, i) matches ParseStep::Parsed { e, next } ==> expr_fits(e),
    decreases ts.len() - i, 3int,
{
    lemma_sp_term_fits(ts, i, true);
    match sp_term(ts, i, true) {
        ParseStep::Parsed { e, next } => {
            lemma_sp_sum_rest_fits(ts, e, clamp_idx(i, next, ts.len() as int));
        },
        ParseStep::Failed { err } => {},
    }
}

/// When every number token is within the supported scale range, so is
/// every number leaf of a successfully parsed tree.
pub proof fn lemma_parse_fits(ts: Seq<TokenView>, i: int)
    requires
        0 <= i,
        toks_nums_fit(ts),
    ensures
        sp_parse(ts, i) matches ParseOutcome::Parsed(e) ==> expr_fits(e),
{
    lemma_sp_sum_fits(ts, i);
}

/// The postfix form of a tree whose leaves are in range has all its number
/// items in range.
pub proof fn lemma_postfix_nums_fit(e: Expr)
    requires
        expr_fits(e),
    ensures
        items_nums_fit(postfix_of(e)),
    decreases e,
{
    match e {
        Expr::Num(v) => {},
        Expr::Neg(inner) => {
            lemma_postfix_nums_fit(*inner);
            let xs = postfix_of(*inner);
            let all = postfix_of(e);
            assert forall|k: int|
                0 <= k < all.len() && (#[trigger] all[k]) is Number implies crate::number::dec_fits(
                all[k]->Number_0,
            ) by {
                if k < xs.len() {
                    assert(all[k] == xs[k]);
                }
            }
        },
        Expr::Bin(op, l, r) => {
            lemma_postfix_nums_fit(*l);
            lemma_postfix_nums_fit(*r);
            let xs = postfix_of(*l);
            let ys = postfix_of(*r);
            let all = postfix_of(e);
            assert forall|k: int|
                0 <= k < all.len() && (#[trigger] all[k]) is Number implies crate::number::dec_fits(
                all[k]->Number_0,
            ) by {
                if k < xs.len() {
                    assert(all[k] == xs[k]);
                } else if k < xs.len() + ys.len() {
                    assert(all[k] == ys[k - xs.len()]);
                }
            }
        },
    }
}

} // verus!
