//! Evaluation: a stack machine reducing a postfix sequence to one decimal
//! value.
//!
//! A number is pushed; a binary operator pops its right then its left
//! operand and pushes the exact result (division first checks its right
//! operand for zero); the unary negation pops one operand. After the whole
//! sequence, exactly one value must remain. Binary operations are applied
//! only to operands whose scales lie within the library's supported range
//! ([`dec_fits`]); an operand outside it stops evaluation with
//! [`EvalError::ExponentOverflow`]. The machine is specified by
//! [`rpn_run`]; [`calculate`] returns exactly what it prescribes.

use vstd::prelude::*;

use bigdecimal::BigDecimal;

use crate::number::{
    bd_add, bd_div, bd_is_zero, bd_mul, bd_neg, bd_scale, bd_sub, bd_model, dec_add, dec_div,
    dec_fits, dec_is_zero, dec_mul, dec_neg, dec_sub, DecVal, SCALE_LIMIT,
};
use crate::sentence::{bin_rpn, postfix_of, rpn_views, Expr, Operator, RPNItem, RpnItemView};

verus! {

/// A semantic (evaluation-time) error: a division by zero; an operand whose
/// decimal exponent left the supported range (the one machine limit of the
/// representation -- its scale is a 64-bit integer); or a postfix sequence
/// whose shape does not leave exactly one value on the stack. The last
/// signals a defect in whatever produced the sequence, never a user input;
/// a correct parse can not produce it.
#[derive(Clone, Copy, PartialEq, Eq, Structural, Debug)]
pub enum EvalError {
    DivisionByZero,
    ExponentOverflow,
    InternalArityMismatch,
}

/// The value of a binary operator applied to two operand pairs; division
/// is `bigdecimal`'s rounded quotient ([`dec_div`]).
pub open spec fn apply_op(op: Operator, l: DecVal, r: DecVal) -> DecVal {
    match op {
        Operator::Add => dec_add(l, r),
        Operator::Sub => dec_sub(l, r),
        Operator::Mul => dec_mul(l, r),
        Operator::Div => dec_div(l, r),
        Operator::Minus => dec_neg(r),
    }
}

/// The machine's state while running: the operand stack, or one of the
/// failures.
pub ghost enum RpnState {
    Going(Seq<DecVal>),
    DivByZero,
    Overflow,
    Mismatch,
}

/// One step of the stack machine. A binary operator demands two operands,
/// both within the supported scale range; division also demands a nonzero
/// right operand. The unary negation does no scale arithmetic and is
/// applied unconditionally.
pub open spec fn rpn_step(stack: Seq<DecVal>, item: RpnItemView) -> RpnState {
    match item {
        RpnItemView::Number(v) => RpnState::Going(stack.push(v)),
        RpnItemView::Operator(op) => {
            if op is Minus {
                if stack.len() >= 1 {
                    RpnState::Going(stack.drop_last().push(dec_neg(stack.last())))
                } else {
                    RpnState::Mismatch
                }
            } else {
                if stack.len() >= 2 {
                    let l = stack[stack.len() - 2];
                    let r = stack.last();
                    if !dec_fits(l) || !dec_fits(r) {
                        RpnState::Overflow
                    } else if op is Div && dec_is_zero(r) {
                        RpnState::DivByZero
                    } else {
                        RpnState::Going(stack.drop_last().drop_last().push(apply_op(op, l, r)))
                    }
                } else {
                    RpnState::Mismatch
                }
            }
        },
    }
}

/// Run the machine over `items`, starting from `stack`.
pub open spec fn rpn_run(items: Seq<RpnItemView>, stack: Seq<DecVal>) -> RpnState
    decreases items.len(),
{
    if items.len() == 0 {
        RpnState::Going(stack)
    } else {
        match rpn_step(stack, items[0]) {
            RpnState::Going(stack2) => rpn_run(items.drop_first(), stack2),
            RpnState::DivByZero => RpnState::DivByZero,
            RpnState::Overflow => RpnState::Overflow,
            RpnState::Mismatch => RpnState::Mismatch,
        }
    }
}

/// Outcome of evaluating a whole postfix sequence.
pub ghost enum RpnOutcome {
    Value(DecVal),
    DivideByZero,
    Overflow,
    Arity,
}

/// Evaluate a whole postfix sequence: run the machine on an empty stack;
/// exactly one remaining value is the result.
pub open spec fn rpn_result(items: Seq<RpnItemView>) -> RpnOutcome {
    match rpn_run(items, Seq::empty()) {
        RpnState::Going(stack) => {
            if stack.len() == 1 {
                RpnOutcome::Value(stack[0])
            } else {
                RpnOutcome::Arity
            }
        },
        RpnState::DivByZero => RpnOutcome::DivideByZero,
        RpnState::Overflow => RpnOutcome::Overflow,
        RpnState::Mismatch => RpnOutcome::Arity,
    }
}

pub open spec fn stack_views(s: Seq<BigDecimal>) -> Seq<DecVal> {
    s.map_values(|d: BigDecimal| bd_model(d))
}

/// Reduce the postfix sequence `exp` to a single decimal value, or report a
/// division by zero, an exponent out of range, or a malformed sequence.
/// Returns exactly what [`rpn_result`] prescribes for the sequence's stored
/// pairs.
pub fn calculate(exp: &Vec<RPNItem>) -> (r: Result<BigDecimal, EvalError>)
    ensures
        ({
            match rpn_result(rpn_views(exp@)) {
                RpnOutcome::Value(v) => r matches Ok(d) && bd_model(d) == v,
                RpnOutcome::DivideByZero => r == Err::<BigDecimal, EvalError>(
                    EvalError::DivisionByZero,
                ),
                RpnOutcome::Overflow => r == Err::<BigDecimal, EvalError>(
                    EvalError::ExponentOverflow,
                ),
                RpnOutcome::Arity => r == Err::<BigDecimal, EvalError>(
                    EvalError::InternalArityMismatch,
                ),
            }
        }),
{
    let ghost items = rpn_views(exp@);
    let mut stack: Vec<BigDecimal> = Vec::new();
    let n = exp.len();
    let mut i: usize = 0;
    proof {
        assert(items.skip(0) =~= items);
        assert(stack_views(stack@) =~= Seq::<DecVal>::empty());
    }
    while i < n
        invariant
            n == exp@.len(),
            i <= n,
            items == rpn_views(exp@),
            rpn_run(items, Seq::empty()) == rpn_run(
                items.skip(i as int),
                stack_views(stack@),
            ),
        decreases n - i,
    {
        let ghost svec0 = stack@;
        let ghost sv0 = stack_views(svec0);
        proof {
            assert(items.skip(i as int)[0] == items[i as int]);
            assert(items.skip(i as int).drop_first() =~= items.skip(i + 1));
            assert(items[i as int] == exp@[i as int]@);
        }
        match &exp[i] {
            RPNItem::Number(d) => {
                let dc = d.clone();
                let ghost dv = bd_model(dc);
                stack.push(dc);
                proof {
                    assert(stack_views(stack@) =~= sv0.push(dv));
                    assert(items[i as int] == RpnItemView::Number(dv));
                }
            },
            RPNItem::Operator(op) => {
                match op {
                    Operator::Minus => {
                        let top = stack.pop();
                        match top {
                            Some(v) => {
                                proof {
                                    assert(svec0 =~= stack@.push(v));
                                    assert(sv0 =~= stack_views(stack@).push(bd_model(v)));
                                    assert(sv0.last() == bd_model(v));
                                    assert(sv0.drop_last() =~= stack_views(stack@));
                                }
                                let ghost svp = stack_views(stack@);
                                let nv = bd_neg(&v);
                                stack.push(nv);
                                proof {
                                    assert(stack_views(stack@) =~= svp.push(
                                        dec_neg(sv0.last()),
                                    ));
                                }
                            },
                            None => {
                                proof {
                                    assert(sv0.len() == 0);
                                }
                                return Err(EvalError::InternalArityMismatch);
                            },
                        }
                    },
                    _ => {
                        let right = stack.pop();
                        let left = stack.pop();
                        match (left, right) {
                            (Some(l), Some(rv)) => {
                                proof {
                                    assert(svec0 =~= stack@.push(l).push(rv));
                                    assert(sv0 =~= stack_views(stack@).push(bd_model(l)).push(
                                        bd_model(rv),
                                    ));
                                    assert(sv0.last() == bd_model(rv));
                                    assert(sv0[sv0.len() - 2] == bd_model(l));
                                    assert(sv0.drop_last().drop_last() =~= stack_views(stack@));
                                }
                                let ls = bd_scale(&l);
                                let rs = bd_scale(&rv);
                                if ls < -SCALE_LIMIT || ls > SCALE_LIMIT || rs < -SCALE_LIMIT
                                    || rs > SCALE_LIMIT {
                                    proof {
                                        assert(!dec_fits(sv0[sv0.len() - 2]) || !dec_fits(
                                            sv0.last(),
                                        ));
                                    }
                                    return Err(EvalError::ExponentOverflow);
                                }
                                let ghost svp = stack_views(stack@);
                                let result = match op {
                                    Operator::Add => bd_add(&l, &rv),
                                    Operator::Sub => bd_sub(&l, &rv),
                                    Operator::Mul => bd_mul(&l, &rv),
                                    Operator::Div => {
                                        if bd_is_zero(&rv) {
                                            return Err(EvalError::DivisionByZero);
                                        }
                                        bd_div(&l, &rv)
                                    },
                                    // the outer match sent Minus elsewhere
                                    Operator::Minus => vstd::pervasive::unreached(),
                                };
                                stack.push(result);
                                proof {
                                    assert(stack_views(stack@) =~= svp.push(
                                        apply_op(*op, sv0[sv0.len() - 2], sv0.last()),
                                    ));
                                }
                            },
                            _ => {
                                proof {
                                    assert(sv0.len() <= 1);
                                }
                                return Err(EvalError::InternalArityMismatch);
                            },
                        }
                    },
                }
            },
        }
        proof {
            assert(rpn_step(sv0, items[i as int]) == RpnState::Going(stack_views(stack@)));
            assert(rpn_run(items.skip(i as int), sv0) == rpn_run(
                items.skip(i + 1),
                stack_views(stack@),
            ));
        }
        i = i + 1;
    }
    proof {
        assert(items.skip(n as int) =~= Seq::<RpnItemView>::empty());
    }
    if stack.len() == 1 {
        let top = stack.pop();
        match top {
            Some(v) => Ok(v),
            None => Err(EvalError::InternalArityMismatch),
        }
    } else {
        Err(EvalError::InternalArityMismatch)
    }
}

// ---------------------------------------------------------------------------
// Evaluation of expression trees, and the law tying the three stages
// together.
// ---------------------------------------------------------------------------

/// Outcome of evaluating an expression tree directly.
pub ghost enum TreeResult {
    Value(DecVal),
    DivideByZero,
    Overflow,
}

/// The direct evaluation of an expression tree, mirroring the stack
/// machine's demands: operands are evaluated left to right, a binary
/// operation requires both operand scales within the supported range, and
/// division requires a nonzero right operand.
pub open spec fn tree_val(e: Expr) -> TreeResult
    decreases e,
{
    match e {
        Expr::Num(v) => TreeResult::Value(v),
        Expr::Neg(inner) => match tree_val(*inner) {
            TreeResult::Value(v) => TreeResult::Value(dec_neg(v)),
            f => f,
        },
        Expr::Bin(op, l, r) => match tree_val(*l) {
            TreeResult::Value(a) => match tree_val(*r) {
                TreeResult::Value(b) => {
                    if !dec_fits(a) || !dec_fits(b) {
                        TreeResult::Overflow
                    } else if op is Div && dec_is_zero(b) {
                        TreeResult::DivideByZero
                    } else {
                        TreeResult::Value(apply_op(bin_rpn(op), a, b))
                    }
                },
                f => f,
            },
            f => f,
        },
    }
}

/// Running the machine over a concatenation runs it over each part in turn.
proof fn lemma_rpn_run_append(xs: Seq<RpnItemView>, ys: Seq<RpnItemView>, stack: Seq<DecVal>)
    ensures
        rpn_run(xs + ys, stack) == (match rpn_run(xs, stack) {
            RpnState::Going(s2) => rpn_run(ys, s2),
            RpnState::DivByZero => RpnState::DivByZero,
            RpnState::Overflow => RpnState::Overflow,
            RpnState::Mismatch => RpnState::Mismatch,
        }),
    decreases xs.len(),
{
    if xs.len() == 0 {
        assert(xs + ys =~= ys);
    } else {
        assert((xs + ys)[0] == xs[0]);
        assert((xs + ys).drop_first() =~= xs.drop_first() + ys);
        match rpn_step(stack, xs[0]) {
            RpnState::Going(s2) => {
                lemma_rpn_run_append(xs.drop_first(), ys, s2);
            },
            RpnState::DivByZero => {},
            RpnState::Overflow => {},
            RpnState::Mismatch => {},
        }
    }
}

/// Postfix translation is evaluation-preserving: running the stack machine
/// over the postfix form of a tree, from any starting stack, pushes exactly
/// the value of evaluating the tree directly, or stops with the very
/// failure (division by zero, exponent out of range) the tree runs into.
pub proof fn lemma_postfix_eval(e: Expr, stack: Seq<DecVal>)
    ensures
        rpn_run(postfix_of(e), stack) == (match tree_val(e) {
            TreeResult::Value(v) => RpnState::Going(stack.push(v)),
            TreeResult::DivideByZero => RpnState::DivByZero,
            TreeResult::Overflow => RpnState::Overflow,
        }),
    decreases e,
{
    reveal_with_fuel(rpn_run, 3);
    match e {
        Expr::Num(v) => {
            let s2 = stack.push(v);
            assert(postfix_of(e) =~= seq![RpnItemView::Number(v)]);
            assert(postfix_of(e)[0] == RpnItemView::Number(v));
            assert(rpn_step(stack, RpnItemView::Number(v)) == RpnState::Going(s2));
            assert(postfix_of(e).drop_first() =~= Seq::<RpnItemView>::empty());
            assert(rpn_run(postfix_of(e).drop_first(), s2) == RpnState::Going(s2));
            assert(rpn_run(postfix_of(e), stack) == RpnState::Going(s2));
            assert(tree_val(e) == TreeResult::Value(v));
        },
        Expr::Neg(inner) => {
            lemma_postfix_eval(*inner, stack);
            lemma_rpn_run_append(
                postfix_of(*inner),
                seq![RpnItemView::Operator(Operator::Minus)],
                stack,
            );
            match tree_val(*inner) {
                TreeResult::Value(v) => {
                    let s2 = stack.push(v);
                    assert(s2.drop_last() =~= stack);
                    assert(seq![RpnItemView::Operator(Operator::Minus)].drop_first()
                        =~= Seq::<RpnItemView>::empty());
                    assert(rpn_step(s2, RpnItemView::Operator(Operator::Minus))
                        == RpnState::Going(stack.push(dec_neg(v))));
                    assert(rpn_run(seq![RpnItemView::Operator(Operator::Minus)], s2)
                        == RpnState::Going(stack.push(dec_neg(v))));
                    assert(rpn_run(postfix_of(e), stack) == RpnState::Going(
                        stack.push(dec_neg(v)),
                    ));
                    assert(tree_val(e) == TreeResult::Value(dec_neg(v)));
                },
                TreeResult::DivideByZero => {},
                TreeResult::Overflow => {},
            }
        },
        Expr::Bin(op, l, r) => {
            let tail = postfix_of(*r) + seq![RpnItemView::Operator(bin_rpn(op))];
            assert(postfix_of(e) =~= postfix_of(*l) + tail);
            lemma_postfix_eval(*l, stack);
            lemma_rpn_run_append(postfix_of(*l), tail, stack);
            match tree_val(*l) {
                TreeResult::Value(a) => {
                    lemma_postfix_eval(*r, stack.push(a));
                    lemma_rpn_run_append(
                        postfix_of(*r),
                        seq![RpnItemView::Operator(bin_rpn(op))],
                        stack.push(a),
                    );
                    match tree_val(*r) {
                        TreeResult::Value(b) => {
                            let s2 = stack.push(a).push(b);
                            let opv = bin_rpn(op);
                            assert(s2.last() == b);
                            assert(s2[s2.len() - 2] == a);
                            assert(s2.drop_last().drop_last() =~= stack);
                            assert(seq![RpnItemView::Operator(opv)].drop_first()
                                =~= Seq::<RpnItemView>::empty());
                            if !dec_fits(a) || !dec_fits(b) {
                                assert(rpn_step(s2, RpnItemView::Operator(opv))
                                    == RpnState::Overflow);
                                assert(rpn_run(postfix_of(e), stack) == RpnState::Overflow);
                                assert(tree_val(e) is Overflow);
                            } else if opv is Div && dec_is_zero(b) {
                                assert(rpn_step(s2, RpnItemView::Operator(opv))
                                    == RpnState::DivByZero);
                                assert(rpn_run(postfix_of(e), stack) == RpnState::DivByZero);
                                assert(tree_val(e) is DivideByZero);
                            } else {
                                assert(rpn_step(s2, RpnItemView::Operator(opv))
                                    == RpnState::Going(stack.push(apply_op(opv, a, b))));
                                assert(rpn_run(seq![RpnItemView::Operator(opv)], s2)
                                    == RpnState::Going(stack.push(apply_op(opv, a, b))));
                                assert(rpn_run(postfix_of(e), stack) == RpnState::Going(
                                    stack.push(apply_op(opv, a, b)),
                                ));
                                assert(tree_val(e) == TreeResult::Value(apply_op(opv, a, b)));
                            }
                        },
                        TreeResult::DivideByZero => {},
                        TreeResult::Overflow => {},
                    }
                },
                TreeResult::DivideByZero => {},
                TreeResult::Overflow => {},
            }
        },
    }
}

/// Evaluating a tree's postfix form from an empty stack gives exactly the
/// tree's own outcome: its value where it has one, and the very failure
/// where it does not.
pub proof fn lemma_tree_rpn_agree(e: Expr)
    ensures
        rpn_result(postfix_of(e)) == (match tree_val(e) {
            TreeResult::Value(v) => RpnOutcome::Value(v),
            TreeResult::DivideByZero => RpnOutcome::DivideByZero,
            TreeResult::Overflow => RpnOutcome::Overflow,
        }),
{
    lemma_postfix_eval(e, Seq::empty());
    match tree_val(e) {
        TreeResult::Value(v) => {
            assert(Seq::<DecVal>::empty().push(v).len() == 1);
        },
        TreeResult::DivideByZero => {},
        TreeResult::Overflow => {},
    }
}

} // verus!
