//! The whole pipeline behind one entry point: text in, either a postfix
//! rendering with the computed value, or one structured diagnostic saying
//! which stage failed, why, and where.

use vstd::prelude::*;

use bigdecimal::BigDecimal;

use vstd::string::StrSliceExecFns;
use vstd::string::StringExecFns;

use crate::calculate::{calculate, lemma_tree_rpn_agree, tree_val, EvalError, TreeResult};
use crate::number::{bd_model, bd_render, dec_plain_str};
use crate::sentence::{
    items_nums_fit, lemma_parse_fits, lemma_postfix_nums_fit, parse_sentence, postfix_of,
    redundant_reason, rpn_views, sp_parse, syn_reason, Operator, ParseErr, ParseErrType,
    ParseOutcome, RPNItem, RpnItemView, SynErr,
};
use crate::token::{
    lex_reason, spec_tokens, token_sound, token_views, tokenization, LexResult,
};
use crate::token_render::TokenRender;

verus! {

/// The pipeline stage a diagnostic comes from.
#[derive(Clone, Copy, PartialEq, Eq, Structural, Debug)]
pub enum Stage {
    Lexical,
    Syntactic,
    Semantic,
}

/// A structured diagnostic: the failing stage, a human-readable message,
/// and, where one exists, the offset and the offending substring of the
/// original input.
#[derive(Debug)]
pub struct Diagnostic {
    pub stage: Stage,
    pub message: String,
    pub position: Option<usize>,
    pub span_text: Option<String>,
}

/// The canonical text of one postfix item: a number's plain digits, or the
/// operator's one character (`@` for the unary negation).
pub open spec fn item_str(it: RpnItemView) -> Seq<char> {
    match it {
        RpnItemView::Number(v) => dec_plain_str(v),
        RpnItemView::Operator(op) => match op {
            Operator::Add => seq!['+'],
            Operator::Sub => seq!['-'],
            Operator::Mul => seq!['*'],
            Operator::Div => seq!['/'],
            Operator::Minus => seq!['@'],
        },
    }
}

/// The items' texts in order, each followed by one space.
pub open spec fn items_str(items: Seq<RpnItemView>) -> Seq<char>
    decreases items.len(),
{
    if items.len() == 0 {
        Seq::empty()
    } else {
        item_str(items[0]) + seq![' '] + items_str(items.drop_first())
    }
}

/// The canonical rendering of a postfix sequence: `[ item item ... ]`.
pub open spec fn rpn_string(items: Seq<RpnItemView>) -> Seq<char> {
    seq!['[', ' '] + items_str(items) + seq![']']
}

/// Render a postfix sequence as its canonical bracketed text. The numbers
/// must lie within the supported scale range ([`items_nums_fit`]); every
/// sequence the parser emits from lexed tokens does.
pub fn render_rpn(items: &Vec<RPNItem>) -> (r: String)
    requires
        items_nums_fit(rpn_views(items@)),
    ensures
        r@ == rpn_string(rpn_views(items@)),
{
    let ghost views = rpn_views(items@);
    let mut s = "[ ".to_owned();
    proof {
        reveal_strlit("[ ");
        assert(s@ =~= seq!['[', ' ']);
        assert(views.skip(0) =~= views);
    }
    let n = items.len();
    let mut i: usize = 0;
    while i < n
        invariant
            n == items@.len(),
            i <= n,
            views == rpn_views(items@),
            items_nums_fit(views),
            seq!['[', ' '] + items_str(views) == s@ + items_str(views.skip(i as int)),
        decreases n - i,
    {
        proof {
            assert(views.skip(i as int)[0] == views[i as int]);
            assert(views.skip(i as int).drop_first() =~= views.skip(i + 1));
            assert(views[i as int] == items@[i as int]@);
        }
        match &items[i] {
            RPNItem::Number(d) => {
                proof {
                    assert(views[i as int] is Number);
                    assert(views[i as int]->Number_0 == bd_model(*d));
                }
                let text = bd_render(d);
                s.append(text.as_str());
            },
            RPNItem::Operator(op) => {
                match op {
                    Operator::Add => {
                        s.append("+");
                        proof {
                            reveal_strlit("+");
                            assert("+"@ =~= seq!['+']);
                        }
                    },
                    Operator::Sub => {
                        s.append("-");
                        proof {
                            reveal_strlit("-");
                            assert("-"@ =~= seq!['-']);
                        }
                    },
                    Operator::Mul => {
                        s.append("*");
                        proof {
                            reveal_strlit("*");
                            assert("*"@ =~= seq!['*']);
                        }
                    },
                    Operator::Div => {
                        s.append("/");
                        proof {
                            reveal_strlit("/");
                            assert("/"@ =~= seq!['/']);
                        }
                    },
                    Operator::Minus => {
                        s.append("@");
                        proof {
                            reveal_strlit("@");
                            assert("@"@ =~= seq!['@']);
                        }
                    },
                }
            },
        }
        s.append(" ");
        proof {
            reveal_strlit(" ");
            assert(" "@ =~= seq![' ']);
            assert(seq!['[', ' '] + items_str(views) =~= s@ + items_str(views.skip(i + 1)));
        }
        i = i + 1;
    }
    proof {
        assert(items_str(views.skip(n as int)) =~= Seq::<char>::empty());
        assert(seq!['[', ' '] + items_str(views) =~= s@);
    }
    s.append("]");
    proof {
        reveal_strlit("]");
        assert("]"@ =~= seq![']']);
        assert(s@ =~= rpn_string(views));
    }
    s
}

/// Run the full pipeline on one input: scan, parse, render the postfix
/// sequence, and evaluate it.
///
/// On success the pair holds the canonical postfix rendering and the exact
/// value of the parsed expression tree, as [`spec_tokens`], [`sp_parse`] and
/// [`tree_val`] prescribe; otherwise the one structured diagnostic names the
/// stage, carries the specified message, and carries the specified offset
/// and offending substring where the failure has them.
pub fn parse_and_evaluate(input: &str) -> (r: Result<(String, BigDecimal), Diagnostic>)
    ensures
        ({
            match spec_tokens(input@) {
                LexResult::Error { position, text } => {
                    &&& r is Err
                    &&& r->Err_0.stage == Stage::Lexical
                    &&& r->Err_0.message@ == lex_reason(text)
                    &&& r->Err_0.position is Some
                    &&& r->Err_0.position->0 == position
                    &&& r->Err_0.span_text is Some
                    &&& r->Err_0.span_text->0@ == text
                },
                LexResult::Tokens(tv) => match sp_parse(tv, 0) {
                    ParseOutcome::Parsed(e) => match tree_val(e) {
                        TreeResult::Value(v) => {
                            &&& r is Ok
                            &&& r->Ok_0.0@ == rpn_string(postfix_of(e))
                            &&& bd_model(r->Ok_0.1) == v
                        },
                        TreeResult::DivideByZero => {
                            &&& r is Err
                            &&& r->Err_0.stage == Stage::Semantic
                            &&& r->Err_0.message@ == "division by zero"@
                            &&& r->Err_0.position is None
                            &&& r->Err_0.span_text is None
                        },
                        TreeResult::Overflow => {
                            &&& r is Err
                            &&& r->Err_0.stage == Stage::Semantic
                            &&& r->Err_0.message@
                                == "the calculation exceeded the supported decimal exponent range"@
                            &&& r->Err_0.position is None
                            &&& r->Err_0.span_text is None
                        },
                    },
                    ParseOutcome::Unexpected { at, expecting } => {
                        &&& r is Err
                        &&& r->Err_0.stage == Stage::Syntactic
                        &&& r->Err_0.message@ == syn_reason(SynErr::Unexpected { at, expecting })
                        &&& r->Err_0.position is Some
                        &&& r->Err_0.position->0 == tv[at].pos
                        &&& r->Err_0.span_text is Some
                        &&& r->Err_0.span_text->0@ == tv[at].text
                    },
                    ParseOutcome::Insufficient { expecting } => {
                        &&& r is Err
                        &&& r->Err_0.stage == Stage::Syntactic
                        &&& r->Err_0.message@ == syn_reason(SynErr::Insufficient { expecting })
                        &&& r->Err_0.position is None
                        &&& r->Err_0.span_text is None
                    },
                    ParseOutcome::Redundant { at } => {
                        &&& r is Err
                        &&& r->Err_0.stage == Stage::Syntactic
                        &&& r->Err_0.message@ == redundant_reason()
                        &&& r->Err_0.position is Some
                        &&& r->Err_0.position->0 == tv[at].pos
                        &&& r->Err_0.span_text is None
                    },
                },
            }
        }),
{
    let tokens = match tokenization(input) {
        Ok(t) => t,
        Err(e) => {
            return Err(
                Diagnostic {
                    stage: Stage::Lexical,
                    message: e.reason,
                    position: Some(e.position),
                    span_text: Some(e.original_str),
                },
            );
        },
    };
    let mut render = TokenRender::new_with_tokens(tokens);
    let rpn = match parse_sentence(&mut render) {
        Ok(v) => v,
        Err(pe) => {
            let ParseErr { reason, err_type } = pe;
            return Err(
                match err_type {
                    ParseErrType::Unexpected(tok) => Diagnostic {
                        stage: Stage::Syntactic,
                        message: reason,
                        position: Some(tok.position),
                        span_text: Some(tok.original_str),
                    },
                    ParseErrType::Insufficient => Diagnostic {
                        stage: Stage::Syntactic,
                        message: reason,
                        position: None,
                        span_text: None,
                    },
                    ParseErrType::Redundant(p) => Diagnostic {
                        stage: Stage::Syntactic,
                        message: reason,
                        position: Some(p),
                        span_text: None,
                    },
                },
            );
        },
    };
    proof {
        let tv = token_views(tokens@);
        assert forall|j: int|
            0 <= j < tv.len() && (#[trigger] tv[j]).info is Number implies crate::number::dec_fits(
            tv[j].info->Number_0,
        ) by {
            assert(tv[j] == tokens@[j]@);
            assert(token_sound(input@, tokens@[j]@));
        }
        lemma_parse_fits(tv, 0);
        let e = sp_parse(tv, 0)->Parsed_0;
        lemma_postfix_nums_fit(e);
        lemma_tree_rpn_agree(e);
    }
    let rendering = render_rpn(&rpn);
    match calculate(&rpn) {
        Ok(v) => Ok((rendering, v)),
        Err(EvalError::DivisionByZero) => Err(
            Diagnostic {
                stage: Stage::Semantic,
                message: "division by zero".to_owned(),
                position: None,
                span_text: None,
            },
        ),
        Err(EvalError::ExponentOverflow) => Err(
            Diagnostic {
                stage: Stage::Semantic,
                message: "the calculation exceeded the supported decimal exponent range".to_owned(),
                position: None,
                span_text: None,
            },
        ),
        Err(EvalError::InternalArityMismatch) => Err(
            Diagnostic {
                stage: Stage::Semantic,
                message: "internal error: the postfix sequence is malformed".to_owned(),
                position: None,
                span_text: None,
            },
        ),
    }
}

} // verus!
