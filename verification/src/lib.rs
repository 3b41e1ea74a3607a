//! An interactive-calculator core: exact decimal arithmetic over free-form
//! text expressions with the four binary operators, a leading unary minus and
//! parentheses.
//!
//! The pipeline runs strictly left to right: [`token`] scans text into
//! positioned tokens, [`sentence`] parses them by recursive descent over the
//! [`token_render`] cursor into a postfix (reverse-Polish) sequence, and
//! [`calculate`] reduces that sequence to a single decimal value or a
//! structured error. [`pipeline`] puts the whole chain behind one entry
//! point, and [`number`] holds the decimal value model and the trusted
//! boundary around `bigdecimal`.
//!
//! Each stage carries its exact specification: the lexer returns precisely
//! `token::spec_tokens` of the input (with strictly increasing token
//! positions), the parser emits the postfix form of the tree given by
//! `sentence::sp_parse`, and the evaluator returns what
//! `calculate::rpn_result` prescribes. `calculate::lemma_postfix_eval` proves
//! the postfix translation evaluation-preserving, and
//! `token::lemma_retokenize_token` proves that re-tokenizing any emitted
//! token's text reproduces an equivalent token.
//!
//! The one machine limit is the decimal scale, a 64-bit integer inside
//! `bigdecimal`: the lexer rejects literals beyond `number::SCALE_LIMIT`,
//! and the evaluator reports an operand beyond it instead of computing
//! with it, so no verified function can run the representation out of its
//! range.

pub mod calculate;
pub mod number;
pub mod pipeline;
pub mod sentence;
pub mod token;
pub mod token_render;
