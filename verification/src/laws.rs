use vstd::prelude::*;
use crate::ast::{AstV, Op};
use crate::error::ErrV;
use crate::float_bits::float_eq;
use crate::interpreter::{spec_eval, InterpV};
use crate::lexer::{
    is_ident_char, is_ident_start, spec_next_token, spec_scan_ident_end, spec_skip_ws,
    spec_tokenize, spec_tokenize_from, LexStep,
};
use crate::token::{spec_token_of_word, TokenV};
use crate::type_system::{spec_check_binop, TypeV};
use crate::value::ValueV;

verus! {

/// Evaluation is total: with any step budget it yields either a value or
/// exactly one error, and every error is of one of the six reported
/// kinds.
pub proof fn lemma_eval_total(st: InterpV, cur: int, node: AstV, fuel: nat)
    ensures
        spec_eval(st, cur, node, fuel).0 is Ok || (spec_eval(st, cur, node, fuel).0 matches Err(e)
            && (e is IO || e is Parser || e is Type || e is Runtime || e is Network
            || e is Package)),
{
    match spec_eval(st, cur, node, fuel).0 {
        Ok(_) => {},
        Err(e) => {},
    }
}

/// A literal node evaluates to the literal's value, whatever the state.
pub proof fn lemma_eval_literal(st: InterpV, cur: int, fuel: nat)
    requires
        fuel > 0,
    ensures
        forall|b: u64|
            spec_eval(st, cur, AstV::Num { value: b }, fuel).0 == Ok::<ValueV, ErrV>(
                ValueV::Float(b),
            ),
        forall|s: Seq<char>|
            spec_eval(st, cur, AstV::Str { value: s }, fuel).0 == Ok::<ValueV, ErrV>(
                ValueV::String(s),
            ),
        forall|b: bool|
            spec_eval(st, cur, AstV::Bool { value: b }, fuel).0 == Ok::<ValueV, ErrV>(
                ValueV::Bool(b),
            ),
{
}

/// A primitive literal compared with itself under `==` evaluates to true.
/// A numeric literal is covered exactly when its bit pattern equals
/// itself under IEEE-754 equality, which excludes only NaN patterns.
pub proof fn lemma_eq_self(st: InterpV, cur: int, fuel: nat)
    requires
        fuel >= 2,
    ensures
        forall|s: Seq<char>|
            spec_eval(
                st,
                cur,
                AstV::BinOp {
                    left: Box::new(AstV::Str { value: s }),
                    op: Op::Eq,
                    right: Box::new(AstV::Str { value: s }),
                },
                fuel,
            ).0 == Ok::<ValueV, ErrV>(ValueV::Bool(true)),
        forall|b: bool|
            spec_eval(
                st,
                cur,
                AstV::BinOp {
                    left: Box::new(AstV::Bool { value: b }),
                    op: Op::Eq,
                    right: Box::new(AstV::Bool { value: b }),
                },
                fuel,
            ).0 == Ok::<ValueV, ErrV>(ValueV::Bool(true)),
        forall|b: u64|
            float_eq(b, b) ==> spec_eval(
                st,
                cur,
                AstV::BinOp {
                    left: Box::new(AstV::Num { value: b }),
                    op: Op::Eq,
                    right: Box::new(AstV::Num { value: b }),
                },
                fuel,
            ).0 == Ok::<ValueV, ErrV>(ValueV::Bool(true)),
{
    assert forall|s: Seq<char>|
        spec_eval(
            st,
            cur,
            AstV::BinOp {
                left: Box::new(AstV::Str { value: s }),
                op: Op::Eq,
                right: Box::new(AstV::Str { value: s }),
            },
            fuel,
        ).0 == Ok::<ValueV, ErrV>(ValueV::Bool(true)) by {
        let inner = AstV::Str { value: s };
        let (rl, f1) = spec_eval(st, cur, inner, (fuel - 1) as nat);
        assert(rl == Ok::<ValueV, ErrV>(ValueV::String(s)) && f1 == st.frames);
        let st1 = InterpV { frames: f1, ..st };
        assert(st1 =~= st);
        assert(spec_eval(st1, cur, inner, (fuel - 1) as nat).0 == Ok::<ValueV, ErrV>(
            ValueV::String(s),
        ));
    }
    assert forall|b: bool|
        spec_eval(
            st,
            cur,
            AstV::BinOp {
                left: Box::new(AstV::Bool { value: b }),
                op: Op::Eq,
                right: Box::new(AstV::Bool { value: b }),
            },
            fuel,
        ).0 == Ok::<ValueV, ErrV>(ValueV::Bool(true)) by {
        let inner = AstV::Bool { value: b };
        let (rl, f1) = spec_eval(st, cur, inner, (fuel - 1) as nat);
        assert(rl == Ok::<ValueV, ErrV>(ValueV::Bool(b)) && f1 == st.frames);
        let st1 = InterpV { frames: f1, ..st };
        assert(st1 =~= st);
        assert(spec_eval(st1, cur, inner, (fuel - 1) as nat).0 == Ok::<ValueV, ErrV>(
            ValueV::Bool(b),
        ));
    }
    assert forall|b: u64|
        float_eq(b, b) ==> spec_eval(
            st,
            cur,
            AstV::BinOp {
                left: Box::new(AstV::Num { value: b }),
                op: Op::Eq,
                right: Box::new(AstV::Num { value: b }),
            },
            fuel,
        ).0 == Ok::<ValueV, ErrV>(ValueV::Bool(true)) by {
        let inner = AstV::Num { value: b };
        let (rl, f1) = spec_eval(st, cur, inner, (fuel - 1) as nat);
        assert(rl == Ok::<ValueV, ErrV>(ValueV::Float(b)) && f1 == st.frames);
        let st1 = InterpV { frames: f1, ..st };
        assert(st1 =~= st);
        assert(spec_eval(st1, cur, inner, (fuel - 1) as nat).0 == Ok::<ValueV, ErrV>(
            ValueV::Float(b),
        ));
    }
}

/// For both numeric types the checker accepts `+`, `-` and `*` within the
/// type, and `/` produces `Float` in both cases.
pub proof fn lemma_numeric_arithmetic()
    ensures
        spec_check_binop(TypeV::Int, Op::Add, TypeV::Int) == Ok::<TypeV, ErrV>(TypeV::Int),
        spec_check_binop(TypeV::Float, Op::Add, TypeV::Float) == Ok::<TypeV, ErrV>(TypeV::Float),
        spec_check_binop(TypeV::Int, Op::Sub, TypeV::Int) == Ok::<TypeV, ErrV>(TypeV::Int),
        spec_check_binop(TypeV::Float, Op::Sub, TypeV::Float) == Ok::<TypeV, ErrV>(TypeV::Float),
        spec_check_binop(TypeV::Int, Op::Mul, TypeV::Int) == Ok::<TypeV, ErrV>(TypeV::Int),
        spec_check_binop(TypeV::Float, Op::Mul, TypeV::Float) == Ok::<TypeV, ErrV>(TypeV::Float),
        spec_check_binop(TypeV::Int, Op::Div, TypeV::Int) == Ok::<TypeV, ErrV>(TypeV::Float),
        spec_check_binop(TypeV::Float, Op::Div, TypeV::Float) == Ok::<TypeV, ErrV>(TypeV::Float),
{
}

/// Numeric comparison always yields `Bool`, and equality accepts any two
/// operand types.
pub proof fn lemma_comparison_and_equality(l: TypeV, r: TypeV, op: Op)
    ensures
        (l == TypeV::Int || l == TypeV::Float) && (r == TypeV::Int || r == TypeV::Float) && (op
            == Op::Lt || op == Op::Gt || op == Op::LtEq || op == Op::GtEq) ==> spec_check_binop(
            l,
            op,
            r,
        ) == Ok::<TypeV, ErrV>(TypeV::Bool),
        (op == Op::Eq || op == Op::NotEq) ==> spec_check_binop(l, op, r) == Ok::<TypeV, ErrV>(
            TypeV::Bool,
        ),
{
}

/// Re-lexing the rendered text of one bare word yields exactly that
/// word's token: the word-shaped fragment of the lexer round trip.
pub proof fn lemma_word_round_trip(w: Seq<char>)
    requires
        w.len() > 0,
        is_ident_start(w[0]),
        forall|i: int| 0 <= i < w.len() ==> is_ident_char(#[trigger] w[i]),
    ensures
        spec_tokenize(w) == Ok::<Seq<TokenV>, ErrV>(seq![spec_token_of_word(w), TokenV::EOF]),
{
    assert(spec_skip_ws(w, 0) == 0);
    lemma_scan_ident_full(w, 0);
    assert(w.subrange(0, w.len() as int) =~= w);
    assert(spec_next_token(w, 0) == LexStep::Tok(spec_token_of_word(w), w.len() as int));
    assert(spec_skip_ws(w, w.len() as int) == w.len());
    assert(spec_next_token(w, w.len() as int) == LexStep::End);
    assert(spec_tokenize_from(w, w.len() as int) == Ok::<Seq<TokenV>, ErrV>(seq![TokenV::EOF]));
    assert(seq![spec_token_of_word(w)] + seq![TokenV::EOF] =~= seq![
        spec_token_of_word(w),
        TokenV::EOF,
    ]);
}

/// Scanning an identifier whose characters all continue identifiers runs
/// to the end of the input.
proof fn lemma_scan_ident_full(w: Seq<char>, pos: int)
    requires
        0 <= pos <= w.len(),
        forall|i: int| 0 <= i < w.len() ==> is_ident_char(#[trigger] w[i]),
    ensures
        spec_scan_ident_end(w, pos) == w.len(),
    decreases w.len() - pos,
{
    if pos < w.len() {
        lemma_scan_ident_full(w, pos + 1);
    }
}

} // verus!
