use vstd::prelude::*;
use vstd::string::StringExecFns;
use std::rc::Rc;
use crate::ast::{ASTNode, AstV, Op};
use crate::error::{BellronosError, ErrV};
use crate::strutil::str_eq;
use crate::token::{Token, TokenV};
use crate::type_system::{Type, TypeV};

verus! {

/// The token under the cursor; past the end, `EOF`.
pub open spec fn cur(ts: Seq<TokenV>, pos: int) -> TokenV {
    if 0 <= pos < ts.len() {
        ts[pos]
    } else {
        TokenV::EOF
    }
}

/// A successor position lies past its predecessor and within the input.
pub open spec fn stepped(pos: int, p2: int, len: int) -> bool {
    pos < p2 <= len
}

/// The name under which a token kind is reported in messages.
pub open spec fn spec_token_label(t: TokenV) -> Seq<char> {
    match t {
        TokenV::Import => "Import"@,
        TokenV::Define => "Define"@,
        TokenV::Class => "Class"@,
        TokenV::SetKw => "Set"@,
        TokenV::To => "To"@,
        TokenV::If => "If"@,
        TokenV::Else => "Else"@,
        TokenV::While => "While"@,
        TokenV::For => "For"@,
        TokenV::In => "In"@,
        TokenV::Return => "Return"@,
        TokenV::Async => "Async"@,
        TokenV::Await => "Await"@,
        TokenV::Yield => "Yield"@,
        TokenV::Closure => "Closure"@,
        TokenV::True => "True"@,
        TokenV::False => "False"@,
        TokenV::Identifier(_) => "Identifier"@,
        TokenV::String(_) => "String"@,
        TokenV::Number(_) => "Number"@,
        TokenV::LeftParen => "LeftParen"@,
        TokenV::RightParen => "RightParen"@,
        TokenV::LeftBrace => "LeftBrace"@,
        TokenV::RightBrace => "RightBrace"@,
        TokenV::LeftBracket => "LeftBracket"@,
        TokenV::RightBracket => "RightBracket"@,
        TokenV::Colon => "Colon"@,
        TokenV::Comma => "Comma"@,
        TokenV::Dot => "Dot"@,
        TokenV::Plus => "Plus"@,
        TokenV::Minus => "Minus"@,
        TokenV::Multiply => "Multiply"@,
        TokenV::Divide => "Divide"@,
        TokenV::Equals => "Equals"@,
        TokenV::NotEquals => "NotEquals"@,
        TokenV::LessThan => "LessThan"@,
        TokenV::GreaterThan => "GreaterThan"@,
        TokenV::LessThanOrEqual => "LessThanOrEqual"@,
        TokenV::GreaterThanOrEqual => "GreaterThanOrEqual"@,
        TokenV::Arrow => "Arrow"@,
        TokenV::Newline => "Newline"@,
        TokenV::EOF => "EOF"@,
    }
}

/// Message for a token that no parse rule expects here.
pub open spec fn msg_unexpected(t: TokenV) -> Seq<char> {
    "Unexpected token: "@ + spec_token_label(t)
}

/// Message for a missing expected token.
pub open spec fn msg_expected(e: TokenV, f: TokenV) -> Seq<char> {
    "Expected "@ + spec_token_label(e) + ", found "@ + spec_token_label(f)
}

/// Message for a missing identifier.
pub open spec fn msg_ident(f: TokenV) -> Seq<char> {
    "Expected identifier, found "@ + spec_token_label(f)
}

/// The binary operator a token denotes, if any.
pub open spec fn op_of_token(t: TokenV) -> Option<Op> {
    match t {
        TokenV::Plus => Some(Op::Add),
        TokenV::Minus => Some(Op::Sub),
        TokenV::Multiply => Some(Op::Mul),
        TokenV::Divide => Some(Op::Div),
        TokenV::Equals => Some(Op::Eq),
        TokenV::NotEquals => Some(Op::NotEq),
        TokenV::LessThan => Some(Op::Lt),
        TokenV::GreaterThan => Some(Op::Gt),
        TokenV::LessThanOrEqual => Some(Op::LtEq),
        TokenV::GreaterThanOrEqual => Some(Op::GtEq),
        _ => None,
    }
}

/// First position at or after `pos` that does not hold a newline token.
pub open spec fn sp_skip_nl(ts: Seq<TokenV>, pos: int) -> int
    decreases ts.len() - pos,
{
    if cur(ts, pos) == TokenV::Newline {
        sp_skip_nl(ts, pos + 1)
    } else {
        pos
    }
}

/// A newline closes each statement; the end of the stream may stand in
/// for a final newline.
pub open spec fn sp_expect_newline(ts: Seq<TokenV>, pos: int) -> (Result<(), Seq<char>>, int) {
    if cur(ts, pos) == TokenV::Newline {
        (Ok(()), pos + 1)
    } else if cur(ts, pos) == TokenV::EOF {
        (Ok(()), pos)
    } else {
        (Err(msg_expected(TokenV::Newline, cur(ts, pos))), pos)
    }
}

/// The sentinel result for a spec branch that no run reaches: a sub-parse
/// reported success without consuming input.
pub open spec fn stalled<T>(pos: int) -> (Result<T, Seq<char>>, int) {
    (Err("parser made no progress"@), pos)
}

/// The comma-separated identifiers an import statement names.
pub open spec fn sp_import_names(ts: Seq<TokenV>, pos: int, acc: Seq<Seq<char>>) -> (Seq<
    Seq<char>,
>, int)
    decreases ts.len() - pos,
{
    match cur(ts, pos) {
        TokenV::Identifier(nm) => if cur(ts, pos + 1) == TokenV::Comma {
            sp_import_names(ts, pos + 2, acc.push(nm))
        } else {
            (acc.push(nm), pos + 1)
        },
        _ => (acc, pos),
    }
}

/// A type annotation: a primitive name, `list [ t ]`, `dict { k : v }`,
/// or a custom name.
pub open spec fn sp_type(ts: Seq<TokenV>, pos: int) -> (Result<TypeV, Seq<char>>, int)
    decreases ts.len() - pos, 5int,
{
    match cur(ts, pos) {
        TokenV::Identifier(nm) => {
            if nm == "int"@ {
                (Ok(TypeV::Int), pos + 1)
            } else if nm == "float"@ {
                (Ok(TypeV::Float), pos + 1)
            } else if nm == "string"@ {
                (Ok(TypeV::String), pos + 1)
            } else if nm == "bool"@ {
                (Ok(TypeV::Bool), pos + 1)
            } else if nm == "list"@ {
                if cur(ts, pos + 1) == TokenV::LeftBracket {
                    let (ri, p1) = sp_type(ts, pos + 2);
                    match ri {
                        Ok(inner) => if cur(ts, p1) == TokenV::RightBracket {
                            (Ok(TypeV::List(Box::new(inner))), p1 + 1)
                        } else {
                            (Err(msg_expected(TokenV::RightBracket, cur(ts, p1))), p1)
                        },
                        Err(m) => (Err(m), p1),
                    }
                } else {
                    (Err(msg_expected(TokenV::LeftBracket, cur(ts, pos + 1))), pos + 1)
                }
            } else if nm == "dict"@ {
                if cur(ts, pos + 1) == TokenV::LeftBrace {
                    let (rk, p1) = sp_type(ts, pos + 2);
                    match rk {
                        Ok(kt) => if cur(ts, p1) == TokenV::Colon {
                            if stepped(pos + 1, p1, ts.len() as int) {
                                let (rv, p2) = sp_type(ts, p1 + 1);
                                match rv {
                                    Ok(vt) => if cur(ts, p2) == TokenV::RightBrace {
                                        (
                                            Ok(
                                                TypeV::Dict(Box::new(kt), Box::new(vt)),
                                            ),
                                            p2 + 1,
                                        )
                                    } else {
                                        (
                                            Err(msg_expected(TokenV::RightBrace, cur(ts, p2))),
                                            p2,
                                        )
                                    },
                                    Err(m) => (Err(m), p2),
                                }
                            } else {
                                stalled(p1)
                            }
                        } else {
                            (Err(msg_expected(TokenV::Colon, cur(ts, p1))), p1)
                        },
                        Err(m) => (Err(m), p1),
                    }
                } else {
                    (Err(msg_expected(TokenV::LeftBrace, cur(ts, pos + 1))), pos + 1)
                }
            } else {
                (Ok(TypeV::Custom(nm)), pos + 1)
            }
        },
        _ => (Err("Expected type"@), pos),
    }
}

/// The declared return type after `->`, or `NoneType` when absent.
pub open spec fn sp_return_type(ts: Seq<TokenV>, pos: int) -> (Result<TypeV, Seq<char>>, int)
    decreases ts.len() - pos, 6int,
{
    if cur(ts, pos) == TokenV::Arrow {
        sp_type(ts, pos + 1)
    } else {
        (Ok(TypeV::NoneType), pos)
    }
}

/// The items of a parameter list: `name : type`, comma separated.
pub open spec fn sp_params_items(ts: Seq<TokenV>, pos: int, acc: Seq<(Seq<char>, TypeV)>) -> (
    Result<Seq<(Seq<char>, TypeV)>, Seq<char>>,
    int,
)
    decreases ts.len() - pos, 6int,
{
    match cur(ts, pos) {
        TokenV::Identifier(nm) => if cur(ts, pos + 1) == TokenV::Colon {
            let (rt, p1) = sp_type(ts, pos + 2);
            match rt {
                Ok(t) => if cur(ts, p1) == TokenV::Comma {
                    if stepped(pos, p1, ts.len() as int) {
                        sp_params_items(ts, p1 + 1, acc.push((nm, t)))
                    } else {
                        stalled(p1)
                    }
                } else {
                    (Ok(acc.push((nm, t))), p1)
                },
                Err(m) => (Err(m), p1),
            }
        } else {
            (Err(msg_expected(TokenV::Colon, cur(ts, pos + 1))), pos + 1)
        },
        t => (Err(msg_ident(t)), pos),
    }
}

/// A parenthesised parameter list.
pub open spec fn sp_params(ts: Seq<TokenV>, pos: int) -> (Result<Seq<(Seq<char>, TypeV)>, Seq<char>>, int)
    decreases ts.len() - pos, 7int,
{
    if cur(ts, pos) == TokenV::LeftParen {
        if cur(ts, pos + 1) == TokenV::RightParen {
            (Ok(Seq::empty()), pos + 2)
        } else {
            let (ri, p1) = sp_params_items(ts, pos + 1, Seq::empty());
            match ri {
                Ok(items) => if cur(ts, p1) == TokenV::RightParen {
                    (Ok(items), p1 + 1)
                } else {
                    (Err(msg_expected(TokenV::RightParen, cur(ts, p1))), p1)
                },
                Err(m) => (Err(m), p1),
            }
        }
    } else {
        (Err(msg_expected(TokenV::LeftParen, cur(ts, pos))), pos)
    }
}

/// An expression: binary operations over unary operands, left associative,
/// at a single precedence level.
pub open spec fn sp_expression(ts: Seq<TokenV>, pos: int) -> (Result<AstV, Seq<char>>, int)
    decreases ts.len() - pos, 4int,
{
    let (rl, p1) = sp_binop_first(ts, pos);
    match rl {
        Ok(left) => if stepped(pos, p1, ts.len() as int) {
            sp_binop_rest(ts, p1, left)
        } else {
            stalled(p1)
        },
        Err(m) => (Err(m), p1),
    }
}

/// The first operand of a binary chain.
pub open spec fn sp_binop_first(ts: Seq<TokenV>, pos: int) -> (Result<AstV, Seq<char>>, int)
    decreases ts.len() - pos, 3int,
{
    sp_unary(ts, pos)
}

/// The remaining `op operand` pairs of a binary chain, folded leftward
/// onto `left`.
pub open spec fn sp_binop_rest(ts: Seq<TokenV>, pos: int, left: AstV) -> (Result<AstV, Seq<char>>, int)
    decreases ts.len() - pos, 3int,
{
    match op_of_token(cur(ts, pos)) {
        Some(op) => {
            let (rr, p1) = sp_unary(ts, pos + 1);
            match rr {
                Ok(right) => if stepped(pos, p1, ts.len() as int) {
                    sp_binop_rest(
                        ts,
                        p1,
                        AstV::BinOp { left: Box::new(left), op, right: Box::new(right) },
                    )
                } else {
                    stalled(p1)
                },
                Err(m) => (Err(m), p1),
            }
        },
        None => (Ok(left), pos),
    }
}

/// A unary expression: leading minus is subtraction from zero.
pub open spec fn sp_unary(ts: Seq<TokenV>, pos: int) -> (Result<AstV, Seq<char>>, int)
    decreases ts.len() - pos, 2int,
{
    if cur(ts, pos) == TokenV::Minus {
        let (re, p1) = sp_unary(ts, pos + 1);
        match re {
            Ok(e) => (
                Ok(
                    AstV::BinOp {
                        left: Box::new(AstV::Num { value: 0 }),
                        op: Op::Sub,
                        right: Box::new(e),
                    },
                ),
                p1,
            ),
            Err(m) => (Err(m), p1),
        }
    } else {
        sp_primary(ts, pos)
    }
}

/// Comma-separated expressions, as in call arguments and list literals.
pub open spec fn sp_expr_list(ts: Seq<TokenV>, pos: int, acc: Seq<AstV>) -> (Result<Seq<AstV>, Seq<char>>, int)
    decreases ts.len() - pos, 5int,
{
    let (re, p1) = sp_expression(ts, pos);
    match re {
        Ok(e) => if cur(ts, p1) == TokenV::Comma {
            if stepped(pos, p1, ts.len() as int) {
                sp_expr_list(ts, p1 + 1, acc.push(e))
            } else {
                stalled(p1)
            }
        } else {
            (Ok(acc.push(e)), p1)
        },
        Err(m) => (Err(m), p1),
    }
}

/// Comma-separated `key : value` pairs of a dictionary literal.
pub open spec fn sp_dict_items(ts: Seq<TokenV>, pos: int, acc: Seq<(AstV, AstV)>) -> (Result<
    Seq<(AstV, AstV)>,
    Seq<char>,
>, int)
    decreases ts.len() - pos, 5int,
{
    let (rk, p1) = sp_expression(ts, pos);
    match rk {
        Ok(k) => if cur(ts, p1) == TokenV::Colon {
            if stepped(pos, p1, ts.len() as int) {
                let (rv, p2) = sp_expression(ts, p1 + 1);
                match rv {
                    Ok(v) => if cur(ts, p2) == TokenV::Comma {
                        if stepped(p1, p2, ts.len() as int) {
                            sp_dict_items(ts, p2 + 1, acc.push((k, v)))
                        } else {
                            stalled(p2)
                        }
                    } else {
                        (Ok(acc.push((k, v))), p2)
                    },
                    Err(m) => (Err(m), p2),
                }
            } else {
                stalled(p1)
            }
        } else {
            (Err(msg_expected(TokenV::Colon, cur(ts, p1))), p1)
        },
        Err(m) => (Err(m), p1),
    }
}

/// The argument list of a call, after its name; `pos` sits on the opening
/// parenthesis.
pub open spec fn sp_call_tail(ts: Seq<TokenV>, pos: int, func: Seq<char>) -> (Result<AstV, Seq<char>>, int)
    decreases ts.len() - pos, 0int,
{
    if cur(ts, pos + 1) == TokenV::RightParen {
        (Ok(AstV::Call { func, args: Seq::empty() }), pos + 2)
    } else if !(0 <= pos && pos + 1 <= ts.len()) {
        stalled(pos)
    } else {
        let (ra, p1) = sp_expr_list(ts, pos + 1, Seq::empty());
        match ra {
            Ok(args) => if cur(ts, p1) == TokenV::RightParen {
                (Ok(AstV::Call { func, args }), p1 + 1)
            } else {
                (Err(msg_expected(TokenV::RightParen, cur(ts, p1))), p1)
            },
            Err(m) => (Err(m), p1),
        }
    }
}

/// A list literal; `pos` sits on the opening bracket.
pub open spec fn sp_list_tail(ts: Seq<TokenV>, pos: int) -> (Result<AstV, Seq<char>>, int)
    decreases ts.len() - pos, 0int,
{
    if cur(ts, pos + 1) == TokenV::RightBracket {
        (Ok(AstV::List { elements: Seq::empty() }), pos + 2)
    } else if !(0 <= pos && pos + 1 <= ts.len()) {
        stalled(pos)
    } else {
        let (ra, p1) = sp_expr_list(ts, pos + 1, Seq::empty());
        match ra {
            Ok(elements) => if cur(ts, p1) == TokenV::RightBracket {
                (Ok(AstV::List { elements }), p1 + 1)
            } else {
                (Err(msg_expected(TokenV::RightBracket, cur(ts, p1))), p1)
            },
            Err(m) => (Err(m), p1),
        }
    }
}

/// A dictionary literal; `pos` sits on the opening brace.
pub open spec fn sp_dict_tail(ts: Seq<TokenV>, pos: int) -> (Result<AstV, Seq<char>>, int)
    decreases ts.len() - pos, 0int,
{
    if cur(ts, pos + 1) == TokenV::RightBrace {
        (Ok(AstV::Dict { pairs: Seq::empty() }), pos + 2)
    } else if !(0 <= pos && pos + 1 <= ts.len()) {
        stalled(pos)
    } else {
        let (rp, p1) = sp_dict_items(ts, pos + 1, Seq::empty());
        match rp {
            Ok(pairs) => if cur(ts, p1) == TokenV::RightBrace {
                (Ok(AstV::Dict { pairs }), p1 + 1)
            } else {
                (Err(msg_expected(TokenV::RightBrace, cur(ts, p1))), p1)
            },
            Err(m) => (Err(m), p1),
        }
    }
}

/// A primary expression: a name or call, a literal, a parenthesised
/// expression, a list, or a dictionary.
pub open spec fn sp_primary(ts: Seq<TokenV>, pos: int) -> (Result<AstV, Seq<char>>, int)
    decreases ts.len() - pos, 1int,
{
    match cur(ts, pos) {
        TokenV::Identifier(nm) => if cur(ts, pos + 1) == TokenV::LeftParen {
            sp_call_tail(ts, pos + 1, nm)
        } else {
            (Ok(AstV::Name { id: nm }), pos + 1)
        },
        TokenV::String(sv) => (Ok(AstV::Str { value: sv }), pos + 1),
        TokenV::Number(b) => (Ok(AstV::Num { value: b }), pos + 1),
        TokenV::True => (Ok(AstV::Bool { value: true }), pos + 1),
        TokenV::False => (Ok(AstV::Bool { value: false }), pos + 1),
        TokenV::LeftParen => {
            let (re, p1) = sp_expression(ts, pos + 1);
            match re {
                Ok(e) => if cur(ts, p1) == TokenV::RightParen {
                    (Ok(e), p1 + 1)
                } else {
                    (Err(msg_expected(TokenV::RightParen, cur(ts, p1))), p1)
                },
                Err(m) => (Err(m), p1),
            }
        },
        TokenV::LeftBracket => sp_list_tail(ts, pos),
        TokenV::LeftBrace => sp_dict_tail(ts, pos),
        t => (Err(msg_unexpected(t)), pos),
    }
}

/// An import statement.
pub open spec fn sp_import(ts: Seq<TokenV>, pos: int) -> (Result<AstV, Seq<char>>, int)
    decreases ts.len() - pos, 8int,
{
    let (names, p1) = sp_import_names(ts, pos + 1, Seq::empty());
    let (rn, p2) = sp_expect_newline(ts, p1);
    match rn {
        Ok(_) => (Ok(AstV::Import { names }), p2),
        Err(m) => (Err(m), p2),
    }
}

/// An assignment statement: `set name to expression`.
pub open spec fn sp_assignment(ts: Seq<TokenV>, pos: int) -> (Result<AstV, Seq<char>>, int)
    decreases ts.len() - pos, 8int,
{
    match cur(ts, pos + 1) {
        TokenV::Identifier(target) => if cur(ts, pos + 2) == TokenV::To {
            let (rv, p1) = sp_expression(ts, pos + 3);
            match rv {
                Ok(v) => {
                    let (rn, p2) = sp_expect_newline(ts, p1);
                    match rn {
                        Ok(_) => (Ok(AstV::Assign { target, value: Box::new(v) }), p2),
                        Err(m) => (Err(m), p2),
                    }
                },
                Err(m) => (Err(m), p1),
            }
        } else {
            (Err(msg_expected(TokenV::To, cur(ts, pos + 2))), pos + 2)
        },
        t => (Err(msg_ident(t)), pos + 1),
    }
}

/// A return statement, with or without a value.
pub open spec fn sp_return(ts: Seq<TokenV>, pos: int) -> (Result<AstV, Seq<char>>, int)
    decreases ts.len() - pos, 8int,
{
    if cur(ts, pos + 1) == TokenV::Newline {
        (Ok(AstV::Return { value: None }), pos + 2)
    } else if cur(ts, pos + 1) == TokenV::EOF {
        (Ok(AstV::Return { value: None }), pos + 1)
    } else {
        let (rv, p1) = sp_expression(ts, pos + 1);
        match rv {
            Ok(v) => {
                let (rn, p2) = sp_expect_newline(ts, p1);
                match rn {
                    Ok(_) => (Ok(AstV::Return { value: Some(Box::new(v)) }), p2),
                    Err(m) => (Err(m), p2),
                }
            },
            Err(m) => (Err(m), p1),
        }
    }
}

/// A yield statement.
pub open spec fn sp_yield(ts: Seq<TokenV>, pos: int) -> (Result<AstV, Seq<char>>, int)
    decreases ts.len() - pos, 8int,
{
    let (rv, p1) = sp_expression(ts, pos + 1);
    match rv {
        Ok(v) => {
            let (rn, p2) = sp_expect_newline(ts, p1);
            match rn {
                Ok(_) => (Ok(AstV::Yield { value: Box::new(v) }), p2),
                Err(m) => (Err(m), p2),
            }
        },
        Err(m) => (Err(m), p1),
    }
}

/// A closure expression statement: `closure ( params ) : expression`.
pub open spec fn sp_closure(ts: Seq<TokenV>, pos: int) -> (Result<AstV, Seq<char>>, int)
    decreases ts.len() - pos, 8int,
{
    let (rp, p1) = sp_params(ts, pos + 1);
    match rp {
        Ok(params) => if cur(ts, p1) == TokenV::Colon {
            if stepped(pos, p1, ts.len() as int) {
                let (rb, p2) = sp_expression(ts, p1 + 1);
                match rb {
                    Ok(b) => (Ok(AstV::Closure { params, body: Box::new(b) }), p2),
                    Err(m) => (Err(m), p2),
                }
            } else {
                stalled(p1)
            }
        } else {
            (Err(msg_expected(TokenV::Colon, cur(ts, p1))), p1)
        },
        Err(m) => (Err(m), p1),
    }
}

/// The statements of a block: up to the end of the stream or an `else`,
/// blank lines skipped.
pub open spec fn sp_block(ts: Seq<TokenV>, pos: int, acc: Seq<AstV>) -> (Result<Seq<AstV>, Seq<char>>, int)
    decreases ts.len() - pos, 11int,
{
    let p = sp_skip_nl(ts, pos);
    if pos <= p <= ts.len() {
        if cur(ts, p) == TokenV::EOF || cur(ts, p) == TokenV::Else {
            (Ok(acc), p)
        } else {
            let (rs, p1) = sp_statement(ts, p);
            match rs {
                Ok(st) => if stepped(p, p1, ts.len() as int) {
                    sp_block(ts, p1, acc.push(st))
                } else {
                    stalled(p1)
                },
                Err(m) => (Err(m), p1),
            }
        }
    } else {
        stalled(pos)
    }
}

/// A function definition: `define name ( params ) -> type : NEWLINE block`.
pub open spec fn sp_function_def(ts: Seq<TokenV>, pos: int) -> (Result<AstV, Seq<char>>, int)
    decreases ts.len() - pos, 8int,
{
    match cur(ts, pos + 1) {
        TokenV::Identifier(name) => {
            let (rp, p1) = sp_params(ts, pos + 2);
            match rp {
                Ok(params) => if stepped(pos, p1, ts.len() as int) {
                    let (rr, p2) = sp_return_type(ts, p1);
                    match rr {
                        Ok(ret) => if p1 <= p2 <= ts.len() {
                            if cur(ts, p2) == TokenV::Colon {
                                let (rn, p3) = sp_expect_newline(ts, p2 + 1);
                                match rn {
                                    Ok(_) => {
                                        let (rb, p4) = sp_block(ts, p3, Seq::empty());
                                        match rb {
                                            Ok(body) => (
                                                Ok(
                                                    AstV::FunctionDef {
                                                        name,
                                                        args: params,
                                                        return_type: ret,
                                                        body,
                                                    },
                                                ),
                                                p4,
                                            ),
                                            Err(m) => (Err(m), p4),
                                        }
                                    },
                                    Err(m) => (Err(m), p3),
                                }
                            } else {
                                (Err(msg_expected(TokenV::Colon, cur(ts, p2))), p2)
                            }
                        } else {
                            stalled(p2)
                        },
                        Err(m) => (Err(m), p2),
                    }
                } else {
                    stalled(p1)
                },
                Err(m) => (Err(m), p1),
            }
        },
        t => (Err(msg_ident(t)), pos + 1),
    }
}

/// A class definition: `class name : NEWLINE block`.
pub open spec fn sp_class_def(ts: Seq<TokenV>, pos: int) -> (Result<AstV, Seq<char>>, int)
    decreases ts.len() - pos, 8int,
{
    match cur(ts, pos + 1) {
        TokenV::Identifier(name) => if cur(ts, pos + 2) == TokenV::Colon {
            let (rn, p1) = sp_expect_newline(ts, pos + 3);
            match rn {
                Ok(_) => {
                    let (rb, p2) = sp_block(ts, p1, Seq::empty());
                    match rb {
                        Ok(methods) => (Ok(AstV::ClassDef { name, methods }), p2),
                        Err(m) => (Err(m), p2),
                    }
                },
                Err(m) => (Err(m), p1),
            }
        } else {
            (Err(msg_expected(TokenV::Colon, cur(ts, pos + 2))), pos + 2)
        },
        t => (Err(msg_ident(t)), pos + 1),
    }
}

/// An if statement with an optional else branch.
pub open spec fn sp_if(ts: Seq<TokenV>, pos: int) -> (Result<AstV, Seq<char>>, int)
    decreases ts.len() - pos, 8int,
{
    let (rc, p1) = sp_expression(ts, pos + 1);
    match rc {
        Ok(c) => if cur(ts, p1) == TokenV::Colon {
            if stepped(pos, p1, ts.len() as int) {
                let (rn, p2) = sp_expect_newline(ts, p1 + 1);
                match rn {
                    Ok(_) => {
                        let (rb, p3) = sp_block(ts, p2, Seq::empty());
                        match rb {
                            Ok(body) => if cur(ts, p3) == TokenV::Else {
                                if p2 <= p3 < ts.len() {
                                    if cur(ts, p3 + 1) == TokenV::Colon {
                                        let (rn2, p4) = sp_expect_newline(ts, p3 + 2);
                                        match rn2 {
                                            Ok(_) => {
                                                let (re, p5) = sp_block(ts, p4, Seq::empty());
                                                match re {
                                                    Ok(orelse) => (
                                                        Ok(
                                                            AstV::If {
                                                                condition: Box::new(c),
                                                                body,
                                                                orelse,
                                                            },
                                                        ),
                                                        p5,
                                                    ),
                                                    Err(m) => (Err(m), p5),
                                                }
                                            },
                                            Err(m) => (Err(m), p4),
                                        }
                                    } else {
                                        (
                                            Err(msg_expected(TokenV::Colon, cur(ts, p3 + 1))),
                                            p3 + 1,
                                        )
                                    }
                                } else {
                                    stalled(p3)
                                }
                            } else {
                                (
                                    Ok(
                                        AstV::If {
                                            condition: Box::new(c),
                                            body,
                                            orelse: Seq::empty(),
                                        },
                                    ),
                                    p3,
                                )
                            },
                            Err(m) => (Err(m), p3),
                        }
                    },
                    Err(m) => (Err(m), p2),
                }
            } else {
                stalled(p1)
            }
        } else {
            (Err(msg_expected(TokenV::Colon, cur(ts, p1))), p1)
        },
        Err(m) => (Err(m), p1),
    }
}

/// A while statement.
pub open spec fn sp_while(ts: Seq<TokenV>, pos: int) -> (Result<AstV, Seq<char>>, int)
    decreases ts.len() - pos, 8int,
{
    let (rc, p1) = sp_expression(ts, pos + 1);
    match rc {
        Ok(c) => if cur(ts, p1) == TokenV::Colon {
            if stepped(pos, p1, ts.len() as int) {
                let (rn, p2) = sp_expect_newline(ts, p1 + 1);
                match rn {
                    Ok(_) => {
                        let (rb, p3) = sp_block(ts, p2, Seq::empty());
                        match rb {
                            Ok(body) => (Ok(AstV::While { condition: Box::new(c), body }), p3),
                            Err(m) => (Err(m), p3),
                        }
                    },
                    Err(m) => (Err(m), p2),
                }
            } else {
                stalled(p1)
            }
        } else {
            (Err(msg_expected(TokenV::Colon, cur(ts, p1))), p1)
        },
        Err(m) => (Err(m), p1),
    }
}

/// A for statement: `for name in expression : NEWLINE block`.
pub open spec fn sp_for(ts: Seq<TokenV>, pos: int) -> (Result<AstV, Seq<char>>, int)
    decreases ts.len() - pos, 8int,
{
    match cur(ts, pos + 1) {
        TokenV::Identifier(target) => if cur(ts, pos + 2) == TokenV::In {
            let (ri, p1) = sp_expression(ts, pos + 3);
            match ri {
                Ok(iter) => if cur(ts, p1) == TokenV::Colon {
                    if stepped(pos, p1, ts.len() as int) {
                        let (rn, p2) = sp_expect_newline(ts, p1 + 1);
                        match rn {
                            Ok(_) => {
                                let (rb, p3) = sp_block(ts, p2, Seq::empty());
                                match rb {
                                    Ok(body) => (
                                        Ok(
                                            AstV::For { target, iter: Box::new(iter), body },
                                        ),
                                        p3,
                                    ),
                                    Err(m) => (Err(m), p3),
                                }
                            },
                            Err(m) => (Err(m), p2),
                        }
                    } else {
                        stalled(p1)
                    }
                } else {
                    (Err(msg_expected(TokenV::Colon, cur(ts, p1))), p1)
                },
                Err(m) => (Err(m), p1),
            }
        } else {
            (Err(msg_expected(TokenV::In, cur(ts, pos + 2))), pos + 2)
        },
        t => (Err(msg_ident(t)), pos + 1),
    }
}

/// An async function definition, held as an `Async` node around the
/// definition.
pub open spec fn sp_async(ts: Seq<TokenV>, pos: int) -> (Result<AstV, Seq<char>>, int)
    decreases ts.len() - pos, 8int,
{
    if cur(ts, pos + 1) == TokenV::Define {
        let (rf, p1) = sp_function_def(ts, pos + 1);
        match rf {
            Ok(f) => (Ok(AstV::Async { body: seq![f] }), p1),
            Err(m) => (Err(m), p1),
        }
    } else {
        (Err(msg_expected(TokenV::Define, cur(ts, pos + 1))), pos + 1)
    }
}

/// One statement, chosen by its first token; a bare expression is closed
/// by a newline or the end of the stream.
pub open spec fn sp_statement(ts: Seq<TokenV>, pos: int) -> (Result<AstV, Seq<char>>, int)
    decreases ts.len() - pos, 9int,
{
    match cur(ts, pos) {
        TokenV::Import => sp_import(ts, pos),
        TokenV::Define => sp_function_def(ts, pos),
        TokenV::Class => sp_class_def(ts, pos),
        TokenV::SetKw => sp_assignment(ts, pos),
        TokenV::If => sp_if(ts, pos),
        TokenV::While => sp_while(ts, pos),
        TokenV::For => sp_for(ts, pos),
        TokenV::Return => sp_return(ts, pos),
        TokenV::Async => sp_async(ts, pos),
        TokenV::Yield => sp_yield(ts, pos),
        TokenV::Closure => sp_closure(ts, pos),
        _ => {
            let (re, p1) = sp_expression(ts, pos);
            match re {
                Ok(e) => {
                    let (rn, p2) = sp_expect_newline(ts, p1);
                    match rn {
                        Ok(_) => (Ok(e), p2),
                        Err(m) => (Err(m), p2),
                    }
                },
                Err(m) => (Err(m), p1),
            }
        },
    }
}

/// The statements of a whole module: up to the end of the stream, blank
/// lines skipped.
pub open spec fn sp_module(ts: Seq<TokenV>, pos: int, acc: Seq<AstV>) -> (Result<Seq<AstV>, Seq<char>>, int)
    decreases ts.len() - pos, 12int,
{
    let p = sp_skip_nl(ts, pos);
    if pos <= p <= ts.len() {
        if cur(ts, p) == TokenV::EOF {
            (Ok(acc), p)
        } else {
            let (rs, p1) = sp_statement(ts, p);
            match rs {
                Ok(st) => if stepped(p, p1, ts.len() as int) {
                    sp_module(ts, p1, acc.push(st))
                } else {
                    stalled(p1)
                },
                Err(m) => (Err(m), p1),
            }
        }
    } else {
        stalled(pos)
    }
}

/// The whole parse: a module node, or the first failure.
pub open spec fn sp_parse(ts: Seq<TokenV>) -> Result<AstV, ErrV> {
    match sp_module(ts, 0, Seq::empty()).0 {
        Ok(body) => Ok(AstV::Module { body }),
        Err(m) => Err(ErrV::Parser(m)),
    }
}

/// The label under which a token kind is reported.
pub fn token_label(t: &Token) -> (r: String)
    ensures
        r@ == spec_token_label(t.deep_view()),
{
    match t {
        Token::Import => String::from_str("Import"),
        Token::Define => String::from_str("Define"),
        Token::Class => String::from_str("Class"),
        Token::SetKw => String::from_str("Set"),
        Token::To => String::from_str("To"),
        Token::If => String::from_str("If"),
        Token::Else => String::from_str("Else"),
        Token::While => String::from_str("While"),
        Token::For => String::from_str("For"),
        Token::In => String::from_str("In"),
        Token::Return => String::from_str("Return"),
        Token::Async => String::from_str("Async"),
        Token::Await => String::from_str("Await"),
        Token::Yield => String::from_str("Yield"),
        Token::Closure => String::from_str("Closure"),
        Token::True => String::from_str("True"),
        Token::False => String::from_str("False"),
        Token::Identifier(_) => String::from_str("Identifier"),
        Token::String(_) => String::from_str("String"),
        Token::Number(_) => String::from_str("Number"),
        Token::LeftParen => String::from_str("LeftParen"),
        Token::RightParen => String::from_str("RightParen"),
        Token::LeftBrace => String::from_str("LeftBrace"),
        Token::RightBrace => String::from_str("RightBrace"),
        Token::LeftBracket => String::from_str("LeftBracket"),
        Token::RightBracket => String::from_str("RightBracket"),
        Token::Colon => String::from_str("Colon"),
        Token::Comma => String::from_str("Comma"),
        Token::Dot => String::from_str("Dot"),
        Token::Plus => String::from_str("Plus"),
        Token::Minus => String::from_str("Minus"),
        Token::Multiply => String::from_str("Multiply"),
        Token::Divide => String::from_str("Divide"),
        Token::Equals => String::from_str("Equals"),
        Token::NotEquals => String::from_str("NotEquals"),
        Token::LessThan => String::from_str("LessThan"),
        Token::GreaterThan => String::from_str("GreaterThan"),
        Token::LessThanOrEqual => String::from_str("LessThanOrEqual"),
        Token::GreaterThanOrEqual => String::from_str("GreaterThanOrEqual"),
        Token::Arrow => String::from_str("Arrow"),
        Token::Newline => String::from_str("Newline"),
        Token::EOF => String::from_str("EOF"),
    }
}

/// Builds the message for a missing expected token.
fn expect_message(expected: &Token, found: &Token) -> (r: String)
    ensures
        r@ == msg_expected(expected.deep_view(), found.deep_view()),
{
    let mut m = String::from_str("Expected ");
    let le = token_label(expected);
    m.append(le.as_str());
    m.append(", found ");
    let lf = token_label(found);
    m.append(lf.as_str());
    proof {
        assert(m@ =~= msg_expected(expected.deep_view(), found.deep_view()));
    }
    m
}

/// Builds the message for a token no rule expects.
fn unexpected_message(found: &Token) -> (r: String)
    ensures
        r@ == msg_unexpected(found.deep_view()),
{
    let mut m = String::from_str("Unexpected token: ");
    let lf = token_label(found);
    m.append(lf.as_str());
    m
}

/// Builds the message for a missing identifier.
fn ident_message(found: &Token) -> (r: String)
    ensures
        r@ == msg_ident(found.deep_view()),
{
    let mut m = String::from_str("Expected identifier, found ");
    let lf = token_label(found);
    m.append(lf.as_str());
    m
}

/// Structural equality of two tokens.
pub fn token_matches(a: &Token, b: &Token) -> (r: bool)
    ensures
        r == (a.deep_view() == b.deep_view()),
{
    match a {
        Token::Import => matches!(b, Token::Import),
        Token::Define => matches!(b, Token::Define),
        Token::Class => matches!(b, Token::Class),
        Token::SetKw => matches!(b, Token::SetKw),
        Token::To => matches!(b, Token::To),
        Token::If => matches!(b, Token::If),
        Token::Else => matches!(b, Token::Else),
        Token::While => matches!(b, Token::While),
        Token::For => matches!(b, Token::For),
        Token::In => matches!(b, Token::In),
        Token::Return => matches!(b, Token::Return),
        Token::Async => matches!(b, Token::Async),
        Token::Await => matches!(b, Token::Await),
        Token::Yield => matches!(b, Token::Yield),
        Token::Closure => matches!(b, Token::Closure),
        Token::True => matches!(b, Token::True),
        Token::False => matches!(b, Token::False),
        Token::Identifier(x) => match b {
            Token::Identifier(y) => str_eq(x.as_str(), y.as_str()),
            _ => false,
        },
        Token::String(x) => match b {
            Token::String(y) => str_eq(x.as_str(), y.as_str()),
            _ => false,
        },
        Token::Number(x) => match b {
            Token::Number(y) => x == y,
            _ => false,
        },
        Token::LeftParen => matches!(b, Token::LeftParen),
        Token::RightParen => matches!(b, Token::RightParen),
        Token::LeftBrace => matches!(b, Token::LeftBrace),
        Token::RightBrace => matches!(b, Token::RightBrace),
        Token::LeftBracket => matches!(b, Token::LeftBracket),
        Token::RightBracket => matches!(b, Token::RightBracket),
        Token::Colon => matches!(b, Token::Colon),
        Token::Comma => matches!(b, Token::Comma),
        Token::Dot => matches!(b, Token::Dot),
        Token::Plus => matches!(b, Token::Plus),
        Token::Minus => matches!(b, Token::Minus),
        Token::Multiply => matches!(b, Token::Multiply),
        Token::Divide => matches!(b, Token::Divide),
        Token::Equals => matches!(b, Token::Equals),
        Token::NotEquals => matches!(b, Token::NotEquals),
        Token::LessThan => matches!(b, Token::LessThan),
        Token::GreaterThan => matches!(b, Token::GreaterThan),
        Token::LessThanOrEqual => matches!(b, Token::LessThanOrEqual),
        Token::GreaterThanOrEqual => matches!(b, Token::GreaterThanOrEqual),
        Token::Arrow => matches!(b, Token::Arrow),
        Token::Newline => matches!(b, Token::Newline),
        Token::EOF => matches!(b, Token::EOF),
    }
}

/// The binary operator a token denotes, if any.
pub fn op_token(t: &Token) -> (r: Option<Op>)
    ensures
        r == op_of_token(t.deep_view()),
{
    match t {
        Token::Plus => Some(Op::Add),
        Token::Minus => Some(Op::Sub),
        Token::Multiply => Some(Op::Mul),
        Token::Divide => Some(Op::Div),
        Token::Equals => Some(Op::Eq),
        Token::NotEquals => Some(Op::NotEq),
        Token::LessThan => Some(Op::Lt),
        Token::GreaterThan => Some(Op::Gt),
        Token::LessThanOrEqual => Some(Op::LtEq),
        Token::GreaterThanOrEqual => Some(Op::GtEq),
        _ => None,
    }
}

/// The recursive-descent parser over a token vector.
pub struct Parser {
    pub tokens: Vec<Token>,
    pub position: usize,
}

impl Parser {
    pub fn new(tokens: Vec<Token>) -> (r: Self)
        ensures
            r.tokens == tokens,
            r.position == 0,
    {
        Parser { tokens, position: 0 }
    }

    /// The token under the cursor; past the end, `EOF`.
    fn current_token(&self) -> (t: Token)
        ensures
            t.deep_view() == cur(self.tokens.deep_view(), self.position as int),
    {
        if self.position < self.tokens.len() {
            self.tokens[self.position].clone()
        } else {
            Token::EOF
        }
    }

    /// Moves the cursor one token right.
    fn advance(&mut self)
        requires
            old(self).position < old(self).tokens@.len(),
        ensures
            final(self).tokens == old(self).tokens,
            final(self).position == old(self).position + 1,
    {
        let n: usize = self.tokens.len();
        self.position = self.position + 1;
    }

    /// Consumes the expected token or reports what stood in its place.
    fn expect_token(&mut self, expected: Token) -> (r: Result<(), BellronosError>)
        requires
            old(self).position <= old(self).tokens@.len(),
            !(expected.deep_view() is EOF),
        ensures
            final(self).tokens == old(self).tokens,
            old(self).position <= final(self).position <= final(self).tokens@.len(),
            ({
                let c = cur(old(self).tokens.deep_view(), old(self).position as int);
                match r {
                    Ok(_) => c == expected.deep_view() && final(self).position == old(self).position
                        + 1,
                    Err(e) => c != expected.deep_view() && e.deep_view() == ErrV::Parser(
                        msg_expected(expected.deep_view(), c),
                    ) && final(self).position == old(self).position,
                }
            }),
    {
        let t = self.current_token();
        if token_matches(&t, &expected) {
            proof {
                assert(self.position < self.tokens@.len());
            }
            self.advance();
            Ok(())
        } else {
            Err(BellronosError::Parser(expect_message(&expected, &t)))
        }
    }

    /// Consumes an identifier and yields its name.
    fn expect_identifier(&mut self) -> (r: Result<String, BellronosError>)
        requires
            old(self).position <= old(self).tokens@.len(),
        ensures
            final(self).tokens == old(self).tokens,
            old(self).position <= final(self).position <= final(self).tokens@.len(),
            ({
                let c = cur(old(self).tokens.deep_view(), old(self).position as int);
                match r {
                    Ok(nm) => c == TokenV::Identifier(nm@) && final(self).position == old(self).position + 1,
                    Err(e) => !(c is Identifier) && e.deep_view() == ErrV::Parser(msg_ident(c))
                        && final(self).position == old(self).position,
                }
            }),
    {
        let t = self.current_token();
        match t {
            Token::Identifier(nm) => {
                proof {
                    assert(self.position < self.tokens@.len());
                }
                self.advance();
                Ok(nm)
            },
            other => Err(BellronosError::Parser(ident_message(&other))),
        }
    }

    /// Consumes the newline that closes a statement; the end of the stream
    /// may stand in for it.
    fn expect_newline(&mut self) -> (r: Result<(), BellronosError>)
        requires
            old(self).position <= old(self).tokens@.len(),
        ensures
            final(self).tokens == old(self).tokens,
            old(self).position <= final(self).position <= final(self).tokens@.len(),
            ({
                let s = sp_expect_newline(old(self).tokens.deep_view(), old(self).position as int);
                match r {
                    Ok(_) => s.0 == Ok::<(), Seq<char>>(()) && s.1 == final(self).position as int,
                    Err(e) => s.0 matches Err(m) && e.deep_view() == ErrV::Parser(m),
                }
            }),
    {
        let t = self.current_token();
        match t {
            Token::Newline => {
                proof {
                    assert(self.position < self.tokens@.len());
                }
                self.advance();
                Ok(())
            },
            Token::EOF => Ok(()),
            other => Err(BellronosError::Parser(expect_message(&Token::Newline, &other))),
        }
    }

    /// Skips blank lines between statements.
    fn skip_newlines(&mut self)
        requires
            old(self).position <= old(self).tokens@.len(),
        ensures
            final(self).tokens == old(self).tokens,
            final(self).position as int == sp_skip_nl(
                old(self).tokens.deep_view(),
                old(self).position as int,
            ),
            old(self).position <= final(self).position <= final(self).tokens@.len(),
        decreases old(self).tokens@.len() - old(self).position,
    {
        let t = self.current_token();
        match t {
            Token::Newline => {
                proof {
                    assert(self.position < self.tokens@.len());
                }
                self.advance();
                self.skip_newlines();
            },
            _ => {},
        }
    }

    /// Parses the whole token stream into a module node.
    pub fn parse(&mut self) -> (r: Result<ASTNode, BellronosError>)
        requires
            old(self).position == 0,
        ensures
            match r {
                Ok(n) => sp_parse(old(self).tokens.deep_view()) == Ok::<AstV, ErrV>(n.deep_view()),
                Err(e) => sp_parse(old(self).tokens.deep_view()) == Err::<AstV, ErrV>(
                    e.deep_view(),
                ),
            },
    {
        let mut body: Vec<ASTNode> = Vec::new();
        proof {
            assert(body.deep_view() =~= Seq::<AstV>::empty());
        }
        match self.parse_module_into(&mut body) {
            Ok(_) => {
                proof {
                    crate::ast::lemma_asts_view(body@);
                    assert(crate::ast::asts_view(body@) =~= body.deep_view());
                }
                Ok(ASTNode::Module { body })
            },
            Err(e) => Err(e),
        }
    }

    /// Parses statements into `acc` until the end of the stream.
    fn parse_module_into(&mut self, acc: &mut Vec<ASTNode>) -> (r: Result<(), BellronosError>)
        requires
            old(self).position <= old(self).tokens@.len(),
        ensures
            final(self).tokens == old(self).tokens,
            old(self).position <= final(self).position <= final(self).tokens@.len(),
            ({
                let s = sp_module(
                    old(self).tokens.deep_view(),
                    old(self).position as int,
                    old(acc).deep_view(),
                );
                match r {
                    Ok(_) => s.0 == Ok::<Seq<AstV>, Seq<char>>(final(acc).deep_view()) && s.1
                        == final(self).position as int,
                    Err(e) => s.0 matches Err(m) && e.deep_view() == ErrV::Parser(m),
                }
            }),
        decreases old(self).tokens@.len() - old(self).position, 12int,
    {
        self.skip_newlines();
        let t = self.current_token();
        if matches!(t, Token::EOF) {
            return Ok(());
        }
        match self.parse_statement() {
            Err(e) => Err(e),
            Ok(st) => {
                let ghost prev = acc.deep_view();
                let ghost stv = st.deep_view();
                acc.push(st);
                proof {
                    assert(acc.deep_view() =~= prev.push(stv));
                }
                self.parse_module_into(acc)
            },
        }
    }

    /// Parses the statements of a block into `acc`, up to the end of the
    /// stream or an `else`.
    fn parse_block_into(&mut self, acc: &mut Vec<ASTNode>) -> (r: Result<(), BellronosError>)
        requires
            old(self).position <= old(self).tokens@.len(),
        ensures
            final(self).tokens == old(self).tokens,
            old(self).position <= final(self).position <= final(self).tokens@.len(),
            ({
                let s = sp_block(
                    old(self).tokens.deep_view(),
                    old(self).position as int,
                    old(acc).deep_view(),
                );
                match r {
                    Ok(_) => s.0 == Ok::<Seq<AstV>, Seq<char>>(final(acc).deep_view()) && s.1
                        == final(self).position as int,
                    Err(e) => s.0 matches Err(m) && e.deep_view() == ErrV::Parser(m),
                }
            }),
        decreases old(self).tokens@.len() - old(self).position, 11int,
    {
        self.skip_newlines();
        let t = self.current_token();
        if matches!(t, Token::EOF) || matches!(t, Token::Else) {
            return Ok(());
        }
        match self.parse_statement() {
            Err(e) => Err(e),
            Ok(st) => {
                let ghost prev = acc.deep_view();
                let ghost stv = st.deep_view();
                acc.push(st);
                proof {
                    assert(acc.deep_view() =~= prev.push(stv));
                }
                self.parse_block_into(acc)
            },
        }
    }

    /// Parses one statement, chosen by its first token.
    #[verifier::rlimit(60)]
    #[verifier::spinoff_prover]
    fn parse_statement(&mut self) -> (r: Result<ASTNode, BellronosError>)
        requires
            old(self).position <= old(self).tokens@.len(),
        ensures
            final(self).tokens == old(self).tokens,
            old(self).position <= final(self).position <= final(self).tokens@.len(),
            ({
                let s = sp_statement(old(self).tokens.deep_view(), old(self).position as int);
                match r {
                    Ok(n) => s.0 == Ok::<AstV, Seq<char>>(n.deep_view()) && s.1 == final(self).position as int
                        && final(self).position > old(self).position,
                    Err(e) => s.0 matches Err(m) && e.deep_view() == ErrV::Parser(m),
                }
            }),
        decreases old(self).tokens@.len() - old(self).position, 9int,
    {
        let t = self.current_token();
        match t {
            Token::Import => self.parse_import(),
            Token::Define => self.parse_function_def(),
            Token::Class => self.parse_class_def(),
            Token::SetKw => self.parse_assignment(),
            Token::If => self.parse_if(),
            Token::While => self.parse_while(),
            Token::For => self.parse_for(),
            Token::Return => self.parse_return(),
            Token::Async => self.parse_async(),
            Token::Yield => self.parse_yield(),
            Token::Closure => self.parse_closure(),
            _ => {
                match self.parse_expression() {
                    Err(e) => Err(e),
                    Ok(e) => match self.expect_newline() {
                        Err(e2) => Err(e2),
                        Ok(_) => Ok(e),
                    },
                }
            },
        }
    }

    /// Collects the comma-separated names of an import statement.
    fn parse_import_names(&mut self, acc: &mut Vec<String>)
        requires
            old(self).position <= old(self).tokens@.len(),
        ensures
            final(self).tokens == old(self).tokens,
            old(self).position <= final(self).position <= final(self).tokens@.len(),
            sp_import_names(
                old(self).tokens.deep_view(),
                old(self).position as int,
                old(acc).deep_view(),
            ) == (final(acc).deep_view(), final(self).position as int),
        decreases old(self).tokens@.len() - old(self).position,
    {
        let t = self.current_token();
        match t {
            Token::Identifier(nm) => {
                let ghost prev = acc.deep_view();
                let ghost nv = nm@;
                proof {
                    assert(self.position < self.tokens@.len());
                }
                acc.push(nm);
                proof {
                    assert(acc.deep_view() =~= prev.push(nv));
                }
                self.advance();
                let t2 = self.current_token();
                if matches!(t2, Token::Comma) {
                    proof {
                        assert(self.position < self.tokens@.len());
                    }
                    self.advance();
                    self.parse_import_names(acc);
                }
            },
            _ => {},
        }
    }

    /// Parses `import name (, name)*`.
    fn parse_import(&mut self) -> (r: Result<ASTNode, BellronosError>)
        requires
            old(self).position < old(self).tokens@.len(),
            cur(old(self).tokens.deep_view(), old(self).position as int) == TokenV::Import,
        ensures
            final(self).tokens == old(self).tokens,
            old(self).position <= final(self).position <= final(self).tokens@.len(),
            ({
                let s = sp_import(old(self).tokens.deep_view(), old(self).position as int);
                match r {
                    Ok(n) => s.0 == Ok::<AstV, Seq<char>>(n.deep_view()) && s.1 == final(self).position as int
                        && final(self).position > old(self).position,
                    Err(e) => s.0 matches Err(m) && e.deep_view() == ErrV::Parser(m),
                }
            }),
        decreases old(self).tokens@.len() - old(self).position, 8int,
    {
        self.advance();
        let mut names: Vec<String> = Vec::new();
        proof {
            assert(names.deep_view() =~= Seq::<Seq<char>>::empty());
        }
        self.parse_import_names(&mut names);
        match self.expect_newline() {
            Err(e) => Err(e),
            Ok(_) => {
                proof {
                    assert(crate::ast::names_view(names@) =~= names.deep_view());
                }
                Ok(ASTNode::Import { names })
            },
        }
    }
}

impl Parser {
    /// Parses `set name to expression`.
    fn parse_assignment(&mut self) -> (r: Result<ASTNode, BellronosError>)
        requires
            old(self).position < old(self).tokens@.len(),
            cur(old(self).tokens.deep_view(), old(self).position as int) == TokenV::SetKw,
        ensures
            final(self).tokens == old(self).tokens,
            old(self).position <= final(self).position <= final(self).tokens@.len(),
            ({
                let s = sp_assignment(old(self).tokens.deep_view(), old(self).position as int);
                match r {
                    Ok(n) => s.0 == Ok::<AstV, Seq<char>>(n.deep_view()) && s.1 == final(self).position as int
                        && final(self).position > old(self).position,
                    Err(e) => s.0 matches Err(m) && e.deep_view() == ErrV::Parser(m),
                }
            }),
        decreases old(self).tokens@.len() - old(self).position, 8int,
    {
        self.advance();
        let target = match self.expect_identifier() {
            Ok(nm) => nm,
            Err(e) => {
                return Err(e);
            },
        };
        match self.expect_token(Token::To) {
            Ok(_) => {},
            Err(e) => {
                return Err(e);
            },
        }
        let value = match self.parse_expression() {
            Ok(v) => v,
            Err(e) => {
                return Err(e);
            },
        };
        match self.expect_newline() {
            Ok(_) => {},
            Err(e) => {
                return Err(e);
            },
        }
        Ok(ASTNode::Assign { target, value: Box::new(value) })
    }

    /// Parses `return` with an optional value.
    fn parse_return(&mut self) -> (r: Result<ASTNode, BellronosError>)
        requires
            old(self).position < old(self).tokens@.len(),
            cur(old(self).tokens.deep_view(), old(self).position as int) == TokenV::Return,
        ensures
            final(self).tokens == old(self).tokens,
            old(self).position <= final(self).position <= final(self).tokens@.len(),
            ({
                let s = sp_return(old(self).tokens.deep_view(), old(self).position as int);
                match r {
                    Ok(n) => s.0 == Ok::<AstV, Seq<char>>(n.deep_view()) && s.1 == final(self).position as int
                        && final(self).position > old(self).position,
                    Err(e) => s.0 matches Err(m) && e.deep_view() == ErrV::Parser(m),
                }
            }),
        decreases old(self).tokens@.len() - old(self).position, 8int,
    {
        self.advance();
        let t = self.current_token();
        match t {
            Token::Newline => {
                self.advance();
                Ok(ASTNode::Return { value: None })
            },
            Token::EOF => Ok(ASTNode::Return { value: None }),
            _ => {
                let v = match self.parse_expression() {
                    Ok(v) => v,
                    Err(e) => {
                        return Err(e);
                    },
                };
                match self.expect_newline() {
                    Ok(_) => {},
                    Err(e) => {
                        return Err(e);
                    },
                }
                Ok(ASTNode::Return { value: Some(Box::new(v)) })
            },
        }
    }

    /// Parses `yield expression`.
    fn parse_yield(&mut self) -> (r: Result<ASTNode, BellronosError>)
        requires
            old(self).position < old(self).tokens@.len(),
            cur(old(self).tokens.deep_view(), old(self).position as int) == TokenV::Yield,
        ensures
            final(self).tokens == old(self).tokens,
            old(self).position <= final(self).position <= final(self).tokens@.len(),
            ({
                let s = sp_yield(old(self).tokens.deep_view(), old(self).position as int);
                match r {
                    Ok(n) => s.0 == Ok::<AstV, Seq<char>>(n.deep_view()) && s.1 == final(self).position as int
                        && final(self).position > old(self).position,
                    Err(e) => s.0 matches Err(m) && e.deep_view() == ErrV::Parser(m),
                }
            }),
        decreases old(self).tokens@.len() - old(self).position, 8int,
    {
        self.advance();
        let v = match self.parse_expression() {
            Ok(v) => v,
            Err(e) => {
                return Err(e);
            },
        };
        match self.expect_newline() {
            Ok(_) => {},
            Err(e) => {
                return Err(e);
            },
        }
        Ok(ASTNode::Yield { value: Box::new(v) })
    }

    /// Parses `closure ( params ) : expression`.
    fn parse_closure(&mut self) -> (r: Result<ASTNode, BellronosError>)
        requires
            old(self).position < old(self).tokens@.len(),
            cur(old(self).tokens.deep_view(), old(self).position as int) == TokenV::Closure,
        ensures
            final(self).tokens == old(self).tokens,
            old(self).position <= final(self).position <= final(self).tokens@.len(),
            ({
                let s = sp_closure(old(self).tokens.deep_view(), old(self).position as int);
                match r {
                    Ok(n) => s.0 == Ok::<AstV, Seq<char>>(n.deep_view()) && s.1 == final(self).position as int
                        && final(self).position > old(self).position,
                    Err(e) => s.0 matches Err(m) && e.deep_view() == ErrV::Parser(m),
                }
            }),
        decreases old(self).tokens@.len() - old(self).position, 8int,
    {
        self.advance();
        let params = match self.parse_function_args() {
            Ok(p) => p,
            Err(e) => {
                return Err(e);
            },
        };
        match self.expect_token(Token::Colon) {
            Ok(_) => {},
            Err(e) => {
                return Err(e);
            },
        }
        let body = match self.parse_expression() {
            Ok(b) => b,
            Err(e) => {
                return Err(e);
            },
        };
        let node = ASTNode::Closure { params: std::rc::Rc::new(params), body: std::rc::Rc::new(body) };
        proof {
            assert(crate::ast::params_view(node->Closure_params@) =~= node->Closure_params.deep_view());
        }
        Ok(node)
    }

    /// Parses `define name ( params ) -> type : NEWLINE block`.
    fn parse_function_def(&mut self) -> (r: Result<ASTNode, BellronosError>)
        requires
            old(self).position < old(self).tokens@.len(),
            cur(old(self).tokens.deep_view(), old(self).position as int) == TokenV::Define,
        ensures
            final(self).tokens == old(self).tokens,
            old(self).position <= final(self).position <= final(self).tokens@.len(),
            ({
                let s = sp_function_def(old(self).tokens.deep_view(), old(self).position as int);
                match r {
                    Ok(n) => s.0 == Ok::<AstV, Seq<char>>(n.deep_view()) && s.1 == final(self).position as int
                        && final(self).position > old(self).position,
                    Err(e) => s.0 matches Err(m) && e.deep_view() == ErrV::Parser(m),
                }
            }),
        decreases old(self).tokens@.len() - old(self).position, 8int,
    {
        self.advance();
        let name = match self.expect_identifier() {
            Ok(nm) => nm,
            Err(e) => {
                return Err(e);
            },
        };
        let args = match self.parse_function_args() {
            Ok(a) => a,
            Err(e) => {
                return Err(e);
            },
        };
        let return_type = match self.parse_return_type() {
            Ok(t) => t,
            Err(e) => {
                return Err(e);
            },
        };
        match self.expect_token(Token::Colon) {
            Ok(_) => {},
            Err(e) => {
                return Err(e);
            },
        }
        match self.expect_newline() {
            Ok(_) => {},
            Err(e) => {
                return Err(e);
            },
        }
        let mut body: Vec<ASTNode> = Vec::new();
        proof {
            assert(body.deep_view() =~= Seq::<AstV>::empty());
        }
        match self.parse_block_into(&mut body) {
            Ok(_) => {},
            Err(e) => {
                return Err(e);
            },
        }
        let node = ASTNode::FunctionDef {
            name,
            args: std::rc::Rc::new(args),
            return_type,
            body: std::rc::Rc::new(body),
        };
        proof {
            crate::ast::lemma_asts_view(node->FunctionDef_body@);
            assert(crate::ast::params_view(node->FunctionDef_args@)
                =~= node->FunctionDef_args.deep_view());
            assert(crate::ast::asts_view(node->FunctionDef_body@)
                =~= node->FunctionDef_body.deep_view());
        }
        Ok(node)
    }

    /// Parses `class name : NEWLINE block`.
    fn parse_class_def(&mut self) -> (r: Result<ASTNode, BellronosError>)
        requires
            old(self).position < old(self).tokens@.len(),
            cur(old(self).tokens.deep_view(), old(self).position as int) == TokenV::Class,
        ensures
            final(self).tokens == old(self).tokens,
            old(self).position <= final(self).position <= final(self).tokens@.len(),
            ({
                let s = sp_class_def(old(self).tokens.deep_view(), old(self).position as int);
                match r {
                    Ok(n) => s.0 == Ok::<AstV, Seq<char>>(n.deep_view()) && s.1 == final(self).position as int
                        && final(self).position > old(self).position,
                    Err(e) => s.0 matches Err(m) && e.deep_view() == ErrV::Parser(m),
                }
            }),
        decreases old(self).tokens@.len() - old(self).position, 8int,
    {
        self.advance();
        let name = match self.expect_identifier() {
            Ok(nm) => nm,
            Err(e) => {
                return Err(e);
            },
        };
        match self.expect_token(Token::Colon) {
            Ok(_) => {},
            Err(e) => {
                return Err(e);
            },
        }
        match self.expect_newline() {
            Ok(_) => {},
            Err(e) => {
                return Err(e);
            },
        }
        let mut methods: Vec<ASTNode> = Vec::new();
        proof {
            assert(methods.deep_view() =~= Seq::<AstV>::empty());
        }
        match self.parse_block_into(&mut methods) {
            Ok(_) => {},
            Err(e) => {
                return Err(e);
            },
        }
        let node = ASTNode::ClassDef { name, methods };
        proof {
            crate::ast::lemma_asts_view(node->ClassDef_methods@);
            assert(crate::ast::asts_view(node->ClassDef_methods@)
                =~= node->ClassDef_methods.deep_view());
        }
        Ok(node)
    }

    /// Parses `if expression : NEWLINE block (else : NEWLINE block)?`.
    fn parse_if(&mut self) -> (r: Result<ASTNode, BellronosError>)
        requires
            old(self).position < old(self).tokens@.len(),
            cur(old(self).tokens.deep_view(), old(self).position as int) == TokenV::If,
        ensures
            final(self).tokens == old(self).tokens,
            old(self).position <= final(self).position <= final(self).tokens@.len(),
            ({
                let s = sp_if(old(self).tokens.deep_view(), old(self).position as int);
                match r {
                    Ok(n) => s.0 == Ok::<AstV, Seq<char>>(n.deep_view()) && s.1 == final(self).position as int
                        && final(self).position > old(self).position,
                    Err(e) => s.0 matches Err(m) && e.deep_view() == ErrV::Parser(m),
                }
            }),
        decreases old(self).tokens@.len() - old(self).position, 8int,
    {
        self.advance();
        let condition = match self.parse_expression() {
            Ok(c) => c,
            Err(e) => {
                return Err(e);
            },
        };
        match self.expect_token(Token::Colon) {
            Ok(_) => {},
            Err(e) => {
                return Err(e);
            },
        }
        match self.expect_newline() {
            Ok(_) => {},
            Err(e) => {
                return Err(e);
            },
        }
        let mut body: Vec<ASTNode> = Vec::new();
        proof {
            assert(body.deep_view() =~= Seq::<AstV>::empty());
        }
        match self.parse_block_into(&mut body) {
            Ok(_) => {},
            Err(e) => {
                return Err(e);
            },
        }
        let mut orelse: Vec<ASTNode> = Vec::new();
        proof {
            assert(orelse.deep_view() =~= Seq::<AstV>::empty());
        }
        let t = self.current_token();
        if matches!(t, Token::Else) {
            self.advance();
            match self.expect_token(Token::Colon) {
                Ok(_) => {},
                Err(e) => {
                    return Err(e);
                },
            }
            match self.expect_newline() {
                Ok(_) => {},
                Err(e) => {
                    return Err(e);
                },
            }
            match self.parse_block_into(&mut orelse) {
                Ok(_) => {},
                Err(e) => {
                    return Err(e);
                },
            }
        }
        let node = ASTNode::If { condition: Box::new(condition), body, orelse };
        proof {
            crate::ast::lemma_asts_view(node->If_body@);
            crate::ast::lemma_asts_view(node->If_orelse@);
            assert(crate::ast::asts_view(node->If_body@) =~= node->If_body.deep_view());
            assert(crate::ast::asts_view(node->If_orelse@) =~= node->If_orelse.deep_view());
        }
        Ok(node)
    }

    /// Parses `while expression : NEWLINE block`.
    fn parse_while(&mut self) -> (r: Result<ASTNode, BellronosError>)
        requires
            old(self).position < old(self).tokens@.len(),
            cur(old(self).tokens.deep_view(), old(self).position as int) == TokenV::While,
        ensures
            final(self).tokens == old(self).tokens,
            old(self).position <= final(self).position <= final(self).tokens@.len(),
            ({
                let s = sp_while(old(self).tokens.deep_view(), old(self).position as int);
                match r {
                    Ok(n) => s.0 == Ok::<AstV, Seq<char>>(n.deep_view()) && s.1 == final(self).position as int
                        && final(self).position > old(self).position,
                    Err(e) => s.0 matches Err(m) && e.deep_view() == ErrV::Parser(m),
                }
            }),
        decreases old(self).tokens@.len() - old(self).position, 8int,
    {
        self.advance();
        let condition = match self.parse_expression() {
            Ok(c) => c,
            Err(e) => {
                return Err(e);
            },
        };
        match self.expect_token(Token::Colon) {
            Ok(_) => {},
            Err(e) => {
                return Err(e);
            },
        }
        match self.expect_newline() {
            Ok(_) => {},
            Err(e) => {
                return Err(e);
            },
        }
        let mut body: Vec<ASTNode> = Vec::new();
        proof {
            assert(body.deep_view() =~= Seq::<AstV>::empty());
        }
        match self.parse_block_into(&mut body) {
            Ok(_) => {},
            Err(e) => {
                return Err(e);
            },
        }
        let node = ASTNode::While { condition: Box::new(condition), body };
        proof {
            crate::ast::lemma_asts_view(node->While_body@);
            assert(crate::ast::asts_view(node->While_body@) =~= node->While_body.deep_view());
        }
        Ok(node)
    }

    /// Parses `for name in expression : NEWLINE block`.
    fn parse_for(&mut self) -> (r: Result<ASTNode, BellronosError>)
        requires
            old(self).position < old(self).tokens@.len(),
            cur(old(self).tokens.deep_view(), old(self).position as int) == TokenV::For,
        ensures
            final(self).tokens == old(self).tokens,
            old(self).position <= final(self).position <= final(self).tokens@.len(),
            ({
                let s = sp_for(old(self).tokens.deep_view(), old(self).position as int);
                match r {
                    Ok(n) => s.0 == Ok::<AstV, Seq<char>>(n.deep_view()) && s.1 == final(self).position as int
                        && final(self).position > old(self).position,
                    Err(e) => s.0 matches Err(m) && e.deep_view() == ErrV::Parser(m),
                }
            }),
        decreases old(self).tokens@.len() - old(self).position, 8int,
    {
        self.advance();
        let target = match self.expect_identifier() {
            Ok(nm) => nm,
            Err(e) => {
                return Err(e);
            },
        };
        match self.expect_token(Token::In) {
            Ok(_) => {},
            Err(e) => {
                return Err(e);
            },
        }
        let iter = match self.parse_expression() {
            Ok(i) => i,
            Err(e) => {
                return Err(e);
            },
        };
        match self.expect_token(Token::Colon) {
            Ok(_) => {},
            Err(e) => {
                return Err(e);
            },
        }
        match self.expect_newline() {
            Ok(_) => {},
            Err(e) => {
                return Err(e);
            },
        }
        let mut body: Vec<ASTNode> = Vec::new();
        proof {
            assert(body.deep_view() =~= Seq::<AstV>::empty());
        }
        match self.parse_block_into(&mut body) {
            Ok(_) => {},
            Err(e) => {
                return Err(e);
            },
        }
        let node = ASTNode::For { target, iter: Box::new(iter), body };
        proof {
            crate::ast::lemma_asts_view(node->For_body@);
            assert(crate::ast::asts_view(node->For_body@) =~= node->For_body.deep_view());
        }
        Ok(node)
    }

    /// Parses `async define ...`, held as an `Async` node.
    fn parse_async(&mut self) -> (r: Result<ASTNode, BellronosError>)
        requires
            old(self).position < old(self).tokens@.len(),
            cur(old(self).tokens.deep_view(), old(self).position as int) == TokenV::Async,
        ensures
            final(self).tokens == old(self).tokens,
            old(self).position <= final(self).position <= final(self).tokens@.len(),
            ({
                let s = sp_async(old(self).tokens.deep_view(), old(self).position as int);
                match r {
                    Ok(n) => s.0 == Ok::<AstV, Seq<char>>(n.deep_view()) && s.1 == final(self).position as int
                        && final(self).position > old(self).position,
                    Err(e) => s.0 matches Err(m) && e.deep_view() == ErrV::Parser(m),
                }
            }),
        decreases old(self).tokens@.len() - old(self).position, 8int,
    {
        self.advance();
        let t = self.current_token();
        if !matches!(t, Token::Define) {
            return Err(BellronosError::Parser(expect_message(&Token::Define, &t)));
        }
        let f = match self.parse_function_def() {
            Ok(f) => f,
            Err(e) => {
                return Err(e);
            },
        };
        let ghost fv = f.deep_view();
        let mut body: Vec<ASTNode> = Vec::new();
        body.push(f);
        let node = ASTNode::Async { body };
        proof {
            crate::ast::lemma_asts_view(node->Async_body@);
            assert(node->Async_body.deep_view() =~= seq![fv]);
            assert(crate::ast::asts_view(node->Async_body@) =~= seq![fv]);
        }
        Ok(node)
    }

    /// Parses an expression.
    fn parse_expression(&mut self) -> (r: Result<ASTNode, BellronosError>)
        requires
            old(self).position <= old(self).tokens@.len(),
        ensures
            final(self).tokens == old(self).tokens,
            old(self).position <= final(self).position <= final(self).tokens@.len(),
            ({
                let s = sp_expression(old(self).tokens.deep_view(), old(self).position as int);
                match r {
                    Ok(n) => s.0 == Ok::<AstV, Seq<char>>(n.deep_view()) && s.1 == final(self).position as int
                        && final(self).position > old(self).position,
                    Err(e) => s.0 matches Err(m) && e.deep_view() == ErrV::Parser(m),
                }
            }),
        decreases old(self).tokens@.len() - old(self).position, 4int,
    {
        self.parse_binary_operation()
    }

    /// Parses a chain of binary operations, left associative.
    fn parse_binary_operation(&mut self) -> (r: Result<ASTNode, BellronosError>)
        requires
            old(self).position <= old(self).tokens@.len(),
        ensures
            final(self).tokens == old(self).tokens,
            old(self).position <= final(self).position <= final(self).tokens@.len(),
            ({
                let s = sp_expression(old(self).tokens.deep_view(), old(self).position as int);
                match r {
                    Ok(n) => s.0 == Ok::<AstV, Seq<char>>(n.deep_view()) && s.1 == final(self).position as int
                        && final(self).position > old(self).position,
                    Err(e) => s.0 matches Err(m) && e.deep_view() == ErrV::Parser(m),
                }
            }),
        decreases old(self).tokens@.len() - old(self).position, 3int,
    {
        let ghost ts = self.tokens.deep_view();
        let ghost pos0 = self.position as int;
        let ghost toks0 = self.tokens;
        let mut left = match self.parse_unary() {
            Ok(l) => l,
            Err(e) => {
                return Err(e);
            },
        };
        let ghost target = sp_binop_rest(ts, self.position as int, left.deep_view());
        proof {
            assert(sp_expression(ts, pos0).0 == target.0 && sp_expression(ts, pos0).1 == target.1);
        }
        while op_token(&self.current_token()).is_some()
            invariant
                self.tokens == toks0,
                pos0 < self.position <= self.tokens@.len(),
                sp_binop_rest(ts, self.position as int, left.deep_view()) == target,
            decreases self.tokens@.len() - self.position,
        {
            let t = self.current_token();
            let op = match op_token(&t) {
                Some(o) => o,
                None => {
                    proof {
                        assert(false);
                    }
                    return Err(BellronosError::Parser(String::new()));
                },
            };
            proof {
                assert(self.position < self.tokens@.len());
            }
            self.advance();
            let right = match self.parse_unary() {
                Ok(rr) => rr,
                Err(e) => {
                    return Err(e);
                },
            };
            left = ASTNode::BinOp { left: Box::new(left), op, right: Box::new(right) };
        }
        Ok(left)
    }

    /// Parses a unary expression; a leading minus subtracts from zero.
    fn parse_unary(&mut self) -> (r: Result<ASTNode, BellronosError>)
        requires
            old(self).position <= old(self).tokens@.len(),
        ensures
            final(self).tokens == old(self).tokens,
            old(self).position <= final(self).position <= final(self).tokens@.len(),
            ({
                let s = sp_unary(old(self).tokens.deep_view(), old(self).position as int);
                match r {
                    Ok(n) => s.0 == Ok::<AstV, Seq<char>>(n.deep_view()) && s.1 == final(self).position as int
                        && final(self).position > old(self).position,
                    Err(e) => s.0 matches Err(m) && e.deep_view() == ErrV::Parser(m),
                }
            }),
        decreases old(self).tokens@.len() - old(self).position, 2int,
    {
        let t = self.current_token();
        if matches!(t, Token::Minus) {
            proof {
                assert(self.position < self.tokens@.len());
            }
            self.advance();
            let e = match self.parse_unary() {
                Ok(e) => e,
                Err(er) => {
                    return Err(er);
                },
            };
            proof {
                assert(crate::ast::ast_view(ASTNode::Num { value: 0 }) == (AstV::Num {
                    value: 0,
                }));
            }
            Ok(
                ASTNode::BinOp {
                    left: Box::new(ASTNode::Num { value: 0 }),
                    op: Op::Sub,
                    right: Box::new(e),
                },
            )
        } else {
            self.parse_primary()
        }
    }

    /// Parses a primary expression.
    fn parse_primary(&mut self) -> (r: Result<ASTNode, BellronosError>)
        requires
            old(self).position <= old(self).tokens@.len(),
        ensures
            final(self).tokens == old(self).tokens,
            old(self).position <= final(self).position <= final(self).tokens@.len(),
            ({
                let s = sp_primary(old(self).tokens.deep_view(), old(self).position as int);
                match r {
                    Ok(n) => s.0 == Ok::<AstV, Seq<char>>(n.deep_view()) && s.1 == final(self).position as int
                        && final(self).position > old(self).position,
                    Err(e) => s.0 matches Err(m) && e.deep_view() == ErrV::Parser(m),
                }
            }),
        decreases old(self).tokens@.len() - old(self).position, 1int,
    {
        let t = self.current_token();
        match t {
            Token::Identifier(nm) => {
                proof {
                    assert(self.position < self.tokens@.len());
                }
                self.advance();
                let t2 = self.current_token();
                if matches!(t2, Token::LeftParen) {
                    self.parse_function_call(nm)
                } else {
                    Ok(ASTNode::Name { id: nm })
                }
            },
            Token::String(v) => {
                proof {
                    assert(self.position < self.tokens@.len());
                }
                self.advance();
                Ok(ASTNode::Str { value: v })
            },
            Token::Number(b) => {
                proof {
                    assert(self.position < self.tokens@.len());
                }
                self.advance();
                Ok(ASTNode::Num { value: b })
            },
            Token::True => {
                proof {
                    assert(self.position < self.tokens@.len());
                }
                self.advance();
                Ok(ASTNode::Bool { value: true })
            },
            Token::False => {
                proof {
                    assert(self.position < self.tokens@.len());
                }
                self.advance();
                Ok(ASTNode::Bool { value: false })
            },
            Token::LeftParen => {
                proof {
                    assert(self.position < self.tokens@.len());
                }
                self.advance();
                let e = match self.parse_expression() {
                    Ok(e) => e,
                    Err(er) => {
                        return Err(er);
                    },
                };
                match self.expect_token(Token::RightParen) {
                    Ok(_) => Ok(e),
                    Err(er) => Err(er),
                }
            },
            Token::LeftBracket => self.parse_list(),
            Token::LeftBrace => self.parse_dict(),
            other => Err(BellronosError::Parser(unexpected_message(&other))),
        }
    }

    /// Parses the argument list of a call; the cursor sits on `(`.
    fn parse_function_call(&mut self, func: String) -> (r: Result<ASTNode, BellronosError>)
        requires
            old(self).position < old(self).tokens@.len(),
            cur(old(self).tokens.deep_view(), old(self).position as int) == TokenV::LeftParen,
        ensures
            final(self).tokens == old(self).tokens,
            old(self).position <= final(self).position <= final(self).tokens@.len(),
            ({
                let s = sp_call_tail(old(self).tokens.deep_view(), old(self).position as int, func@);
                match r {
                    Ok(n) => s.0 == Ok::<AstV, Seq<char>>(n.deep_view()) && s.1 == final(self).position as int
                        && final(self).position > old(self).position,
                    Err(e) => s.0 matches Err(m) && e.deep_view() == ErrV::Parser(m),
                }
            }),
        decreases old(self).tokens@.len() - old(self).position, 0int,
    {
        self.advance();
        let t = self.current_token();
        if matches!(t, Token::RightParen) {
            self.advance();
            let node = ASTNode::Call { func, args: Vec::new() };
            proof {
                crate::ast::lemma_asts_view(node->Call_args@);
                assert(crate::ast::asts_view(node->Call_args@) =~= Seq::<AstV>::empty());
            }
            return Ok(node);
        }
        let mut args: Vec<ASTNode> = Vec::new();
        proof {
            assert(args.deep_view() =~= Seq::<AstV>::empty());
        }
        match self.parse_expr_list_into(&mut args) {
            Ok(_) => {},
            Err(e) => {
                return Err(e);
            },
        }
        match self.expect_token(Token::RightParen) {
            Ok(_) => {},
            Err(e) => {
                return Err(e);
            },
        }
        let node = ASTNode::Call { func, args };
        proof {
            crate::ast::lemma_asts_view(node->Call_args@);
            assert(crate::ast::asts_view(node->Call_args@) =~= node->Call_args.deep_view());
        }
        Ok(node)
    }

    /// Parses comma-separated expressions into `acc`.
    fn parse_expr_list_into(&mut self, acc: &mut Vec<ASTNode>) -> (r: Result<(), BellronosError>)
        requires
            old(self).position <= old(self).tokens@.len(),
        ensures
            final(self).tokens == old(self).tokens,
            old(self).position <= final(self).position <= final(self).tokens@.len(),
            ({
                let s = sp_expr_list(
                    old(self).tokens.deep_view(),
                    old(self).position as int,
                    old(acc).deep_view(),
                );
                match r {
                    Ok(_) => s.0 == Ok::<Seq<AstV>, Seq<char>>(final(acc).deep_view()) && s.1
                        == final(self).position as int && final(self).position > old(self).position,
                    Err(e) => s.0 matches Err(m) && e.deep_view() == ErrV::Parser(m),
                }
            }),
        decreases old(self).tokens@.len() - old(self).position, 5int,
    {
        let e = match self.parse_expression() {
            Ok(e) => e,
            Err(er) => {
                return Err(er);
            },
        };
        let ghost prev = acc.deep_view();
        let ghost ev = e.deep_view();
        acc.push(e);
        proof {
            assert(acc.deep_view() =~= prev.push(ev));
        }
        let t = self.current_token();
        if matches!(t, Token::Comma) {
            proof {
                assert(self.position < self.tokens@.len());
            }
            self.advance();
            self.parse_expr_list_into(acc)
        } else {
            Ok(())
        }
    }

    /// Parses comma-separated `key : value` pairs into `acc`.
    fn parse_dict_items_into(&mut self, acc: &mut Vec<(ASTNode, ASTNode)>) -> (r: Result<
        (),
        BellronosError,
    >)
        requires
            old(self).position <= old(self).tokens@.len(),
        ensures
            final(self).tokens == old(self).tokens,
            old(self).position <= final(self).position <= final(self).tokens@.len(),
            ({
                let s = sp_dict_items(
                    old(self).tokens.deep_view(),
                    old(self).position as int,
                    old(acc).deep_view(),
                );
                match r {
                    Ok(_) => s.0 == Ok::<Seq<(AstV, AstV)>, Seq<char>>(final(acc).deep_view())
                        && s.1 == final(self).position as int && final(self).position > old(
                        self,
                    ).position,
                    Err(e) => s.0 matches Err(m) && e.deep_view() == ErrV::Parser(m),
                }
            }),
        decreases old(self).tokens@.len() - old(self).position, 5int,
    {
        let k = match self.parse_expression() {
            Ok(k) => k,
            Err(er) => {
                return Err(er);
            },
        };
        match self.expect_token(Token::Colon) {
            Ok(_) => {},
            Err(e) => {
                return Err(e);
            },
        }
        let v = match self.parse_expression() {
            Ok(v) => v,
            Err(er) => {
                return Err(er);
            },
        };
        let ghost prev = acc.deep_view();
        let ghost kv = (k.deep_view(), v.deep_view());
        acc.push((k, v));
        proof {
            assert(acc.deep_view() =~= prev.push(kv));
        }
        let t = self.current_token();
        if matches!(t, Token::Comma) {
            proof {
                assert(self.position < self.tokens@.len());
            }
            self.advance();
            self.parse_dict_items_into(acc)
        } else {
            Ok(())
        }
    }

    /// Parses a list literal; the cursor sits on `[`.
    fn parse_list(&mut self) -> (r: Result<ASTNode, BellronosError>)
        requires
            old(self).position < old(self).tokens@.len(),
            cur(old(self).tokens.deep_view(), old(self).position as int) == TokenV::LeftBracket,
        ensures
            final(self).tokens == old(self).tokens,
            old(self).position <= final(self).position <= final(self).tokens@.len(),
            ({
                let s = sp_list_tail(old(self).tokens.deep_view(), old(self).position as int);
                match r {
                    Ok(n) => s.0 == Ok::<AstV, Seq<char>>(n.deep_view()) && s.1 == final(self).position as int
                        && final(self).position > old(self).position,
                    Err(e) => s.0 matches Err(m) && e.deep_view() == ErrV::Parser(m),
                }
            }),
        decreases old(self).tokens@.len() - old(self).position, 0int,
    {
        self.advance();
        let t = self.current_token();
        if matches!(t, Token::RightBracket) {
            self.advance();
            let node = ASTNode::List { elements: Vec::new() };
            proof {
                crate::ast::lemma_asts_view(node->List_elements@);
                assert(crate::ast::asts_view(node->List_elements@) =~= Seq::<AstV>::empty());
            }
            return Ok(node);
        }
        let mut elements: Vec<ASTNode> = Vec::new();
        proof {
            assert(elements.deep_view() =~= Seq::<AstV>::empty());
        }
        match self.parse_expr_list_into(&mut elements) {
            Ok(_) => {},
            Err(e) => {
                return Err(e);
            },
        }
        match self.expect_token(Token::RightBracket) {
            Ok(_) => {},
            Err(e) => {
                return Err(e);
            },
        }
        let node = ASTNode::List { elements };
        proof {
            crate::ast::lemma_asts_view(node->List_elements@);
            assert(crate::ast::asts_view(node->List_elements@)
                =~= node->List_elements.deep_view());
        }
        Ok(node)
    }

    /// Parses a dictionary literal; the cursor sits on `{`.
    fn parse_dict(&mut self) -> (r: Result<ASTNode, BellronosError>)
        requires
            old(self).position < old(self).tokens@.len(),
            cur(old(self).tokens.deep_view(), old(self).position as int) == TokenV::LeftBrace,
        ensures
            final(self).tokens == old(self).tokens,
            old(self).position <= final(self).position <= final(self).tokens@.len(),
            ({
                let s = sp_dict_tail(old(self).tokens.deep_view(), old(self).position as int);
                match r {
                    Ok(n) => s.0 == Ok::<AstV, Seq<char>>(n.deep_view()) && s.1 == final(self).position as int
                        && final(self).position > old(self).position,
                    Err(e) => s.0 matches Err(m) && e.deep_view() == ErrV::Parser(m),
                }
            }),
        decreases old(self).tokens@.len() - old(self).position, 0int,
    {
        self.advance();
        let t = self.current_token();
        if matches!(t, Token::RightBrace) {
            self.advance();
            let node = ASTNode::Dict { pairs: Vec::new() };
            proof {
                crate::ast::lemma_ast_pairs_view(node->Dict_pairs@);
                assert(crate::ast::ast_pairs_view(node->Dict_pairs@) =~= Seq::<(
                    AstV,
                    AstV,
                )>::empty());
            }
            return Ok(node);
        }
        let mut pairs: Vec<(ASTNode, ASTNode)> = Vec::new();
        proof {
            assert(pairs.deep_view() =~= Seq::<(AstV, AstV)>::empty());
        }
        match self.parse_dict_items_into(&mut pairs) {
            Ok(_) => {},
            Err(e) => {
                return Err(e);
            },
        }
        match self.expect_token(Token::RightBrace) {
            Ok(_) => {},
            Err(e) => {
                return Err(e);
            },
        }
        let node = ASTNode::Dict { pairs };
        proof {
            crate::ast::lemma_ast_pairs_view(node->Dict_pairs@);
            assert(crate::ast::ast_pairs_view(node->Dict_pairs@)
                =~= node->Dict_pairs.deep_view());
        }
        Ok(node)
    }

    /// Parses a parenthesised parameter list.
    fn parse_function_args(&mut self) -> (r: Result<Vec<(String, Type)>, BellronosError>)
        requires
            old(self).position <= old(self).tokens@.len(),
        ensures
            final(self).tokens == old(self).tokens,
            old(self).position <= final(self).position <= final(self).tokens@.len(),
            ({
                let s = sp_params(old(self).tokens.deep_view(), old(self).position as int);
                match r {
                    Ok(v) => s.0 == Ok::<Seq<(Seq<char>, TypeV)>, Seq<char>>(v.deep_view()) && s.1
                        == final(self).position as int && final(self).position > old(self).position,
                    Err(e) => s.0 matches Err(m) && e.deep_view() == ErrV::Parser(m),
                }
            }),
        decreases old(self).tokens@.len() - old(self).position, 7int,
    {
        match self.expect_token(Token::LeftParen) {
            Ok(_) => {},
            Err(e) => {
                return Err(e);
            },
        }
        let t = self.current_token();
        if matches!(t, Token::RightParen) {
            self.advance();
            let empty: Vec<(String, Type)> = Vec::new();
            proof {
                assert(empty.deep_view() =~= Seq::<(Seq<char>, TypeV)>::empty());
            }
            return Ok(empty);
        }
        let mut items: Vec<(String, Type)> = Vec::new();
        proof {
            assert(items.deep_view() =~= Seq::<(Seq<char>, TypeV)>::empty());
        }
        match self.parse_params_items_into(&mut items) {
            Ok(_) => {},
            Err(e) => {
                return Err(e);
            },
        }
        match self.expect_token(Token::RightParen) {
            Ok(_) => {},
            Err(e) => {
                return Err(e);
            },
        }
        Ok(items)
    }

    /// Parses `name : type`, comma separated, into `acc`.
    fn parse_params_items_into(&mut self, acc: &mut Vec<(String, Type)>) -> (r: Result<
        (),
        BellronosError,
    >)
        requires
            old(self).position <= old(self).tokens@.len(),
        ensures
            final(self).tokens == old(self).tokens,
            old(self).position <= final(self).position <= final(self).tokens@.len(),
            ({
                let s = sp_params_items(
                    old(self).tokens.deep_view(),
                    old(self).position as int,
                    old(acc).deep_view(),
                );
                match r {
                    Ok(_) => s.0 == Ok::<Seq<(Seq<char>, TypeV)>, Seq<char>>(
                        final(acc).deep_view(),
                    ) && s.1 == final(self).position as int && final(self).position > old(
                        self,
                    ).position,
                    Err(e) => s.0 matches Err(m) && e.deep_view() == ErrV::Parser(m),
                }
            }),
        decreases old(self).tokens@.len() - old(self).position, 6int,
    {
        let nm = match self.expect_identifier() {
            Ok(nm) => nm,
            Err(e) => {
                return Err(e);
            },
        };
        match self.expect_token(Token::Colon) {
            Ok(_) => {},
            Err(e) => {
                return Err(e);
            },
        }
        let ty = match self.parse_type() {
            Ok(t) => t,
            Err(e) => {
                return Err(e);
            },
        };
        let ghost prev = acc.deep_view();
        let ghost pv = (nm@, ty.deep_view());
        acc.push((nm, ty));
        proof {
            assert(acc.deep_view() =~= prev.push(pv));
        }
        let t = self.current_token();
        if matches!(t, Token::Comma) {
            proof {
                assert(self.position < self.tokens@.len());
            }
            self.advance();
            self.parse_params_items_into(acc)
        } else {
            Ok(())
        }
    }

    /// Parses the declared return type after `->`, or `NoneType`.
    fn parse_return_type(&mut self) -> (r: Result<Type, BellronosError>)
        requires
            old(self).position <= old(self).tokens@.len(),
        ensures
            final(self).tokens == old(self).tokens,
            old(self).position <= final(self).position <= final(self).tokens@.len(),
            ({
                let s = sp_return_type(old(self).tokens.deep_view(), old(self).position as int);
                match r {
                    Ok(t) => s.0 == Ok::<TypeV, Seq<char>>(t.deep_view()) && s.1 == final(self).position as int,
                    Err(e) => s.0 matches Err(m) && e.deep_view() == ErrV::Parser(m),
                }
            }),
        decreases old(self).tokens@.len() - old(self).position, 6int,
    {
        let t = self.current_token();
        if matches!(t, Token::Arrow) {
            proof {
                assert(self.position < self.tokens@.len());
            }
            self.advance();
            self.parse_type()
        } else {
            Ok(Type::NoneType)
        }
    }

    /// Parses a type annotation.
    fn parse_type(&mut self) -> (r: Result<Type, BellronosError>)
        requires
            old(self).position <= old(self).tokens@.len(),
        ensures
            final(self).tokens == old(self).tokens,
            old(self).position <= final(self).position <= final(self).tokens@.len(),
            ({
                let s = sp_type(old(self).tokens.deep_view(), old(self).position as int);
                match r {
                    Ok(t) => s.0 == Ok::<TypeV, Seq<char>>(t.deep_view()) && s.1 == final(self).position as int
                        && final(self).position > old(self).position,
                    Err(e) => s.0 matches Err(m) && e.deep_view() == ErrV::Parser(m),
                }
            }),
        decreases old(self).tokens@.len() - old(self).position, 5int,
    {
        let t = self.current_token();
        let nm = match t {
            Token::Identifier(nm) => nm,
            _ => {
                return Err(BellronosError::Parser(String::from_str("Expected type")));
            },
        };
        proof {
            assert(self.position < self.tokens@.len());
        }
        self.advance();
        if str_eq(nm.as_str(), "int") {
            Ok(Type::Int)
        } else if str_eq(nm.as_str(), "float") {
            Ok(Type::Float)
        } else if str_eq(nm.as_str(), "string") {
            Ok(Type::String)
        } else if str_eq(nm.as_str(), "bool") {
            Ok(Type::Bool)
        } else if str_eq(nm.as_str(), "list") {
            match self.expect_token(Token::LeftBracket) {
                Ok(_) => {},
                Err(e) => {
                    return Err(e);
                },
            }
            let inner = match self.parse_type() {
                Ok(t) => t,
                Err(e) => {
                    return Err(e);
                },
            };
            match self.expect_token(Token::RightBracket) {
                Ok(_) => {},
                Err(e) => {
                    return Err(e);
                },
            }
            Ok(Type::List(Box::new(inner)))
        } else if str_eq(nm.as_str(), "dict") {
            match self.expect_token(Token::LeftBrace) {
                Ok(_) => {},
                Err(e) => {
                    return Err(e);
                },
            }
            let kt = match self.parse_type() {
                Ok(t) => t,
                Err(e) => {
                    return Err(e);
                },
            };
            match self.expect_token(Token::Colon) {
                Ok(_) => {},
                Err(e) => {
                    return Err(e);
                },
            }
            let vt = match self.parse_type() {
                Ok(t) => t,
                Err(e) => {
                    return Err(e);
                },
            };
            match self.expect_token(Token::RightBrace) {
                Ok(_) => {},
                Err(e) => {
                    return Err(e);
                },
            }
            Ok(Type::Dict(Box::new(kt), Box::new(vt)))
        } else {
            Ok(Type::Custom(nm))
        }
    }
}

} // verus!
