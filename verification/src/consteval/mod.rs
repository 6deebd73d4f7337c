use vstd::prelude::*;
use crate::ast::statements::expressions::{Expr, ExprSyntax, ExprV, LiteralValue, SynV, expr_view, lemma_exprs_view};
use crate::common::sourcemap::SourceMap;
use crate::common::utils::chars::{append_decimal, decimal};
use crate::common::utils::labels::str_eq;
use crate::compiler::compile_message::{CompileMessage, MsgV, NoteV, emit, error_msg, msg_view, msgs_view};
use crate::compiler::CompileMessageType;

verus! {

pub open spec fn overflow_text() -> Seq<char> {
    "arithmetic overflow in constant expression"@
}

pub open spec fn division_text() -> Seq<char> {
    "division by zero in constant expression"@
}

/// Applying the binary operator written `tk` to two constant lengths: the
/// four arithmetic operators on unsigned numbers, where a result out of the
/// range of `u128` or a division by zero is an error.
pub open spec fn binary_const(smap: SourceMap, tk: Seq<char>, l: u128, r: u128) -> Result<u128, MsgV> {
    if tk == "+"@ {
        if l + r > u128::MAX { Err(error_msg(smap, overflow_text())) } else { Ok((l + r) as u128) }
    } else if tk == "-"@ {
        if l < r { Err(error_msg(smap, overflow_text())) } else { Ok((l - r) as u128) }
    } else if tk == "*"@ {
        if l * r > u128::MAX { Err(error_msg(smap, overflow_text())) } else { Ok((l * r) as u128) }
    } else if tk == "/"@ {
        if r == 0 { Err(error_msg(smap, division_text())) } else { Ok((l / r) as u128) }
    } else {
        Err(error_msg(smap, "Unknown binary operator: "@ + tk))
    }
}

/// The value of a constant length expression, or the error that it gives:
/// integer literals, the four arithmetic operators, parentheses around one
/// expression, and a call `a(b)`, which multiplies. Everything else is an
/// error about the whole expression.
pub open spec fn const_len(e: SynV) -> Result<u128, MsgV>
    decreases e,
{
    match e.data {
        ExprV::Literal(lit) => match lit {
            LiteralValue::Integer(i) => Ok(i),
            _ => Err(error_msg(e.smap, "only integer literals are allowed in constant expressions"@)),
        },
        ExprV::Identifier(ident) => Err(
            error_msg(e.smap, "non-const identifier found in constant expression: "@ + ident@),
        ),
        ExprV::Array(_) => Err(error_msg(e.smap, "array expressions are not allowed in constant expressions"@)),
        ExprV::Index(_, _) => Err(error_msg(e.smap, "array expressions are not allowed in constant expressions"@)),
        ExprV::Tuple(values) => if values.len() != 1 {
            Err(error_msg(e.smap, "Expected single expression, got tuple"@))
        } else {
            const_len(values[0])
        },
        ExprV::Binary(op, lhs, rhs) => match const_len(*lhs) {
            Err(m) => Err(m),
            Ok(l) => match const_len(*rhs) {
                Err(m) => Err(m),
                Ok(r) => binary_const(e.smap, op.tk@, l, r),
            },
        },
        ExprV::Unary(op, operand) => match const_len(*operand) {
            Err(m) => Err(m),
            Ok(_) => if op.tk@ == "-"@ {
                Err(error_msg(e.smap, "Cannot negate unsigned expression"@))
            } else {
                Err(error_msg(e.smap, "Unknown unary operator: "@ + op.tk@))
            },
        },
        ExprV::Cast(_, _) => Err(error_msg(e.smap, "cast expressions are not allowed in constant expressions"@)),
        ExprV::Member(_, _) => Err(error_msg(e.smap, "member access is not allowed in constant expressions"@)),
        ExprV::Call(caller, args) => match const_len(*caller) {
            Err(m) => Err(m),
            Ok(c) => if args.len() != 1 {
                Err(error_msg(e.smap, "Expected 1 argument, got "@ + decimal(args.len())))
            } else {
                match const_len(args[0]) {
                    Err(m) => Err(m),
                    Ok(v) => if c * v > u128::MAX {
                        Err(error_msg(e.smap, overflow_text()))
                    } else {
                        Ok((c * v) as u128)
                    },
                }
            },
        },
        ExprV::GenericCall(_, _, _, _) => Err(error_msg(e.smap, "generic calls are not allowed in constant expressions"@)),
        ExprV::NullPtr => Err(error_msg(e.smap, "this expression is not allowed in constant expressions"@)),
        ExprV::Lambda(_, _, _, _) => Err(error_msg(e.smap, "this expression is not allowed in constant expressions"@)),
    }
}

fn fail(msgs: &mut Vec<CompileMessage>, smap: &SourceMap, text: String) -> (r: Option<u128>)
    ensures
        r is None,
        msgs_view(final(msgs)@) == msgs_view(old(msgs)@).push(error_msg(*smap, text@)),
{
    let m = CompileMessage::new(smap.duplicate(), text, CompileMessageType::Error);
    assert(msg_view(m).notes =~= Seq::<NoteV>::empty());
    emit(msgs, m);
    None
}

fn text_with(a: &str, b: &str) -> (r: String)
    ensures
        r@ == a@ + b@,
{
    let mut s = String::from_str(a);
    s.append(b);
    s
}

fn eval_binary(msgs: &mut Vec<CompileMessage>, smap: &SourceMap, tk: &str, l: u128, r: u128) -> (res: Option<u128>)
    ensures
        match binary_const(*smap, tk@, l, r) {
            Ok(v) => res == Some(v) && final(msgs)@ == old(msgs)@,
            Err(m) => res is None && msgs_view(final(msgs)@) == msgs_view(old(msgs)@).push(m),
        },
{
    if str_eq(tk, "+") {
        match l.checked_add(r) {
            Some(v) => Some(v),
            None => fail(msgs, smap, String::from_str("arithmetic overflow in constant expression")),
        }
    } else if str_eq(tk, "-") {
        match l.checked_sub(r) {
            Some(v) => Some(v),
            None => fail(msgs, smap, String::from_str("arithmetic overflow in constant expression")),
        }
    } else if str_eq(tk, "*") {
        match l.checked_mul(r) {
            Some(v) => Some(v),
            None => fail(msgs, smap, String::from_str("arithmetic overflow in constant expression")),
        }
    } else if str_eq(tk, "/") {
        if r == 0 {
            fail(msgs, smap, String::from_str("division by zero in constant expression"))
        } else {
            Some(l / r)
        }
    } else {
        fail(msgs, smap, text_with("Unknown binary operator: ", tk))
    }
}

/// The value of a constant array length (see `const_len`); on an error the
/// message is added to `msgs` and there is no value.
pub fn eval_array_len_expr_uint(expr: &ExprSyntax, msgs: &mut Vec<CompileMessage>) -> (r: Option<u128>)
    ensures
        match const_len(expr_view(*expr)) {
            Ok(v) => r == Some(v) && final(msgs)@ == old(msgs)@,
            Err(m) => r is None && msgs_view(final(msgs)@) == msgs_view(old(msgs)@).push(m),
        },
    decreases *expr,
{
    let smap = &expr.smap;
    match &expr.data {
        Expr::Literal(lit) => match lit {
            LiteralValue::Integer(i) => Some(*i),
            _ => fail(msgs, smap, String::from_str("only integer literals are allowed in constant expressions")),
        },
        Expr::Identifier(ident) => fail(
            msgs,
            smap,
            text_with("non-const identifier found in constant expression: ", ident.as_str()),
        ),
        Expr::Array(_) => fail(msgs, smap, String::from_str("array expressions are not allowed in constant expressions")),
        Expr::Index(_) => fail(msgs, smap, String::from_str("array expressions are not allowed in constant expressions")),
        Expr::Tuple(values) => {
            proof {
                lemma_exprs_view(values@);
            }
            if values.len() != 1 {
                fail(msgs, smap, String::from_str("Expected single expression, got tuple"))
            } else {
                assert(decreases_to!(*expr => values@[0]));
                proof {
                    lemma_exprs_view(values@);
                }
                eval_array_len_expr_uint(&values[0], msgs)
            }
        },
        Expr::BinaryOp(op) => {
            let l = match eval_array_len_expr_uint(&op.lhs, msgs) {
                Some(v) => v,
                None => return None,
            };
            let r = match eval_array_len_expr_uint(&op.rhs, msgs) {
                Some(v) => v,
                None => return None,
            };
            eval_binary(msgs, smap, op.op.tk, l, r)
        },
        Expr::UnaryOp(op) => {
            match eval_array_len_expr_uint(&op.operand, msgs) {
                Some(_) => {},
                None => return None,
            }
            if str_eq(op.op.tk, "-") {
                fail(msgs, smap, String::from_str("Cannot negate unsigned expression"))
            } else {
                fail(msgs, smap, text_with("Unknown unary operator: ", op.op.tk))
            }
        },
        Expr::CastOp(_) => fail(msgs, smap, String::from_str("cast expressions are not allowed in constant expressions")),
        Expr::MemberAccess(_) => fail(msgs, smap, String::from_str("member access is not allowed in constant expressions")),
        Expr::CallOp(op) => {
            let c = match eval_array_len_expr_uint(&op.caller, msgs) {
                Some(v) => v,
                None => return None,
            };
            proof {
                lemma_exprs_view(op.arguments@);
            }
            if op.arguments.len() != 1 {
                let mut t = String::from_str("Expected 1 argument, got ");
                append_decimal(&mut t, op.arguments.len() as u128);
                fail(msgs, smap, t)
            } else {
                assert(decreases_to!(*expr => op.arguments@[0]));
                proof {
                    lemma_exprs_view(op.arguments@);
                }
                let v = match eval_array_len_expr_uint(&op.arguments[0], msgs) {
                    Some(v) => v,
                    None => return None,
                };
                match c.checked_mul(v) {
                    Some(p) => Some(p),
                    None => fail(msgs, smap, String::from_str("arithmetic overflow in constant expression")),
                }
            }
        },
        Expr::GenericCall(_) => fail(msgs, smap, String::from_str("generic calls are not allowed in constant expressions")),
        Expr::NullPtr => fail(msgs, smap, String::from_str("this expression is not allowed in constant expressions")),
        Expr::Lambda(_) => fail(msgs, smap, String::from_str("this expression is not allowed in constant expressions")),
    }
}

} // verus!

verus! {

/// The four operators of constant lengths are exact arithmetic on
/// unsigned numbers: `+`, `-` and `*` give the sum, difference and product
/// when it lies in `0..=u128::MAX` and an error otherwise, and `/` gives the
/// quotient rounded down (`q * r <= l < (q + 1) * r`), an error when `r` is
/// zero.
pub proof fn law_binary_const_arithmetic(smap: SourceMap, l: u128, r: u128)
    ensures
        binary_const(smap, "+"@, l, r) matches Ok(v) ==> v == l + r,
        binary_const(smap, "+"@, l, r) is Err <==> l + r > u128::MAX,
        binary_const(smap, "-"@, l, r) matches Ok(v) ==> v == l - r,
        binary_const(smap, "-"@, l, r) is Err <==> l < r,
        binary_const(smap, "*"@, l, r) matches Ok(v) ==> v == l * r,
        binary_const(smap, "*"@, l, r) is Err <==> l * r > u128::MAX,
        r != 0 ==> (binary_const(smap, "/"@, l, r) matches Ok(q) && q * r <= l && l < (q + 1) * r),
        r == 0 <==> binary_const(smap, "/"@, l, r) is Err,
{
    reveal_strlit("+");
    reveal_strlit("-");
    reveal_strlit("*");
    reveal_strlit("/");
    assert("+"@ != "-"@ && "+"@ != "*"@ && "+"@ != "/"@) by {
        assert("+"@[0] != "-"@[0] && "+"@[0] != "*"@[0] && "+"@[0] != "/"@[0]);
    }
    assert("-"@ != "*"@ && "-"@ != "/"@ && "*"@ != "/"@) by {
        assert("-"@[0] != "*"@[0] && "-"@[0] != "/"@[0] && "*"@[0] != "/"@[0]);
    }
    if r != 0 {
        let q = l / r;
        assert(q * r <= l && l < (q + 1) * r) by (nonlinear_arith)
            requires
                r > 0,
                q == l / r,
        {
        }
    }
}

} // verus!
