use vstd::prelude::*;
use crate::lambda_parser::tokenization::{
    BindingPower, MINBP, NumericalLiteral, Operator, Token, TokenHelpers, TokenV, lemma_tokens_view_len, token_view,
    tokens_view,
};

use crate::lambda_jit::lambda_il::{Instruction, InstrV, instr_view};
use crate::lambda_jit::decimal::Dec;

verus! {

/// An expression of a program.
#[derive(Debug)]
pub enum ExprNode {
    CallOperation { caller: String, args: Vec<ExprNode> },
    BinaryOperation { op: &'static str, operands: Box<(ExprNode, ExprNode)> },
    UnaryOperation { op: &'static str, operand: Box<ExprNode> },
    FBinaryOperation { op: &'static str, operands: Box<(ExprNode, ExprNode)> },
    IBinaryOperation { op: &'static str, operands: Box<(ExprNode, ExprNode)> },
    FUnaryOperation { op: &'static str, operand: Box<ExprNode> },
    IUnaryOperation { op: &'static str, operand: Box<ExprNode> },
    CastInt(Box<ExprNode>),
    CastFloat(Box<ExprNode>),
    Ident(String),
    Num(NumericalLiteral),
    IntNum(i64),
    Void,
    /// An expression that could not be read, with the reason.
    Error(String),
    /// A call whose caller is itself an expression.
    CallExpr { caller: Box<ExprNode>, args: Vec<ExprNode> },
    /// An instruction of the machine, placed as it is.
    InlineInstruction(Instruction),
    /// The argument with this number of the function being compiled.
    Argument(usize),
    /// A decimal number.
    Number(Dec),
    /// A function definition: its name and its body.
    FunctionDecl { ident: String, expr: Box<ExprNode> },
}

/// An expression as plain values.
pub enum ExprV {
    Call(Seq<char>, Seq<ExprV>),
    Binary(Seq<char>, Box<ExprV>, Box<ExprV>),
    Unary(Seq<char>, Box<ExprV>),
    FBinary(Seq<char>, Box<ExprV>, Box<ExprV>),
    IBinary(Seq<char>, Box<ExprV>, Box<ExprV>),
    FUnary(Seq<char>, Box<ExprV>),
    IUnary(Seq<char>, Box<ExprV>),
    CastInt(Box<ExprV>),
    CastFloat(Box<ExprV>),
    Ident(Seq<char>),
    Num(Seq<char>, u8),
    IntNum(i64),
    Void,
    Error(Seq<char>),
    CallExpr(Box<ExprV>, Seq<ExprV>),
    Inline(InstrV),
    Argument(usize),
    Number(Dec),
    FunctionDecl(Seq<char>, Box<ExprV>),
}

pub open spec fn exprs_view(es: Seq<ExprNode>) -> Seq<ExprV>
    decreases es,
{
    if es.len() == 0 {
        Seq::empty()
    } else {
        seq![expr_view(es[0])] + exprs_view(es.subrange(1, es.len() as int))
    }
}

/// The expression as a plain value.
pub open spec fn expr_view(e: ExprNode) -> ExprV
    decreases e,
{
    match e {
        ExprNode::CallOperation { caller, args } => ExprV::Call(caller@, exprs_view(args@)),
        ExprNode::BinaryOperation { op, operands } => ExprV::Binary(
            op@,
            Box::new(expr_view(operands.0)),
            Box::new(expr_view(operands.1)),
        ),
        ExprNode::UnaryOperation { op, operand } => ExprV::Unary(op@, Box::new(expr_view(*operand))),
        ExprNode::FBinaryOperation { op, operands } => ExprV::FBinary(
            op@,
            Box::new(expr_view(operands.0)),
            Box::new(expr_view(operands.1)),
        ),
        ExprNode::IBinaryOperation { op, operands } => ExprV::IBinary(
            op@,
            Box::new(expr_view(operands.0)),
            Box::new(expr_view(operands.1)),
        ),
        ExprNode::FUnaryOperation { op, operand } => ExprV::FUnary(op@, Box::new(expr_view(*operand))),
        ExprNode::IUnaryOperation { op, operand } => ExprV::IUnary(op@, Box::new(expr_view(*operand))),
        ExprNode::CastInt(x) => ExprV::CastInt(Box::new(expr_view(*x))),
        ExprNode::CastFloat(x) => ExprV::CastFloat(Box::new(expr_view(*x))),
        ExprNode::Ident(s) => ExprV::Ident(s@),
        ExprNode::Num(n) => ExprV::Num(n.literal@, n.flags),
        ExprNode::IntNum(i) => ExprV::IntNum(i),
        ExprNode::Void => ExprV::Void,
        ExprNode::Error(s) => ExprV::Error(s@),
        ExprNode::CallExpr { caller, args } => ExprV::CallExpr(Box::new(expr_view(*caller)), exprs_view(args@)),
        ExprNode::InlineInstruction(i) => ExprV::Inline(instr_view(i)),
        ExprNode::Argument(u) => ExprV::Argument(u),
        ExprNode::Number(d) => ExprV::Number(d),
        ExprNode::FunctionDecl { ident, expr } => ExprV::FunctionDecl(ident@, Box::new(expr_view(*expr))),
    }
}

/// Whether an expression computes on integers (`Some(true)`), on floating
/// numbers (`Some(false)`), or cannot tell (`None`); a call goes by its
/// first argument.
pub open spec fn integer_operation(e: ExprV) -> Option<bool>
    decreases e,
{
    match e {
        ExprV::Call(_, args) => if args.len() == 0 {
            None
        } else {
            integer_operation(args[0])
        },
        ExprV::FBinary(..) => Some(false),
        ExprV::IBinary(..) => Some(true),
        ExprV::FUnary(..) => Some(false),
        ExprV::IUnary(..) => Some(true),
        ExprV::CastInt(_) => Some(true),
        ExprV::CastFloat(_) => Some(false),
        ExprV::IntNum(_) => Some(true),
        _ => None,
    }
}

/// The size of tokens, a group counting with everything in it.
pub open spec fn weight(ts: Seq<TokenV>) -> nat
    decreases ts,
{
    if ts.len() == 0 {
        0
    } else {
        token_weight(ts[0]) + weight(ts.subrange(1, ts.len() as int))
    }
}

pub open spec fn token_weight(t: TokenV) -> nat
    decreases t,
{
    match t {
        TokenV::Group(g) => 1 + weight(g),
        _ => 1,
    }
}

pub open spec fn starts_expression(ts: Seq<TokenV>) -> bool {
    ts.len() > 0 && ts[0].is_expression()
}

pub open spec fn end_message() -> Seq<char> {
    "Didnt expect end of tokens"@
}

pub open spec fn unary_message(tok: Seq<char>) -> Seq<char> {
    "Expected unary operator, got "@ + tok
}

pub open spec fn binary_message(tok: Seq<char>) -> Seq<char> {
    "Expected binary operator or ',', got "@ + tok
}

pub open spec fn caller_message() -> Seq<char> {
    "Expected function identifier, got expression"@
}

/// The binding power an operand after a unary operator is read with.
pub open spec fn unary_bp() -> i32 {
    99990
}

/// The binding power the right operand of an implied multiplication is
/// read with.
pub open spec fn implied_mul_bp() -> i32 {
    21
}

/// Reading an expression whose operators bind at least `min_bp` from the
/// tokens `ts`: the expression (or an error) and the tokens left. When the
/// tokens do not start an expression, the expression says so.
pub open spec fn make_spec(ts: Seq<TokenV>, min_bp: i32) -> (Result<ExprV, Seq<char>>, Seq<TokenV>)
    decreases weight(ts), 1nat,
{
    if !starts_expression(ts) {
        (Ok(ExprV::Error(end_message())), ts)
    } else {
        make_first(ts[0], ts.subrange(1, ts.len() as int), min_bp)
    }
}

/// Reading an expression that starts with the token `t`, followed by
/// `rest`: the first operand, then the operators after it.
pub open spec fn make_first(t: TokenV, rest: Seq<TokenV>, min_bp: i32) -> (Result<ExprV, Seq<char>>, Seq<TokenV>)
    decreases token_weight(t) + weight(rest), 0nat,
{
    let first: (Result<ExprV, Seq<char>>, Seq<TokenV>) = match t {
        TokenV::Ident(s) => (Ok(ExprV::Ident(s)), rest),
        TokenV::Num(l, f) => (Ok(ExprV::Num(l, f)), rest),
        TokenV::Operator(tok, bp) => match bp {
            BindingPower::Unary | BindingPower::BinaryOrUnary(_, _) => {
                let (r, rest2) = make_spec(rest, unary_bp());
                match r {
                    Ok(x) => (Ok(ExprV::Unary(tok, Box::new(x))), rest2),
                    Err(e) => (Err(e), rest2),
                }
            },
            _ => (Err(unary_message(tok)), rest),
        },
        TokenV::Group(g) => (make_spec(g, MINBP).0, rest),
        _ => (Ok(ExprV::Void), rest),
    };
    match first.0 {
        Err(e) => (Err(e), first.1),
        Ok(lhs) => if weight(first.1) <= weight(rest) {
            continue_spec(lhs, first.1, min_bp)
        } else {
            (Ok(lhs), first.1)
        },
    }
}

/// Reading the operators after the operand `lhs`: a name or number after
/// it multiplies; a binary operator binding at least `min_bp` takes the
/// next operand; a group calls `lhs`, which must be a name; a separator,
/// or an operator binding less, ends the expression.
pub open spec fn continue_spec(lhs: ExprV, ts: Seq<TokenV>, min_bp: i32) -> (Result<ExprV, Seq<char>>, Seq<TokenV>)
    decreases weight(ts), 2nat,
{
    if !starts_expression(ts) {
        (Ok(lhs), ts)
    } else {
        let rest = ts.subrange(1, ts.len() as int);
        match ts[0] {
            TokenV::Ident(_) | TokenV::Num(_, _) => {
                let (r, ts3) = make_first(ts[0], rest, implied_mul_bp());
                match r {
                    Err(e) => (Err(e), ts3),
                    Ok(x) => if weight(ts3) < weight(ts) {
                        continue_spec(ExprV::Binary(seq!['*'], Box::new(lhs), Box::new(x)), ts3, min_bp)
                    } else {
                        (Ok(lhs), ts3)
                    },
                }
            },
            TokenV::Operator(tok, bp) => match bp {
                BindingPower::Seperator => (Ok(lhs), ts),
                BindingPower::Unary => (Err(binary_message(tok)), ts),
                BindingPower::Binary(l, r) | BindingPower::BinaryOrUnary(l, r) => if l < min_bp {
                    (Ok(lhs), ts)
                } else {
                    let (rr, ts3) = make_spec(rest, r);
                    match rr {
                        Err(e) => (Err(e), ts3),
                        Ok(x) => if weight(ts3) < weight(ts) {
                            continue_spec(ExprV::Binary(tok, Box::new(lhs), Box::new(x)), ts3, min_bp)
                        } else {
                            (Ok(lhs), ts3)
                        },
                    }
                },
            },
            TokenV::Group(g) => match {
                proof {
                    assert(weight(ts) == token_weight(ts[0]) + weight(rest));
                    assert(token_weight(ts[0]) == 1 + weight(g));
                }
                call_args_spec(g, Seq::empty())
            } {
                Err(e) => (Err(e), rest),
                Ok(args) => {
                    let next = match lhs {
                        ExprV::Ident(s) => ExprV::Call(s, args),
                        _ => ExprV::Error(caller_message()),
                    };
                    proof {
                        assert(weight(ts) == token_weight(ts[0]) + weight(rest));
                    }
                    continue_spec(next, rest, min_bp)
                },
            },
            _ => (Ok(lhs), ts),
        }
    }
}

/// Reading the arguments of a call from the tokens of its group: each
/// argument, and a separator after it that is skipped.
pub open spec fn call_args_spec(ts: Seq<TokenV>, acc: Seq<ExprV>) -> Result<Seq<ExprV>, Seq<char>>
    decreases weight(ts), 3nat,
{
    if !starts_expression(ts) {
        Ok(acc)
    } else {
        let (r, ts2) = make_spec(ts, MINBP);
        match r {
            Err(e) => Err(e),
            Ok(x) => {
                let ts3 = if ts2.len() > 0 && ts2[0] matches TokenV::Operator(_, BindingPower::Seperator) {
                    ts2.subrange(1, ts2.len() as int)
                } else {
                    ts2
                };
                if weight(ts3) < weight(ts) {
                    call_args_spec(ts3, acc.push(x))
                } else {
                    Ok(acc.push(x))
                }
            },
        }
    }
}

pub proof fn lemma_weight_split(ts: Seq<TokenV>)
    requires
        ts.len() > 0,
    ensures
        weight(ts) == token_weight(ts[0]) + weight(ts.subrange(1, ts.len() as int)),
        token_weight(ts[0]) >= 1,
{
}

/// Reading an expression leaves no more tokens than it was given, and
/// fewer when the tokens start an expression.
pub proof fn lemma_make_weight(ts: Seq<TokenV>, min_bp: i32)
    ensures
        weight(make_spec(ts, min_bp).1) <= weight(ts),
        starts_expression(ts) ==> weight(make_spec(ts, min_bp).1) < weight(ts),
    decreases weight(ts), 1nat,
{
    if starts_expression(ts) {
        lemma_weight_split(ts);
        lemma_first_weight(ts[0], ts.subrange(1, ts.len() as int), min_bp);
    }
}

proof fn lemma_first_weight(t: TokenV, rest: Seq<TokenV>, min_bp: i32)
    ensures
        weight(make_first(t, rest, min_bp).1) <= weight(rest),
    decreases token_weight(t) + weight(rest), 0nat,
{
    match t {
        TokenV::Operator(tok, bp) => match bp {
            BindingPower::Unary | BindingPower::BinaryOrUnary(_, _) => {
                lemma_make_weight(rest, unary_bp());
            },
            _ => {},
        },
        _ => {},
    }
    let first: (Result<ExprV, Seq<char>>, Seq<TokenV>) = match t {
        TokenV::Ident(s) => (Ok(ExprV::Ident(s)), rest),
        TokenV::Num(l, f) => (Ok(ExprV::Num(l, f)), rest),
        TokenV::Operator(tok, bp) => match bp {
            BindingPower::Unary | BindingPower::BinaryOrUnary(_, _) => {
                let (r, rest2) = make_spec(rest, unary_bp());
                match r {
                    Ok(x) => (Ok(ExprV::Unary(tok, Box::new(x))), rest2),
                    Err(e) => (Err(e), rest2),
                }
            },
            _ => (Err(unary_message(tok)), rest),
        },
        TokenV::Group(g) => (make_spec(g, MINBP).0, rest),
        _ => (Ok(ExprV::Void), rest),
    };
    assert(weight(first.1) <= weight(rest));
    match first.0 {
        Err(e) => {},
        Ok(lhs) => {
            lemma_continue_weight(lhs, first.1, min_bp);
        },
    }
}

proof fn lemma_continue_weight(lhs: ExprV, ts: Seq<TokenV>, min_bp: i32)
    ensures
        weight(continue_spec(lhs, ts, min_bp).1) <= weight(ts),
    decreases weight(ts), 2nat,
{
    if starts_expression(ts) {
        let rest = ts.subrange(1, ts.len() as int);
        lemma_weight_split(ts);
        match ts[0] {
            TokenV::Ident(_) | TokenV::Num(_, _) => {
                lemma_first_weight(ts[0], rest, implied_mul_bp());
                let (r, ts3) = make_first(ts[0], rest, implied_mul_bp());
                match r {
                    Ok(x) => {
                        lemma_continue_weight(ExprV::Binary(seq!['*'], Box::new(lhs), Box::new(x)), ts3, min_bp);
                    },
                    _ => {},
                }
            },
            TokenV::Operator(tok, bp) => match bp {
                BindingPower::Binary(l, r) | BindingPower::BinaryOrUnary(l, r) => if l >= min_bp {
                    lemma_make_weight(rest, r);
                    let (rr, ts3) = make_spec(rest, r);
                    match rr {
                        Ok(x) => {
                            lemma_continue_weight(ExprV::Binary(tok, Box::new(lhs), Box::new(x)), ts3, min_bp);
                        },
                        _ => {},
                    }
                },
                _ => {},
            },
            TokenV::Group(g) => match call_args_spec(g, Seq::empty()) {
                Ok(args) => {
                    let next = match lhs {
                        ExprV::Ident(s) => ExprV::Call(s, args),
                        _ => ExprV::Error(caller_message()),
                    };
                    lemma_continue_weight(next, rest, min_bp);
                },
                _ => {},
            },
            _ => {},
        }
    }
}

/// A result of reading an expression, as plain values.
pub open spec fn result_view(r: Result<ExprNode, String>) -> Result<ExprV, Seq<char>> {
    match r {
        Ok(e) => Ok(expr_view(e)),
        Err(m) => Err(m@),
    }
}

pub proof fn lemma_exprs_view_push(es: Seq<ExprNode>, e: ExprNode)
    ensures
        exprs_view(es.push(e)) == exprs_view(es).push(expr_view(e)),
    decreases es.len(),
{
    if es.len() == 0 {
        assert(es.push(e).subrange(1, 1) =~= Seq::<ExprNode>::empty());
        assert(exprs_view(Seq::<ExprNode>::empty()) == Seq::<ExprV>::empty());
        assert(es.push(e)[0] == e);
        assert(exprs_view(es.push(e)) =~= seq![expr_view(e)]);
        assert(exprs_view(es) == Seq::<ExprV>::empty());
    } else {
        assert(es.push(e).subrange(1, es.len() + 1int) =~= es.subrange(1, es.len() as int).push(e));
        lemma_exprs_view_push(es.subrange(1, es.len() as int), e);
        assert(exprs_view(es.push(e)) =~= exprs_view(es).push(expr_view(e)));
    }
}

/// Takes the first token; the view of the rest is the rest of the view.
fn pop_front(tks: &mut Vec<Token>) -> (t: Token)
    requires
        old(tks)@.len() > 0,
    ensures
        final(tks)@ == old(tks)@.subrange(1, old(tks)@.len() as int),
        t == old(tks)@[0],
        tokens_view(old(tks)@) == seq![token_view(t)] + tokens_view(final(tks)@),
        tokens_view(old(tks)@)[0] == token_view(t),
        tokens_view(final(tks)@) == tokens_view(old(tks)@).subrange(1, tokens_view(old(tks)@).len() as int),
{
    proof {
        lemma_tokens_view_len(old(tks)@);
    }
    let t = tks.remove(0);
    assert(tks@ =~= old(tks)@.subrange(1, old(tks)@.len() as int));
    assert(tokens_view(old(tks)@).subrange(1, tokens_view(old(tks)@).len() as int) =~= tokens_view(tks@));
    t
}

impl ExprNode {
    /// Whether the expression computes on integers (see
    /// `integer_operation`).
    pub fn is_integer_operation(&self) -> (r: Option<bool>)
        ensures
            r == integer_operation(expr_view(*self)),
        decreases *self,
    {
        match self {
            ExprNode::CallOperation { caller: _, args } => {
                if args.len() == 0 {
                    None
                } else {
                    assert(exprs_view(args@)[0] == expr_view(args@[0]));
                    assert(decreases_to!(*self => args@[0]));
                    args[0].is_integer_operation()
                }
            },
            ExprNode::FBinaryOperation { .. } => Some(false),
            ExprNode::IBinaryOperation { .. } => Some(true),
            ExprNode::FUnaryOperation { .. } => Some(false),
            ExprNode::IUnaryOperation { .. } => Some(true),
            ExprNode::CastInt(_) => Some(true),
            ExprNode::CastFloat(_) => Some(false),
            ExprNode::Ident(_) => None,
            ExprNode::IntNum(_) => Some(true),
            ExprNode::Num(_) => None,
            ExprNode::BinaryOperation { .. } => None,
            ExprNode::UnaryOperation { .. } => None,
            ExprNode::Void => None,
            ExprNode::Error(_) => None,
            ExprNode::CallExpr { .. } => None,
            ExprNode::InlineInstruction(_) => None,
            ExprNode::Argument(_) => None,
            ExprNode::Number(_) => None,
            ExprNode::FunctionDecl { .. } => None,
        }
    }

    /// Reads an expression from the front of the tokens (see `make_spec`),
    /// leaving the tokens after it.
    pub fn from_tokens(tks: &mut Vec<Token>) -> (r: Result<ExprNode, String>)
        ensures
            (result_view(r), tokens_view(final(tks)@)) == make_spec(tokens_view(old(tks)@), MINBP),
    {
        Self::make(tks, MINBP)
    }

    fn make(tks: &mut Vec<Token>, min_bp: i32) -> (r: Result<ExprNode, String>)
        ensures
            (result_view(r), tokens_view(final(tks)@)) == make_spec(tokens_view(old(tks)@), min_bp),
        decreases weight(tokens_view(old(tks)@)), 1nat,
    {
        proof {
            lemma_tokens_view_len(tks@);
        }
        if !tks.next_is_expr() {
            proof {
                reveal_strlit("Didnt expect end of tokens");
            }
            return Ok(ExprNode::Error(String::from_str("Didnt expect end of tokens")));
        }
        let t = pop_front(tks);
        Self::make_first(t, tks, min_bp)
    }

    fn make_first(t: Token, tks: &mut Vec<Token>, min_bp: i32) -> (r: Result<ExprNode, String>)
        ensures
            (result_view(r), tokens_view(final(tks)@)) == make_first(token_view(t), tokens_view(old(tks)@), min_bp),
        decreases token_weight(token_view(t)) + weight(tokens_view(old(tks)@)), 0nat,
    {
        let ghost rest = tokens_view(tks@);
        let lhs = match t {
            Token::Ident(s) => ExprNode::Ident(s),
            Token::Num(n) => ExprNode::Num(n),
            Token::Operator(op) => match op.bp {
                BindingPower::Unary | BindingPower::BinaryOrUnary(_, _) => {
                    proof {
                        lemma_make_weight(rest, unary_bp());
                    }
                    let rhs = Self::make(tks, 99990)?;
                    ExprNode::UnaryOperation { op: op.token, operand: Box::new(rhs) }
                },
                _ => {
                    let mut m = String::from_str("Expected unary operator, got ");
                    m.append(op.token);
                    proof {
                        reveal_strlit("Expected unary operator, got ");
                    }
                    return Err(m);
                },
            },
            Token::ParenthesesGroup(grp) => {
                let mut g = grp;
                proof {
                    assert(token_weight(token_view(Token::ParenthesesGroup(g))) == 1 + weight(tokens_view(g@)));
                }
                Self::make(&mut g, MINBP)?
            },
            _ => ExprNode::Void,
        };
        proof {
            lemma_make_weight(rest, unary_bp());
            assert(weight(tokens_view(tks@)) <= weight(rest));
        }
        Self::continue_expr(lhs, tks, min_bp)
    }

    /// Reads the operators after `lhs` (see `continue_spec`).
    fn continue_expr(first: ExprNode, tks: &mut Vec<Token>, min_bp: i32) -> (r: Result<ExprNode, String>)
        ensures
            (result_view(r), tokens_view(final(tks)@)) == continue_spec(expr_view(first), tokens_view(old(tks)@), min_bp),
        decreases weight(tokens_view(old(tks)@)), 2nat,
    {
        let ghost target = continue_spec(expr_view(first), tokens_view(tks@), min_bp);
        let ghost w0 = weight(tokens_view(tks@));
        let ghost lhs0 = expr_view(first);
        let mut lhs = first;
        loop
            invariant
                continue_spec(expr_view(lhs), tokens_view(tks@), min_bp) == target,
                target == continue_spec(lhs0, tokens_view(old(tks)@), min_bp),
                lhs0 == expr_view(first),
                weight(tokens_view(tks@)) <= w0,
                w0 == weight(tokens_view(old(tks)@)),
            decreases weight(tokens_view(tks@)),
        {
            proof {
                lemma_tokens_view_len(tks@);
            }
            if !tks.next_is_expr() {
                return Ok(lhs);
            }
            let ghost ts = tokens_view(tks@);
            proof {
                lemma_weight_split(ts);
            }
            let kind: u8 = match &tks[0] {
                Token::Ident(_) | Token::Num(_) => 0,
                Token::Operator(_) => 1,
                Token::ParenthesesGroup(_) => 2,
                _ => 3,
            };
            if kind == 0 {
                let t = pop_front(tks);
                proof {
                    lemma_first_weight(token_view(t), tokens_view(tks@), implied_mul_bp());
                }
                let x = Self::make_first(t, tks, 21)?;
                proof {
                    reveal_strlit("*");
                    assert("*"@ =~= seq!['*']);
                }
                lhs = ExprNode::BinaryOperation { op: "*", operands: Box::new((lhs, x)) };
            } else if kind == 1 {
                let op = match &tks[0] {
                    Token::Operator(o) => *o,
                    _ => {
                        proof {
                            assert(false);
                        }
                        unreached()
                    },
                };
                match op.bp {
                    BindingPower::Seperator => {
                        return Ok(lhs);
                    },
                    BindingPower::Unary => {
                        let mut m = String::from_str("Expected binary operator or ',', got ");
                        m.append(op.token);
                        proof {
                            reveal_strlit("Expected binary operator or ',', got ");
                        }
                        return Err(m);
                    },
                    BindingPower::Binary(l, r) | BindingPower::BinaryOrUnary(l, r) => {
                        if l < min_bp {
                            return Ok(lhs);
                        }
                        let _ = pop_front(tks);
                        proof {
                            lemma_make_weight(tokens_view(tks@), r);
                        }
                        let x = Self::make(tks, r)?;
                        lhs = ExprNode::BinaryOperation { op: op.token, operands: Box::new((lhs, x)) };
                    },
                }
            } else if kind == 2 {
                let t = pop_front(tks);
                match t {
                    Token::ParenthesesGroup(grp) => {
                        let mut g = grp;
                        let args = Self::parse_call(&mut g)?;
                        lhs = match lhs {
                            ExprNode::Ident(s) => ExprNode::CallOperation { caller: s, args },
                            _ => {
                                proof {
                                    reveal_strlit("Expected function identifier, got expression");
                                }
                                ExprNode::Error(String::from_str("Expected function identifier, got expression"))
                            },
                        };
                    },
                    _ => {
                        proof {
                            assert(false);
                        }
                    },
                }
            } else {
                return Ok(lhs);
            }
        }
    }

    /// Reads the arguments of a call from the tokens of its group (see
    /// `call_args_spec`).
    fn parse_call(tks: &mut Vec<Token>) -> (r: Result<Vec<ExprNode>, String>)
        ensures
            match call_args_spec(tokens_view(old(tks)@), Seq::empty()) {
                Ok(es) => r matches Ok(v) && exprs_view(v@) == es,
                Err(e) => r matches Err(m) && m@ == e,
            },
        decreases weight(tokens_view(old(tks)@)), 3nat,
    {
        let mut res: Vec<ExprNode> = Vec::new();
        let ghost target = call_args_spec(tokens_view(tks@), Seq::empty());
        let ghost w0 = weight(tokens_view(tks@));
        assert(exprs_view(res@) =~= Seq::<ExprV>::empty());
        loop
            invariant
                call_args_spec(tokens_view(tks@), exprs_view(res@)) == target,
                target == call_args_spec(tokens_view(old(tks)@), Seq::empty()),
                weight(tokens_view(tks@)) <= w0,
                w0 == weight(tokens_view(old(tks)@)),
            decreases weight(tokens_view(tks@)),
        {
            proof {
                lemma_tokens_view_len(tks@);
            }
            if !tks.next_is_expr() {
                return Ok(res);
            }
            let ghost ts = tokens_view(tks@);
            proof {
                lemma_make_weight(ts, MINBP);
            }
            let arg = Self::make(tks, MINBP)?;
            proof {
                lemma_exprs_view_push(res@, arg);
                lemma_tokens_view_len(tks@);
            }
            res.push(arg);
            let sep = tks.len() > 0 && match &tks[0] {
                Token::Operator(o) => match o.bp {
                    BindingPower::Seperator => true,
                    _ => false,
                },
                _ => false,
            };
            if sep {
                let ghost before = tokens_view(tks@);
                let _ = pop_front(tks);
                proof {
                    lemma_weight_split(before);
                }
            }
        }
    }
}

} // verus!

verus! {

/// The binding power the operator table gives the operator written `s`,
/// the one the tokenizer reads at the start of `s`.
pub open spec fn table_bp(s: Seq<char>) -> BindingPower {
    match crate::lambda_parser::tokenization::first_entry(crate::lambda_parser::tokenization::operator_entries(), s, 0, 0) {
        Some(k) => crate::lambda_parser::tokenization::operator_entries()[k].1,
        None => BindingPower::Seperator,
    }
}

proof fn lemma_weight_plain(s: Seq<TokenV>)
    requires
        forall|i: int| 0 <= i < s.len() ==> !(#[trigger] s[i] is Group),
    ensures
        weight(s) == s.len(),
    decreases s.len(),
{
    if s.len() > 0 {
        let r = s.subrange(1, s.len() as int);
        assert forall|i: int| 0 <= i < r.len() implies !(#[trigger] r[i] is Group) by {
            assert(r[i] == s[i + 1]);
        }
        lemma_weight_plain(r);
        assert(!(s[0] is Group));
        assert(token_weight(s[0]) == 1);
        assert(weight(s) == token_weight(s[0]) + weight(r));
    }
}

proof fn lemma_table_bp_arith()
    ensures
        table_bp(seq!['+']) == BindingPower::BinaryOrUnary(10, 11),
        table_bp(seq!['-']) == BindingPower::BinaryOrUnary(10, 11),
        table_bp(seq!['*']) == BindingPower::Binary(20, 21),
        table_bp(seq!['/']) == BindingPower::Binary(20, 21),
{
    let e = crate::lambda_parser::tokenization::operator_entries();
    reveal_with_fuel(crate::lambda_parser::tokenization::first_entry, 14);
    assert(seq!['+'].subrange(0, 1) =~= seq!['+']);
    assert(seq!['-'].subrange(0, 1) =~= seq!['-']);
    assert(seq!['*'].subrange(0, 1) =~= seq!['*']);
    assert(seq!['/'].subrange(0, 1) =~= seq!['/']);
    assert(seq!['+'] != seq!['-'] && seq!['+'] != seq!['*'] && seq!['+'] != seq!['/']) by {
        assert(seq!['+'][0] != seq!['-'][0] && seq!['+'][0] != seq!['*'][0] && seq!['+'][0] != seq!['/'][0]);
    }
    assert(seq!['-'] != seq!['*'] && seq!['-'] != seq!['/'] && seq!['*'] != seq!['/']) by {
        assert(seq!['-'][0] != seq!['*'][0] && seq!['-'][0] != seq!['/'][0] && seq!['*'][0] != seq!['/'][0]);
    }
}

/// Multiplicative operators bind tighter than additive ones, with the
/// binding powers of the operator table: `x + y / z` reads as
/// `x + (y / z)` and `x / y + z` as `(x / y) + z`, for `+` or `-` and `*`
/// or `/`, whatever the names.
pub proof fn law_multiplicative_binds_tighter(x: Seq<char>, y: Seq<char>, z: Seq<char>, add: Seq<char>, mul: Seq<char>)
    requires
        add == seq!['+'] || add == seq!['-'],
        mul == seq!['*'] || mul == seq!['/'],
    ensures
        make_spec(
            seq![TokenV::Ident(x), TokenV::Operator(add, table_bp(add)), TokenV::Ident(y), TokenV::Operator(mul, table_bp(mul)), TokenV::Ident(z)],
            MINBP,
        ) == (
            Ok::<ExprV, Seq<char>>(ExprV::Binary(
                add,
                Box::new(ExprV::Ident(x)),
                Box::new(ExprV::Binary(mul, Box::new(ExprV::Ident(y)), Box::new(ExprV::Ident(z)))),
            )),
            Seq::<TokenV>::empty(),
        ),
        make_spec(
            seq![TokenV::Ident(x), TokenV::Operator(mul, table_bp(mul)), TokenV::Ident(y), TokenV::Operator(add, table_bp(add)), TokenV::Ident(z)],
            MINBP,
        ) == (
            Ok::<ExprV, Seq<char>>(ExprV::Binary(
                add,
                Box::new(ExprV::Binary(mul, Box::new(ExprV::Ident(x)), Box::new(ExprV::Ident(y)))),
                Box::new(ExprV::Ident(z)),
            )),
            Seq::<TokenV>::empty(),
        ),
{
    lemma_table_bp_arith();
    let tx = TokenV::Ident(x);
    let ty = TokenV::Ident(y);
    let tz = TokenV::Ident(z);
    let ta = TokenV::Operator(add, table_bp(add));
    let tm = TokenV::Operator(mul, table_bp(mul));
    let e = Seq::<TokenV>::empty();
    let ex = ExprV::Ident(x);
    let ey = ExprV::Ident(y);
    let ez = ExprV::Ident(z);
    // x add y mul z
    let s5 = seq![tx, ta, ty, tm, tz];
    let s4 = seq![ta, ty, tm, tz];
    let s3 = seq![ty, tm, tz];
    let s2 = seq![tm, tz];
    let s1 = seq![tz];
    assert(s5.subrange(1, 5) =~= s4);
    assert(s4.subrange(1, 4) =~= s3);
    assert(s3.subrange(1, 3) =~= s2);
    assert(s2.subrange(1, 2) =~= s1);
    assert(s1.subrange(1, 1) =~= e);
    lemma_weight_plain(s5);
    lemma_weight_plain(s4);
    lemma_weight_plain(s3);
    lemma_weight_plain(s2);
    lemma_weight_plain(s1);
    lemma_weight_plain(e);
    assert(continue_spec(ez, e, 21) == (Ok::<ExprV, Seq<char>>(ez), e));
    assert(make_first(tz, e, 21) == (Ok::<ExprV, Seq<char>>(ez), e));
    assert(make_spec(s1, 21) == (Ok::<ExprV, Seq<char>>(ez), e));
    let ymz = ExprV::Binary(mul, Box::new(ey), Box::new(ez));
    assert(continue_spec(ymz, e, 11) == (Ok::<ExprV, Seq<char>>(ymz), e));
    assert(continue_spec(ey, s2, 11) == (Ok::<ExprV, Seq<char>>(ymz), e));
    assert(make_first(ty, s2, 11) == (Ok::<ExprV, Seq<char>>(ymz), e));
    assert(make_spec(s3, 11) == (Ok::<ExprV, Seq<char>>(ymz), e));
    let whole = ExprV::Binary(add, Box::new(ex), Box::new(ymz));
    assert(continue_spec(whole, e, MINBP) == (Ok::<ExprV, Seq<char>>(whole), e));
    assert(continue_spec(ex, s4, MINBP) == (Ok::<ExprV, Seq<char>>(whole), e));
    assert(make_first(tx, s4, MINBP) == (Ok::<ExprV, Seq<char>>(whole), e));
    // x mul y add z
    let u5 = seq![tx, tm, ty, ta, tz];
    let u4 = seq![tm, ty, ta, tz];
    let u3 = seq![ty, ta, tz];
    let u2 = seq![ta, tz];
    assert(u5.subrange(1, 5) =~= u4);
    assert(u4.subrange(1, 4) =~= u3);
    assert(u3.subrange(1, 3) =~= u2);
    assert(u2.subrange(1, 2) =~= s1);
    lemma_weight_plain(u5);
    lemma_weight_plain(u4);
    lemma_weight_plain(u3);
    lemma_weight_plain(u2);
    assert(continue_spec(ey, u2, 21) == (Ok::<ExprV, Seq<char>>(ey), u2));
    assert(make_first(ty, u2, 21) == (Ok::<ExprV, Seq<char>>(ey), u2));
    assert(make_spec(u3, 21) == (Ok::<ExprV, Seq<char>>(ey), u2));
    let xmy = ExprV::Binary(mul, Box::new(ex), Box::new(ey));
    assert(make_spec(s1, 11) == (Ok::<ExprV, Seq<char>>(ez), e)) by {
        assert(continue_spec(ez, e, 11) == (Ok::<ExprV, Seq<char>>(ez), e));
        assert(make_first(tz, e, 11) == (Ok::<ExprV, Seq<char>>(ez), e));
    }
    let whole2 = ExprV::Binary(add, Box::new(xmy), Box::new(ez));
    assert(continue_spec(whole2, e, MINBP) == (Ok::<ExprV, Seq<char>>(whole2), e));
    assert(continue_spec(xmy, u2, MINBP) == (Ok::<ExprV, Seq<char>>(whole2), e));
    assert(continue_spec(ex, u4, MINBP) == (Ok::<ExprV, Seq<char>>(whole2), e));
    assert(make_first(tx, u4, MINBP) == (Ok::<ExprV, Seq<char>>(whole2), e));
}

} // verus!
