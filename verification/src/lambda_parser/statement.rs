use vstd::prelude::*;
use crate::common::utils::labels::str_eq;
use crate::lambda_parser::expression::{lemma_make_weight, starts_expression, 
    ExprNode, ExprV, expr_view, lemma_weight_split, make_spec, result_view, token_weight, weight,
};
use crate::lambda_parser::tokenization::{
    Keyword, MINBP, Token, TokenV, lemma_tokens_view_len, token_text, token_view, tokens_view,
};

verus! {

/// A statement of a program.
#[derive(Debug)]
pub enum Statement {
    Expression(ExprNode),
    FunctionDeclaration { name: String, args: Vec<String>, body: Vec<Statement> },
    IfStatement { pred: ExprNode, code: Vec<Statement>, else_block: Vec<Statement> },
}

/// A statement as plain values.
pub enum StmtV {
    Expression(ExprV),
    FunctionDeclaration(Seq<char>, Seq<Seq<char>>, Seq<StmtV>),
    IfStatement(ExprV, Seq<StmtV>, Seq<StmtV>),
}

pub open spec fn stmts_view(ss: Seq<Statement>) -> Seq<StmtV>
    decreases ss,
{
    if ss.len() == 0 {
        Seq::empty()
    } else {
        seq![stmt_view(ss[0])] + stmts_view(ss.subrange(1, ss.len() as int))
    }
}

pub open spec fn stmt_view(s: Statement) -> StmtV
    decreases s,
{
    match s {
        Statement::Expression(e) => StmtV::Expression(expr_view(e)),
        Statement::FunctionDeclaration { name, args, body } => StmtV::FunctionDeclaration(
            name@,
            args@.map_values(|a: String| a@),
            stmts_view(body@),
        ),
        Statement::IfStatement { pred, code, else_block } => StmtV::IfStatement(
            expr_view(pred),
            stmts_view(code@),
            stmts_view(else_block@),
        ),
    }
}

proof fn lemma_stmts_view_push(ss: Seq<Statement>, s: Statement)
    ensures
        stmts_view(ss.push(s)) == stmts_view(ss).push(stmt_view(s)),
    decreases ss.len(),
{
    if ss.len() == 0 {
        assert(ss.push(s).subrange(1, 1) =~= Seq::<Statement>::empty());
        assert(stmts_view(Seq::<Statement>::empty()) == Seq::<StmtV>::empty());
        assert(ss.push(s)[0] == s);
        assert(stmts_view(ss.push(s)) =~= seq![stmt_view(s)]);
        assert(stmts_view(ss) == Seq::<StmtV>::empty());
    } else {
        assert(ss.push(s).subrange(1, ss.len() + 1int) =~= ss.subrange(1, ss.len() as int).push(s));
        lemma_stmts_view_push(ss.subrange(1, ss.len() as int), s);
        assert(stmts_view(ss.push(s)) =~= stmts_view(ss).push(stmt_view(s)));
    }
}

pub open spec fn comma_message() -> Seq<char> {
    "Error, expected comma"@
}

pub open spec fn identifier_message(t: TokenV) -> Seq<char> {
    "Expected identifier, got "@ + token_text(t)
}

pub open spec fn if_message() -> Seq<char> {
    "Expected code block after 'if'"@
}

/// The names declared by the tokens of an argument list from position `k`
/// on: newlines are skipped, and each name must be followed by a comma or
/// end the list.
pub open spec fn args_spec(ts: Seq<TokenV>, k: int, acc: Seq<Seq<char>>) -> Result<Seq<Seq<char>>, Seq<char>>
    decreases ts.len() - k,
{
    if k < 0 || k >= ts.len() {
        Ok(acc)
    } else {
        match ts[k] {
            TokenV::Newline => args_spec(ts, k + 1, acc),
            TokenV::Ident(s) => if k + 1 >= ts.len() {
                Ok(acc.push(s))
            } else if ts[k + 1] matches TokenV::Operator(tok, _) && tok == seq![','] {
                args_spec(ts, k + 2, acc.push(s))
            } else {
                Err(comma_message())
            },
            other => Err(identifier_message(other)),
        }
    }
}

/// Whether the tokens start a function declaration: a name, a group and
/// `=`.
pub open spec fn starts_declaration(ts: Seq<TokenV>) -> bool {
    &&& ts.len() >= 3
    &&& ts[0] is Ident
    &&& ts[1] is Group
    &&& ts[2] matches TokenV::Operator(tok, _) && tok == seq!['=']
}

/// Reading the statements of a block from `ts`, after the statements
/// `acc`: the statements (or an error) and the tokens left, or `None` where
/// the reading never ends (an expression statement that takes no token).
/// A block ends at `}` or at the end of the tokens; newlines are skipped.
pub open spec fn block_spec(ts: Seq<TokenV>, acc: Seq<StmtV>) -> Option<(Result<Seq<StmtV>, Seq<char>>, Seq<TokenV>)>
    decreases weight(ts),
{
    if ts.len() == 0 {
        Some((Ok(acc), ts))
    } else {
        let rest = ts.subrange(1, ts.len() as int);
        if starts_declaration(ts) {
            let name = ts[0]->Ident_0;
            let g = ts[1]->Group_0;
            let after = ts.subrange(3, ts.len() as int);
            let body: Option<(Result<Seq<StmtV>, Seq<char>>, Seq<TokenV>)> = if after.len() > 0
                && after[0] is OpenBrace {
                if weight(after.subrange(1, after.len() as int)) < weight(ts) {
                    block_spec(after.subrange(1, after.len() as int), Seq::empty())
                } else {
                    None
                }
            } else {
                let (e, r) = make_spec(after, MINBP);
                Some(
                    (
                        match e {
                            Ok(x) => Ok(seq![StmtV::Expression(x)]),
                            Err(m) => Err(m),
                        },
                        r,
                    ),
                )
            };
            match body {
                None => None,
                Some((Err(m), r)) => Some((Err(m), r)),
                Some((Ok(b), r)) => match args_spec(g, 0, Seq::empty()) {
                    Err(m) => Some((Err(m), r)),
                    Ok(a) => if weight(r) < weight(ts) {
                        block_spec(r, acc.push(StmtV::FunctionDeclaration(name, a, b)))
                    } else {
                        None
                    },
                },
            }
        } else if ts[0] matches TokenV::Keyword(Keyword::If) {
            let (p, r1) = make_spec(rest, MINBP);
            match p {
                Err(m) => Some((Err(m), r1)),
                Ok(pred) => if r1.len() == 0 {
                    Some((Err(if_message()), r1))
                } else if !(r1[0] is OpenBrace) {
                    Some((Err(if_message()), r1.subrange(1, r1.len() as int)))
                } else if weight(r1.subrange(1, r1.len() as int)) < weight(ts) {
                    match block_spec(r1.subrange(1, r1.len() as int), Seq::empty()) {
                        None => None,
                        Some((Err(m), r2)) => Some((Err(m), r2)),
                        Some((Ok(code), r2)) => {
                            let els: Option<(Result<Seq<StmtV>, Seq<char>>, Seq<TokenV>)> = if r2.len() > 0
                                && r2[0] matches TokenV::Keyword(Keyword::Else) {
                                let r3 = r2.subrange(1, r2.len() as int);
                                let r4 = if r3.len() > 0 && r3[0] is OpenBrace {
                                    r3.subrange(1, r3.len() as int)
                                } else {
                                    r3
                                };
                                if weight(r4) < weight(ts) {
                                    block_spec(r4, Seq::empty())
                                } else {
                                    None
                                }
                            } else {
                                Some((Ok(Seq::empty()), r2))
                            };
                            match els {
                                None => None,
                                Some((Err(m), r5)) => Some((Err(m), r5)),
                                Some((Ok(e), r5)) => if weight(r5) < weight(ts) {
                                    block_spec(r5, acc.push(StmtV::IfStatement(pred, code, e)))
                                } else {
                                    None
                                },
                            }
                        },
                    }
                } else {
                    None
                },
            }
        } else if ts[0] is CloseBrace {
            Some((Ok(acc), rest))
        } else if ts[0] is Newline {
            if weight(rest) < weight(ts) {
                block_spec(rest, acc)
            } else {
                None
            }
        } else {
            let (e, r) = make_spec(ts, MINBP);
            match e {
                Err(m) => Some((Err(m), r)),
                Ok(x) => if weight(r) < weight(ts) {
                    block_spec(r, acc.push(StmtV::Expression(x)))
                } else {
                    None
                },
            }
        }
    }
}

/// A block read from tokens, as plain values.
pub open spec fn block_result_view(r: Result<Vec<Statement>, String>) -> Result<Seq<StmtV>, Seq<char>> {
    match r {
        Ok(v) => Ok(stmts_view(v@)),
        Err(m) => Err(m@),
    }
}

/// Whether the token is the operator `=`.
fn is_assign(t: &Token) -> (r: bool)
    ensures
        r == (token_view(*t) matches TokenV::Operator(tok, _) && tok == seq!['=']),
{
    match t {
        Token::Operator(o) => {
            proof {
                reveal_strlit("=");
                assert("="@ =~= seq!['=']);
            }
            str_eq(o.token, "=")
        },
        _ => false,
    }
}

/// Takes the first token; the view of the rest is the rest of the view.
fn take_first(tks: &mut Vec<Token>) -> (t: Token)
    requires
        old(tks)@.len() > 0,
    ensures
        t == old(tks)@[0],
        tokens_view(old(tks)@)[0] == token_view(t),
        tokens_view(final(tks)@) == tokens_view(old(tks)@).subrange(1, tokens_view(old(tks)@).len() as int),
        tokens_view(old(tks)@).len() == old(tks)@.len(),
{
    proof {
        lemma_tokens_view_len(old(tks)@);
    }
    let t = tks.remove(0);
    assert(tks@ =~= old(tks)@.subrange(1, old(tks)@.len() as int));
    assert(tokens_view(old(tks)@).subrange(1, tokens_view(old(tks)@).len() as int) =~= tokens_view(tks@));
    t
}

impl Statement {
    /// The names an argument list declares (see `args_spec`).
    pub fn parse_argument_decl(args: Vec<Token>) -> (r: Result<Vec<String>, String>)
        ensures
            match args_spec(tokens_view(args@), 0, Seq::empty()) {
                Ok(a) => r matches Ok(v) && v@.map_values(|s: String| s@) == a,
                Err(e) => r matches Err(m) && m@ == e,
            },
    {
        let ghost tv = tokens_view(args@);
        proof {
            lemma_tokens_view_len(args@);
            assert forall|i: int| 0 <= i < args@.len() implies #[trigger] tv[i] == token_view(args@[i]) by {
                lemma_tokens_view_index(args@, i);
            }
        }
        let mut result: Vec<String> = Vec::new();
        let mut k: usize = 0;
        assert(result@.map_values(|s: String| s@) =~= Seq::<Seq<char>>::empty());
        while k < args.len()
            invariant
                tv == tokens_view(args@),
                tv.len() == args@.len(),
                forall|i: int| 0 <= i < args@.len() ==> #[trigger] tv[i] == token_view(args@[i]),
                k <= args@.len(),
                args_spec(tv, k as int, result@.map_values(|s: String| s@)) == args_spec(tv, 0, Seq::empty()),
            decreases args@.len() - k,
        {
            assert(tv[k as int] == token_view(args@[k as int]));
            match &args[k] {
                Token::Newline => {
                    k = k + 1;
                },
                Token::Ident(s) => {
                    let ghost before = result@.map_values(|s: String| s@);
                    result.push(s.clone());
                    assert(result@.map_values(|s: String| s@) =~= before.push(s@));
                    if k + 1 >= args.len() {
                        return Ok(result);
                    }
                    assert(tv[k + 1] == token_view(args@[k + 1]));
                    let comma = match &args[k + 1] {
                        Token::Operator(o) => {
                            proof {
                                reveal_strlit(",");
                                assert(","@ =~= seq![',']);
                            }
                            str_eq(o.token, ",")
                        },
                        _ => false,
                    };
                    if !comma {
                        proof {
                            reveal_strlit("Error, expected comma");
                        }
                        return Err(String::from_str("Error, expected comma"));
                    }
                    k = k + 2;
                },
                other => {
                    let mut m = String::from_str("Expected identifier, got ");
                    let d = other.describe();
                    m.append(d.as_str());
                    proof {
                        reveal_strlit("Expected identifier, got ");
                    }
                    return Err(m);
                },
            }
        }
        Ok(result)
    }

    /// Reads the statements of a block (see `block_spec`), leaving the
    /// tokens after it.
    #[verifier::rlimit(40)]
    pub fn from_tokens(tks: &mut Vec<Token>) -> (r: Result<Vec<Statement>, String>)
        requires
            block_spec(tokens_view(old(tks)@), Seq::empty()) is Some,
        ensures
            block_spec(tokens_view(old(tks)@), Seq::empty()) == Some((block_result_view(r), tokens_view(final(tks)@))),
        decreases weight(tokens_view(old(tks)@)),
    {
        let mut result: Vec<Statement> = Vec::new();
        let ghost target = block_spec(tokens_view(tks@), Seq::empty());
        let ghost w0 = weight(tokens_view(tks@));
        assert(stmts_view(result@) == Seq::<StmtV>::empty());
        loop
            invariant
                block_spec(tokens_view(tks@), stmts_view(result@)) == target,
                target == block_spec(tokens_view(old(tks)@), Seq::empty()),
                target is Some,
                weight(tokens_view(tks@)) <= w0,
                w0 == weight(tokens_view(old(tks)@)),
            decreases weight(tokens_view(tks@)),
        {
            let ghost ts = tokens_view(tks@);
            let ghost acc = stmts_view(result@);
            proof {
                lemma_tokens_view_len(tks@);
            }
            if tks.len() == 0 {
                return Ok(result);
            }
            proof {
                lemma_weight_split(ts);
                if tks@.len() >= 3 {
                    lemma_tokens_view_index(tks@, 1);
                    lemma_tokens_view_index(tks@, 2);
                }
            }
            let decl = tks.len() >= 3 && match &tks[0] {
                Token::Ident(_) => true,
                _ => false,
            } && match &tks[1] {
                Token::ParenthesesGroup(_) => true,
                _ => false,
            } && is_assign(&tks[2]);
            if decl {
                assert(starts_declaration(ts));
                let t0 = take_first(tks);
                let t1 = take_first(tks);
                let _t2 = take_first(tks);
                let ghost after = tokens_view(tks@);
                assert(after =~= ts.subrange(3, ts.len() as int));
                proof {
                    lemma_tokens_view_len(tks@);
                }
                let name = match t0 {
                    Token::Ident(s) => s,
                    _ => {
                        proof {
                            assert(false);
                        }
                        unreached()
                    },
                };
                let args = match t1 {
                    Token::ParenthesesGroup(v) => v,
                    _ => {
                        proof {
                            assert(false);
                        }
                        unreached()
                    },
                };
                let brace = tks.len() > 0 && match &tks[0] {
                    Token::OpenBrace => true,
                    _ => false,
                };
                let body = if brace {
                    let _ = take_first(tks);
                    Self::from_tokens(tks)?
                } else {
                    let e = ExprNode::from_tokens(tks)?;
                    let mut b: Vec<Statement> = Vec::new();
                    proof {
                        lemma_stmts_view_push(b@, Statement::Expression(e));
                        assert(stmts_view(Seq::<Statement>::empty()) == Seq::<StmtV>::empty());
                    }
                    b.push(Statement::Expression(e));
                    b
                };
                let a = Self::parse_argument_decl(args)?;
                let st = Statement::FunctionDeclaration { name, args: a, body };
                proof {
                    lemma_stmts_view_push(result@, st);
                }
                result.push(st);
            } else if match &tks[0] {
                Token::Keyword(Keyword::If) => true,
                _ => false,
            } {
                let _ = take_first(tks);
                let pred = ExprNode::from_tokens(tks)?;
                proof {
                    lemma_tokens_view_len(tks@);
                }
                if tks.len() == 0 {
                    proof {
                        reveal_strlit("Expected code block after 'if'");
                    }
                    return Err(String::from_str("Expected code block after 'if'"));
                }
                let opener = take_first(tks);
                let is_brace = match opener {
                    Token::OpenBrace => true,
                    _ => false,
                };
                if !is_brace {
                    proof {
                        reveal_strlit("Expected code block after 'if'");
                    }
                    return Err(String::from_str("Expected code block after 'if'"));
                }
                let code = Self::from_tokens(tks)?;
                proof {
                    lemma_tokens_view_len(tks@);
                }
                let has_else = tks.len() > 0 && match &tks[0] {
                    Token::Keyword(Keyword::Else) => true,
                    _ => false,
                };
                let else_block = if has_else {
                    let _ = take_first(tks);
                    proof {
                        lemma_tokens_view_len(tks@);
                    }
                    let brace = tks.len() > 0 && match &tks[0] {
                        Token::OpenBrace => true,
                        _ => false,
                    };
                    if brace {
                        let _ = take_first(tks);
                    }
                    Self::from_tokens(tks)?
                } else {
                    let e: Vec<Statement> = Vec::new();
                    assert(stmts_view(e@) == Seq::<StmtV>::empty());
                    e
                };
                let st = Statement::IfStatement { pred, code, else_block };
                proof {
                    lemma_stmts_view_push(result@, st);
                }
                result.push(st);
            } else if match &tks[0] {
                Token::CloseBrace => true,
                _ => false,
            } {
                let _ = take_first(tks);
                return Ok(result);
            } else if match &tks[0] {
                Token::Newline => true,
                _ => false,
            } {
                let _ = take_first(tks);
            } else {
                let e = ExprNode::from_tokens(tks)?;
                let st = Statement::Expression(e);
                proof {
                    lemma_stmts_view_push(result@, st);
                }
                result.push(st);
            }
        }
    }

    /// Reads the statements of a block as `from_tokens` does, or `None`
    /// where that reading would never end (see `block_spec`): a statement
    /// that starts with a token no statement or expression starts with.
    #[verifier::rlimit(80)]
    pub fn from_tokens_checked(tks: &mut Vec<Token>) -> (r: Option<Result<Vec<Statement>, String>>)
        ensures
            match block_spec(tokens_view(old(tks)@), Seq::empty()) {
                None => r is None,
                Some((res, rest)) => r matches Some(x) && block_result_view(x) == res && tokens_view(final(tks)@) == rest,
            },
        decreases weight(tokens_view(old(tks)@)),
    {
        let mut result: Vec<Statement> = Vec::new();
        let ghost target = block_spec(tokens_view(tks@), Seq::empty());
        let ghost w0 = weight(tokens_view(tks@));
        assert(stmts_view(result@) == Seq::<StmtV>::empty());
        loop
            invariant
                block_spec(tokens_view(tks@), stmts_view(result@)) == target,
                target == block_spec(tokens_view(old(tks)@), Seq::empty()),
                weight(tokens_view(tks@)) <= w0,
                w0 == weight(tokens_view(old(tks)@)),
            decreases weight(tokens_view(tks@)),
        {
            let ghost ts = tokens_view(tks@);
            let ghost acc = stmts_view(result@);
            proof {
                lemma_tokens_view_len(tks@);
            }
            if tks.len() == 0 {
                return Some(Ok(result));
            }
            proof {
                lemma_weight_split(ts);
                if tks@.len() >= 3 {
                    lemma_tokens_view_index(tks@, 1);
                    lemma_tokens_view_index(tks@, 2);
                }
            }
            let decl = tks.len() >= 3 && match &tks[0] {
                Token::Ident(_) => true,
                _ => false,
            } && match &tks[1] {
                Token::ParenthesesGroup(_) => true,
                _ => false,
            } && is_assign(&tks[2]);
            proof {
                lemma_rest_weight(ts, 1);
                if tks@.len() >= 3 {
                    lemma_rest_weight(ts, 3);
                    let after = ts.subrange(3, ts.len() as int);
                    if after.len() > 0 {
                        lemma_rest_weight(after, 1);
                        lemma_block_remainder(after.subrange(1, after.len() as int), Seq::empty());
                    }
                    lemma_make_weight(after, MINBP);
                }
                lemma_make_weight(ts.subrange(1, ts.len() as int), MINBP);
                lemma_make_weight(ts, MINBP);
            }
            if decl {
                assert(starts_declaration(ts));
                let t0 = take_first(tks);
                let t1 = take_first(tks);
                let _t2 = take_first(tks);
                let ghost after = tokens_view(tks@);
                assert(after =~= ts.subrange(3, ts.len() as int));
                proof {
                    lemma_tokens_view_len(tks@);
                }
                let name = match t0 {
                    Token::Ident(s) => s,
                    _ => {
                        proof {
                            assert(false);
                        }
                        unreached()
                    },
                };
                let args = match t1 {
                    Token::ParenthesesGroup(v) => v,
                    _ => {
                        proof {
                            assert(false);
                        }
                        unreached()
                    },
                };
                let brace = tks.len() > 0 && match &tks[0] {
                    Token::OpenBrace => true,
                    _ => false,
                };
                let body = if brace {
                    let _ = take_first(tks);
                    match Self::from_tokens_checked(tks) { None => return None, Some(Err(m)) => return Some(Err(m)), Some(Ok(v)) => v }
                } else {
                    let e = match ExprNode::from_tokens(tks) { Err(m) => return Some(Err(m)), Ok(e) => e };
                    let mut b: Vec<Statement> = Vec::new();
                    proof {
                        lemma_stmts_view_push(b@, Statement::Expression(e));
                        assert(stmts_view(Seq::<Statement>::empty()) == Seq::<StmtV>::empty());
                    }
                    b.push(Statement::Expression(e));
                    b
                };
                let a = match Self::parse_argument_decl(args) { Err(m) => return Some(Err(m)), Ok(a) => a };
                let st = Statement::FunctionDeclaration { name, args: a, body };
                proof {
                    lemma_stmts_view_push(result@, st);
                }
                result.push(st);
            } else if match &tks[0] {
                Token::Keyword(Keyword::If) => true,
                _ => false,
            } {
                let _ = take_first(tks);
                let pred = match ExprNode::from_tokens(tks) { Err(m) => return Some(Err(m)), Ok(e) => e };
                proof {
                    lemma_tokens_view_len(tks@);
                }
                if tks.len() == 0 {
                    proof {
                        reveal_strlit("Expected code block after 'if'");
                    }
                    return Some(Err(String::from_str("Expected code block after 'if'")));
                }
                let ghost r1 = tokens_view(tks@);
                proof { lemma_rest_weight(r1, 1); }
                let opener = take_first(tks);
                let is_brace = match opener {
                    Token::OpenBrace => true,
                    _ => false,
                };
                if !is_brace {
                    proof {
                        reveal_strlit("Expected code block after 'if'");
                    }
                    return Some(Err(String::from_str("Expected code block after 'if'")));
                }
                let ghost inner = tokens_view(tks@);
                proof { lemma_block_remainder(inner, Seq::empty()); }
                let code = match Self::from_tokens_checked(tks) { None => return None, Some(Err(m)) => return Some(Err(m)), Some(Ok(v)) => v };
                proof {
                    lemma_tokens_view_len(tks@);
                }
                let ghost r2 = tokens_view(tks@);
                let has_else = tks.len() > 0 && match &tks[0] {
                    Token::Keyword(Keyword::Else) => true,
                    _ => false,
                };
                let else_block = if has_else {
                    proof { lemma_rest_weight(r2, 1); }
                    let _ = take_first(tks);
                    proof {
                        lemma_tokens_view_len(tks@);
                    }
                    let ghost r3 = tokens_view(tks@);
                    let brace = tks.len() > 0 && match &tks[0] {
                        Token::OpenBrace => true,
                        _ => false,
                    };
                    if brace {
                        proof { lemma_rest_weight(r3, 1); }
                        let _ = take_first(tks);
                    }
                    proof { lemma_block_remainder(tokens_view(tks@), Seq::empty()); }
                    match Self::from_tokens_checked(tks) { None => return None, Some(Err(m)) => return Some(Err(m)), Some(Ok(v)) => v }
                } else {
                    let e: Vec<Statement> = Vec::new();
                    assert(stmts_view(e@) == Seq::<StmtV>::empty());
                    e
                };
                let st = Statement::IfStatement { pred, code, else_block };
                proof {
                    lemma_stmts_view_push(result@, st);
                }
                result.push(st);
            } else if match &tks[0] {
                Token::CloseBrace => true,
                _ => false,
            } {
                let _ = take_first(tks);
                return Some(Ok(result));
            } else if match &tks[0] {
                Token::Newline => true,
                _ => false,
            } {
                let _ = take_first(tks);
            } else {
                if !tks[0].is_expression() {
                    proof {
                        lemma_tokens_view_index(tks@, 0);
                        assert(!starts_expression(ts));
                        assert(make_spec(ts, MINBP).1 == ts);
                    }
                    return None;
                }
                proof { lemma_tokens_view_index(tks@, 0); }
                let e = match ExprNode::from_tokens(tks) { Err(m) => return Some(Err(m)), Ok(e) => e };
                let st = Statement::Expression(e);
                proof {
                    lemma_stmts_view_push(result@, st);
                }
                result.push(st);
            }
        }
    }

}

proof fn lemma_tokens_view_index(ts: Seq<Token>, i: int)
    requires
        0 <= i < ts.len(),
    ensures
        tokens_view(ts).len() == ts.len(),
        tokens_view(ts)[i] == token_view(ts[i]),
    decreases i,
{
    lemma_tokens_view_len(ts);
    if i > 0 {
        lemma_tokens_view_index(ts.subrange(1, ts.len() as int), i - 1);
    }
}

proof fn lemma_rest_weight(ts: Seq<TokenV>, k: int)
    requires
        0 < k <= ts.len(),
    ensures
        weight(ts.subrange(k, ts.len() as int)) < weight(ts),
    decreases k,
{
    lemma_weight_split(ts);
    if k > 1 {
        let rest = ts.subrange(1, ts.len() as int);
        lemma_rest_weight(rest, k - 1);
        assert(rest.subrange(k - 1, rest.len() as int) =~= ts.subrange(k, ts.len() as int));
    } else {
        assert(ts.subrange(1, ts.len() as int) =~= ts.subrange(k, ts.len() as int));
    }
}

/// What is left after a block is no heavier than what it was read from.
proof fn lemma_block_remainder(ts: Seq<TokenV>, acc: Seq<StmtV>)
    ensures
        block_spec(ts, acc) matches Some((_, r)) ==> weight(r) <= weight(ts),
    decreases weight(ts),
{
    if ts.len() > 0 {
        let rest = ts.subrange(1, ts.len() as int);
        lemma_rest_weight(ts, 1);
        if starts_declaration(ts) {
            let after = ts.subrange(3, ts.len() as int);
            lemma_rest_weight(ts, 3);
            if after.len() > 0 && after[0] is OpenBrace {
                let inner = after.subrange(1, after.len() as int);
                lemma_rest_weight(after, 1);
                lemma_block_remainder(inner, Seq::empty());
            } else {
                lemma_make_weight(after, MINBP);
            }
            let name = ts[0]->Ident_0;
            let g = ts[1]->Group_0;
            let body: Option<(Result<Seq<StmtV>, Seq<char>>, Seq<TokenV>)> = if after.len() > 0 && after[0] is OpenBrace {
                if weight(after.subrange(1, after.len() as int)) < weight(ts) {
                    block_spec(after.subrange(1, after.len() as int), Seq::empty())
                } else {
                    None
                }
            } else {
                let (e, r) = make_spec(after, MINBP);
                Some((match e { Ok(x) => Ok(seq![StmtV::Expression(x)]), Err(m) => Err(m) }, r))
            };
            if let Some((Ok(b), r)) = body {
                if let Ok(a) = args_spec(g, 0, Seq::empty()) {
                    if weight(r) < weight(ts) {
                        lemma_block_remainder(r, acc.push(StmtV::FunctionDeclaration(name, a, b)));
                    }
                }
            }
        } else if ts[0] matches TokenV::Keyword(Keyword::If) {
            lemma_make_weight(rest, MINBP);
            let (p, r1) = make_spec(rest, MINBP);
            if let Ok(pred) = p {
                if r1.len() > 0 {
                    lemma_rest_weight(r1, 1);
                    if r1[0] is OpenBrace && weight(r1.subrange(1, r1.len() as int)) < weight(ts) {
                        let inner = r1.subrange(1, r1.len() as int);
                        lemma_block_remainder(inner, Seq::empty());
                        if let Some((Ok(code), r2)) = block_spec(inner, Seq::empty()) {
                            if r2.len() > 0 && r2[0] matches TokenV::Keyword(Keyword::Else) {
                                let r3 = r2.subrange(1, r2.len() as int);
                                lemma_rest_weight(r2, 1);
                                let r4 = if r3.len() > 0 && r3[0] is OpenBrace {
                                    r3.subrange(1, r3.len() as int)
                                } else {
                                    r3
                                };
                                if r3.len() > 0 && r3[0] is OpenBrace {
                                    lemma_rest_weight(r3, 1);
                                }
                                if weight(r4) < weight(ts) {
                                    lemma_block_remainder(r4, Seq::empty());
                                    if let Some((Ok(e), r5)) = block_spec(r4, Seq::empty()) {
                                        if weight(r5) < weight(ts) {
                                            lemma_block_remainder(r5, acc.push(StmtV::IfStatement(pred, code, e)));
                                        }
                                    }
                                }
                            } else {
                                if weight(r2) < weight(ts) {
                                    lemma_block_remainder(r2, acc.push(StmtV::IfStatement(pred, code, Seq::empty())));
                                }
                            }
                        }
                    }
                }
            }
        } else if ts[0] is CloseBrace {
        } else if ts[0] is Newline {
            lemma_block_remainder(rest, acc);
        } else {
            lemma_make_weight(ts, MINBP);
            let (e, r) = make_spec(ts, MINBP);
            if let Ok(x) = e {
                if weight(r) < weight(ts) {
                    lemma_block_remainder(r, acc.push(StmtV::Expression(x)));
                }
            }
        }
    }
}

} // verus!

verus! {

/// An if statement holds, as its code, the statements read from the block
/// right after its predicate, and, as its else block, the statements read
/// from the block after `else`, or none when no `else` follows; reading goes
/// on after them with the if statement added.
pub proof fn law_if_blocks(
    ts: Seq<TokenV>,
    acc: Seq<StmtV>,
    pred: ExprV,
    r1: Seq<TokenV>,
    code: Seq<StmtV>,
    r2: Seq<TokenV>,
    els: Seq<StmtV>,
    r5: Seq<TokenV>,
)
    requires
        ts.len() > 0,
        ts[0] == TokenV::Keyword(Keyword::If),
        make_spec(ts.subrange(1, ts.len() as int), MINBP) == (Ok::<ExprV, Seq<char>>(pred), r1),
        r1.len() > 0,
        r1[0] is OpenBrace,
        block_spec(r1.subrange(1, r1.len() as int), Seq::empty()) == Some((Ok::<Seq<StmtV>, Seq<char>>(code), r2)),
    ensures
        !(r2.len() > 0 && r2[0] == TokenV::Keyword(Keyword::Else))
            ==> block_spec(ts, acc) == block_spec(r2, acc.push(StmtV::IfStatement(pred, code, Seq::empty()))),
        r2.len() > 1 && r2[0] == TokenV::Keyword(Keyword::Else) && r2[1] is OpenBrace
            && block_spec(r2.subrange(2, r2.len() as int), Seq::empty()) == Some((Ok::<Seq<StmtV>, Seq<char>>(els), r5))
            ==> block_spec(ts, acc) == block_spec(r5, acc.push(StmtV::IfStatement(pred, code, els))),
{
    let rest = ts.subrange(1, ts.len() as int);
    lemma_rest_weight(ts, 1);
    lemma_make_weight(rest, MINBP);
    lemma_rest_weight(r1, 1);
    let inner = r1.subrange(1, r1.len() as int);
    lemma_block_remainder(inner, Seq::empty());
    assert(!starts_declaration(ts));
    assert(weight(r2) < weight(ts));
    if r2.len() > 1 && r2[0] == TokenV::Keyword(Keyword::Else) && r2[1] is OpenBrace {
        let r3 = r2.subrange(1, r2.len() as int);
        assert(r3.subrange(1, r3.len() as int) =~= r2.subrange(2, r2.len() as int));
        lemma_rest_weight(r2, 2);
        lemma_block_remainder(r2.subrange(2, r2.len() as int), Seq::empty());
    }
}

} // verus!
