use vstd::prelude::*;
use crate::common::utils::chars::{chars_of, is_whitespace, unicode_whitespace};
use crate::lambda_jit::lambda_il::{Bytecode, BytecodeBuilder, spec_build};

verus! {

/// The kind of bracket around a group.
#[derive(Copy, Clone, Debug, PartialEq, Eq, Structural)]
pub enum TGroupType {
    Bracket,
    Parentheses,
}

/// A token of assembly code.
#[derive(Debug)]
pub enum Token {
    Atom(String),
    /// The tokens between a `[` or `(` and its closing bracket.
    Group(TGroupType, Vec<Token>),
    COMMA,
    PLUS,
    MINUS,
    NEWLINE,
}

/// A token as plain values.
pub enum TokenV {
    Atom(Seq<char>),
    Group(TGroupType, Seq<TokenV>),
    Comma,
    Plus,
    Minus,
    Newline,
}

pub open spec fn tokens_view(ts: Seq<Token>) -> Seq<TokenV>
    decreases ts,
{
    if ts.len() == 0 {
        Seq::empty()
    } else {
        seq![token_view(ts[0])] + tokens_view(ts.subrange(1, ts.len() as int))
    }
}

pub open spec fn token_view(t: Token) -> TokenV
    decreases t,
{
    match t {
        Token::Atom(s) => TokenV::Atom(s@),
        Token::Group(g, v) => TokenV::Group(g, tokens_view(v@)),
        Token::COMMA => TokenV::Comma,
        Token::PLUS => TokenV::Plus,
        Token::MINUS => TokenV::Minus,
        Token::NEWLINE => TokenV::Newline,
    }
}

proof fn lemma_tokens_view_push(ts: Seq<Token>, t: Token)
    ensures
        tokens_view(ts.push(t)) == tokens_view(ts).push(token_view(t)),
    decreases ts.len(),
{
    if ts.len() == 0 {
        assert(ts.push(t).subrange(1, 1) =~= Seq::<Token>::empty());
        assert(tokens_view(Seq::<Token>::empty()) == Seq::<TokenV>::empty());
        assert(ts.push(t)[0] == t);
        assert(tokens_view(ts.push(t)) =~= seq![token_view(t)]);
        assert(tokens_view(ts) == Seq::<TokenV>::empty());
    } else {
        assert(ts.push(t).subrange(1, ts.len() + 1int) =~= ts.subrange(1, ts.len() as int).push(t));
        lemma_tokens_view_push(ts.subrange(1, ts.len() as int), t);
        assert(tokens_view(ts.push(t)) =~= tokens_view(ts).push(token_view(t)));
    }
}

/// Whether `c` stands as a piece of its own.
pub open spec fn is_punct(c: char) -> bool {
    c == '[' || c == ']' || c == '(' || c == ')' || c == ',' || c == '+' || c == '-' || c == '\n'
}

/// The pieces of `s` from position `i` on. `last` is where the current
/// piece began and `split` says whether a split was made at the character
/// before. Whitespace ends the current piece unless a split was just made;
/// a bracket, comma, sign or newline ends it and stands as a piece of its
/// own; whatever is left at the end is the last piece.
pub open spec fn group_from(s: Seq<char>, i: int, last: int, split: bool, res: Seq<Seq<char>>) -> Seq<Seq<char>>
    decreases s.len() - i,
{
    if i < 0 || i >= s.len() {
        if 0 <= last < s.len() {
            res.push(s.subrange(last, s.len() as int))
        } else {
            res
        }
    } else if unicode_whitespace(s[i]) && !split {
        group_from(s, i + 1, i + 1, true, res.push(s.subrange(last, i)))
    } else if is_punct(s[i]) {
        group_from(s, i + 1, i + 1, true, res.push(s.subrange(last, i)).push(seq![s[i]]))
    } else {
        group_from(s, i + 1, last, false, res)
    }
}

/// The pieces of assembly code: see `group_from`.
pub open spec fn group_spec(s: Seq<char>) -> Seq<Seq<char>> {
    group_from(s, 0, 0, false, Seq::empty())
}

pub open spec fn strings_view(v: Seq<String>) -> Seq<Seq<char>> {
    v.map_values(|x: String| x@)
}

/// Cuts assembly code into pieces: see `group_from`.
pub fn group(code: &str) -> (r: Vec<String>)
    ensures
        strings_view(r@) == group_spec(code@),
{
    let s = chars_of(code);
    let n = s.len();
    let mut res: Vec<String> = Vec::new();
    let mut last: usize = 0;
    let mut split = false;
    let mut i: usize = 0;
    assert(strings_view(res@) =~= Seq::<Seq<char>>::empty());
    while i < n
        invariant
            s@ == code@,
            n == s@.len(),
            last <= i <= n,
            group_from(s@, i as int, last as int, split, strings_view(res@)) == group_spec(code@),
        decreases n - i,
    {
        let c = s[i];
        if is_whitespace(c) && !split {
            let piece = code.substring_char(last, i).to_string();
            let ghost before = strings_view(res@);
            res.push(piece);
            assert(strings_view(res@) =~= before.push(s@.subrange(last as int, i as int)));
            last = i + 1;
            split = true;
        } else if c == '[' || c == ']' || c == '(' || c == ')' || c == ',' || c == '+' || c == '-' || c == '\n' {
            let piece = code.substring_char(last, i).to_string();
            let single = code.substring_char(i, i + 1).to_string();
            let ghost before = strings_view(res@);
            res.push(piece);
            res.push(single);
            assert(s@.subrange(i as int, i + 1) =~= seq![c]);
            assert(strings_view(res@) =~= before.push(s@.subrange(last as int, i as int)).push(seq![c]));
            last = i + 1;
            split = true;
        } else {
            split = false;
        }
        i = i + 1;
    }
    if last < n {
        let ghost before = strings_view(res@);
        res.push(code.substring_char(last, n).to_string());
        assert(strings_view(res@) =~= before.push(s@.subrange(last as int, n as int)));
    }
    res
}

/// The pieces written one after another.
pub open spec fn concat(ps: Seq<Seq<char>>) -> Seq<char>
    decreases ps.len(),
{
    if ps.len() == 0 {
        Seq::empty()
    } else {
        concat(ps.drop_last()) + ps.last()
    }
}

proof fn lemma_concat_push(ps: Seq<Seq<char>>, x: Seq<char>)
    ensures
        concat(ps.push(x)) == concat(ps) + x,
{
    assert(ps.push(x).drop_last() =~= ps);
}

/// A piece that holds a bracket, comma, sign or newline is that character
/// alone.
pub open spec fn punct_alone(p: Seq<char>) -> bool {
    forall|k: int| 0 <= k < p.len() && is_punct(#[trigger] p[k]) ==> p.len() == 1
}

proof fn lemma_group_from_concat(s: Seq<char>, i: int, last: int, split: bool, res: Seq<Seq<char>>)
    requires
        0 <= last <= i <= s.len(),
        forall|k: int| 0 <= k < s.len() ==> !unicode_whitespace(#[trigger] s[k]),
    ensures
        concat(group_from(s, i, last, split, res)) == concat(res) + s.subrange(last, s.len() as int),
    decreases s.len() - i,
{
    if i >= s.len() {
        if last < s.len() {
            lemma_concat_push(res, s.subrange(last, s.len() as int));
        } else {
            assert(s.subrange(last, s.len() as int) =~= Seq::<char>::empty());
        }
    } else if is_punct(s[i]) {
        let r1 = res.push(s.subrange(last, i));
        let r2 = r1.push(seq![s[i]]);
        lemma_group_from_concat(s, i + 1, i + 1, true, r2);
        lemma_concat_push(res, s.subrange(last, i));
        lemma_concat_push(r1, seq![s[i]]);
        assert(s.subrange(last, i) + seq![s[i]] + s.subrange(i + 1, s.len() as int) =~= s.subrange(last, s.len() as int));
        assert(concat(r2) + s.subrange(i + 1, s.len() as int) =~= concat(res) + s.subrange(last, s.len() as int));
    } else {
        lemma_group_from_concat(s, i + 1, last, false, res);
    }
}

proof fn lemma_group_from_alone(s: Seq<char>, i: int, last: int, split: bool, res: Seq<Seq<char>>)
    requires
        0 <= last <= i <= s.len(),
        forall|j: int| 0 <= j < res.len() ==> punct_alone(#[trigger] res[j]),
        forall|k: int| last <= k < i ==> !is_punct(#[trigger] s[k]),
    ensures
        forall|j: int| 0 <= j < group_from(s, i, last, split, res).len() ==> punct_alone(
            #[trigger] group_from(s, i, last, split, res)[j],
        ),
    decreases s.len() - i,
{
    if i >= s.len() {
        if last < s.len() {
            let p = s.subrange(last, s.len() as int);
            assert(punct_alone(p)) by {
                assert forall|k: int| 0 <= k < p.len() && is_punct(#[trigger] p[k]) implies p.len() == 1 by {
                    assert(p[k] == s[last + k]);
                }
            }
            let r1 = res.push(p);
            assert forall|j: int| 0 <= j < r1.len() implies punct_alone(#[trigger] r1[j]) by {
                if j < res.len() {
                    assert(r1[j] == res[j]);
                }
            }
        }
    } else {
        let p = s.subrange(last, i);
        assert(punct_alone(p)) by {
            assert forall|k: int| 0 <= k < p.len() && is_punct(#[trigger] p[k]) implies p.len() == 1 by {
                assert(p[k] == s[last + k]);
            }
        }
        let r1 = res.push(p);
        assert(forall|j: int| 0 <= j < r1.len() ==> punct_alone(#[trigger] r1[j])) by {
            assert forall|j: int| 0 <= j < r1.len() implies punct_alone(#[trigger] r1[j]) by {
                if j < res.len() {
                    assert(r1[j] == res[j]);
                }
            }
        }
        if unicode_whitespace(s[i]) && !split {
            lemma_group_from_alone(s, i + 1, i + 1, true, r1);
            assert(group_from(s, i, last, split, res) == group_from(s, i + 1, i + 1, true, r1));
        } else if is_punct(s[i]) {
            let r2 = r1.push(seq![s[i]]);
            assert(forall|j: int| 0 <= j < r2.len() ==> punct_alone(#[trigger] r2[j])) by {
                assert forall|j: int| 0 <= j < r2.len() implies punct_alone(#[trigger] r2[j]) by {
                    if j < r1.len() {
                        assert(r2[j] == r1[j]);
                    }
                }
            }
            lemma_group_from_alone(s, i + 1, i + 1, true, r2);
            assert(group_from(s, i, last, split, res) == group_from(s, i + 1, i + 1, true, r2));
        } else {
            lemma_group_from_alone(s, i + 1, last, false, res);
            assert(group_from(s, i, last, split, res) == group_from(s, i + 1, last, false, res));
        }
    }
}

/// The pieces of assembly code keep each bracket, comma, sign and newline
/// as a piece of its own; and code without whitespace is cut without losing
/// or reordering anything: the pieces written one after another are the
/// code.
pub proof fn law_group_pieces(s: Seq<char>)
    ensures
        forall|j: int| 0 <= j < group_spec(s).len() ==> punct_alone(#[trigger] group_spec(s)[j]),
        (forall|k: int| 0 <= k < s.len() ==> !unicode_whitespace(#[trigger] s[k])) ==> concat(group_spec(s)) == s,
{
    lemma_group_from_alone(s, 0, 0, false, Seq::empty());
    if forall|k: int| 0 <= k < s.len() ==> !unicode_whitespace(#[trigger] s[k]) {
        lemma_group_from_concat(s, 0, 0, false, Seq::empty());
        assert(s.subrange(0, s.len() as int) =~= s);
        assert(concat(Seq::<Seq<char>>::empty()) + s =~= s);
    }
}

/// Adds a token to the innermost open group, or to the result.
pub open spec fn place(res: Seq<TokenV>, stack: Seq<(TGroupType, Seq<TokenV>)>, t: TokenV) -> (
    Seq<TokenV>,
    Seq<(TGroupType, Seq<TokenV>)>,
) {
    if stack.len() > 0 {
        (res, stack.update(stack.len() - 1, (stack.last().0, stack.last().1.push(t))))
    } else {
        (res.push(t), stack)
    }
}

pub open spec fn unmatched_message(g: Seq<char>) -> Seq<char> {
    "Unmatched \""@ + g + "\""@
}

pub open spec fn mismatch_message(g: Seq<char>) -> Seq<char> {
    "Expected matching group operator for "@ + g
}

/// The tokens of the pieces `gs` from `k` on, given the tokens so far and
/// the groups still open: `[` and `(` open a group, `]` and `)` close the
/// innermost one, which must be of their kind; `,`, `+`, `-` and a newline
/// are tokens of their own, and any other piece is an atom. Groups still
/// open at the end are dropped.
pub open spec fn tokens_from(gs: Seq<Seq<char>>, k: int, res: Seq<TokenV>, stack: Seq<(TGroupType, Seq<TokenV>)>) -> Result<
    Seq<TokenV>,
    Seq<char>,
>
    decreases gs.len() - k,
{
    if k < 0 || k >= gs.len() {
        Ok(res)
    } else {
        let g = gs[k];
        if g == seq!['['] {
            tokens_from(gs, k + 1, res, stack.push((TGroupType::Bracket, Seq::empty())))
        } else if g == seq!['('] {
            tokens_from(gs, k + 1, res, stack.push((TGroupType::Parentheses, Seq::empty())))
        } else if g == seq![']'] || g == seq![')'] {
            if stack.len() == 0 {
                Err(unmatched_message(g))
            } else if (g == seq![']'] && stack.last().0 != TGroupType::Bracket) || (g == seq![')']
                && stack.last().0 != TGroupType::Parentheses) {
                Err(mismatch_message(g))
            } else {
                let (r2, s2) = place(res, stack.drop_last(), TokenV::Group(stack.last().0, stack.last().1));
                tokens_from(gs, k + 1, r2, s2)
            }
        } else {
            let t = if g == seq![','] {
                TokenV::Comma
            } else if g == seq!['+'] {
                TokenV::Plus
            } else if g == seq!['-'] {
                TokenV::Minus
            } else if g == seq!['\n'] {
                TokenV::Newline
            } else {
                TokenV::Atom(g)
            };
            let (r2, s2) = place(res, stack, t);
            tokens_from(gs, k + 1, r2, s2)
        }
    }
}

/// The tokens of assembly code: see `tokens_from`.
pub open spec fn tokenize_spec(s: Seq<char>) -> Result<Seq<TokenV>, Seq<char>> {
    tokens_from(group_spec(s), 0, Seq::empty(), Seq::empty())
}

pub open spec fn stack_view(st: Seq<(TGroupType, Vec<Token>)>) -> Seq<(TGroupType, Seq<TokenV>)> {
    st.map_values(|e: (TGroupType, Vec<Token>)| (e.0, tokens_view(e.1@)))
}

/// The only character of `g`, if it has one.
fn single_char(g: &String) -> (r: Option<char>)
    ensures
        r == (if g@.len() == 1 {
            Some(g@[0])
        } else {
            None
        }),
{
    if g.as_str().unicode_len() == 1 {
        Some(g.as_str().get_char(0))
    } else {
        None
    }
}

fn place_token(res: &mut Vec<Token>, stack: &mut Vec<(TGroupType, Vec<Token>)>, t: Token)
    ensures
        (tokens_view(final(res)@), stack_view(final(stack)@)) == place(
            tokens_view(old(res)@),
            stack_view(old(stack)@),
            token_view(t),
        ),
{
    proof {
        lemma_tokens_view_push(old(res)@, t);
    }
    if stack.len() > 0 {
        let (kind, mut last) = stack.pop().unwrap();
        proof {
            lemma_tokens_view_push(last@, t);
        }
        last.push(t);
        stack.push((kind, last));
        assert(stack_view(stack@) =~= stack_view(old(stack)@).update(
            stack_view(old(stack)@).len() - 1,
            (stack_view(old(stack)@).last().0, stack_view(old(stack)@).last().1.push(token_view(t))),
        ));
    } else {
        res.push(t);
    }
}

/// The tokens of assembly code, or the message for the first closing
/// bracket that has no group or does not match it.
pub fn tokenize(code: &str) -> (r: Result<Vec<Token>, String>)
    ensures
        match tokenize_spec(code@) {
            Ok(ts) => r matches Ok(v) && tokens_view(v@) == ts,
            Err(e) => r matches Err(m) && m@ == e,
        },
{
    let raw = group(code);
    let ghost gs = strings_view(raw@);
    let mut res: Vec<Token> = Vec::new();
    let mut stack: Vec<(TGroupType, Vec<Token>)> = Vec::new();
    let mut k: usize = 0;
    proof {
        reveal_strlit("Unmatched \"");
        reveal_strlit("\"");
        reveal_strlit("Expected matching group operator for ");
        assert(tokens_view(res@) == Seq::<TokenV>::empty());
        assert(stack_view(stack@) =~= Seq::<(TGroupType, Seq<TokenV>)>::empty());
    }
    while k < raw.len()
        invariant
            gs == strings_view(raw@),
            gs == group_spec(code@),
            k <= raw@.len(),
            tokens_from(gs, k as int, tokens_view(res@), stack_view(stack@)) == tokenize_spec(code@),
        decreases raw@.len() - k,
    {
        let g = &raw[k];
        assert(gs[k as int] == g@);
        let ghost s0 = stack_view(stack@);
        let ghost r0 = tokens_view(res@);
        match single_char(g) {
            Some('[') => {
                stack.push((TGroupType::Bracket, Vec::new()));
                proof {
                    assert(g@ =~= seq!['[']);
                    assert(tokens_view(Seq::<Token>::empty()) == Seq::<TokenV>::empty());
                    assert(stack_view(stack@) =~= s0.push((TGroupType::Bracket, Seq::empty())));
                }
            },
            Some('(') => {
                stack.push((TGroupType::Parentheses, Vec::new()));
                proof {
                    assert(g@ =~= seq!['(']);
                    assert(tokens_view(Seq::<Token>::empty()) == Seq::<TokenV>::empty());
                    assert(stack_view(stack@) =~= s0.push((TGroupType::Parentheses, Seq::empty())));
                }
            },
            Some(c) if c == ']' || c == ')' => {
                proof {
                    if c == ']' {
                        assert(g@ =~= seq![']']);
                    } else {
                        assert(g@ =~= seq![')']);
                    }
                }
                if stack.len() == 0 {
                    let mut m = String::from_str("Unmatched \"");
                    m.append(g.as_str());
                    m.append("\"");
                    return Err(m);
                }
                let (kind, grp) = stack.pop().unwrap();
                if (c == ']' && kind != TGroupType::Bracket) || (c == ')' && kind != TGroupType::Parentheses) {
                    let mut m = String::from_str("Expected matching group operator for ");
                    m.append(g.as_str());
                    return Err(m);
                }
                proof {
                    assert(stack_view(stack@) =~= s0.drop_last());
                }
                place_token(&mut res, &mut stack, Token::Group(kind, grp));
            },
            _ => {
                let ch = single_char(g);
                let t = match ch {
                    Some(',') => Token::COMMA,
                    Some('+') => Token::PLUS,
                    Some('-') => Token::MINUS,
                    Some('\n') => Token::NEWLINE,
                    _ => Token::Atom(g.clone()),
                };
                proof {
                    if g@.len() == 1 {
                        assert(g@ =~= seq![g@[0]]);
                    }
                    if g@ == seq![','] || g@ == seq!['+'] || g@ == seq!['-'] || g@ == seq!['\n'] || g@ == seq!['[']
                        || g@ == seq!['('] || g@ == seq![']'] || g@ == seq![')'] {
                        assert(g@.len() == 1 && g@[0] == g@[0]);
                    }
                }
                place_token(&mut res, &mut stack, t);
            },
        }
        k = k + 1;
    }
    Ok(res)
}

/// Assembles code: the bytecode, or the message for the first bracket that
/// does not close a group of its kind.
pub fn assemble(code: &str) -> (r: Result<Bytecode, String>)
    ensures
        match tokenize_spec(code@) {
            Ok(_) => r matches Ok(b) && b.code@.len() == 0 && b.entry == 0,
            Err(e) => r matches Err(m) && m@ == e,
        },
{
    let _tokens = tokenize(code)?;
    let builder = BytecodeBuilder::new();
    proof {
        assert(spec_build(builder.pre(), builder.labels_spec()) == Ok::<Seq<crate::lambda_jit::lambda_il::Instruction>, Seq<char>>(Seq::empty()));
    }
    builder.build()
}

} // verus!
