use vstd::prelude::*;
use crate::common::utils::chars::{alphabetic_char, chars_of, is_alphabetic, is_numeric, numeric_char};

verus! {

/// How an operator binds, in tenths: an operator with binding powers
/// `(l, r)` takes an operand on its left with power `l` and on its right
/// with power `r`.
#[derive(Copy, Clone, Debug, PartialEq, Eq, Structural)]
pub enum BindingPower {
    Seperator,
    Unary,
    Binary(i32, i32),
    /// The binding powers apply when the operator is read as binary.
    BinaryOrUnary(i32, i32),
}

/// The lowest binding power, below every operator's.
pub const MINBP: i32 = -2147483648i32;

/// An operator: its token and how it binds.
#[derive(Copy, Clone, Debug)]
pub struct Operator {
    pub token: &'static str,
    pub bp: BindingPower,
}

impl Operator {
    pub fn new(tk: &'static str, bp: BindingPower) -> (r: Self)
        ensures
            r.token == tk,
            r.bp == bp,
    {
        Operator { token: tk, bp }
    }
}

#[derive(Copy, Clone, Debug, PartialEq, Eq, Structural)]
pub enum Keyword {
    If,
    Else,
}

/// The operators, longest token first, each with its binding powers.
pub open spec fn operator_entries() -> Seq<(Seq<char>, BindingPower)> {
    seq![
        (seq!['*', '*'], BindingPower::Binary(30, 31)),
        (seq!['<', '='], BindingPower::Binary(10, 11)),
        (seq!['>', '='], BindingPower::Binary(10, 11)),
        (seq!['!', '='], BindingPower::Binary(10, 11)),
        (seq!['=', '='], BindingPower::Binary(10, 11)),
        (seq!['+'], BindingPower::BinaryOrUnary(10, 11)),
        (seq!['-'], BindingPower::BinaryOrUnary(10, 11)),
        (seq!['*'], BindingPower::Binary(20, 21)),
        (seq!['/'], BindingPower::Binary(20, 21)),
        (seq!['<'], BindingPower::Binary(10, 11)),
        (seq!['>'], BindingPower::Binary(10, 11)),
        (seq![','], BindingPower::Seperator),
        (seq!['='], BindingPower::Binary(-100i32, -99i32)),
    ]
}

/// The keywords, longest first.
pub open spec fn keyword_entries() -> Seq<(Seq<char>, Keyword)> {
    seq![(seq!['e', 'l', 's', 'e'], Keyword::Else), (seq!['i', 'f'], Keyword::If)]
}

/// Whether `s` holds `p` from position `i` on.
pub open spec fn matches_at(s: Seq<char>, i: int, p: Seq<char>) -> bool {
    0 <= i && i + p.len() <= s.len() && s.subrange(i, i + p.len()) == p
}

/// The first entry from `k` on whose token `s` holds at `i`.
pub open spec fn first_entry<T>(entries: Seq<(Seq<char>, T)>, s: Seq<char>, i: int, k: int) -> Option<int>
    decreases entries.len() - k,
{
    if k < 0 || k >= entries.len() {
        None
    } else if matches_at(s, i, entries[k].0) {
        Some(k)
    } else {
        first_entry(entries, s, i, k + 1)
    }
}

proof fn lemma_first_entry_bounds<T>(entries: Seq<(Seq<char>, T)>, s: Seq<char>, i: int, k: int)
    ensures
        match first_entry(entries, s, i, k) {
            Some(j) => k <= j < entries.len() && matches_at(s, i, entries[j].0),
            None => true,
        },
    decreases entries.len() - k,
{
    if !(k < 0 || k >= entries.len()) && !matches_at(s, i, entries[k].0) {
        lemma_first_entry_bounds(entries, s, i, k + 1);
    }
}

/// The operators, in the order they are tried.
pub fn operators() -> (r: Vec<Operator>)
    ensures
        r@.len() == operator_entries().len(),
        forall|k: int| 0 <= k < r@.len() ==> (#[trigger] r@[k].token@, r@[k].bp) == operator_entries()[k],
{
    proof {
        reveal_strlit("**");
        reveal_strlit("<=");
        reveal_strlit(">=");
        reveal_strlit("!=");
        reveal_strlit("==");
        reveal_strlit("+");
        reveal_strlit("-");
        reveal_strlit("*");
        reveal_strlit("/");
        reveal_strlit("<");
        reveal_strlit(">");
        reveal_strlit(",");
        reveal_strlit("=");
    }
    let r = vec![
        Operator::new("**", BindingPower::Binary(30, 31)),
        Operator::new("<=", BindingPower::Binary(10, 11)),
        Operator::new(">=", BindingPower::Binary(10, 11)),
        Operator::new("!=", BindingPower::Binary(10, 11)),
        Operator::new("==", BindingPower::Binary(10, 11)),
        Operator::new("+", BindingPower::BinaryOrUnary(10, 11)),
        Operator::new("-", BindingPower::BinaryOrUnary(10, 11)),
        Operator::new("*", BindingPower::Binary(20, 21)),
        Operator::new("/", BindingPower::Binary(20, 21)),
        Operator::new("<", BindingPower::Binary(10, 11)),
        Operator::new(">", BindingPower::Binary(10, 11)),
        Operator::new(",", BindingPower::Seperator),
        Operator::new("=", BindingPower::Binary(-100, -99)),
    ];
    assert forall|k: int| 0 <= k < r@.len() implies (#[trigger] r@[k].token@, r@[k].bp) == operator_entries()[k] by {
        assert(r@[0].token@ =~= seq!['*', '*']);
        assert(r@[1].token@ =~= seq!['<', '=']);
        assert(r@[2].token@ =~= seq!['>', '=']);
        assert(r@[3].token@ =~= seq!['!', '=']);
        assert(r@[4].token@ =~= seq!['=', '=']);
        assert(r@[5].token@ =~= seq!['+']);
        assert(r@[6].token@ =~= seq!['-']);
        assert(r@[7].token@ =~= seq!['*']);
        assert(r@[8].token@ =~= seq!['/']);
        assert(r@[9].token@ =~= seq!['<']);
        assert(r@[10].token@ =~= seq!['>']);
        assert(r@[11].token@ =~= seq![',']);
        assert(r@[12].token@ =~= seq!['=']);
    }
    r
}

/// Whether the characters `s` hold `p` from position `i` on.
fn chars_match_at(s: &Vec<char>, i: usize, p: &str) -> (r: bool)
    requires
        i <= s@.len(),
    ensures
        r == matches_at(s@, i as int, p@),
{
    let n = p.unicode_len();
    if n > s.len() - i {
        return false;
    }
    let mut k: usize = 0;
    while k < n
        invariant
            n == p@.len(),
            i + n <= s@.len(),
            i + n <= s.len(),
            k <= n,
            forall|j: int| 0 <= j < k ==> s@[i + j] == p@[j],
        decreases n - k,
    {
        if s[i + k] != p.get_char(k) {
            assert(s@.subrange(i as int, i + n)[k as int] != p@[k as int]);
            return false;
        }
        k = k + 1;
    }
    assert(s@.subrange(i as int, i + n) =~= p@);
    true
}

/// The operator whose token the characters hold at `i`, tried longest
/// first, with the length of its token.
fn operator_at(s: &Vec<char>, i: usize) -> (r: Option<(usize, Operator)>)
    requires
        i <= s@.len(),
    ensures
        match first_entry(operator_entries(), s@, i as int, 0) {
            Some(k) => r matches Some((len, op)) && len == operator_entries()[k].0.len()
                && op.token@ == operator_entries()[k].0 && op.bp == operator_entries()[k].1,
            None => r is None,
        },
{
    let ops = operators();
    let mut k: usize = 0;
    while k < ops.len()
        invariant
            i <= s@.len(),
            ops@.len() == operator_entries().len(),
            forall|j: int| 0 <= j < ops@.len() ==> (#[trigger] ops@[j].token@, ops@[j].bp) == operator_entries()[j],
            k <= ops@.len(),
            first_entry(operator_entries(), s@, i as int, 0) == first_entry(operator_entries(), s@, i as int, k as int),
        decreases ops@.len() - k,
    {
        let op = ops[k];
        assert((ops@[k as int].token@, ops@[k as int].bp) == operator_entries()[k as int]);
        if chars_match_at(s, i, op.token) {
            let len = op.token.unicode_len();
            return Some((len, op));
        }
        k = k + 1;
    }
    None
}

/// The keyword the characters hold at `i`, longest first, with its length.
fn keyword_at(s: &Vec<char>, i: usize) -> (r: Option<(usize, Keyword)>)
    requires
        i <= s@.len(),
    ensures
        match first_entry(keyword_entries(), s@, i as int, 0) {
            Some(k) => r == Some((keyword_entries()[k].0.len() as usize, keyword_entries()[k].1)),
            None => r is None,
        },
{
    proof {
        reveal_strlit("else");
        reveal_strlit("if");
        reveal_with_fuel(first_entry, 3);
    }
    assert("else"@ =~= keyword_entries()[0].0);
    assert("if"@ =~= keyword_entries()[1].0);
    if chars_match_at(s, i, "else") {
        Some((4, Keyword::Else))
    } else if chars_match_at(s, i, "if") {
        Some((2, Keyword::If))
    } else {
        None
    }
}

/// The keyword `st` starts with, longest first, with its length.
pub fn get_keyword(st: &str) -> (r: Option<(usize, Keyword)>)
    ensures
        match first_entry(keyword_entries(), st@, 0, 0) {
            Some(k) => r == Some((keyword_entries()[k].0.len() as usize, keyword_entries()[k].1)),
            None => r is None,
        },
{
    let s = chars_of(st);
    keyword_at(&s, 0)
}

/// The operator `st` starts with, longest first, with its length.
pub fn get_operator(st: &str) -> (r: Option<(usize, Operator)>)
    ensures
        match first_entry(operator_entries(), st@, 0, 0) {
            Some(k) => r matches Some((len, op)) && len == operator_entries()[k].0.len()
                && op.token@ == operator_entries()[k].0 && op.bp == operator_entries()[k].1,
            None => r is None,
        },
{
    let s = chars_of(st);
    operator_at(&s, 0)
}

/// A number as written: its digits with at most one decimal point, and
/// flags saying whether a `%` followed it and whether it has no point.
#[derive(Clone, Debug)]
pub struct NumericalLiteral {
    pub literal: String,
    pub flags: u8,
}

impl NumericalLiteral {
    pub const F_PERCENTAGE: u8 = 1;
    pub const F_INTEGER: u8 = 2;

    /// The literal as written, with `%` after it when it is a percentage.
    pub fn to_string(&self) -> (r: String)
        ensures
            r@ == (if self.flags % 2 == 1 {
                self.literal@ + "%"@
            } else {
                self.literal@
            }),
    {
        let mut res = self.literal.clone();
        let f = self.flags;
        assert(f & 1 > 0 <==> f % 2 == 1) by (bit_vector);
        if f & Self::F_PERCENTAGE > 0 {
            res.append("%");
        }
        res
    }
}

/// Where a number read from `j` on ends, and whether it has met a decimal
/// point by then (`dec` says whether it had before `j`): digits go on, and
/// so does the first point.
pub open spec fn number_end(s: Seq<char>, j: int, dec: bool) -> (int, bool)
    decreases s.len() - j,
{
    if j < 0 || j >= s.len() {
        (j, dec)
    } else if numeric_char(s[j]) {
        number_end(s, j + 1, dec)
    } else if s[j] == '.' && !dec {
        number_end(s, j + 1, true)
    } else {
        (j, dec)
    }
}

proof fn lemma_number_end_bounds(s: Seq<char>, j: int, dec: bool)
    requires
        0 <= j <= s.len(),
    ensures
        j <= number_end(s, j, dec).0 <= s.len(),
        dec ==> number_end(s, j, dec).1,
    decreases s.len() - j,
{
    if j < s.len() {
        if numeric_char(s[j]) {
            lemma_number_end_bounds(s, j + 1, dec);
        } else if s[j] == '.' && !dec {
            lemma_number_end_bounds(s, j + 1, true);
        }
    }
}

/// What reading a number at `i` gives: the characters used (a `%` after
/// the number included), the literal, and its flags; nothing when no digit
/// or point starts there.
pub open spec fn number_at(s: Seq<char>, i: int) -> Option<(int, Seq<char>, u8)> {
    let (e, dec) = number_end(s, i, false);
    let percent = e < s.len() && s[e] == '%';
    if e > i {
        Some((
            e - i + if percent { 1int } else { 0int },
            s.subrange(i, e),
            ((if percent { 1int } else { 0int }) + (if dec { 0int } else { 2int })) as u8,
        ))
    } else {
        None
    }
}

/// The length of the run of alphabetic characters from `j` on.
pub open spec fn ident_end(s: Seq<char>, j: int) -> int
    decreases s.len() - j,
{
    if j < 0 || j >= s.len() {
        j
    } else if alphabetic_char(s[j]) {
        ident_end(s, j + 1)
    } else {
        j
    }
}

proof fn lemma_ident_end_bounds(s: Seq<char>, j: int)
    requires
        0 <= j <= s.len(),
    ensures
        j <= ident_end(s, j) <= s.len(),
    decreases s.len() - j,
{
    if j < s.len() && alphabetic_char(s[j]) {
        lemma_ident_end_bounds(s, j + 1);
    }
}

/// Reads a number from the characters at `i`.
fn number_at_chars(st: &str, s: &Vec<char>, i: usize) -> (r: Option<(usize, NumericalLiteral)>)
    requires
        s@ == st@,
        i <= s@.len(),
    ensures
        match number_at(s@, i as int) {
            Some((len, lit, flags)) => r matches Some((l, n)) && l == len && n.literal@ == lit && n.flags == flags,
            None => r is None,
        },
{
    let n = s.len();
    let mut j: usize = i;
    let mut dec = false;
    while j < n && (is_numeric(s[j]) || (s[j] == '.' && !dec))
        invariant
            n == s@.len(),
            i <= j <= n,
            number_end(s@, i as int, false) == number_end(s@, j as int, dec),
        decreases n - j,
    {
        if !is_numeric(s[j]) {
            dec = true;
        }
        j = j + 1;
    }
    assert(number_end(s@, j as int, dec) == (j as int, dec));
    let percent = j < n && s[j] == '%';
    if j > i {
        let literal = st.substring_char(i, j).to_string();
        let len = if percent { j - i + 1 } else { j - i };
        let flags: u8 = (if percent { 1u8 } else { 0u8 }) + (if dec { 0u8 } else { 2u8 });
        Some((len, NumericalLiteral { literal, flags }))
    } else {
        None
    }
}

/// Reads the alphabetic characters at `i`.
fn identifier_at_chars(st: &str, s: &Vec<char>, i: usize) -> (r: Option<(usize, String)>)
    requires
        s@ == st@,
        i <= s@.len(),
    ensures
        ident_end(s@, i as int) > i ==> (r matches Some((l, id)) && l == ident_end(s@, i as int) - i
            && id@ == s@.subrange(i as int, ident_end(s@, i as int))),
        ident_end(s@, i as int) <= i ==> r is None,
{
    let n = s.len();
    let mut j: usize = i;
    while j < n && is_alphabetic(s[j])
        invariant
            n == s@.len(),
            i <= j <= n,
            ident_end(s@, i as int) == ident_end(s@, j as int),
        decreases n - j,
    {
        j = j + 1;
    }
    assert(ident_end(s@, j as int) == j);
    if j > i {
        Some((j - i, st.substring_char(i, j).to_string()))
    } else {
        None
    }
}

/// Reads a number at the start of `st`: digits with at most one decimal
/// point, and a `%` after them, which counts in the length and marks the
/// literal a percentage.
pub fn get_number(st: &str) -> (r: Option<(usize, NumericalLiteral)>)
    ensures
        match number_at(st@, 0) {
            Some((len, lit, flags)) => r matches Some((l, n)) && l == len && n.literal@ == lit && n.flags == flags,
            None => r is None,
        },
{
    let s = chars_of(st);
    number_at_chars(st, &s, 0)
}

/// Reads the alphabetic characters at the start of `st`, with the number
/// of bytes they take in UTF-8.
pub fn get_identifier(st: &str) -> (r: Option<(usize, String)>)
    ensures
        ident_end(st@, 0) > 0 ==> (r matches Some((l, id)) && id@ == st@.subrange(0, ident_end(st@, 0))
            && l == vstd::utf8::encode_utf8(st@.subrange(0, ident_end(st@, 0))).len() as usize),
        ident_end(st@, 0) == 0 ==> r is None,
{
    let s = chars_of(st);
    proof {
        lemma_ident_end_bounds(st@, 0);
    }
    match identifier_at_chars(st, &s, 0) {
        Some((_, id)) => {
            let bytes = id.as_str().len();
            Some((bytes, id))
        },
        None => None,
    }
}

/// A token of a program.
#[derive(Debug)]
pub enum Token {
    Ident(String),
    Num(NumericalLiteral),
    Operator(Operator),
    Keyword(Keyword),
    /// The tokens between a `(` and its `)`.
    ParenthesesGroup(Vec<Token>),
    OpenBrace,
    CloseBrace,
    Newline,
}

/// A token as plain values.
pub enum TokenV {
    Ident(Seq<char>),
    Num(Seq<char>, u8),
    Operator(Seq<char>, BindingPower),
    Keyword(Keyword),
    Group(Seq<TokenV>),
    OpenBrace,
    CloseBrace,
    Newline,
}

impl TokenV {
    /// Whether the token can be part of an expression.
    pub open spec fn is_expression(self) -> bool {
        match self {
            TokenV::Ident(_) => true,
            TokenV::Num(_, _) => true,
            TokenV::Operator(_, _) => true,
            TokenV::Keyword(_) => false,
            TokenV::Group(_) => true,
            TokenV::OpenBrace => false,
            TokenV::CloseBrace => false,
            TokenV::Newline => false,
        }
    }
}

/// The tokens as plain values.
pub open spec fn tokens_view(ts: Seq<Token>) -> Seq<TokenV>
    decreases ts,
{
    if ts.len() == 0 {
        Seq::empty()
    } else {
        seq![token_view(ts[0])] + tokens_view(ts.subrange(1, ts.len() as int))
    }
}

/// The token as a plain value.
pub open spec fn token_view(t: Token) -> TokenV
    decreases t,
{
    match t {
        Token::Ident(s) => TokenV::Ident(s@),
        Token::Num(n) => TokenV::Num(n.literal@, n.flags),
        Token::Operator(o) => TokenV::Operator(o.token@, o.bp),
        Token::Keyword(k) => TokenV::Keyword(k),
        Token::ParenthesesGroup(v) => TokenV::Group(tokens_view(v@)),
        Token::OpenBrace => TokenV::OpenBrace,
        Token::CloseBrace => TokenV::CloseBrace,
        Token::Newline => TokenV::Newline,
    }
}

pub proof fn lemma_tokens_view_push(ts: Seq<Token>, t: Token)
    ensures
        tokens_view(ts.push(t)) == tokens_view(ts).push(token_view(t)),
    decreases ts.len(),
{
    if ts.len() == 0 {
        assert(ts.push(t).subrange(1, 1) =~= Seq::<Token>::empty());
        assert(tokens_view(Seq::<Token>::empty()) == Seq::<TokenV>::empty());
        assert(ts.push(t)[0] == t);
        assert(tokens_view(ts.push(t)) =~= seq![token_view(t)]);
        assert(tokens_view(ts) == Seq::<TokenV>::empty());
    } else {
        assert(ts.push(t).subrange(1, ts.len() + 1int) =~= ts.subrange(1, ts.len() as int).push(t));
        lemma_tokens_view_push(ts.subrange(1, ts.len() as int), t);
        assert(tokens_view(ts.push(t)) =~= tokens_view(ts).push(token_view(t)));
    }
}

pub proof fn lemma_tokens_view_len(ts: Seq<Token>)
    ensures
        tokens_view(ts).len() == ts.len(),
        ts.len() > 0 ==> tokens_view(ts)[0] == token_view(ts[0]),
    decreases ts.len(),
{
    if ts.len() > 0 {
        lemma_tokens_view_len(ts.subrange(1, ts.len() as int));
    }
}

impl Token {
    /// Whether the token can be part of an expression.
    pub fn is_expression(&self) -> (r: bool)
        ensures
            r == token_view(*self).is_expression(),
    {
        match self {
            Token::Ident(_) => true,
            Token::Num(_) => true,
            Token::Operator(_) => true,
            Token::Keyword(_) => false,
            Token::ParenthesesGroup(_) => true,
            Token::OpenBrace => false,
            Token::CloseBrace => false,
            Token::Newline => false,
        }
    }
}

/// How a token is written in messages: a group as its tokens in `[`
/// `]`, separated by `, `.
pub open spec fn token_text(t: TokenV) -> Seq<char>
    decreases t,
{
    match t {
        TokenV::Ident(s) => s,
        TokenV::Num(l, f) => if f % 2 == 1 { l + "%"@ } else { l },
        TokenV::Operator(tok, _) => tok,
        TokenV::Keyword(k) => match k {
            Keyword::If => "If"@,
            Keyword::Else => "Else"@,
        },
        TokenV::Group(g) => "["@ + items_text(g) + "]"@,
        TokenV::OpenBrace => "{"@,
        TokenV::CloseBrace => "}"@,
        TokenV::Newline => "\\n"@,
    }
}

/// The tokens as written in messages, separated by `, `.
pub open spec fn items_text(g: Seq<TokenV>) -> Seq<char>
    decreases g,
{
    if g.len() == 0 {
        Seq::empty()
    } else if g.len() == 1 {
        token_text(g[0])
    } else {
        items_text(g.drop_last()) + ", "@ + token_text(g.last())
    }
}

/// The tokens as written in messages, separated by `, `.
fn describe_items(v: &Vec<Token>) -> (r: String)
    ensures
        r@ == items_text(tokens_view(v@)),
    decreases v@, 1int,
{
    let mut s = String::new();
    let mut i: usize = 0;
    assert(v@.subrange(0, 0) =~= Seq::<Token>::empty());
    assert(tokens_view(Seq::<Token>::empty()) == Seq::<TokenV>::empty());
    while i < v.len()
        invariant
            i <= v@.len(),
            s@ == items_text(tokens_view(v@.subrange(0, i as int))),
        decreases v@.len() - i,
    {
        assert(decreases_to!(v@ => v@[i as int]));
        let t = v[i].describe();
        proof {
            lemma_tokens_view_push(v@.subrange(0, i as int), v@[i as int]);
            assert(v@.subrange(0, i + 1) =~= v@.subrange(0, i as int).push(v@[i as int]));
            let pre = tokens_view(v@.subrange(0, i as int));
            assert(tokens_view(v@.subrange(0, i + 1)).drop_last() =~= pre);
            if i == 0 {
                assert(items_text(tokens_view(v@.subrange(0, 1))) == token_text(token_view(v@[0])));
            }
        }
        if i > 0 {
            s.append(", ");
        }
        s.append(t.as_str());
        i = i + 1;
    }
    assert(v@.subrange(0, v@.len() as int) =~= v@);
    s
}

impl Token {
    /// The token as written in messages (see `token_text`).
    pub fn describe(&self) -> (r: String)
        ensures
            r@ == token_text(token_view(*self)),
        decreases *self, 0int,
    {
        match self {
            Token::Ident(s) => s.clone(),
            Token::Num(n) => n.to_string(),
            Token::Operator(o) => String::from_str(o.token),
            Token::Keyword(k) => match k {
                Keyword::If => String::from_str("If"),
                Keyword::Else => String::from_str("Else"),
            },
            Token::ParenthesesGroup(v) => {
                let mut s = String::from_str("[");
                let t = describe_items(v);
                s.append(t.as_str());
                s.append("]");
                s
            },
            Token::OpenBrace => String::from_str("{"),
            Token::CloseBrace => String::from_str("}"),
            Token::Newline => String::from_str("\\n"),
        }
    }
}

/// Questions about a sequence of tokens.
pub trait TokenHelpers {
    spec fn first_is_expr(&self) -> bool;

    /// Whether the first token can be part of an expression.
    fn next_is_expr(&self) -> (r: bool)
        ensures
            r == self.first_is_expr();
}

impl TokenHelpers for Vec<Token> {
    open spec fn first_is_expr(&self) -> bool {
        self@.len() > 0 && token_view(self@[0]).is_expression()
    }

    fn next_is_expr(&self) -> (r: bool) {
        if self.len() > 0 {
            self[0].is_expression()
        } else {
            false
        }
    }
}

/// Adds a token to the innermost open group, or to the result when no
/// group is open.
pub open spec fn place(res: Seq<TokenV>, groups: Seq<Seq<TokenV>>, t: TokenV) -> (Seq<TokenV>, Seq<Seq<TokenV>>) {
    if groups.len() > 0 {
        (res, groups.update(groups.len() - 1, groups.last().push(t)))
    } else {
        (res.push(t), groups)
    }
}

/// The tokens of `s` from position `i` on, given the tokens `res` read so
/// far and the groups `groups` still open. At each position the first of
/// these that applies is taken: an operator; a newline, `{` or `}`; a `(`,
/// which opens a group; a `)`, which closes the innermost group into one
/// token (and is skipped when none is open); a keyword; a number; a run of
/// letters; anything else is skipped. Groups still open at the end are
/// dropped.
pub open spec fn tokens_from(s: Seq<char>, i: int, res: Seq<TokenV>, groups: Seq<Seq<TokenV>>) -> Seq<TokenV>
    decreases s.len() - i,
{
    if i < 0 || i >= s.len() {
        res
    } else {
        match first_entry(operator_entries(), s, i, 0) {
            Some(k) => {
                let (r2, g2) = place(res, groups, TokenV::Operator(operator_entries()[k].0, operator_entries()[k].1));
                tokens_from(s, advance(i, operator_entries()[k].0.len() as int, s.len() as int), r2, g2)
            },
            None => if s[i] == '\n' {
                let (r2, g2) = place(res, groups, TokenV::Newline);
                tokens_from(s, i + 1, r2, g2)
            } else if s[i] == '{' {
                let (r2, g2) = place(res, groups, TokenV::OpenBrace);
                tokens_from(s, i + 1, r2, g2)
            } else if s[i] == '}' {
                let (r2, g2) = place(res, groups, TokenV::CloseBrace);
                tokens_from(s, i + 1, r2, g2)
            } else if s[i] == '(' {
                tokens_from(s, i + 1, res, groups.push(Seq::empty()))
            } else if s[i] == ')' {
                if groups.len() > 0 {
                    let (r2, g2) = place(res, groups.drop_last(), TokenV::Group(groups.last()));
                    tokens_from(s, i + 1, r2, g2)
                } else {
                    tokens_from(s, i + 1, res, groups)
                }
            } else {
                match first_entry(keyword_entries(), s, i, 0) {
                    Some(k) => {
                        let (r2, g2) = place(res, groups, TokenV::Keyword(keyword_entries()[k].1));
                        tokens_from(s, advance(i, keyword_entries()[k].0.len() as int, s.len() as int), r2, g2)
                    },
                    None => match number_at(s, i) {
                        Some((len, lit, flags)) => {
                            let (r2, g2) = place(res, groups, TokenV::Num(lit, flags));
                            tokens_from(s, advance(i, len, s.len() as int), r2, g2)
                        },
                        None => if ident_end(s, i) > i {
                            let (r2, g2) = place(res, groups, TokenV::Ident(s.subrange(i, ident_end(s, i))));
                            tokens_from(s, advance(i, ident_end(s, i) - i, s.len() as int), r2, g2)
                        } else {
                            tokens_from(s, i + 1, res, groups)
                        },
                    },
                }
            },
        }
    }
}

/// The position `n` after `i`, moving at least one and at most to `len`.
pub open spec fn advance(i: int, n: int, len: int) -> int {
    if n <= 0 {
        i + 1
    } else if i + n > len {
        len
    } else {
        i + n
    }
}

/// The tokens of a program.
pub open spec fn tokenize_spec(s: Seq<char>) -> Seq<TokenV> {
    tokens_from(s, 0, Seq::empty(), Seq::empty())
}

/// The open groups as plain values.
pub open spec fn groups_view(gs: Seq<Vec<Token>>) -> Seq<Seq<TokenV>> {
    gs.map_values(|g: Vec<Token>| tokens_view(g@))
}

/// Adds `t` to the innermost open group, or to `res` when none is open.
fn place_token(res: &mut Vec<Token>, groups: &mut Vec<Vec<Token>>, t: Token)
    ensures
        (tokens_view(final(res)@), groups_view(final(groups)@)) == place(
            tokens_view(old(res)@),
            groups_view(old(groups)@),
            token_view(t),
        ),
{
    proof {
        lemma_tokens_view_push(old(res)@, t);
    }
    if groups.len() > 0 {
        let mut last = groups.pop().unwrap();
        proof {
            lemma_tokens_view_push(last@, t);
        }
        last.push(t);
        groups.push(last);
        assert(groups_view(groups@) =~= groups_view(old(groups)@).update(
            groups_view(old(groups)@).len() - 1,
            groups_view(old(groups)@).last().push(token_view(t)),
        ));
    } else {
        res.push(t);
    }
}

/// The tokens of a program: see `tokens_from`.
pub fn tokenize(st: &str) -> (r: Vec<Token>)
    ensures
        tokens_view(r@) == tokenize_spec(st@),
{
    let s = chars_of(st);
    let n = s.len();
    let mut res: Vec<Token> = Vec::new();
    let mut groups: Vec<Vec<Token>> = Vec::new();
    let mut i: usize = 0;
    proof {
        assert(tokens_view(res@) == Seq::<TokenV>::empty());
        assert(groups_view(groups@) =~= Seq::<Seq<TokenV>>::empty());
    }
    while i < n
        invariant
            s@ == st@,
            n == s@.len(),
            i <= n,
            tokens_from(s@, i as int, tokens_view(res@), groups_view(groups@)) == tokenize_spec(st@),
        decreases n - i,
    {
        let ghost r0 = tokens_view(res@);
        let ghost g0 = groups_view(groups@);
        proof {
            lemma_first_entry_bounds(operator_entries(), s@, i as int, 0);
            lemma_first_entry_bounds(keyword_entries(), s@, i as int, 0);
            lemma_number_end_bounds(s@, i as int, false);
            lemma_ident_end_bounds(s@, i as int);
        }
        match operator_at(&s, i) {
            Some((len, op)) => {
                place_token(&mut res, &mut groups, Token::Operator(op));
                i = i + len;
            },
            None => {
                let c = s[i];
                if c == '\n' {
                    place_token(&mut res, &mut groups, Token::Newline);
                    i = i + 1;
                } else if c == '{' {
                    place_token(&mut res, &mut groups, Token::OpenBrace);
                    i = i + 1;
                } else if c == '}' {
                    place_token(&mut res, &mut groups, Token::CloseBrace);
                    i = i + 1;
                } else if c == '(' {
                    groups.push(Vec::new());
                    proof {
                        assert(tokens_view(Seq::<Token>::empty()) == Seq::<TokenV>::empty());
                        assert(groups_view(groups@) =~= g0.push(Seq::empty()));
                    }
                    i = i + 1;
                } else if c == ')' {
                    if groups.len() > 0 {
                        let grp = groups.pop().unwrap();
                        proof {
                            assert(groups_view(groups@) =~= g0.drop_last());
                            assert(tokens_view(grp@) == g0.last());
                        }
                        place_token(&mut res, &mut groups, Token::ParenthesesGroup(grp));
                    }
                    i = i + 1;
                } else {
                    match keyword_at(&s, i) {
                        Some((len, k)) => {
                            place_token(&mut res, &mut groups, Token::Keyword(k));
                            i = i + len;
                        },
                        None => {
                            match number_at_chars(st, &s, i) {
                                Some((len, num)) => {
                                    place_token(&mut res, &mut groups, Token::Num(num));
                                    i = i + len;
                                },
                                None => {
                                    match identifier_at_chars(st, &s, i) {
                                        Some((len, id)) => {
                                            place_token(&mut res, &mut groups, Token::Ident(id));
                                            i = i + len;
                                        },
                                        None => {
                                            i = i + 1;
                                        },
                                    }
                                },
                            }
                        },
                    }
                }
            },
        }
    }
    res
}

} // verus!
