use vstd::prelude::*;

use crate::ast::{Ast, Node};
use crate::grammar::{
    add_name,
    all_ascii,
    all_digits,
    alnum_run,
    alpha_run,
    ascii_chars,
    decimal,
    digit_run,
    double_equal_bytes,
    g_arguments,
    g_boolean,
    g_comment,
    g_condition,
    g_expression,
    g_function_call,
    g_function_define,
    g_function_return,
    g_identifier,
    g_if_assign,
    g_if_else,
    g_if_expression,
    g_if_indent,
    g_if_multi_line,
    g_indented_block,
    g_many_arguments,
    g_many_other_args,
    g_many_statements,
    g_many_top_items,
    g_math_expression,
    g_number,
    g_other_arg,
    g_program,
    g_return_else,
    g_return_if,
    g_return_ifnum,
    g_statement,
    g_string,
    g_top_item,
    g_value,
    g_variable_define,
    kind_at,
    lexemes,
    number_value,
    sub_name,
};
use crate::lexer::{lex, lex_texts, token_texts, Token, TokenKind};

verus! {

/// The result of a parser that starts at a token position: on success the
/// position after what it consumed and what it built, on failure the
/// position it started at (nothing is consumed).
pub type Parsed<T> = Result<(usize, T), usize>;

/// `r` is what a grammar rule `g` gives at `pos` in `t`.
pub open spec fn parsed(r: Parsed<Node>, t: Seq<(TokenKind, Seq<u8>)>, pos: int, g: Option<(int, Ast)>) -> bool {
    match r {
        Ok((p, n)) => g == Some((p as int, n.model())) && p <= t.len(),
        Err(e) => e == pos && g is None,
    }
}

pub open spec fn same_token(a: Token, b: Token) -> bool {
    &&& a.kind == b.kind
    &&& a.lexeme@ == b.lexeme@
    &&& a.start_line == b.start_line
    &&& a.start_col == b.start_col
    &&& a.end_line == b.end_line
    &&& a.end_col == b.end_col
}

/// `r` is the token at `pos` when it is of class `k`, and a failure otherwise.
pub open spec fn took(r: Parsed<Token>, t: Seq<Token>, pos: int, k: TokenKind) -> bool {
    match r {
        Ok((p, tk)) => kind_at(token_texts(t), pos, k) && p == pos + 1 && same_token(tk, t[pos]),
        Err(e) => e == pos && !kind_at(token_texts(t), pos, k),
    }
}

/// `r` holds copies of the tokens from `pos` up to `end`, which must lie past
/// `pos` when `nonempty`.
pub open spec fn took_run(r: Parsed<Vec<Token>>, t: Seq<Token>, pos: int, end: int, nonempty: bool) -> bool {
    match r {
        Ok((p, v)) => p == end && (!nonempty || end > pos) && v@.len() == end - pos && forall|i: int|
            0 <= i < v@.len() ==> same_token(#[trigger] v@[i], t[pos + i]),
        Err(e) => e == pos && nonempty && end <= pos,
    }
}

pub fn copy_token(t: &Token) -> (r: Token)
    ensures
        same_token(r, *t),
{
    Token {
        kind: t.kind,
        lexeme: t.lexeme.clone(),
        start_line: t.start_line,
        start_col: t.start_col,
        end_line: t.end_line,
        end_col: t.end_col,
    }
}

/// The token at `pos` when it is of class `kind`.
pub fn check_token(toks: &Vec<Token>, pos: usize, kind: TokenKind) -> (r: Parsed<Token>)
    ensures
        took(r, toks@, pos as int, kind),
{
    if pos < toks.len() && toks[pos].kind == kind {
        Ok((pos + 1, copy_token(&toks[pos])))
    } else {
        Err(pos)
    }
}

/// One token of class `Alpha`.
pub fn t_alpha(toks: &Vec<Token>, pos: usize) -> (r: Parsed<Token>)
    ensures
        took(r, toks@, pos as int, TokenKind::Alpha),
{
    check_token(toks, pos, TokenKind::Alpha)
}

/// One token of class `Digit`.
pub fn t_digit(toks: &Vec<Token>, pos: usize) -> (r: Parsed<Token>)
    ensures
        took(r, toks@, pos as int, TokenKind::Digit),
{
    check_token(toks, pos, TokenKind::Digit)
}

/// One token of class `True`.
pub fn t_true(toks: &Vec<Token>, pos: usize) -> (r: Parsed<Token>)
    ensures
        took(r, toks@, pos as int, TokenKind::True),
{
    check_token(toks, pos, TokenKind::True)
}

/// One token of class `False`.
pub fn t_false(toks: &Vec<Token>, pos: usize) -> (r: Parsed<Token>)
    ensures
        took(r, toks@, pos as int, TokenKind::False),
{
    check_token(toks, pos, TokenKind::False)
}

/// One token of class `LeftParen`.
pub fn t_left_paren(toks: &Vec<Token>, pos: usize) -> (r: Parsed<Token>)
    ensures
        took(r, toks@, pos as int, TokenKind::LeftParen),
{
    check_token(toks, pos, TokenKind::LeftParen)
}

/// One token of class `RightParen`.
pub fn t_right_paren(toks: &Vec<Token>, pos: usize) -> (r: Parsed<Token>)
    ensures
        took(r, toks@, pos as int, TokenKind::RightParen),
{
    check_token(toks, pos, TokenKind::RightParen)
}

/// One token of class `LeftCurly`.
pub fn t_left_curly(toks: &Vec<Token>, pos: usize) -> (r: Parsed<Token>)
    ensures
        took(r, toks@, pos as int, TokenKind::LeftCurly),
{
    check_token(toks, pos, TokenKind::LeftCurly)
}

/// One token of class `RightCurly`.
pub fn t_right_curly(toks: &Vec<Token>, pos: usize) -> (r: Parsed<Token>)
    ensures
        took(r, toks@, pos as int, TokenKind::RightCurly),
{
    check_token(toks, pos, TokenKind::RightCurly)
}

/// One token of class `Quote`.
pub fn t_quote(toks: &Vec<Token>, pos: usize) -> (r: Parsed<Token>)
    ensures
        took(r, toks@, pos as int, TokenKind::Quote),
{
    check_token(toks, pos, TokenKind::Quote)
}

/// One token of class `Slash`.
pub fn t_slash(toks: &Vec<Token>, pos: usize) -> (r: Parsed<Token>)
    ensures
        took(r, toks@, pos as int, TokenKind::Slash),
{
    check_token(toks, pos, TokenKind::Slash)
}

/// One token of class `Comma`.
pub fn t_comma(toks: &Vec<Token>, pos: usize) -> (r: Parsed<Token>)
    ensures
        took(r, toks@, pos as int, TokenKind::Comma),
{
    check_token(toks, pos, TokenKind::Comma)
}

/// One token of class `Semicolon`.
pub fn t_semicolon(toks: &Vec<Token>, pos: usize) -> (r: Parsed<Token>)
    ensures
        took(r, toks@, pos as int, TokenKind::Semicolon),
{
    check_token(toks, pos, TokenKind::Semicolon)
}

/// One token of class `Let`.
pub fn t_let(toks: &Vec<Token>, pos: usize) -> (r: Parsed<Token>)
    ensures
        took(r, toks@, pos as int, TokenKind::Let),
{
    check_token(toks, pos, TokenKind::Let)
}

/// One token of class `If`.
pub fn t_if(toks: &Vec<Token>, pos: usize) -> (r: Parsed<Token>)
    ensures
        took(r, toks@, pos as int, TokenKind::If),
{
    check_token(toks, pos, TokenKind::If)
}

/// One token of class `Greater`.
pub fn t_greater(toks: &Vec<Token>, pos: usize) -> (r: Parsed<Token>)
    ensures
        took(r, toks@, pos as int, TokenKind::Greater),
{
    check_token(toks, pos, TokenKind::Greater)
}

/// One token of class `LessThan`.
pub fn t_lessthan(toks: &Vec<Token>, pos: usize) -> (r: Parsed<Token>)
    ensures
        took(r, toks@, pos as int, TokenKind::LessThan),
{
    check_token(toks, pos, TokenKind::LessThan)
}

/// One token of class `Else`.
pub fn t_else(toks: &Vec<Token>, pos: usize) -> (r: Parsed<Token>)
    ensures
        took(r, toks@, pos as int, TokenKind::Else),
{
    check_token(toks, pos, TokenKind::Else)
}

/// One token of class `Fn`.
pub fn t_fn(toks: &Vec<Token>, pos: usize) -> (r: Parsed<Token>)
    ensures
        took(r, toks@, pos as int, TokenKind::Fn),
{
    check_token(toks, pos, TokenKind::Fn)
}

/// One token of class `Return`.
pub fn t_return(toks: &Vec<Token>, pos: usize) -> (r: Parsed<Token>)
    ensures
        took(r, toks@, pos as int, TokenKind::Return),
{
    check_token(toks, pos, TokenKind::Return)
}

/// One token of class `WhiteSpace`.
pub fn t_whitespace(toks: &Vec<Token>, pos: usize) -> (r: Parsed<Token>)
    ensures
        took(r, toks@, pos as int, TokenKind::WhiteSpace),
{
    check_token(toks, pos, TokenKind::WhiteSpace)
}

/// One token of class `Tab`.
pub fn t_tab(toks: &Vec<Token>, pos: usize) -> (r: Parsed<Token>)
    ensures
        took(r, toks@, pos as int, TokenKind::Tab),
{
    check_token(toks, pos, TokenKind::Tab)
}

/// One token of class `NewLine`.
pub fn t_newline(toks: &Vec<Token>, pos: usize) -> (r: Parsed<Token>)
    ensures
        took(r, toks@, pos as int, TokenKind::NewLine),
{
    check_token(toks, pos, TokenKind::NewLine)
}

/// One token of class `Plus`.
pub fn t_plus(toks: &Vec<Token>, pos: usize) -> (r: Parsed<Token>)
    ensures
        took(r, toks@, pos as int, TokenKind::Plus),
{
    check_token(toks, pos, TokenKind::Plus)
}

/// One token of class `Dash`.
pub fn t_dash(toks: &Vec<Token>, pos: usize) -> (r: Parsed<Token>)
    ensures
        took(r, toks@, pos as int, TokenKind::Dash),
{
    check_token(toks, pos, TokenKind::Dash)
}

/// One token of class `Equal`.
pub fn t_equal(toks: &Vec<Token>, pos: usize) -> (r: Parsed<Token>)
    ensures
        took(r, toks@, pos as int, TokenKind::Equal),
{
    check_token(toks, pos, TokenKind::Equal)
}

/// `==`, read from two `=` tokens; it spans both.
pub fn t_double_equal(toks: &Vec<Token>, pos: usize) -> (r: Parsed<Token>)
    ensures
        match r {
            Ok((p, tk)) => kind_at(token_texts(toks@), pos as int, TokenKind::Equal) && kind_at(token_texts(toks@),
                pos + 1,
                TokenKind::Equal,
            ) && p == pos + 2 && tk.kind == TokenKind::DoubleEqual && tk.lexeme@
                == double_equal_bytes(),
            Err(e) => e == pos && !(kind_at(token_texts(toks@), pos as int, TokenKind::Equal) && kind_at(token_texts(toks@),
                pos + 1,
                TokenKind::Equal,
            )),
        },
{
    let (p1, first) = match t_equal(toks, pos) {
        Ok(x) => x,
        Err(_) => {
            return Err(pos);
        },
    };
    let (p2, second) = match t_equal(toks, p1) {
        Ok(x) => x,
        Err(_) => {
            return Err(pos);
        },
    };
    let lexeme: Vec<u8> = vec![61u8, 61u8];
    proof {
        assert(lexeme@ =~= double_equal_bytes());
    }
    let token = Token {
        kind: TokenKind::DoubleEqual,
        lexeme,
        start_line: first.start_line,
        start_col: first.start_col,
        end_line: second.end_line,
        end_col: second.end_col,
    };
    Ok((p2, token))
}

fn run_end(toks: &Vec<Token>, pos: usize, alpha: bool, digit: bool) -> (e: usize)
    requires
        pos <= toks@.len(),
    ensures
        pos <= e <= toks@.len(),
        alpha && !digit ==> e == alpha_run(token_texts(toks@), pos as int),
        alpha && digit ==> e == alnum_run(token_texts(toks@), pos as int),
        !alpha && digit ==> e == digit_run(token_texts(toks@), pos as int),
{
    let mut i: usize = pos;
    while i < toks.len() && ((alpha && toks[i].kind == TokenKind::Alpha) || (digit && toks[i].kind
        == TokenKind::Digit))
        invariant
            pos <= i <= toks@.len(),
            alpha && !digit ==> alpha_run(token_texts(toks@), pos as int) == alpha_run(token_texts(toks@), i as int),
            alpha && digit ==> alnum_run(token_texts(toks@), pos as int) == alnum_run(token_texts(toks@), i as int),
            !alpha && digit ==> digit_run(token_texts(toks@), pos as int) == digit_run(token_texts(toks@), i as int),
        decreases toks@.len() - i,
    {
        i = i + 1;
    }
    i
}

fn copy_tokens(toks: &Vec<Token>, a: usize, b: usize) -> (r: Vec<Token>)
    requires
        a <= b <= toks@.len(),
    ensures
        r@.len() == b - a,
        forall|i: int| 0 <= i < r@.len() ==> same_token(#[trigger] r@[i], toks@[a + i]),
{
    let mut r: Vec<Token> = Vec::new();
    let mut k: usize = a;
    while k < b
        invariant
            a <= k <= b,
            b <= toks@.len(),
            r@.len() == k - a,
            forall|i: int| 0 <= i < r@.len() ==> same_token(#[trigger] r@[i], toks@[a + i]),
        decreases b - k,
    {
        r.push(copy_token(&toks[k]));
        k = k + 1;
    }
    r
}

/// The bytes of the tokens from `a` up to `b`, one after another.
fn concat_lexemes(toks: &Vec<Token>, a: usize, b: usize) -> (r: Vec<u8>)
    requires
        a <= b <= toks@.len(),
    ensures
        r@ == lexemes(token_texts(toks@), a as int, b as int),
{
    let mut r: Vec<u8> = Vec::new();
    let mut k: usize = a;
    while k < b
        invariant
            a <= k <= b,
            b <= toks@.len(),
            r@ == lexemes(token_texts(toks@), a as int, k as int),
        decreases b - k,
    {
        let lx = &toks[k].lexeme;
        let mut j: usize = 0;
        let ghost start = r@;
        while j < lx.len()
            invariant
                j <= lx@.len(),
                r@ == start + lx@.subrange(0, j as int),
            decreases lx@.len() - j,
        {
            r.push(lx[j]);
            proof {
                assert(r@ =~= start + lx@.subrange(0, j + 1));
            }
            j = j + 1;
        }
        proof {
            assert(lx@.subrange(0, lx@.len() as int) =~= lx@);
        }
        k = k + 1;
    }
    r
}

/// One or more letters.
pub fn t_alpha1(toks: &Vec<Token>, pos: usize) -> (r: Parsed<Vec<Token>>)
    requires
        pos <= toks@.len(),
    ensures
        took_run(r, toks@, pos as int, alpha_run(token_texts(toks@), pos as int), true),
{
    let e = run_end(toks, pos, true, false);
    if e == pos {
        return Err(pos);
    }
    Ok((e, copy_tokens(toks, pos, e)))
}

/// Zero or more letters.
pub fn t_alpha0(toks: &Vec<Token>, pos: usize) -> (r: Parsed<Vec<Token>>)
    requires
        pos <= toks@.len(),
    ensures
        took_run(r, toks@, pos as int, alpha_run(token_texts(toks@), pos as int), false),
{
    let e = run_end(toks, pos, true, false);
    Ok((e, copy_tokens(toks, pos, e)))
}

/// One or more letters and digits.
pub fn t_alphanumeric1(toks: &Vec<Token>, pos: usize) -> (r: Parsed<Vec<Token>>)
    requires
        pos <= toks@.len(),
    ensures
        took_run(r, toks@, pos as int, alnum_run(token_texts(toks@), pos as int), true),
{
    let e = run_end(toks, pos, true, true);
    if e == pos {
        return Err(pos);
    }
    Ok((e, copy_tokens(toks, pos, e)))
}

/// Zero or more letters and digits.
pub fn t_alphanumeric0(toks: &Vec<Token>, pos: usize) -> (r: Parsed<Vec<Token>>)
    requires
        pos <= toks@.len(),
    ensures
        took_run(r, toks@, pos as int, alnum_run(token_texts(toks@), pos as int), false),
{
    let e = run_end(toks, pos, true, true);
    Ok((e, copy_tokens(toks, pos, e)))
}

fn one(a: Node) -> (r: Vec<Node>)
    ensures
        Node::models(r@) == seq![a.model()],
{
    let r = vec![a];
    proof {
        Node::lemma_models(r@);
        assert(Node::models(r@) =~= seq![a.model()]);
    }
    r
}

fn two(a: Node, b: Node) -> (r: Vec<Node>)
    ensures
        Node::models(r@) == seq![a.model(), b.model()],
{
    let r = vec![a, b];
    proof {
        Node::lemma_models(r@);
        assert(Node::models(r@) =~= seq![a.model(), b.model()]);
    }
    r
}

fn three(a: Node, b: Node, c: Node) -> (r: Vec<Node>)
    ensures
        Node::models(r@) == seq![a.model(), b.model(), c.model()],
{
    let r = vec![a, b, c];
    proof {
        Node::lemma_models(r@);
        assert(Node::models(r@) =~= seq![a.model(), b.model(), c.model()]);
    }
    r
}

fn four(a: Node, b: Node, c: Node, d: Node) -> (r: Vec<Node>)
    ensures
        Node::models(r@) == seq![a.model(), b.model(), c.model(), d.model()],
{
    let r = vec![a, b, c, d];
    proof {
        Node::lemma_models(r@);
        assert(Node::models(r@) =~= seq![a.model(), b.model(), c.model(), d.model()]);
    }
    r
}

fn five(a: Node, b: Node, c: Node, d: Node, e: Node) -> (r: Vec<Node>)
    ensures
        Node::models(r@) == seq![a.model(), b.model(), c.model(), d.model(), e.model()],
{
    let r = vec![a, b, c, d, e];
    proof {
        Node::lemma_models(r@);
        assert(Node::models(r@) =~= seq![a.model(), b.model(), c.model(), d.model(), e.model()]);
    }
    r
}

proof fn lemma_decimal_step(bs: Seq<u8>, i: int)
    requires
        0 <= i < bs.len(),
    ensures
        decimal(bs.subrange(0, i + 1)) == decimal(bs.subrange(0, i)) * 10 + (bs[i] - 48),
{
    assert(bs.subrange(0, i + 1).drop_last() =~= bs.subrange(0, i));
}

proof fn lemma_decimal_grows(bs: Seq<u8>, i: int, j: int)
    requires
        0 <= i <= j <= bs.len(),
        all_digits(bs),
    ensures
        decimal(bs.subrange(0, i)) <= decimal(bs.subrange(0, j)),
    decreases j - i,
{
    if i < j {
        lemma_decimal_grows(bs, i, j - 1);
        lemma_decimal_step(bs, j - 1);
        assert(decimal(bs.subrange(0, j - 1)) >= 0) by {
            lemma_decimal_nonneg(bs, j - 1);
        }
    }
}

proof fn lemma_decimal_nonneg(bs: Seq<u8>, i: int)
    requires
        0 <= i <= bs.len(),
        all_digits(bs),
    ensures
        decimal(bs.subrange(0, i)) >= 0,
    decreases i,
{
    if i > 0 {
        lemma_decimal_nonneg(bs, i - 1);
        lemma_decimal_step(bs, i - 1);
    }
}

/// The value of a number literal's digits, when it fits in an `i32`.
pub fn number_of(bs: &Vec<u8>) -> (r: Option<i32>)
    ensures
        r == number_value(bs@),
{
    if bs.len() == 0 {
        return None;
    }
    let mut acc: u64 = 0;
    let mut i: usize = 0;
    while i < bs.len()
        invariant
            i <= bs@.len(),
            bs@.len() > 0,
            acc == decimal(bs@.subrange(0, i as int)),
            acc <= i32::MAX,
            forall|k: int| 0 <= k < i ==> 48 <= #[trigger] bs@[k] <= 57,
        decreases bs@.len() - i,
    {
        let c = bs[i];
        if c < 48 || c > 57 {
            return None;
        }
        proof {
            lemma_decimal_step(bs@, i as int);
        }
        acc = acc * 10 + (c - 48) as u64;
        if acc > 2147483647u64 {
            proof {
                if all_digits(bs@) {
                    lemma_decimal_grows(bs@, i + 1, bs@.len() as int);
                    assert(bs@.subrange(0, bs@.len() as int) =~= bs@);
                }
            }
            return None;
        }
        i = i + 1;
    }
    proof {
        assert(bs@.subrange(0, bs@.len() as int) =~= bs@);
    }
    Some(acc as i32)
}

/// Relies on `String::from_utf8`: bytes below 128 are valid UTF-8, and each
/// stands for the character of the same code.
#[verifier::external_body]
fn ascii_string(bytes: Vec<u8>) -> (r: String)
    requires
        all_ascii(bytes@),
    ensures
        r@ == ascii_chars(bytes@),
{
    match String::from_utf8(bytes) {
        Ok(s) => s,
        Err(_) => String::new(),
    }
}

fn identifier_name(toks: &Vec<Token>, pos: usize) -> (r: Parsed<Vec<u8>>)
    requires
        pos <= toks@.len(),
    ensures
        match r {
            Ok((p, nm)) => g_identifier(token_texts(toks@), pos as int) == Some(
                (p as int, Ast::Identifier(nm@)),
            ) && pos < p <= toks@.len(),
            Err(e) => e == pos && g_identifier(token_texts(toks@), pos as int) is None,
        },
{
    let p1 = match t_alpha(toks, pos) {
        Ok((p, _)) => p,
        Err(_) => {
            return Err(pos);
        },
    };
    let e = run_end(toks, p1, true, true);
    Ok((e, concat_lexemes(toks, pos, e)))
}

/// A letter followed by letters and digits.
pub fn identifier(toks: &Vec<Token>, pos: usize) -> (r: Parsed<Node>)
    requires
        pos <= toks@.len(),
    ensures
        parsed(r, token_texts(toks@), pos as int, g_identifier(token_texts(toks@), pos as int)),
{
    match identifier_name(toks, pos) {
        Ok((p, value)) => Ok((p, Node::Identifier { value })),
        Err(e) => Err(e),
    }
}

/// A run of digits, read as a decimal `i32`.
pub fn number(toks: &Vec<Token>, pos: usize) -> (r: Parsed<Node>)
    requires
        pos <= toks@.len(),
    ensures
        parsed(r, token_texts(toks@), pos as int, g_number(token_texts(toks@), pos as int)),
{
    let e = run_end(toks, pos, false, true);
    if e == pos {
        return Err(pos);
    }
    let digits = concat_lexemes(toks, pos, e);
    match number_of(&digits) {
        Some(value) => Ok((e, Node::Number { value })),
        None => Err(pos),
    }
}

/// `true` or `false`.
pub fn boolean(toks: &Vec<Token>, pos: usize) -> (r: Parsed<Node>)
    requires
        pos <= toks@.len(),
    ensures
        parsed(r, token_texts(toks@), pos as int, g_boolean(token_texts(toks@), pos as int)),
{
    match t_true(toks, pos) {
        Ok((p, _)) => Ok((p, Node::Bool { value: true })),
        Err(_) => match t_false(toks, pos) {
            Ok((p, _)) => Ok((p, Node::Bool { value: false })),
            Err(_) => Err(pos),
        },
    }
}

fn is_ascii_bytes(bytes: &Vec<u8>) -> (r: bool)
    ensures
        r == all_ascii(bytes@),
{
    let mut k: usize = 0;
    while k < bytes.len()
        invariant
            k <= bytes@.len(),
            forall|i: int| 0 <= i < k ==> #[trigger] bytes@[i] < 128,
        decreases bytes@.len() - k,
    {
        if bytes[k] >= 128 {
            return false;
        }
        k = k + 1;
    }
    true
}

/// Letters and digits between two quotes.
pub fn string(toks: &Vec<Token>, pos: usize) -> (r: Parsed<Node>)
    requires
        pos <= toks@.len(),
    ensures
        parsed(r, token_texts(toks@), pos as int, g_string(token_texts(toks@), pos as int)),
{
    let p1 = match t_quote(toks, pos) {
        Ok((p, _)) => p,
        Err(_) => {
            return Err(pos);
        },
    };
    let e = run_end(toks, p1, true, true);
    let p2 = match t_quote(toks, e) {
        Ok((p, _)) => p,
        Err(_) => {
            return Err(pos);
        },
    };
    let bytes = concat_lexemes(toks, p1, e);
    if !is_ascii_bytes(&bytes) {
        return Err(pos);
    }
    Ok((p2, Node::String { value: ascii_string(bytes) }))
}

/// A number, an identifier or a boolean.
pub fn value(toks: &Vec<Token>, pos: usize) -> (r: Parsed<Node>)
    requires
        pos <= toks@.len(),
    ensures
        parsed(r, token_texts(toks@), pos as int, g_value(token_texts(toks@), pos as int)),
{
    match number(toks, pos) {
        Ok(x) => Ok(x),
        Err(_) => match identifier(toks, pos) {
            Ok(x) => Ok(x),
            Err(_) => boolean(toks, pos),
        },
    }
}

/// `value (+|-) value`, named `add` or `sub`.
pub fn math_expression(toks: &Vec<Token>, pos: usize) -> (r: Parsed<Node>)
    requires
        pos <= toks@.len(),
    ensures
        parsed(r, token_texts(toks@), pos as int, g_math_expression(token_texts(toks@), pos as int)),
{
    let (p1, leftside) = match value(toks, pos) {
        Ok(x) => x,
        Err(_) => {
            return Err(pos);
        },
    };
    let (p2, name) = match t_plus(toks, p1) {
        Ok((p, _)) => (p, vec![97u8, 100u8, 100u8]),
        Err(_) => match t_dash(toks, p1) {
            Ok((p, _)) => (p, vec![115u8, 117u8, 98u8]),
            Err(_) => {
                return Err(pos);
            },
        },
    };
    proof {
        if kind_at(token_texts(toks@), p1 as int, TokenKind::Plus) {
            assert(name@ =~= add_name());
        } else {
            assert(name@ =~= sub_name());
        }
    }
    let (p3, rightside) = match value(toks, p2) {
        Ok(x) => x,
        Err(_) => {
            return Err(pos);
        },
    };
    Ok((p3, Node::MathExpression { name, children: two(leftside, rightside) }))
}

/// `{ return <boolean> ; }`
pub fn return_if(toks: &Vec<Token>, pos: usize) -> (r: Parsed<Node>)
    requires
        pos <= toks@.len(),
    ensures
        parsed(r, token_texts(toks@), pos as int, g_return_if(token_texts(toks@), pos as int)),
{
    let p1 = match t_left_curly(toks, pos) {
        Ok((p, _)) => p,
        Err(_) => {
            return Err(pos);
        },
    };
    let p2 = match t_return(toks, p1) {
        Ok((p, _)) => p,
        Err(_) => {
            return Err(pos);
        },
    };
    let (p3, v) = match boolean(toks, p2) {
        Ok(x) => x,
        Err(_) => {
            return Err(pos);
        },
    };
    let p4 = match t_semicolon(toks, p3) {
        Ok((p, _)) => p,
        Err(_) => {
            return Err(pos);
        },
    };
    let p5 = match t_right_curly(toks, p4) {
        Ok((p, _)) => p,
        Err(_) => {
            return Err(pos);
        },
    };
    Ok((p5, Node::ReturnIf { children: one(v) }))
}

/// `{ return <number> ; }`
pub fn return_ifnum(toks: &Vec<Token>, pos: usize) -> (r: Parsed<Node>)
    requires
        pos <= toks@.len(),
    ensures
        parsed(r, token_texts(toks@), pos as int, g_return_ifnum(token_texts(toks@), pos as int)),
{
    let p1 = match t_left_curly(toks, pos) {
        Ok((p, _)) => p,
        Err(_) => {
            return Err(pos);
        },
    };
    let p2 = match t_return(toks, p1) {
        Ok((p, _)) => p,
        Err(_) => {
            return Err(pos);
        },
    };
    let (p3, v) = match number(toks, p2) {
        Ok(x) => x,
        Err(_) => {
            return Err(pos);
        },
    };
    let p4 = match t_semicolon(toks, p3) {
        Ok((p, _)) => p,
        Err(_) => {
            return Err(pos);
        },
    };
    let p5 = match t_right_curly(toks, p4) {
        Ok((p, _)) => p,
        Err(_) => {
            return Err(pos);
        },
    };
    Ok((p5, Node::ReturnIfNum { children: one(v) }))
}

/// `{ return <number> }`
pub fn return_else(toks: &Vec<Token>, pos: usize) -> (r: Parsed<Node>)
    requires
        pos <= toks@.len(),
    ensures
        parsed(r, token_texts(toks@), pos as int, g_return_else(token_texts(toks@), pos as int)),
{
    let p1 = match t_left_curly(toks, pos) {
        Ok((p, _)) => p,
        Err(_) => {
            return Err(pos);
        },
    };
    let p2 = match t_return(toks, p1) {
        Ok((p, _)) => p,
        Err(_) => {
            return Err(pos);
        },
    };
    let (p3, v) = match number(toks, p2) {
        Ok(x) => x,
        Err(_) => {
            return Err(pos);
        },
    };
    let p4 = match t_right_curly(toks, p3) {
        Ok((p, _)) => p,
        Err(_) => {
            return Err(pos);
        },
    };
    Ok((p4, Node::ReturnElse { children: one(v) }))
}

/// `identifier (>|<|==) identifier`
pub fn condition(toks: &Vec<Token>, pos: usize) -> (r: Parsed<Node>)
    requires
        pos <= toks@.len(),
    ensures
        parsed(r, token_texts(toks@), pos as int, g_condition(token_texts(toks@), pos as int)),
{
    let (p1, leftside) = match identifier(toks, pos) {
        Ok(x) => x,
        Err(_) => {
            return Err(pos);
        },
    };
    let (p2, operator) = match t_greater(toks, p1) {
        Ok(x) => x,
        Err(_) => match t_lessthan(toks, p1) {
            Ok(x) => x,
            Err(_) => match t_double_equal(toks, p1) {
                Ok(x) => x,
                Err(_) => {
                    return Err(pos);
                },
            },
        },
    };
    let (p3, rightside) = match identifier(toks, p2) {
        Ok(x) => x,
        Err(_) => {
            return Err(pos);
        },
    };
    Ok((
        p3,
        Node::Condition {
            children: three(leftside, Node::Operator { value: operator.lexeme }, rightside),
        },
    ))
}

/// A newline followed by a tab.
pub fn if_indent(toks: &Vec<Token>, pos: usize) -> (r: Parsed<Node>)
    requires
        pos <= toks@.len(),
    ensures
        parsed(r, token_texts(toks@), pos as int, g_if_indent(token_texts(toks@), pos as int)),
{
    let p1 = match t_newline(toks, pos) {
        Ok((p, _)) => p,
        Err(_) => {
            return Err(pos);
        },
    };
    let p2 = match t_tab(toks, p1) {
        Ok((p, _)) => p,
        Err(_) => {
            return Err(pos);
        },
    };
    Ok((p2, Node::IfIndent { children: two(Node::NewLine, Node::Tab) }))
}

/// `if <condition> { return <boolean>; } else { return <boolean>; }`
pub fn if_expression(toks: &Vec<Token>, pos: usize) -> (r: Parsed<Node>)
    requires
        pos <= toks@.len(),
    ensures
        parsed(r, token_texts(toks@), pos as int, g_if_expression(token_texts(toks@), pos as int)),
{
    let p1 = match t_if(toks, pos) {
        Ok((p, _)) => p,
        Err(_) => {
            return Err(pos);
        },
    };
    let (p2, cond) = match condition(toks, p1) {
        Ok(x) => x,
        Err(_) => {
            return Err(pos);
        },
    };
    let (p3, val1) = match return_if(toks, p2) {
        Ok(x) => x,
        Err(_) => {
            return Err(pos);
        },
    };
    let p4 = match t_else(toks, p3) {
        Ok((p, _)) => p,
        Err(_) => {
            return Err(pos);
        },
    };
    let (p5, val2) = match return_if(toks, p4) {
        Ok(x) => x,
        Err(_) => {
            return Err(pos);
        },
    };
    Ok((p5, Node::IfExpression { children: three(cond, val1, val2) }))
}

fn indented_block(toks: &Vec<Token>, pos: usize) -> (r: Parsed<Node>)
    requires
        pos <= toks@.len(),
    ensures
        parsed(r, token_texts(toks@), pos as int, g_indented_block(token_texts(toks@), pos as int)),
{
    let p1 = match t_left_curly(toks, pos) {
        Ok((p, _)) => p,
        Err(_) => {
            return Err(pos);
        },
    };
    let p2 = match if_indent(toks, p1) {
        Ok((p, _)) => p,
        Err(_) => {
            return Err(pos);
        },
    };
    let (p3, v) = match return_if(toks, p2) {
        Ok(x) => x,
        Err(_) => {
            return Err(pos);
        },
    };
    let p4 = match t_right_curly(toks, p3) {
        Ok((p, _)) => p,
        Err(_) => {
            return Err(pos);
        },
    };
    Ok((p4, v))
}

/// `if <boolean> {` newline, tab, `{ return <boolean>; } } else {` newline,
/// tab, `{ return <boolean>; } }`
pub fn if_multi_line(toks: &Vec<Token>, pos: usize) -> (r: Parsed<Node>)
    requires
        pos <= toks@.len(),
    ensures
        parsed(r, token_texts(toks@), pos as int, g_if_multi_line(token_texts(toks@), pos as int)),
{
    let p1 = match t_if(toks, pos) {
        Ok((p, _)) => p,
        Err(_) => {
            return Err(pos);
        },
    };
    let (p2, boolean1) = match boolean(toks, p1) {
        Ok(x) => x,
        Err(_) => {
            return Err(pos);
        },
    };
    let (p3, val1) = match indented_block(toks, p2) {
        Ok(x) => x,
        Err(_) => {
            return Err(pos);
        },
    };
    let p4 = match t_else(toks, p3) {
        Ok((p, _)) => p,
        Err(_) => {
            return Err(pos);
        },
    };
    let (p5, val2) = match indented_block(toks, p4) {
        Ok(x) => x,
        Err(_) => {
            return Err(pos);
        },
    };
    Ok((p5, Node::MultiLineIf { children: three(boolean1, val1, val2) }))
}

/// `if <condition> { return <number>; } else if <condition> { return <number>; }
/// else { return <number> }`
pub fn if_else(toks: &Vec<Token>, pos: usize) -> (r: Parsed<Node>)
    requires
        pos <= toks@.len(),
    ensures
        parsed(r, token_texts(toks@), pos as int, g_if_else(token_texts(toks@), pos as int)),
{
    let p1 = match t_if(toks, pos) {
        Ok((p, _)) => p,
        Err(_) => {
            return Err(pos);
        },
    };
    let (p2, condition1) = match condition(toks, p1) {
        Ok(x) => x,
        Err(_) => {
            return Err(pos);
        },
    };
    let (p3, val1) = match return_ifnum(toks, p2) {
        Ok(x) => x,
        Err(_) => {
            return Err(pos);
        },
    };
    let p4 = match t_else(toks, p3) {
        Ok((p, _)) => p,
        Err(_) => {
            return Err(pos);
        },
    };
    let p5 = match t_if(toks, p4) {
        Ok((p, _)) => p,
        Err(_) => {
            return Err(pos);
        },
    };
    let (p6, condition2) = match condition(toks, p5) {
        Ok(x) => x,
        Err(_) => {
            return Err(pos);
        },
    };
    let (p7, val2) = match return_ifnum(toks, p6) {
        Ok(x) => x,
        Err(_) => {
            return Err(pos);
        },
    };
    let p8 = match t_else(toks, p7) {
        Ok((p, _)) => p,
        Err(_) => {
            return Err(pos);
        },
    };
    let (p9, val3) = match return_else(toks, p8) {
        Ok(x) => x,
        Err(_) => {
            return Err(pos);
        },
    };
    Ok((p9, Node::IfElse { children: five(condition1, val1, condition2, val2, val3) }))
}

/// `let <identifier> = if <boolean> { return <boolean>; } else { return <boolean>; }`
pub fn if_assign(toks: &Vec<Token>, pos: usize) -> (r: Parsed<Node>)
    requires
        pos <= toks@.len(),
    ensures
        parsed(r, token_texts(toks@), pos as int, g_if_assign(token_texts(toks@), pos as int)),
{
    let p1 = match t_let(toks, pos) {
        Ok((p, _)) => p,
        Err(_) => {
            return Err(pos);
        },
    };
    let (p2, variable) = match identifier(toks, p1) {
        Ok(x) => x,
        Err(_) => {
            return Err(pos);
        },
    };
    let p3 = match t_equal(toks, p2) {
        Ok((p, _)) => p,
        Err(_) => {
            return Err(pos);
        },
    };
    let p4 = match t_if(toks, p3) {
        Ok((p, _)) => p,
        Err(_) => {
            return Err(pos);
        },
    };
    let (p5, boolean1) = match boolean(toks, p4) {
        Ok(x) => x,
        Err(_) => {
            return Err(pos);
        },
    };
    let (p6, val1) = match return_if(toks, p5) {
        Ok(x) => x,
        Err(_) => {
            return Err(pos);
        },
    };
    let p7 = match t_else(toks, p6) {
        Ok((p, _)) => p,
        Err(_) => {
            return Err(pos);
        },
    };
    let (p8, val2) = match return_if(toks, p7) {
        Ok(x) => x,
        Err(_) => {
            return Err(pos);
        },
    };
    Ok((p8, Node::IfAssign { children: four(variable, boolean1, val1, val2) }))
}

/// `//` followed by letters.
pub fn comment(toks: &Vec<Token>, pos: usize) -> (r: Parsed<Node>)
    requires
        pos <= toks@.len(),
    ensures
        parsed(r, token_texts(toks@), pos as int, g_comment(token_texts(toks@), pos as int)),
{
    let p1 = match t_slash(toks, pos) {
        Ok((p, _)) => p,
        Err(_) => {
            return Err(pos);
        },
    };
    let p2 = match t_slash(toks, p1) {
        Ok((p, _)) => p,
        Err(_) => {
            return Err(pos);
        },
    };
    let e = run_end(toks, p2, true, false);
    Ok((e, Node::Comment { value: concat_lexemes(toks, p2, e) }))
}

fn prepend(a: Node, rest: Vec<Node>) -> (r: Vec<Node>)
    ensures
        Node::models(r@) == seq![a.model()] + Node::models(rest@),
{
    let ghost am = a.model();
    let ghost rm = rest@;
    let mut r = rest;
    r.insert(0, a);
    proof {
        Node::lemma_models(r@);
        Node::lemma_models(rm);
        assert(Node::models(r@) =~= seq![am] + Node::models(rm));
    }
    r
}

/// `boolean | math_expression | function_call | number | string | identifier`,
/// the first that matches.
pub fn expression(toks: &Vec<Token>, pos: usize) -> (r: Parsed<Node>)
    requires
        pos <= toks@.len(),
    ensures
        parsed(r, token_texts(toks@), pos as int, g_expression(token_texts(toks@), pos as int)),
    decreases toks@.len() - pos, 3int,
{
    let (p, result) = match boolean(toks, pos) {
        Ok(x) => x,
        Err(_) => match math_expression(toks, pos) {
            Ok(x) => x,
            Err(_) => match function_call(toks, pos) {
                Ok(x) => x,
                Err(_) => match number(toks, pos) {
                    Ok(x) => x,
                    Err(_) => match string(toks, pos) {
                        Ok(x) => x,
                        Err(_) => match identifier(toks, pos) {
                            Ok(x) => x,
                            Err(_) => {
                                return Err(pos);
                            },
                        },
                    },
                },
            },
        },
    };
    Ok((p, Node::Expression { children: one(result) }))
}

/// `identifier ( arguments* )`; a call without arguments holds one empty
/// argument list.
pub fn function_call(toks: &Vec<Token>, pos: usize) -> (r: Parsed<Node>)
    requires
        pos <= toks@.len(),
    ensures
        parsed(r, token_texts(toks@), pos as int, g_function_call(token_texts(toks@), pos as int)),
    decreases toks@.len() - pos, 2int,
{
    let (p1, name) = match identifier_name(toks, pos) {
        Ok(x) => x,
        Err(_) => {
            return Err(pos);
        },
    };
    let p2 = match t_left_paren(toks, p1) {
        Ok((p, _)) => p,
        Err(_) => {
            return Err(pos);
        },
    };
    let (p3, args) = many_arguments(toks, p2);
    let p4 = match t_right_paren(toks, p3) {
        Ok((p, _)) => p,
        Err(_) => {
            return Err(pos);
        },
    };
    let children = if args.len() == 0 {
        let empty: Vec<Node> = Vec::new();
        proof {
            assert(Node::models(empty@) =~= Seq::empty());
        }
        one(Node::FunctionArguments { children: empty })
    } else {
        args
    };
    Ok((p4, Node::FunctionCall { name, children }))
}

/// Argument lists, one after another, for as long as one matches.
fn many_arguments(toks: &Vec<Token>, pos: usize) -> (r: (usize, Vec<Node>))
    requires
        pos <= toks@.len(),
    ensures
        (r.0 as int, Node::models(r.1@)) == g_many_arguments(token_texts(toks@), pos as int),
        pos <= r.0 <= toks@.len(),
    decreases toks@.len() - pos, 5int,
{
    let mut cur: usize = pos;
    let mut acc: Vec<Node> = Vec::new();
    proof {
        assert(Node::models(acc@) =~= Seq::empty());
        assert(g_many_arguments(token_texts(toks@), pos as int).1 =~= Node::models(acc@) + g_many_arguments(
            token_texts(toks@),
            pos as int,
        ).1);
    }
    loop
        invariant
            pos <= cur <= toks@.len(),
            g_many_arguments(token_texts(toks@), pos as int) == (g_many_arguments(token_texts(toks@), cur as int).0, Node::models(
                acc@,
            ) + g_many_arguments(token_texts(toks@), cur as int).1),
        decreases toks@.len() - cur,
    {
        match arguments(toks, cur) {
            Ok((p1, a)) => {
                if p1 > cur {
                    let ghost rest = g_many_arguments(token_texts(toks@), p1 as int).1;
                    let ghost prev = acc@;
                    let ghost am = a.model();
                    acc.push(a);
                    proof {
                        Node::lemma_models_push(prev, a);
                        assert(Node::models(prev) + (seq![am] + rest) =~= Node::models(acc@)
                            + rest);
                    }
                    cur = p1;
                } else {
                    proof {
                        assert(Node::models(acc@) + Seq::empty() =~= Node::models(acc@));
                    }
                    return (cur, acc);
                }
            },
            Err(_) => {
                proof {
                    assert(Node::models(acc@) + Seq::empty() =~= Node::models(acc@));
                }
                return (cur, acc);
            },
        }
    }
}

/// `expression ("," expression)*`
pub fn arguments(toks: &Vec<Token>, pos: usize) -> (r: Parsed<Node>)
    requires
        pos <= toks@.len(),
    ensures
        parsed(r, token_texts(toks@), pos as int, g_arguments(token_texts(toks@), pos as int)),
    decreases toks@.len() - pos, 4int,
{
    let (p1, arg) = match expression(toks, pos) {
        Ok(x) => x,
        Err(_) => {
            return Err(pos);
        },
    };
    if p1 <= pos {
        return Err(pos);
    }
    let (p2, others) = many_other_args(toks, p1);
    Ok((p2, Node::FunctionArguments { children: prepend(arg, others) }))
}

fn many_other_args(toks: &Vec<Token>, pos: usize) -> (r: (usize, Vec<Node>))
    requires
        pos <= toks@.len(),
    ensures
        (r.0 as int, Node::models(r.1@)) == g_many_other_args(token_texts(toks@), pos as int),
        pos <= r.0 <= toks@.len(),
    decreases toks@.len() - pos, 1int,
{
    let mut cur: usize = pos;
    let mut acc: Vec<Node> = Vec::new();
    proof {
        assert(Node::models(acc@) =~= Seq::empty());
        assert(g_many_other_args(token_texts(toks@), pos as int).1 =~= Node::models(acc@) + g_many_other_args(
            token_texts(toks@),
            pos as int,
        ).1);
    }
    loop
        invariant
            pos <= cur <= toks@.len(),
            g_many_other_args(token_texts(toks@), pos as int) == (g_many_other_args(token_texts(toks@), cur as int).0, Node::models(
                acc@,
            ) + g_many_other_args(token_texts(toks@), cur as int).1),
        decreases toks@.len() - cur,
    {
        match other_arg(toks, cur) {
            Ok((p1, a)) => {
                if p1 > cur {
                    let ghost rest = g_many_other_args(token_texts(toks@), p1 as int).1;
                    let ghost prev = acc@;
                    let ghost am = a.model();
                    acc.push(a);
                    proof {
                        Node::lemma_models_push(prev, a);
                        assert(Node::models(prev) + (seq![am] + rest) =~= Node::models(acc@)
                            + rest);
                    }
                    cur = p1;
                } else {
                    proof {
                        assert(Node::models(acc@) + Seq::empty() =~= Node::models(acc@));
                    }
                    return (cur, acc);
                }
            },
            Err(_) => {
                proof {
                    assert(Node::models(acc@) + Seq::empty() =~= Node::models(acc@));
                }
                return (cur, acc);
            },
        }
    }
}

/// `"," expression`
pub fn other_arg(toks: &Vec<Token>, pos: usize) -> (r: Parsed<Node>)
    requires
        pos <= toks@.len(),
    ensures
        parsed(r, token_texts(toks@), pos as int, g_other_arg(token_texts(toks@), pos as int)),
    decreases toks@.len() - pos, 0int,
{
    let p1 = match t_comma(toks, pos) {
        Ok((p, _)) => p,
        Err(_) => {
            return Err(pos);
        },
    };
    match expression(toks, p1) {
        Ok(x) => Ok(x),
        Err(_) => Err(pos),
    }
}

/// `return` followed by a call, an expression or an identifier.
pub fn function_return(toks: &Vec<Token>, pos: usize) -> (r: Parsed<Node>)
    requires
        pos <= toks@.len(),
    ensures
        parsed(r, token_texts(toks@), pos as int, g_function_return(token_texts(toks@), pos as int)),
{
    let p1 = match t_return(toks, pos) {
        Ok((p, _)) => p,
        Err(_) => {
            return Err(pos);
        },
    };
    let (p2, result) = match function_call(toks, p1) {
        Ok(x) => x,
        Err(_) => match expression(toks, p1) {
            Ok(x) => x,
            Err(_) => match identifier(toks, p1) {
                Ok(x) => x,
                Err(_) => {
                    return Err(pos);
                },
            },
        },
    };
    Ok((p2, Node::FunctionReturn { children: one(result) }))
}

/// `let <identifier> =` followed by an expression or an `if` assignment.
pub fn variable_define(toks: &Vec<Token>, pos: usize) -> (r: Parsed<Node>)
    requires
        pos <= toks@.len(),
    ensures
        parsed(r, token_texts(toks@), pos as int, g_variable_define(token_texts(toks@), pos as int)),
{
    let p1 = match t_let(toks, pos) {
        Ok((p, _)) => p,
        Err(_) => {
            return Err(pos);
        },
    };
    let (p2, variable) = match identifier(toks, p1) {
        Ok(x) => x,
        Err(_) => {
            return Err(pos);
        },
    };
    let p3 = match t_equal(toks, p2) {
        Ok((p, _)) => p,
        Err(_) => {
            return Err(pos);
        },
    };
    let (p4, choice) = match expression(toks, p3) {
        Ok(x) => x,
        Err(_) => match if_assign(toks, p3) {
            Ok(x) => x,
            Err(_) => {
                return Err(pos);
            },
        },
    };
    Ok((p4, Node::VariableDefine { children: two(variable, choice) }))
}

/// A variable definition, an expression or a return, followed by `;`.
pub fn statement(toks: &Vec<Token>, pos: usize) -> (r: Parsed<Node>)
    requires
        pos <= toks@.len(),
    ensures
        parsed(r, token_texts(toks@), pos as int, g_statement(token_texts(toks@), pos as int)),
{
    let (p1, result) = match variable_define(toks, pos) {
        Ok(x) => x,
        Err(_) => match expression(toks, pos) {
            Ok(x) => x,
            Err(_) => match function_return(toks, pos) {
                Ok(x) => x,
                Err(_) => {
                    return Err(pos);
                },
            },
        },
    };
    match t_semicolon(toks, p1) {
        Ok((p2, _)) => Ok((p2, result)),
        Err(_) => Err(pos),
    }
}

fn many_statements(toks: &Vec<Token>, pos: usize) -> (r: (usize, Vec<Node>))
    requires
        pos <= toks@.len(),
    ensures
        (r.0 as int, Node::models(r.1@)) == g_many_statements(token_texts(toks@), pos as int),
        pos <= r.0 <= toks@.len(),
{
    let mut cur: usize = pos;
    let mut acc: Vec<Node> = Vec::new();
    proof {
        assert(Node::models(acc@) =~= Seq::empty());
        assert(g_many_statements(token_texts(toks@), pos as int).1 =~= Node::models(acc@) + g_many_statements(
            token_texts(toks@),
            pos as int,
        ).1);
    }
    loop
        invariant
            pos <= cur <= toks@.len(),
            g_many_statements(token_texts(toks@), pos as int) == (g_many_statements(token_texts(toks@), cur as int).0, Node::models(
                acc@,
            ) + g_many_statements(token_texts(toks@), cur as int).1),
        decreases toks@.len() - cur,
    {
        match statement(toks, cur) {
            Ok((p1, a)) => {
                if p1 > cur {
                    let ghost rest = g_many_statements(token_texts(toks@), p1 as int).1;
                    let ghost prev = acc@;
                    let ghost am = a.model();
                    acc.push(a);
                    proof {
                        Node::lemma_models_push(prev, a);
                        assert(Node::models(prev) + (seq![am] + rest) =~= Node::models(acc@)
                            + rest);
                    }
                    cur = p1;
                } else {
                    proof {
                        assert(Node::models(acc@) + Seq::empty() =~= Node::models(acc@));
                    }
                    return (cur, acc);
                }
            },
            Err(_) => {
                proof {
                    assert(Node::models(acc@) + Seq::empty() =~= Node::models(acc@));
                }
                return (cur, acc);
            },
        }
    }
}

/// `fn <identifier> ( arguments* ) { statement+ }`: the definition holds the
/// first argument list as its parameters (an empty one when there is none)
/// and its statements.
pub fn function_define(toks: &Vec<Token>, pos: usize) -> (r: Parsed<Node>)
    requires
        pos <= toks@.len(),
    ensures
        parsed(r, token_texts(toks@), pos as int, g_function_define(token_texts(toks@), pos as int)),
{
    let p1 = match t_fn(toks, pos) {
        Ok((p, _)) => p,
        Err(_) => {
            return Err(pos);
        },
    };
    let (p2, name) = match identifier_name(toks, p1) {
        Ok(x) => x,
        Err(_) => {
            return Err(pos);
        },
    };
    let p3 = match t_left_paren(toks, p2) {
        Ok((p, _)) => p,
        Err(_) => {
            return Err(pos);
        },
    };
    let (p4, args) = many_arguments(toks, p3);
    let p5 = match t_right_paren(toks, p4) {
        Ok((p, _)) => p,
        Err(_) => {
            return Err(pos);
        },
    };
    let p6 = match t_left_curly(toks, p5) {
        Ok((p, _)) => p,
        Err(_) => {
            return Err(pos);
        },
    };
    let (p7, statements) = many_statements(toks, p6);
    if statements.len() == 0 {
        proof {
            Node::lemma_models(statements@);
        }
        return Err(pos);
    }
    let p8 = match t_right_curly(toks, p7) {
        Ok((p, _)) => p,
        Err(_) => {
            proof {
                Node::lemma_models(statements@);
            }
            return Err(pos);
        },
    };
    proof {
        Node::lemma_models(args@);
        Node::lemma_models(statements@);
    }
    let fxn_arguments = if args.len() == 0 {
        let empty: Vec<Node> = Vec::new();
        proof {
            assert(Node::models(empty@) =~= Seq::empty());
        }
        Node::FunctionArguments { children: empty }
    } else {
        args[0].duplicate()
    };
    let fxn_statements = Node::FunctionStatements { children: statements };
    Ok((p8, Node::FunctionDefine { name, children: two(fxn_arguments, fxn_statements) }))
}

/// One item at the top level: a definition, an expression, a statement, a
/// string, a boolean or a number, the first that matches.
fn top_item(toks: &Vec<Token>, pos: usize) -> (r: Parsed<Node>)
    requires
        pos <= toks@.len(),
    ensures
        parsed(r, token_texts(toks@), pos as int, g_top_item(token_texts(toks@), pos as int)),
{
    match function_define(toks, pos) {
        Ok(x) => Ok(x),
        Err(_) => match expression(toks, pos) {
            Ok(x) => Ok(x),
            Err(_) => match statement(toks, pos) {
                Ok(x) => Ok(x),
                Err(_) => match string(toks, pos) {
                    Ok(x) => Ok(x),
                    Err(_) => match boolean(toks, pos) {
                        Ok(x) => Ok(x),
                        Err(_) => number(toks, pos),
                    },
                },
            },
        },
    }
}

/// One or more top-level items. What follows the last item that matched is
/// left unconsumed.
pub fn program(toks: &Vec<Token>, pos: usize) -> (r: Parsed<Node>)
    requires
        pos <= toks@.len(),
    ensures
        parsed(r, token_texts(toks@), pos as int, g_program(token_texts(toks@), pos as int)),
{
    let mut cur: usize = pos;
    let mut acc: Vec<Node> = Vec::new();
    proof {
        assert(Node::models(acc@) =~= Seq::empty());
        assert(g_many_top_items(token_texts(toks@), pos as int).1 =~= Node::models(acc@) + g_many_top_items(
            token_texts(toks@),
            pos as int,
        ).1);
    }
    loop
        invariant
            pos <= cur <= toks@.len(),
            g_many_top_items(token_texts(toks@), pos as int) == (g_many_top_items(token_texts(toks@), cur as int).0, Node::models(
                acc@,
            ) + g_many_top_items(token_texts(toks@), cur as int).1),
        decreases toks@.len() - cur,
    {
        let stop = match top_item(toks, cur) {
            Ok((p1, a)) => {
                if p1 > cur {
                    let ghost rest = g_many_top_items(token_texts(toks@), p1 as int).1;
                    let ghost prev = acc@;
                    let ghost am = a.model();
                    acc.push(a);
                    proof {
                        Node::lemma_models_push(prev, a);
                        assert(Node::models(prev) + (seq![am] + rest) =~= Node::models(acc@)
                            + rest);
                    }
                    cur = p1;
                    false
                } else {
                    true
                }
            },
            Err(_) => true,
        };
        if stop {
            proof {
                assert(Node::models(acc@) + Seq::empty() =~= Node::models(acc@));
                Node::lemma_models(acc@);
            }
            if acc.len() == 0 {
                return Err(pos);
            }
            return Ok((cur, Node::Program { children: acc }));
        }
    }
}

/// The tokens that the grammar reads: all but the spaces.
pub open spec fn without_spaces(t: Seq<(TokenKind, Seq<u8>)>) -> Seq<(TokenKind, Seq<u8>)>
    decreases t.len(),
{
    if t.len() == 0 {
        Seq::empty()
    } else if t.last().0 == TokenKind::WhiteSpace {
        without_spaces(t.drop_last())
    } else {
        without_spaces(t.drop_last()).push(t.last())
    }
}

/// Removes the space tokens, keeping the others in order.
pub fn drop_spaces(toks: Vec<Token>) -> (r: Vec<Token>)
    ensures
        token_texts(r@) == without_spaces(token_texts(toks@)),
{
    let mut r: Vec<Token> = Vec::new();
    let mut i: usize = 0;
    proof {
        assert(token_texts(toks@).subrange(0, 0) =~= Seq::empty());
        assert(token_texts(r@) =~= Seq::empty());
    }
    while i < toks.len()
        invariant
            i <= toks@.len(),
            token_texts(r@) == without_spaces(token_texts(toks@).subrange(0, i as int)),
        decreases toks@.len() - i,
    {
        let ghost prev = r@;
        proof {
            let t = token_texts(toks@);
            assert(t.subrange(0, i + 1).drop_last() =~= t.subrange(0, i as int));
        }
        if toks[i].kind != TokenKind::WhiteSpace {
            r.push(copy_token(&toks[i]));
            proof {
                assert(token_texts(r@) =~= token_texts(prev).push(token_texts(toks@)[i as int]));
            }
        }
        i = i + 1;
    }
    proof {
        assert(token_texts(toks@).subrange(0, toks@.len() as int) =~= token_texts(toks@));
    }
    r
}

/// The outcome of splitting `source` into tokens, dropping the spaces, and
/// parsing the rest as a program from the first token: the position after the
/// program and its tree.
pub open spec fn parse_model(source: Seq<u8>) -> Option<(int, Ast)> {
    match lex_texts(source) {
        Err(_) => None,
        Ok(t) => g_program(without_spaces(t), 0),
    }
}

/// Splits source bytes into tokens, drops the spaces, and parses the rest as a
/// program from the first token: the position after the program and the
/// tree, or `None` when the source holds a byte that starts no token or holds
/// no program.
pub fn parse_source(source: &[u8]) -> (r: Option<(usize, Node)>)
    requires
        source@.len() < usize::MAX,
    ensures
        match r {
            Some((p, n)) => parse_model(source@) == Some((p as int, n.model())),
            None => parse_model(source@) is None,
        },
{
    match lex(source) {
        Err(_) => None,
        Ok(toks) => {
            let toks = drop_spaces(toks);
            match program(&toks, 0) {
                Ok(x) => Some(x),
                Err(_) => None,
            }
        },
    }
}

} // verus!
