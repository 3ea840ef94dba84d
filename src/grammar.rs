use vstd::prelude::*;

use crate::ast::Ast;
use crate::lexer::TokenKind;

verus! {

/// Whether the token at `pos` exists and is of class `k`.
pub open spec fn kind_at(t: Seq<(TokenKind, Seq<u8>)>, pos: int, k: TokenKind) -> bool {
    0 <= pos < t.len() && t[pos].0 == k
}

/// The end of the run of letter tokens that starts at `pos`.
pub open spec fn alpha_run(t: Seq<(TokenKind, Seq<u8>)>, pos: int) -> int
    decreases t.len() - pos,
{
    if kind_at(t, pos, TokenKind::Alpha) {
        alpha_run(t, pos + 1)
    } else {
        pos
    }
}

/// The end of the run of letter and digit tokens that starts at `pos`.
pub open spec fn alnum_run(t: Seq<(TokenKind, Seq<u8>)>, pos: int) -> int
    decreases t.len() - pos,
{
    if kind_at(t, pos, TokenKind::Alpha) || kind_at(t, pos, TokenKind::Digit) {
        alnum_run(t, pos + 1)
    } else {
        pos
    }
}

/// The end of the run of digit tokens that starts at `pos`.
pub open spec fn digit_run(t: Seq<(TokenKind, Seq<u8>)>, pos: int) -> int
    decreases t.len() - pos,
{
    if kind_at(t, pos, TokenKind::Digit) {
        digit_run(t, pos + 1)
    } else {
        pos
    }
}

/// The bytes of the tokens from `a` up to `b`, one after another.
pub open spec fn lexemes(t: Seq<(TokenKind, Seq<u8>)>, a: int, b: int) -> Seq<u8>
    decreases b - a,
{
    if b <= a {
        Seq::empty()
    } else {
        lexemes(t, a, b - 1) + t[b - 1].1
    }
}

pub open spec fn all_digits(bs: Seq<u8>) -> bool {
    forall|i: int| 0 <= i < bs.len() ==> 48 <= #[trigger] bs[i] <= 57
}

/// The number that a string of decimal digits writes.
pub open spec fn decimal(bs: Seq<u8>) -> int
    decreases bs.len(),
{
    if bs.len() == 0 {
        0
    } else {
        decimal(bs.drop_last()) * 10 + (bs.last() - 48)
    }
}

/// The value of a number literal: a non-empty string of decimal digits whose
/// value fits in an `i32`.
pub open spec fn number_value(bs: Seq<u8>) -> Option<i32> {
    if bs.len() > 0 && all_digits(bs) && decimal(bs) <= i32::MAX {
        Some(decimal(bs) as i32)
    } else {
        None
    }
}

pub open spec fn all_ascii(bs: Seq<u8>) -> bool {
    forall|i: int| 0 <= i < bs.len() ==> #[trigger] bs[i] < 128
}

pub open spec fn ascii_chars(bs: Seq<u8>) -> Seq<char> {
    bs.map_values(|b: u8| b as char)
}

/// The name of the operation that `+` and `-` stand for.
pub open spec fn add_name() -> Seq<u8> {
    seq![97u8, 100u8, 100u8]
}

pub open spec fn sub_name() -> Seq<u8> {
    seq![115u8, 117u8, 98u8]
}

pub open spec fn double_equal_bytes() -> Seq<u8> {
    seq![61u8, 61u8]
}

pub open spec fn g_identifier(t: Seq<(TokenKind, Seq<u8>)>, pos: int) -> Option<(int, Ast)> {
    if kind_at(t, pos, TokenKind::Alpha) {
        let e = alnum_run(t, pos + 1);
        Some((e, Ast::Identifier(lexemes(t, pos, e))))
    } else {
        None
    }
}

pub open spec fn g_number(t: Seq<(TokenKind, Seq<u8>)>, pos: int) -> Option<(int, Ast)> {
    let e = digit_run(t, pos);
    if e > pos && number_value(lexemes(t, pos, e)) is Some {
        Some((e, Ast::Number(number_value(lexemes(t, pos, e))->Some_0)))
    } else {
        None
    }
}

pub open spec fn g_boolean(t: Seq<(TokenKind, Seq<u8>)>, pos: int) -> Option<(int, Ast)> {
    if kind_at(t, pos, TokenKind::True) {
        Some((pos + 1, Ast::Bool(true)))
    } else if kind_at(t, pos, TokenKind::False) {
        Some((pos + 1, Ast::Bool(false)))
    } else {
        None
    }
}

pub open spec fn g_string(t: Seq<(TokenKind, Seq<u8>)>, pos: int) -> Option<(int, Ast)> {
    if kind_at(t, pos, TokenKind::Quote) {
        let e = alnum_run(t, pos + 1);
        if kind_at(t, e, TokenKind::Quote) && all_ascii(lexemes(t, pos + 1, e)) {
            Some((e + 1, Ast::String(ascii_chars(lexemes(t, pos + 1, e)))))
        } else {
            None
        }
    } else {
        None
    }
}

pub open spec fn g_value(t: Seq<(TokenKind, Seq<u8>)>, pos: int) -> Option<(int, Ast)> {
    if g_number(t, pos) is Some {
        g_number(t, pos)
    } else if g_identifier(t, pos) is Some {
        g_identifier(t, pos)
    } else {
        g_boolean(t, pos)
    }
}

pub open spec fn g_math_expression(t: Seq<(TokenKind, Seq<u8>)>, pos: int) -> Option<(int, Ast)> {
    match g_value(t, pos) {
        None => None,
        Some((p1, l)) => {
            let name = if kind_at(t, p1, TokenKind::Plus) {
                Some(add_name())
            } else if kind_at(t, p1, TokenKind::Dash) {
                Some(sub_name())
            } else {
                None
            };
            match name {
                None => None,
                Some(nm) => match g_value(t, p1 + 1) {
                    None => None,
                    Some((p2, r)) => Some((p2, Ast::MathExpression(nm, seq![l, r]))),
                },
            }
        },
    }
}

/// `{ return <x> ; }` where `x` is what `inner` parses, or without the `;`.
pub open spec fn g_braced_return(
    t: Seq<(TokenKind, Seq<u8>)>,
    pos: int,
    inner: Option<(int, Ast)>,
    semicolon: bool,
) -> Option<(int, Ast)> {
    if kind_at(t, pos, TokenKind::LeftCurly) && kind_at(t, pos + 1, TokenKind::Return) {
        match inner {
            None => None,
            Some((p, v)) => if semicolon {
                if kind_at(t, p, TokenKind::Semicolon) && kind_at(t, p + 1, TokenKind::RightCurly) {
                    Some((p + 2, v))
                } else {
                    None
                }
            } else {
                if kind_at(t, p, TokenKind::RightCurly) {
                    Some((p + 1, v))
                } else {
                    None
                }
            },
        }
    } else {
        None
    }
}

pub open spec fn g_return_if(t: Seq<(TokenKind, Seq<u8>)>, pos: int) -> Option<(int, Ast)> {
    match g_braced_return(t, pos, g_boolean(t, pos + 2), true) {
        None => None,
        Some((p, v)) => Some((p, Ast::ReturnIf(seq![v]))),
    }
}

pub open spec fn g_return_ifnum(t: Seq<(TokenKind, Seq<u8>)>, pos: int) -> Option<(int, Ast)> {
    match g_braced_return(t, pos, g_number(t, pos + 2), true) {
        None => None,
        Some((p, v)) => Some((p, Ast::ReturnIfNum(seq![v]))),
    }
}

pub open spec fn g_return_else(t: Seq<(TokenKind, Seq<u8>)>, pos: int) -> Option<(int, Ast)> {
    match g_braced_return(t, pos, g_number(t, pos + 2), false) {
        None => None,
        Some((p, v)) => Some((p, Ast::ReturnElse(seq![v]))),
    }
}

/// A comparison operator: `>`, `<`, or two `=` tokens read as `==`.
pub open spec fn g_comparison(t: Seq<(TokenKind, Seq<u8>)>, pos: int) -> Option<(int, Seq<u8>)> {
    if kind_at(t, pos, TokenKind::Greater) || kind_at(t, pos, TokenKind::LessThan) {
        Some((pos + 1, t[pos].1))
    } else if kind_at(t, pos, TokenKind::Equal) && kind_at(t, pos + 1, TokenKind::Equal) {
        Some((pos + 2, double_equal_bytes()))
    } else {
        None
    }
}

pub open spec fn g_condition(t: Seq<(TokenKind, Seq<u8>)>, pos: int) -> Option<(int, Ast)> {
    match g_identifier(t, pos) {
        None => None,
        Some((p1, l)) => match g_comparison(t, p1) {
            None => None,
            Some((p2, op)) => match g_identifier(t, p2) {
                None => None,
                Some((p3, r)) => Some((p3, Ast::Condition(seq![l, Ast::Operator(op), r]))),
            },
        },
    }
}

pub open spec fn g_if_indent(t: Seq<(TokenKind, Seq<u8>)>, pos: int) -> Option<(int, Ast)> {
    if kind_at(t, pos, TokenKind::NewLine) && kind_at(t, pos + 1, TokenKind::Tab) {
        Some((pos + 2, Ast::IfIndent(seq![Ast::NewLine, Ast::Tab])))
    } else {
        None
    }
}

pub open spec fn g_if_expression(t: Seq<(TokenKind, Seq<u8>)>, pos: int) -> Option<(int, Ast)> {
    if !kind_at(t, pos, TokenKind::If) {
        None
    } else {
        match g_condition(t, pos + 1) {
            None => None,
            Some((p1, c)) => match g_return_if(t, p1) {
                None => None,
                Some((p2, v1)) => if !kind_at(t, p2, TokenKind::Else) {
                    None
                } else {
                    match g_return_if(t, p2 + 1) {
                        None => None,
                        Some((p3, v2)) => Some((p3, Ast::IfExpression(seq![c, v1, v2]))),
                    }
                },
            },
        }
    }
}

/// `{ <newline> <tab> { return <bool> ; } }`
pub open spec fn g_indented_block(t: Seq<(TokenKind, Seq<u8>)>, pos: int) -> Option<(int, Ast)> {
    if !kind_at(t, pos, TokenKind::LeftCurly) {
        None
    } else {
        match g_if_indent(t, pos + 1) {
            None => None,
            Some((p1, _)) => match g_return_if(t, p1) {
                None => None,
                Some((p2, v)) => if kind_at(t, p2, TokenKind::RightCurly) {
                    Some((p2 + 1, v))
                } else {
                    None
                },
            },
        }
    }
}

pub open spec fn g_if_multi_line(t: Seq<(TokenKind, Seq<u8>)>, pos: int) -> Option<(int, Ast)> {
    if !kind_at(t, pos, TokenKind::If) {
        None
    } else {
        match g_boolean(t, pos + 1) {
            None => None,
            Some((p1, b)) => match g_indented_block(t, p1) {
                None => None,
                Some((p2, v1)) => if !kind_at(t, p2, TokenKind::Else) {
                    None
                } else {
                    match g_indented_block(t, p2 + 1) {
                        None => None,
                        Some((p3, v2)) => Some((p3, Ast::MultiLineIf(seq![b, v1, v2]))),
                    }
                },
            },
        }
    }
}

pub open spec fn g_if_else(t: Seq<(TokenKind, Seq<u8>)>, pos: int) -> Option<(int, Ast)> {
    if !kind_at(t, pos, TokenKind::If) {
        None
    } else {
        match g_condition(t, pos + 1) {
            None => None,
            Some((p1, c1)) => match g_return_ifnum(t, p1) {
                None => None,
                Some((p2, v1)) => if !(kind_at(t, p2, TokenKind::Else) && kind_at(
                    t,
                    p2 + 1,
                    TokenKind::If,
                )) {
                    None
                } else {
                    match g_condition(t, p2 + 2) {
                        None => None,
                        Some((p3, c2)) => match g_return_ifnum(t, p3) {
                            None => None,
                            Some((p4, v2)) => if !kind_at(t, p4, TokenKind::Else) {
                                None
                            } else {
                                match g_return_else(t, p4 + 1) {
                                    None => None,
                                    Some((p5, v3)) => Some(
                                        (p5, Ast::IfElse(seq![c1, v1, c2, v2, v3])),
                                    ),
                                }
                            },
                        },
                    }
                },
            },
        }
    }
}

pub open spec fn g_if_assign(t: Seq<(TokenKind, Seq<u8>)>, pos: int) -> Option<(int, Ast)> {
    if !kind_at(t, pos, TokenKind::Let) {
        None
    } else {
        match g_identifier(t, pos + 1) {
            None => None,
            Some((p1, var)) => if !(kind_at(t, p1, TokenKind::Equal) && kind_at(
                t,
                p1 + 1,
                TokenKind::If,
            )) {
                None
            } else {
                match g_boolean(t, p1 + 2) {
                    None => None,
                    Some((p2, b)) => match g_return_if(t, p2) {
                        None => None,
                        Some((p3, v1)) => if !kind_at(t, p3, TokenKind::Else) {
                            None
                        } else {
                            match g_return_if(t, p3 + 1) {
                                None => None,
                                Some((p4, v2)) => Some((p4, Ast::IfAssign(seq![var, b, v1, v2]))),
                            }
                        },
                    },
                }
            },
        }
    }
}

pub open spec fn g_comment(t: Seq<(TokenKind, Seq<u8>)>, pos: int) -> Option<(int, Ast)> {
    if kind_at(t, pos, TokenKind::Slash) && kind_at(t, pos + 1, TokenKind::Slash) {
        let e = alpha_run(t, pos + 2);
        Some((e, Ast::Comment(lexemes(t, pos + 2, e))))
    } else {
        None
    }
}

/// `expression := boolean | math_expression | function_call | number | string | identifier`
pub open spec fn g_expression(t: Seq<(TokenKind, Seq<u8>)>, pos: int) -> Option<(int, Ast)>
    decreases t.len() - pos, 3int,
{
    let r = if g_boolean(t, pos) is Some {
        g_boolean(t, pos)
    } else if g_math_expression(t, pos) is Some {
        g_math_expression(t, pos)
    } else if g_function_call(t, pos) is Some {
        g_function_call(t, pos)
    } else if g_number(t, pos) is Some {
        g_number(t, pos)
    } else if g_string(t, pos) is Some {
        g_string(t, pos)
    } else {
        g_identifier(t, pos)
    };
    match r {
        None => None,
        Some((p, v)) => Some((p, Ast::Expression(seq![v]))),
    }
}

/// `function_call := identifier "(" arguments* ")"`; with no arguments the
/// call still holds one empty argument list.
pub open spec fn g_function_call(t: Seq<(TokenKind, Seq<u8>)>, pos: int) -> Option<(int, Ast)>
    decreases t.len() - pos, 2int,
{
    match g_identifier(t, pos) {
        None => None,
        Some((p1, id)) => if p1 > pos && kind_at(t, p1, TokenKind::LeftParen) {
            let (p2, args) = g_many_arguments(t, p1 + 1);
            if kind_at(t, p2, TokenKind::RightParen) {
                let children = if args.len() == 0 {
                    seq![Ast::FunctionArguments(Seq::empty())]
                } else {
                    args
                };
                Some((p2 + 1, Ast::FunctionCall(id->Identifier_0, children)))
            } else {
                None
            }
        } else {
            None
        },
    }
}

/// Zero or more argument lists, one after another; repetition stops at the
/// first failure or at a list that would consume nothing.
pub open spec fn g_many_arguments(t: Seq<(TokenKind, Seq<u8>)>, pos: int) -> (int, Seq<Ast>)
    decreases t.len() - pos, 5int,
{
    if pos > t.len() {
        (pos, Seq::empty())
    } else {
        match g_arguments(t, pos) {
            None => (pos, Seq::empty()),
            Some((p1, a)) => if p1 > pos && p1 <= t.len() {
                let (p2, rest) = g_many_arguments(t, p1);
                (p2, seq![a] + rest)
            } else {
                (pos, Seq::empty())
            },
        }
    }
}

/// `arguments := expression ("," expression)*`
pub open spec fn g_arguments(t: Seq<(TokenKind, Seq<u8>)>, pos: int) -> Option<(int, Ast)>
    decreases t.len() - pos, 4int,
{
    match g_expression(t, pos) {
        None => None,
        Some((p1, e)) => if p1 > pos && p1 <= t.len() {
            let (p2, others) = g_many_other_args(t, p1);
            Some((p2, Ast::FunctionArguments(seq![e] + others)))
        } else {
            None
        },
    }
}

pub open spec fn g_many_other_args(t: Seq<(TokenKind, Seq<u8>)>, pos: int) -> (int, Seq<Ast>)
    decreases t.len() - pos, 1int,
{
    if pos > t.len() {
        (pos, Seq::empty())
    } else {
        match g_other_arg(t, pos) {
            None => (pos, Seq::empty()),
            Some((p1, a)) => if p1 > pos && p1 <= t.len() {
                let (p2, rest) = g_many_other_args(t, p1);
                (p2, seq![a] + rest)
            } else {
                (pos, Seq::empty())
            },
        }
    }
}

/// `"," expression`
pub open spec fn g_other_arg(t: Seq<(TokenKind, Seq<u8>)>, pos: int) -> Option<(int, Ast)>
    decreases t.len() - pos, 0int,
{
    if kind_at(t, pos, TokenKind::Comma) {
        g_expression(t, pos + 1)
    } else {
        None
    }
}

pub open spec fn g_function_return(t: Seq<(TokenKind, Seq<u8>)>, pos: int) -> Option<(int, Ast)> {
    if !kind_at(t, pos, TokenKind::Return) {
        None
    } else {
        let r = if g_function_call(t, pos + 1) is Some {
            g_function_call(t, pos + 1)
        } else if g_expression(t, pos + 1) is Some {
            g_expression(t, pos + 1)
        } else {
            g_identifier(t, pos + 1)
        };
        match r {
            None => None,
            Some((p, v)) => Some((p, Ast::FunctionReturn(seq![v]))),
        }
    }
}

pub open spec fn g_variable_define(t: Seq<(TokenKind, Seq<u8>)>, pos: int) -> Option<(int, Ast)> {
    if !kind_at(t, pos, TokenKind::Let) {
        None
    } else {
        match g_identifier(t, pos + 1) {
            None => None,
            Some((p1, var)) => if !kind_at(t, p1, TokenKind::Equal) {
                None
            } else {
                let r = if g_expression(t, p1 + 1) is Some {
                    g_expression(t, p1 + 1)
                } else {
                    g_if_assign(t, p1 + 1)
                };
                match r {
                    None => None,
                    Some((p2, v)) => Some((p2, Ast::VariableDefine(seq![var, v]))),
                }
            },
        }
    }
}

/// `statement := (variable_define | expression | function_return) ";"`
pub open spec fn g_statement(t: Seq<(TokenKind, Seq<u8>)>, pos: int) -> Option<(int, Ast)> {
    let r = if g_variable_define(t, pos) is Some {
        g_variable_define(t, pos)
    } else if g_expression(t, pos) is Some {
        g_expression(t, pos)
    } else {
        g_function_return(t, pos)
    };
    match r {
        None => None,
        Some((p, v)) => if kind_at(t, p, TokenKind::Semicolon) {
            Some((p + 1, v))
        } else {
            None
        },
    }
}

pub open spec fn g_many_statements(t: Seq<(TokenKind, Seq<u8>)>, pos: int) -> (int, Seq<Ast>)
    decreases t.len() - pos,
{
    if pos > t.len() {
        (pos, Seq::empty())
    } else {
        match g_statement(t, pos) {
            None => (pos, Seq::empty()),
            Some((p1, a)) => if p1 > pos && p1 <= t.len() {
                let (p2, rest) = g_many_statements(t, p1);
                (p2, seq![a] + rest)
            } else {
                (pos, Seq::empty())
            },
        }
    }
}

/// `function_define := "fn" identifier "(" arguments* ")" "{" statement+ "}"`
pub open spec fn g_function_define(t: Seq<(TokenKind, Seq<u8>)>, pos: int) -> Option<(int, Ast)> {
    if !kind_at(t, pos, TokenKind::Fn) {
        None
    } else {
        match g_identifier(t, pos + 1) {
            None => None,
            Some((p1, id)) => if !kind_at(t, p1, TokenKind::LeftParen) {
                None
            } else {
                let (p2, args) = g_many_arguments(t, p1 + 1);
                if !(kind_at(t, p2, TokenKind::RightParen) && kind_at(
                    t,
                    p2 + 1,
                    TokenKind::LeftCurly,
                )) {
                    None
                } else {
                    let (p3, stmts) = g_many_statements(t, p2 + 2);
                    if stmts.len() > 0 && kind_at(t, p3, TokenKind::RightCurly) {
                        let params = if args.len() == 0 {
                            Ast::FunctionArguments(Seq::empty())
                        } else {
                            args[0]
                        };
                        Some(
                            (
                                p3 + 1,
                                Ast::FunctionDefine(
                                    id->Identifier_0,
                                    seq![params, Ast::FunctionStatements(stmts)],
                                ),
                            ),
                        )
                    } else {
                        None
                    }
                }
            },
        }
    }
}

/// One item at the top level of a program.
pub open spec fn g_top_item(t: Seq<(TokenKind, Seq<u8>)>, pos: int) -> Option<(int, Ast)> {
    if g_function_define(t, pos) is Some {
        g_function_define(t, pos)
    } else if g_expression(t, pos) is Some {
        g_expression(t, pos)
    } else if g_statement(t, pos) is Some {
        g_statement(t, pos)
    } else if g_string(t, pos) is Some {
        g_string(t, pos)
    } else if g_boolean(t, pos) is Some {
        g_boolean(t, pos)
    } else {
        g_number(t, pos)
    }
}

pub open spec fn g_many_top_items(t: Seq<(TokenKind, Seq<u8>)>, pos: int) -> (int, Seq<Ast>)
    decreases t.len() - pos,
{
    if pos > t.len() {
        (pos, Seq::empty())
    } else {
        match g_top_item(t, pos) {
            None => (pos, Seq::empty()),
            Some((p1, a)) => if p1 > pos && p1 <= t.len() {
                let (p2, rest) = g_many_top_items(t, p1);
                (p2, seq![a] + rest)
            } else {
                (pos, Seq::empty())
            },
        }
    }
}

/// `program := top_item+`
pub open spec fn g_program(t: Seq<(TokenKind, Seq<u8>)>, pos: int) -> Option<(int, Ast)> {
    let (p, items) = g_many_top_items(t, pos);
    if items.len() > 0 {
        Some((p, Ast::Program(items)))
    } else {
        None
    }
}

} // verus!
