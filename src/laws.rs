use vstd::prelude::*;

use crate::ast::Ast;
use crate::error::Fault;
use crate::interpreter::{bind_top, eval, eval_args, eval_seq, Env, Val};
use crate::parser::parse_model;

verus! {

/// The stack of `b` is as long as that of `a`, and all frames below the top
/// one are the same.
pub open spec fn frames_kept(a: Env, b: Env) -> bool {
    &&& b.stack.len() == a.stack.len()
    &&& b.stack.subrange(0, b.stack.len() - 1) == a.stack.subrange(0, a.stack.len() - 1)
}

/// Evaluating a node on a non-empty stack leaves the stack as long as it was,
/// with the frames below the top one untouched: every frame that a call
/// pushes is popped again, whether the call succeeds or fails.
pub proof fn lemma_frames_kept(env: Env, n: Ast, d: nat)
    requires
        env.stack.len() > 0,
    ensures
        frames_kept(env, eval(env, n, d).0),
    decreases d, n,
{
    match n {
        Ast::Program(cs) => lemma_frames_kept_seq(env, cs, d, true),
        Ast::Statement(cs) => if cs.len() > 0 {
            lemma_frames_kept(env, cs[0], d);
        },
        Ast::Expression(cs) => if cs.len() > 0 {
            lemma_frames_kept(env, cs[0], d);
        },
        Ast::FunctionReturn(cs) => if cs.len() > 0 {
            lemma_frames_kept(env, cs[0], d);
        },
        Ast::ReturnIf(cs) => if cs.len() > 0 {
            lemma_frames_kept(env, cs[0], d);
        },
        Ast::ReturnIfNum(cs) => if cs.len() > 0 {
            lemma_frames_kept(env, cs[0], d);
        },
        Ast::ReturnElse(cs) => if cs.len() > 0 {
            lemma_frames_kept(env, cs[0], d);
        },
        Ast::MathExpression(_, cs) => if cs.len() >= 2 {
            lemma_frames_kept(env, cs[0], d);
            lemma_frames_kept(eval(env, cs[0], d).0, cs[1], d);
        },
        Ast::Condition(cs) => if cs.len() >= 3 {
            lemma_frames_kept(env, cs[0], d);
            lemma_frames_kept(eval(env, cs[0], d).0, cs[2], d);
        },
        Ast::FunctionCall(name, cs) => if env.functions.contains_key(name) && d > 0 {
            let params = env.functions[name].0;
            let body = env.functions[name].1;
            if cs.len() > 0 {
                match cs[cs.len() - 1] {
                    Ast::FunctionArguments(args) => {
                        lemma_frames_kept_args(env, args, params, Map::empty(), d);
                    },
                    _ => {},
                }
            }
            let (e1, fr) = if cs.len() > 0 {
                match cs[cs.len() - 1] {
                    Ast::FunctionArguments(args) => eval_args(env, args, params, Map::empty(), d),
                    _ => (env, Ok(Map::empty())),
                }
            } else {
                (env, Ok(Map::empty()))
            };
            match fr {
                Err(_) => {},
                Ok(frame) => {
                    let pushed = Env { functions: e1.functions, stack: e1.stack.push(frame) };
                    lemma_frames_kept_seq(pushed, body, (d - 1) as nat, false);
                    let e2 = eval_seq(pushed, body, (d - 1) as nat, false).0;
                    assert(e2.stack.subrange(0, e2.stack.len() - 1) == pushed.stack.subrange(
                        0,
                        pushed.stack.len() - 1,
                    ));
                    assert(pushed.stack.subrange(0, pushed.stack.len() - 1) =~= e1.stack);
                    assert(e2.stack.drop_last() =~= e2.stack.subrange(0, e2.stack.len() - 1));
                },
            }
        },
        Ast::VariableDefine(cs) => if cs.len() >= 2 && cs[0] is Identifier {
            lemma_frames_kept(env, cs[1], d);
            let (e1, r) = eval(env, cs[1], d);
            if r is Ok {
                lemma_bind_top_kept(e1, cs[0]->Identifier_0, r->Ok_0);
            }
        },
        Ast::IfExpression(cs) => if cs.len() >= 3 {
            lemma_frames_kept(env, cs[0], d);
            let e1 = eval(env, cs[0], d).0;
            lemma_frames_kept(e1, cs[1], d);
            lemma_frames_kept(e1, cs[2], d);
        },
        Ast::IfElse(cs) => if cs.len() >= 5 {
            lemma_frames_kept(env, cs[0], d);
            let e1 = eval(env, cs[0], d).0;
            lemma_frames_kept(e1, cs[1], d);
            lemma_frames_kept(e1, cs[2], d);
            let e2 = eval(e1, cs[2], d).0;
            lemma_frames_kept(e2, cs[3], d);
            lemma_frames_kept(e2, cs[4], d);
        },
        Ast::IfAssign(cs) => if cs.len() >= 4 && cs[0] is Identifier {
            lemma_frames_kept(env, cs[1], d);
            let e1 = eval(env, cs[1], d).0;
            lemma_frames_kept(e1, cs[2], d);
            lemma_frames_kept(e1, cs[3], d);
            let (e2, r2) = eval(e1, cs[2], d);
            if r2 is Ok {
                lemma_bind_top_kept(e2, cs[0]->Identifier_0, r2->Ok_0);
            }
            let (e3, r3) = eval(e1, cs[3], d);
            if r3 is Ok {
                lemma_bind_top_kept(e3, cs[0]->Identifier_0, r3->Ok_0);
            }
        },
        Ast::MultiLineIf(cs) => if cs.len() >= 3 {
            lemma_frames_kept(env, cs[0], d);
            let e1 = eval(env, cs[0], d).0;
            match cs[1] {
                Ast::FunctionStatements(ss) => lemma_frames_kept_seq(e1, ss, d, false),
                _ => {},
            }
            match cs[2] {
                Ast::FunctionStatements(ss) => lemma_frames_kept_seq(e1, ss, d, false),
                _ => {},
            }
        },
        _ => {},
    }
}

proof fn lemma_bind_top_kept(env: Env, name: Seq<u8>, v: Val)
    requires
        env.stack.len() > 0,
    ensures
        frames_kept(env, bind_top(env, name, v)),
{
    let b = bind_top(env, name, v);
    assert(b.stack.subrange(0, b.stack.len() - 1) =~= env.stack.subrange(0, env.stack.len() - 1));
}

pub proof fn lemma_frames_kept_seq(env: Env, s: Seq<Ast>, d: nat, top: bool)
    requires
        env.stack.len() > 0,
    ensures
        frames_kept(env, eval_seq(env, s, d, top).0),
    decreases d, s,
{
    if s.len() > 0 {
        lemma_frames_kept(env, s[0], d);
        if s.len() > 1 {
            lemma_frames_kept_seq(eval(env, s[0], d).0, s.subrange(1, s.len() as int), d, top);
        }
    }
}

pub proof fn lemma_frames_kept_args(
    env: Env,
    args: Seq<Ast>,
    params: Seq<Ast>,
    frame: Map<Seq<u8>, Val>,
    d: nat,
)
    requires
        env.stack.len() > 0,
    ensures
        frames_kept(env, eval_args(env, args, params, frame, d).0),
    decreases d, args,
{
    if args.len() > 0 && params.len() > 0 {
        lemma_frames_kept(env, args[0], d);
        let (e1, r) = eval(env, args[0], d);
        match r {
            Ok(v) => match crate::interpreter::param_name(params[0]) {
                Some(nm) => lemma_frames_kept_args(
                    e1,
                    args.subrange(1, args.len() as int),
                    params.subrange(1, params.len() as int),
                    frame.insert(nm, v),
                    d,
                ),
                None => {},
            },
            Err(_) => {},
        }
    }
}

/// A call pushes exactly one frame and pops exactly one: once its arguments
/// have been evaluated, the stack after the call is the stack before its body
/// ran, whether the body succeeded or failed.
pub proof fn law_call_frames_balanced(env: Env, name: Seq<u8>, args: Seq<Ast>, d: nat)
    requires
        env.functions.contains_key(name),
        d > 0,
    ensures
        ({
            let (e1, fr) = eval_args(env, args, env.functions[name].0, Map::empty(), d);
            fr is Ok ==> eval(
                env,
                Ast::FunctionCall(name, seq![Ast::FunctionArguments(args)]),
                d,
            ).0.stack == e1.stack
        }),
{
    let call = Ast::FunctionCall(name, seq![Ast::FunctionArguments(args)]);
    let cs = seq![Ast::FunctionArguments(args)];
    assert(cs[cs.len() - 1] == Ast::FunctionArguments(args));
    let (e1, fr) = eval_args(env, args, env.functions[name].0, Map::empty(), d);
    match fr {
        Ok(frame) => {
            let pushed = Env { functions: e1.functions, stack: e1.stack.push(frame) };
            let body = env.functions[name].1;
            lemma_frames_kept_seq(pushed, body, (d - 1) as nat, false);
            let e2 = eval_seq(pushed, body, (d - 1) as nat, false).0;
            assert(pushed.stack.subrange(0, pushed.stack.len() - 1) =~= e1.stack);
            assert(e2.stack.drop_last() =~= e2.stack.subrange(0, e2.stack.len() - 1));
        },
        Err(_) => {},
    }
}

/// Parsing is a function of the source: the same bytes always give the same
/// tree.
pub proof fn law_parse_deterministic(a: Seq<u8>, b: Seq<u8>)
    requires
        a == b,
    ensures
        parse_model(a) == parse_model(b),
{
}

/// Calling a name that the function table lacks fails with
/// `UndefinedFunction` and changes nothing.
pub proof fn law_undefined_function(env: Env, name: Seq<u8>, cs: Seq<Ast>, d: nat)
    requires
        !env.functions.contains_key(name),
    ensures
        eval(env, Ast::FunctionCall(name, cs), d) == (env, Err::<Val, Fault>(Fault::UndefinedFunction)),
{
}

/// Looking up a variable while the stack is empty fails with
/// `UndefinedVariable` and changes nothing.
pub proof fn law_lookup_on_empty_stack(env: Env, name: Seq<u8>, d: nat)
    requires
        env.stack.len() == 0,
    ensures
        eval(env, Ast::Identifier(name), d) == (env, Err::<Val, Fault>(Fault::UndefinedVariable)),
{
}

/// Defining a function under a name that is already taken replaces the
/// definition: the set of names stays the same, and the name now stands for
/// the new parameters and statements.
pub proof fn law_redefinition_replaces(
    env: Env,
    name: Seq<u8>,
    params: Seq<Ast>,
    body: Seq<Ast>,
    d: nat,
)
    requires
        env.functions.contains_key(name),
    ensures
        ({
            let (e1, r) = eval(
                env,
                Ast::FunctionDefine(
                    name,
                    seq![Ast::FunctionArguments(params), Ast::FunctionStatements(body)],
                ),
                d,
            );
            &&& r == Ok::<Val, Fault>(Val::Bool(true))
            &&& e1.functions.dom() == env.functions.dom()
            &&& e1.functions[name] == (params, body)
            &&& e1.stack == env.stack
        }),
{
    let cs = seq![Ast::FunctionArguments(params), Ast::FunctionStatements(body)];
    assert(cs[0] is FunctionArguments && cs[1] is FunctionStatements);
    let e1 = eval(env, Ast::FunctionDefine(name, cs), d).0;
    assert(e1.functions.dom() =~= env.functions.dom());
}

/// A variable defined while the stack is empty lands in a frame of its own,
/// from which a later lookup of its name returns its value.
pub proof fn law_top_level_variable_persists(env: Env, name: Seq<u8>, e: Ast, d: nat)
    requires
        env.stack.len() == 0,
        eval(env, e, d).1 is Ok,
    ensures
        ({
            let (e1, r) = eval(env, Ast::VariableDefine(seq![Ast::Identifier(name), e]), d);
            &&& r == eval(env, e, d).1
            &&& e1.stack.len() > 0
            &&& eval(env, e, d).0.stack.len() == 0 ==> e1.stack.len() == 1
            &&& eval(e1, Ast::Identifier(name), d) == (e1, r)
        }),
{
    let cs = seq![Ast::Identifier(name), e];
    assert(cs[0] is Identifier && cs[1] == e);
}

/// An `if` expression whose condition is not a boolean fails with `TypeError`.
pub proof fn law_if_expression_needs_bool(env: Env, cs: Seq<Ast>, d: nat)
    requires
        cs.len() >= 3,
        eval(env, cs[0], d).1 is Ok,
        !(eval(env, cs[0], d).1->Ok_0 is Bool),
    ensures
        eval(env, Ast::IfExpression(cs), d) == (eval(env, cs[0], d).0, Err::<Val, Fault>(
            Fault::TypeError,
        )),
{
}

/// An `if`/`else if`/`else` whose first condition, or whose second condition
/// when the first is false, is not a boolean fails with `TypeError`.
pub proof fn law_if_else_needs_bool(env: Env, cs: Seq<Ast>, d: nat)
    requires
        cs.len() >= 5,
        eval(env, cs[0], d).1 is Ok,
    ensures
        !(eval(env, cs[0], d).1->Ok_0 is Bool) ==> eval(env, Ast::IfElse(cs), d) == (
            eval(env, cs[0], d).0,
            Err::<Val, Fault>(Fault::TypeError),
        ),
        ({
            let e1 = eval(env, cs[0], d).0;
            let (e2, c2) = eval(e1, cs[2], d);
            eval(env, cs[0], d).1 == Ok::<Val, Fault>(Val::Bool(false)) && c2 is Ok && !(c2->Ok_0 is Bool)
                ==> eval(env, Ast::IfElse(cs), d) == (e2, Err::<Val, Fault>(Fault::TypeError))
        }),
{
}

/// An `if` assignment whose condition is not a boolean fails with `TypeError`
/// and binds nothing.
pub proof fn law_if_assign_needs_bool(env: Env, cs: Seq<Ast>, d: nat)
    requires
        cs.len() >= 4,
        cs[0] is Identifier,
        eval(env, cs[1], d).1 is Ok,
        !(eval(env, cs[1], d).1->Ok_0 is Bool),
    ensures
        eval(env, Ast::IfAssign(cs), d) == (eval(env, cs[1], d).0, Err::<Val, Fault>(
            Fault::TypeError,
        )),
{
}

/// A multi-line `if` whose condition is not a boolean fails with `TypeError`.
pub proof fn law_multi_line_if_needs_bool(env: Env, cs: Seq<Ast>, d: nat)
    requires
        cs.len() >= 3,
        eval(env, cs[0], d).1 is Ok,
        !(eval(env, cs[0], d).1->Ok_0 is Bool),
    ensures
        eval(env, Ast::MultiLineIf(cs), d) == (eval(env, cs[0], d).0, Err::<Val, Fault>(
            Fault::TypeError,
        )),
{
}

} // verus!
