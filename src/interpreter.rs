use vstd::prelude::*;
use vstd::string::StringExecFns;

use crate::assoc::{
    assoc, find_last, lemma_assoc_absent, lemma_assoc_found, lemma_assoc_push, lemma_assoc_update,
};
use crate::ast::{Ast, Node};
use crate::error::{AsaErrorKind, Fault};

verus! {

/// How deeply function calls may nest before evaluation gives up with a
/// `StackError`.
pub const MAX_CALL_DEPTH: u64 = 200;

/// The text of the error reported for a tree that the parser cannot build.
pub const MALFORMED: &'static str = "malformed syntax tree";

/// A runtime value.
#[derive(Debug, PartialEq, Clone)]
pub enum Value {
    String(String),
    Number(i32),
    Bool(bool),
}

/// The model of a runtime value.
pub enum Val {
    Str(Seq<char>),
    Num(i32),
    Bool(bool),
}

impl Value {
    pub open spec fn model(&self) -> Val {
        match self {
            Value::String(s) => Val::Str(s@),
            Value::Number(n) => Val::Num(*n),
            Value::Bool(b) => Val::Bool(*b),
        }
    }

    /// A copy of this value.
    pub fn copy(&self) -> (r: Value)
        ensures
            r.model() == self.model(),
    {
        match self {
            Value::String(s) => Value::String(s.clone()),
            Value::Number(n) => Value::Number(*n),
            Value::Bool(b) => Value::Bool(*b),
        }
    }
}

/// The model of an interpreter's state: the function table, from a name to
/// the parameters and the statements of its definition, and the call stack,
/// one map from variable names to values per frame.
pub struct Env {
    pub functions: Map<Seq<u8>, (Seq<Ast>, Seq<Ast>)>,
    pub stack: Seq<Map<Seq<u8>, Val>>,
}

pub open spec fn outcome(r: Result<Value, AsaErrorKind>) -> Result<Val, Fault> {
    match r {
        Ok(v) => Ok(v.model()),
        Err(e) => Err(e.model()),
    }
}

pub open spec fn malformed() -> Fault {
    Fault::Generic(MALFORMED@)
}

/// The name `main`, which `start_main` calls.
pub open spec fn main_name() -> Seq<u8> {
    seq![109u8, 97u8, 105u8, 110u8]
}

/// Binds `name` to `v` in the frame on top of the stack, first pushing a
/// frame when the stack is empty.
pub open spec fn bind_top(env: Env, name: Seq<u8>, v: Val) -> Env {
    if env.stack.len() == 0 {
        Env { functions: env.functions, stack: seq![Map::empty().insert(name, v)] }
    } else {
        Env {
            functions: env.functions,
            stack: env.stack.update(env.stack.len() - 1, env.stack.last().insert(name, v)),
        }
    }
}

/// The kinds of node that may stand at the top level of a program.
pub open spec fn is_top_level(a: Ast) -> bool {
    a is FunctionDefine || a is Expression || a is VariableDefine || a is String || a is Number
        || a is Bool
}

/// The name that a parameter declares: an expression made of an identifier.
pub open spec fn param_name(p: Ast) -> Option<Seq<u8>> {
    match p {
        Ast::Expression(cs) => if cs.len() > 0 && cs[0] is Identifier {
            Some(cs[0]->Identifier_0)
        } else {
            None
        },
        _ => None,
    }
}

/// The value of an arithmetic expression named `name` on two operands.
/// Only `add` and `sub` on two numbers are defined; they wrap around.
pub open spec fn arith(name: Seq<u8>, l: Val, r: Val) -> Result<Val, Fault> {
    if name == seq![97u8, 100u8, 100u8] {
        match (l, r) {
            (Val::Num(a), Val::Num(b)) => Ok(Val::Num(vstd::wrapping::i32_specs::wrapping_add(a, b))),
            _ => Err(Fault::UndefinedFunction),
        }
    } else if name == seq![115u8, 117u8, 98u8] {
        match (l, r) {
            (Val::Num(a), Val::Num(b)) => Ok(Val::Num(vstd::wrapping::i32_specs::wrapping_sub(a, b))),
            _ => Err(Fault::UndefinedFunction),
        }
    } else {
        Err(Fault::UndefinedFunction)
    }
}

/// The value of a comparison: `>` and `<` order two numbers, `==` compares two
/// numbers or two booleans.
pub open spec fn compare(op: Seq<u8>, l: Val, r: Val) -> Result<Val, Fault> {
    if op == seq![62u8] {
        match (l, r) {
            (Val::Num(a), Val::Num(b)) => Ok(Val::Bool(a > b)),
            _ => Err(Fault::TypeError),
        }
    } else if op == seq![60u8] {
        match (l, r) {
            (Val::Num(a), Val::Num(b)) => Ok(Val::Bool(a < b)),
            _ => Err(Fault::TypeError),
        }
    } else if op == seq![61u8, 61u8] {
        match (l, r) {
            (Val::Num(a), Val::Num(b)) => Ok(Val::Bool(a == b)),
            (Val::Bool(a), Val::Bool(b)) => Ok(Val::Bool(a == b)),
            _ => Err(Fault::TypeError),
        }
    } else {
        Err(Fault::UndefinedFunction)
    }
}

/// Evaluation of one node in state `env`, with at most `d` nested calls left:
/// the state afterwards and the value or the first error.
pub open spec fn eval(env: Env, n: Ast, d: nat) -> (Env, Result<Val, Fault>)
    decreases d, n,
{
    match n {
        Ast::Program(cs) => eval_seq(env, cs, d, true),
        Ast::Statement(cs) => if cs.len() > 0 && (cs[0] is VariableDefine || cs[0] is FunctionReturn) {
            eval(env, cs[0], d)
        } else {
            (env, Err(malformed()))
        },
        Ast::Expression(cs) => if cs.len() > 0 {
            eval(env, cs[0], d)
        } else {
            (env, Err(malformed()))
        },
        Ast::FunctionReturn(cs) => if cs.len() > 0 {
            eval(env, cs[0], d)
        } else {
            (env, Err(malformed()))
        },
        Ast::ReturnIf(cs) => if cs.len() > 0 {
            eval(env, cs[0], d)
        } else {
            (env, Err(malformed()))
        },
        Ast::ReturnIfNum(cs) => if cs.len() > 0 {
            eval(env, cs[0], d)
        } else {
            (env, Err(malformed()))
        },
        Ast::ReturnElse(cs) => if cs.len() > 0 {
            eval(env, cs[0], d)
        } else {
            (env, Err(malformed()))
        },
        Ast::MathExpression(name, cs) => if cs.len() < 2 {
            (env, Err(malformed()))
        } else {
            let (e1, l) = eval(env, cs[0], d);
            match l {
                Err(e) => (e1, Err(e)),
                Ok(lv) => {
                    let (e2, r) = eval(e1, cs[1], d);
                    match r {
                        Err(e) => (e2, Err(e)),
                        Ok(rv) => (e2, arith(name, lv, rv)),
                    }
                },
            }
        },
        Ast::Condition(cs) => if cs.len() < 3 || !(cs[1] is Operator) {
            (env, Err(malformed()))
        } else {
            let (e1, l) = eval(env, cs[0], d);
            match l {
                Err(e) => (e1, Err(e)),
                Ok(lv) => {
                    let (e2, r) = eval(e1, cs[2], d);
                    match r {
                        Err(e) => (e2, Err(e)),
                        Ok(rv) => (e2, compare(cs[1]->Operator_0, lv, rv)),
                    }
                },
            }
        },
        Ast::FunctionDefine(name, cs) => if cs.len() >= 2 && cs[0] is FunctionArguments
            && cs[1] is FunctionStatements {
            (
                Env {
                    functions: env.functions.insert(
                        name,
                        (cs[0]->FunctionArguments_0, cs[1]->FunctionStatements_0),
                    ),
                    stack: env.stack,
                },
                Ok(Val::Bool(true)),
            )
        } else {
            (env, Err(malformed()))
        },
        Ast::FunctionCall(name, cs) => if !env.functions.contains_key(name) {
            (env, Err(Fault::UndefinedFunction))
        } else if d == 0 {
            (env, Err(Fault::StackError))
        } else {
            let params = env.functions[name].0;
            let body = env.functions[name].1;
            let (e1, fr) = if cs.len() > 0 {
                match cs[cs.len() - 1] {
                    Ast::FunctionArguments(args) => eval_args(env, args, params, Map::empty(), d),
                    _ => (env, Ok(Map::empty())),
                }
            } else {
                (env, Ok(Map::empty()))
            };
            match fr {
                Err(e) => (e1, Err(e)),
                Ok(frame) => {
                    let (e2, r) = eval_seq(
                        Env { functions: e1.functions, stack: e1.stack.push(frame) },
                        body,
                        (d - 1) as nat,
                        false,
                    );
                    let popped = if e2.stack.len() > 0 {
                        e2.stack.drop_last()
                    } else {
                        e2.stack
                    };
                    (Env { functions: e2.functions, stack: popped }, r)
                },
            }
        },
        Ast::Identifier(name) => if env.stack.len() > 0 && env.stack.last().contains_key(name) {
            (env, Ok(env.stack.last()[name]))
        } else {
            (env, Err(Fault::UndefinedVariable))
        },
        Ast::VariableDefine(cs) => if cs.len() >= 2 && cs[0] is Identifier {
            let (e1, r) = eval(env, cs[1], d);
            match r {
                Err(e) => (e1, Err(e)),
                Ok(v) => (bind_top(e1, cs[0]->Identifier_0, v), Ok(v)),
            }
        } else {
            (env, Err(malformed()))
        },
        Ast::Number(v) => (env, Ok(Val::Num(v))),
        Ast::String(s) => (env, Ok(Val::Str(s))),
        Ast::Bool(b) => (env, Ok(Val::Bool(b))),
        Ast::IfExpression(cs) => if cs.len() < 3 {
            (env, Err(malformed()))
        } else {
            let (e1, c) = eval(env, cs[0], d);
            match c {
                Err(e) => (e1, Err(e)),
                Ok(Val::Bool(true)) => {
                    let (e2, r) = eval(e1, cs[1], d);
                    (e2, if r is Err { r } else { Ok(Val::Bool(true)) })
                },
                Ok(Val::Bool(false)) => {
                    let (e2, r) = eval(e1, cs[2], d);
                    (e2, if r is Err { r } else { Ok(Val::Bool(false)) })
                },
                Ok(_) => (e1, Err(Fault::TypeError)),
            }
        },
        Ast::IfElse(cs) => if cs.len() < 5 {
            (env, Err(malformed()))
        } else {
            let (e1, c) = eval(env, cs[0], d);
            match c {
                Err(e) => (e1, Err(e)),
                Ok(Val::Bool(true)) => {
                    let (e2, r) = eval(e1, cs[1], d);
                    (e2, if r is Err { r } else { Ok(Val::Bool(true)) })
                },
                Ok(Val::Bool(false)) => {
                    let (e2, c2) = eval(e1, cs[2], d);
                    match c2 {
                        Err(e) => (e2, Err(e)),
                        Ok(Val::Bool(true)) => {
                            let (e3, r) = eval(e2, cs[3], d);
                            (e3, if r is Err { r } else { Ok(Val::Bool(true)) })
                        },
                        Ok(Val::Bool(false)) => {
                            let (e3, r) = eval(e2, cs[4], d);
                            (e3, if r is Err { r } else { Ok(Val::Bool(false)) })
                        },
                        Ok(_) => (e2, Err(Fault::TypeError)),
                    }
                },
                Ok(_) => (e1, Err(Fault::TypeError)),
            }
        },
        Ast::IfAssign(cs) => if cs.len() < 4 {
            (env, Err(malformed()))
        } else if !(cs[0] is Identifier) {
            (env, Err(Fault::TypeError))
        } else {
            let (e1, c) = eval(env, cs[1], d);
            match c {
                Err(e) => (e1, Err(e)),
                Ok(Val::Bool(true)) => {
                    let (e2, r) = eval(e1, cs[2], d);
                    match r {
                        Err(e) => (e2, Err(e)),
                        Ok(v) => (bind_top(e2, cs[0]->Identifier_0, v), Ok(v)),
                    }
                },
                Ok(Val::Bool(false)) => {
                    let (e2, r) = eval(e1, cs[3], d);
                    match r {
                        Err(e) => (e2, Err(e)),
                        Ok(v) => (bind_top(e2, cs[0]->Identifier_0, v), Ok(v)),
                    }
                },
                Ok(_) => (e1, Err(Fault::TypeError)),
            }
        },
        Ast::MultiLineIf(cs) => if cs.len() < 3 {
            (env, Err(malformed()))
        } else {
            let (e1, c) = eval(env, cs[0], d);
            match c {
                Err(e) => (e1, Err(e)),
                Ok(Val::Bool(true)) => match cs[1] {
                    Ast::FunctionStatements(ss) => if ss.len() == 0 {
                        (e1, Ok(Val::Bool(true)))
                    } else {
                        let (e2, r) = eval_seq(e1, ss, d, false);
                        (e2, if r is Err { r } else { Ok(Val::Bool(true)) })
                    },
                    _ => (e1, Ok(Val::Bool(true))),
                },
                Ok(Val::Bool(false)) => match cs[2] {
                    Ast::FunctionStatements(ss) => if ss.len() == 0 {
                        (e1, Ok(Val::Bool(false)))
                    } else {
                        let (e2, r) = eval_seq(e1, ss, d, false);
                        (e2, if r is Err { r } else { Ok(Val::Bool(false)) })
                    },
                    _ => (e1, Ok(Val::Bool(false))),
                },
                Ok(_) => (e1, Err(Fault::TypeError)),
            }
        },
        _ => (env, Err(malformed())),
    }
}

/// Evaluation of a sequence of nodes in order, stopping at the first error:
/// the value of the last one, or `NoRun` for an empty sequence. At the top
/// level of a program (`top`) only some kinds of node may stand.
pub open spec fn eval_seq(env: Env, s: Seq<Ast>, d: nat, top: bool) -> (Env, Result<Val, Fault>)
    decreases d, s,
{
    if s.len() == 0 {
        (env, Err(Fault::NoRun))
    } else if top && !is_top_level(s[0]) {
        (env, Err(malformed()))
    } else {
        let (e1, r) = eval(env, s[0], d);
        match r {
            Err(e) => (e1, Err(e)),
            Ok(v) => if s.len() == 1 {
                (e1, Ok(v))
            } else {
                eval_seq(e1, s.subrange(1, s.len() as int), d, top)
            },
        }
    }
}

/// Evaluation of the arguments of a call, paired in order with the declared
/// parameters up to the shorter of the two, each value bound in `frame` to its
/// parameter's name.
pub open spec fn eval_args(
    env: Env,
    args: Seq<Ast>,
    params: Seq<Ast>,
    frame: Map<Seq<u8>, Val>,
    d: nat,
) -> (Env, Result<Map<Seq<u8>, Val>, Fault>)
    decreases d, args,
{
    if args.len() == 0 || params.len() == 0 {
        (env, Ok(frame))
    } else {
        let (e1, r) = eval(env, args[0], d);
        match r {
            Err(e) => (e1, Err(e)),
            Ok(v) => match param_name(params[0]) {
                None => (e1, Err(malformed())),
                Some(nm) => eval_args(
                    e1,
                    args.subrange(1, args.len() as int),
                    params.subrange(1, params.len() as int),
                    frame.insert(nm, v),
                    d,
                ),
            },
        }
    }
}

/// The interpreter: a function table and a stack of variable frames, both
/// kept across evaluations.
#[derive(Debug)]
pub struct Interpreter {
    functions: Vec<(Vec<u8>, (Vec<Node>, Vec<Node>))>,
    stack: Vec<Vec<(Vec<u8>, Value)>>,
}

pub open spec fn frame_entries(f: Seq<(Vec<u8>, Value)>) -> Seq<(Seq<u8>, Val)> {
    f.map_values(|e: (Vec<u8>, Value)| (e.0@, e.1.model()))
}

pub open spec fn frame_model(f: Seq<(Vec<u8>, Value)>) -> Map<Seq<u8>, Val> {
    assoc(frame_entries(f))
}

pub open spec fn stack_model(s: Seq<Vec<(Vec<u8>, Value)>>) -> Seq<Map<Seq<u8>, Val>> {
    s.map_values(|f: Vec<(Vec<u8>, Value)>| frame_model(f@))
}

pub open spec fn function_entries(s: Seq<(Vec<u8>, (Vec<Node>, Vec<Node>))>) -> Seq<
    (Seq<u8>, (Seq<Ast>, Seq<Ast>)),
> {
    s.map_values(
        |e: (Vec<u8>, (Vec<Node>, Vec<Node>))|
            (e.0@, (Node::models(e.1.0@), Node::models(e.1.1@))),
    )
}

impl View for Interpreter {
    type V = Env;

    closed spec fn view(&self) -> Env {
        Env { functions: assoc(function_entries(self.functions@)), stack: stack_model(self.stack@) }
    }
}

fn malformed_error() -> (e: AsaErrorKind)
    ensures
        e.model() == malformed(),
{
    AsaErrorKind::Generic(String::from_str(MALFORMED))
}

/// Binds `name` to `v` in a frame, replacing an earlier binding of the name.
fn frame_set(f: &mut Vec<(Vec<u8>, Value)>, name: Vec<u8>, v: Value)
    ensures
        frame_model(final(f)@) == frame_model(old(f)@).insert(name@, v.model()),
{
    let ghost pre = f@;
    let ghost nm = name@;
    let ghost vm = v.model();
    match find_last(f, &name) {
        Some(j) => {
            f[j] = (name, v);
            proof {
                assert(frame_entries(f@) =~= frame_entries(pre).update(j as int, (nm, vm)));
                lemma_assoc_update(frame_entries(pre), j as int, nm, vm);
            }
        },
        None => {
            f.push((name, v));
            proof {
                assert(frame_entries(f@) =~= frame_entries(pre).push((nm, vm)));
                lemma_assoc_push(frame_entries(pre), nm, vm);
            }
        },
    }
}

/// A copy of the value of the parameter name that `p` declares, if it declares one.
fn param_name_of(p: &Node) -> (r: Option<Vec<u8>>)
    ensures
        match r {
            Some(n) => param_name(p.model()) == Some(n@),
            None => param_name(p.model()) is None,
        },
{
    match p {
        Node::Expression { children } => {
            proof {
                Node::lemma_models(children@);
            }
            if children.len() > 0 {
                match &children[0] {
                    Node::Identifier { value } => Some(value.clone()),
                    _ => None,
                }
            } else {
                None
            }
        },
        _ => None,
    }
}

fn is_top_level_node(n: &Node) -> (r: bool)
    ensures
        r == is_top_level(n.model()),
{
    match n {
        Node::FunctionDefine { .. } => true,
        Node::Expression { .. } => true,
        Node::VariableDefine { .. } => true,
        Node::String { .. } => true,
        Node::Number { .. } => true,
        Node::Bool { .. } => true,
        _ => false,
    }
}

fn apply_arith(name: &Vec<u8>, l: Value, r: Value) -> (res: Result<Value, AsaErrorKind>)
    ensures
        outcome(res) == arith(name@, l.model(), r.model()),
{
    let is_add = name.len() == 3 && name[0] == 97u8 && name[1] == 100u8 && name[2] == 100u8;
    let is_sub = name.len() == 3 && name[0] == 115u8 && name[1] == 117u8 && name[2] == 98u8;
    proof {
        if is_add {
            assert(name@ =~= seq![97u8, 100u8, 100u8]);
        }
        if name@ == seq![97u8, 100u8, 100u8] {
            assert(name@.len() == seq![97u8, 100u8, 100u8].len());
        }
        if is_sub {
            assert(name@ =~= seq![115u8, 117u8, 98u8]);
        }
        if name@ == seq![115u8, 117u8, 98u8] {
            assert(name@.len() == seq![115u8, 117u8, 98u8].len());
        }
    }
    match (l, r) {
        (Value::Number(a), Value::Number(b)) => if is_add {
            Ok(Value::Number(a.wrapping_add(b)))
        } else if is_sub {
            Ok(Value::Number(a.wrapping_sub(b)))
        } else {
            Err(AsaErrorKind::UndefinedFunction)
        },
        _ => Err(AsaErrorKind::UndefinedFunction),
    }
}

fn apply_compare(op: &Vec<u8>, l: Value, r: Value) -> (res: Result<Value, AsaErrorKind>)
    ensures
        outcome(res) == compare(op@, l.model(), r.model()),
{
    let is_gt = op.len() == 1 && op[0] == 62u8;
    let is_lt = op.len() == 1 && op[0] == 60u8;
    let is_eq = op.len() == 2 && op[0] == 61u8 && op[1] == 61u8;
    proof {
        if is_gt {
            assert(op@ =~= seq![62u8]);
        }
        if op@ == seq![62u8] {
            assert(op@.len() == seq![62u8].len());
        }
        if is_lt {
            assert(op@ =~= seq![60u8]);
        }
        if op@ == seq![60u8] {
            assert(op@.len() == seq![60u8].len());
        }
        if is_eq {
            assert(op@ =~= seq![61u8, 61u8]);
        }
        if op@ == seq![61u8, 61u8] {
            assert(op@.len() == seq![61u8, 61u8].len());
        }
    }
    if is_gt {
        match (l, r) {
            (Value::Number(a), Value::Number(b)) => Ok(Value::Bool(a > b)),
            _ => Err(AsaErrorKind::TypeError),
        }
    } else if is_lt {
        match (l, r) {
            (Value::Number(a), Value::Number(b)) => Ok(Value::Bool(a < b)),
            _ => Err(AsaErrorKind::TypeError),
        }
    } else if is_eq {
        match (l, r) {
            (Value::Number(a), Value::Number(b)) => Ok(Value::Bool(a == b)),
            (Value::Bool(a), Value::Bool(b)) => Ok(Value::Bool(a == b)),
            _ => Err(AsaErrorKind::TypeError),
        }
    } else {
        Err(AsaErrorKind::UndefinedFunction)
    }
}

impl Interpreter {
    /// An interpreter with no functions and an empty stack.
    pub fn new() -> (r: Interpreter)
        ensures
            r@.functions == Map::<Seq<u8>, (Seq<Ast>, Seq<Ast>)>::empty(),
            r@.stack == Seq::<Map<Seq<u8>, Val>>::empty(),
    {
        let r = Interpreter { functions: Vec::new(), stack: Vec::new() };
        proof {
            assert(function_entries(r.functions@) =~= Seq::empty());
            assert(r@.stack =~= Seq::empty());
        }
        r
    }

    /// Evaluates `node` against this interpreter's function table and stack.
    pub fn exec(&mut self, node: &Node) -> (r: Result<Value, AsaErrorKind>)
        ensures
            (final(self)@, outcome(r)) == eval(old(self)@, node.model(), MAX_CALL_DEPTH as nat),
    {
        self.run(node, MAX_CALL_DEPTH)
    }

    /// Calls the function `main` with the given argument nodes.
    pub fn start_main(&mut self, arguments: Vec<Node>) -> (r: Result<Value, AsaErrorKind>)
        ensures
            (final(self)@, outcome(r)) == eval(
                old(self)@,
                Ast::FunctionCall(main_name(), Node::models(arguments@)),
                MAX_CALL_DEPTH as nat,
            ),
    {
        let name: Vec<u8> = vec![109u8, 97u8, 105u8, 110u8];
        proof {
            assert(name@ =~= main_name());
        }
        let call = Node::FunctionCall { name, children: arguments };
        self.run(&call, MAX_CALL_DEPTH)
    }

    fn push_frame(&mut self, f: Vec<(Vec<u8>, Value)>)
        ensures
            final(self)@ == (Env {
                functions: old(self)@.functions,
                stack: old(self)@.stack.push(frame_model(f@)),
            }),
    {
        let ghost f_model = frame_model(f@);
        self.stack.push(f);
        proof {
            assert(self@.stack =~= old(self)@.stack.push(f_model));
        }
    }

    fn pop_frame(&mut self)
        ensures
            final(self)@ == (Env {
                functions: old(self)@.functions,
                stack: if old(self)@.stack.len() > 0 {
                    old(self)@.stack.drop_last()
                } else {
                    old(self)@.stack
                },
            }),
    {
        if self.stack.len() > 0 {
            let _ = self.stack.pop();
            proof {
                assert(self@.stack =~= old(self)@.stack.drop_last());
            }
        }
    }

    fn bind_top(&mut self, name: Vec<u8>, v: Value)
        ensures
            final(self)@ == bind_top(old(self)@, name@, v.model()),
    {
        let ghost nm = name@;
        let ghost vm = v.model();
        if self.stack.len() == 0 {
            let mut f: Vec<(Vec<u8>, Value)> = Vec::new();
            proof {
                assert(frame_entries(f@) =~= Seq::empty());
            }
            frame_set(&mut f, name, v);
            self.push_frame(f);
            proof {
                assert(frame_model(f@) =~= Map::empty().insert(nm, vm));
                assert(self@.stack =~= seq![Map::empty().insert(nm, vm)]);
            }
        } else {
            let ghost pre = self@;
            let mut f = self.stack.pop().unwrap();
            let ghost g = f@;
            frame_set(&mut f, name, v);
            self.stack.push(f);
            proof {
                assert(self@.stack =~= pre.stack.update(
                    pre.stack.len() - 1,
                    pre.stack.last().insert(nm, vm),
                ));
            }
        }
    }

    fn define(&mut self, name: Vec<u8>, params: Vec<Node>, body: Vec<Node>)
        ensures
            final(self)@ == (Env {
                functions: old(self)@.functions.insert(
                    name@,
                    (Node::models(params@), Node::models(body@)),
                ),
                stack: old(self)@.stack,
            }),
    {
        let ghost pre = self.functions@;
        let ghost e = (name@, (Node::models(params@), Node::models(body@)));
        match find_last(&self.functions, &name) {
            Some(j) => {
                self.functions[j] = (name, (params, body));
                proof {
                    assert(function_entries(self.functions@) =~= function_entries(pre).update(
                        j as int,
                        e,
                    ));
                    lemma_assoc_update(function_entries(pre), j as int, e.0, e.1);
                }
            },
            None => {
                self.functions.push((name, (params, body)));
                proof {
                    assert(function_entries(self.functions@) =~= function_entries(pre).push(e));
                    lemma_assoc_push(function_entries(pre), e.0, e.1);
                }
            },
        }
    }

    fn run(&mut self, node: &Node, d: u64) -> (r: Result<Value, AsaErrorKind>)
        ensures
            (final(self)@, outcome(r)) == eval(old(self)@, node.model(), d as nat),
        decreases d, node,
    {
        match node {
            Node::Program { children } => self.run_seq(children, d, true),
            Node::Statement { children } => self.run_statement(children, d),
            Node::Expression { children } => self.run_first(children, d),
            Node::FunctionReturn { children } => self.run_first(children, d),
            Node::ReturnIf { children } => self.run_first(children, d),
            Node::ReturnIfNum { children } => self.run_first(children, d),
            Node::ReturnElse { children } => self.run_first(children, d),
            Node::MathExpression { name, children } => self.run_math(name, children, d),
            Node::Condition { children } => self.run_condition(children, d),
            Node::FunctionDefine { name, children } => self.run_define(name, children, d),
            Node::FunctionCall { name, children } => self.run_call(name, children, d),
            Node::Identifier { value } => self.run_identifier(value, d),
            Node::VariableDefine { children } => self.run_variable_define(children, d),
            Node::Number { value } => Ok(Value::Number(*value)),
            Node::String { value } => Ok(Value::String(value.clone())),
            Node::Bool { value } => Ok(Value::Bool(*value)),
            Node::IfExpression { children } => self.run_if_expression(children, d),
            Node::IfElse { children } => self.run_if_else(children, d),
            Node::IfAssign { children } => self.run_if_assign(children, d),
            Node::MultiLineIf { children } => self.run_multi_line_if(children, d),
            _ => Err(malformed_error()),
        }
    }

    fn run_statement(&mut self, children: &Vec<Node>, d: u64) -> (r: Result<Value, AsaErrorKind>)
        ensures
            (final(self)@, outcome(r)) == eval(
                old(self)@,
                Ast::Statement(Node::models(children@)),
                d as nat,
            ),
        decreases d, children,
    {
        proof {
            Node::lemma_models(children@);
        }
        if children.len() > 0 && (matches!(children[0], Node::VariableDefine { .. })
            || matches!(children[0], Node::FunctionReturn { .. })) {
            self.run(&children[0], d)
        } else {
            Err(malformed_error())
        }
    }

    fn run_define(&mut self, name: &Vec<u8>, children: &Vec<Node>, d: u64) -> (r: Result<
        Value,
        AsaErrorKind,
    >)
        ensures
            (final(self)@, outcome(r)) == eval(
                old(self)@,
                Ast::FunctionDefine(name@, Node::models(children@)),
                d as nat,
            ),
    {
        proof {
            Node::lemma_models(children@);
        }
        if children.len() < 2 {
            return Err(malformed_error());
        }
        match (&children[0], &children[1]) {
            (
                Node::FunctionArguments { children: params },
                Node::FunctionStatements { children: body },
            ) => {
                let p = Node::duplicate_all(params);
                let b = Node::duplicate_all(body);
                self.define(name.clone(), p, b);
                Ok(Value::Bool(true))
            },
            _ => Err(malformed_error()),
        }
    }

    fn run_identifier(&mut self, value: &Vec<u8>, d: u64) -> (r: Result<Value, AsaErrorKind>)
        ensures
            (final(self)@, outcome(r)) == eval(old(self)@, Ast::Identifier(value@), d as nat),
    {
        let n = self.stack.len();
        if n == 0 {
            return Err(AsaErrorKind::UndefinedVariable);
        }
        let top = &self.stack[n - 1];
        proof {
            assert(self@.stack.last() == frame_model(top@));
        }
        match find_last(top, value) {
            None => {
                proof {
                    lemma_assoc_absent(frame_entries(top@), value@);
                }
                Err(AsaErrorKind::UndefinedVariable)
            },
            Some(j) => {
                proof {
                    lemma_assoc_found(frame_entries(top@), j as int, value@);
                }
                Ok(top[j].1.copy())
            },
        }
    }

    fn run_variable_define(&mut self, children: &Vec<Node>, d: u64) -> (r: Result<Value, AsaErrorKind>)
        ensures
            (final(self)@, outcome(r)) == eval(
                old(self)@,
                Ast::VariableDefine(Node::models(children@)),
                d as nat,
            ),
        decreases d, children,
    {
        proof {
            Node::lemma_models(children@);
        }
        if children.len() < 2 {
            return Err(malformed_error());
        }
        let nm = match &children[0] {
            Node::Identifier { value } => value.clone(),
            _ => {
                return Err(malformed_error());
            },
        };
        match self.run(&children[1], d) {
            Err(e) => Err(e),
            Ok(v) => {
                let out = v.copy();
                self.bind_top(nm, v);
                Ok(out)
            },
        }
    }

    /// Evaluates the first of `children`, for the nodes that pass its value on.
    fn run_first(&mut self, children: &Vec<Node>, d: u64) -> (r: Result<Value, AsaErrorKind>)
        ensures
            (final(self)@, outcome(r)) == (if children@.len() > 0 {
                eval(old(self)@, Node::models(children@)[0], d as nat)
            } else {
                (old(self)@, Err(malformed()))
            }),
        decreases d, children,
    {
        proof {
            Node::lemma_models(children@);
        }
        if children.len() > 0 {
            self.run(&children[0], d)
        } else {
            Err(malformed_error())
        }
    }

    fn run_seq(&mut self, nodes: &Vec<Node>, d: u64, top: bool) -> (r: Result<Value, AsaErrorKind>)
        ensures
            (final(self)@, outcome(r)) == eval_seq(old(self)@, Node::models(nodes@), d as nat, top),
        decreases d, nodes,
    {
        let ghost s = Node::models(nodes@);
        proof {
            Node::lemma_models(nodes@);
        }
        let n = nodes.len();
        if n == 0 {
            return Err(AsaErrorKind::NoRun);
        }
        let mut i: usize = 0;
        proof {
            assert(s.subrange(0, n as int) =~= s);
        }
        loop
            invariant
                i < n,
                n == nodes@.len(),
                s == Node::models(nodes@),
                s.len() == n,
                forall|k: int| 0 <= k < n ==> #[trigger] s[k] == nodes@[k].model(),
                eval_seq(old(self)@, s, d as nat, top) == eval_seq(
                    self@,
                    s.subrange(i as int, n as int),
                    d as nat,
                    top,
                ),
            decreases n - i,
        {
            let ghost rest = s.subrange(i as int, n as int);
            proof {
                assert(rest[0] == nodes@[i as int].model());
                assert(rest.subrange(1, rest.len() as int) =~= s.subrange(i + 1, n as int));
            }
            if top && !is_top_level_node(&nodes[i]) {
                return Err(malformed_error());
            }
            match self.run(&nodes[i], d) {
                Err(e) => {
                    return Err(e);
                },
                Ok(v) => {
                    if i + 1 == n {
                        return Ok(v);
                    }
                },
            }
            i = i + 1;
        }
    }

    fn bind_args(&mut self, args: &Vec<Node>, params: &Vec<Node>, d: u64) -> (r: Result<
        Vec<(Vec<u8>, Value)>,
        AsaErrorKind,
    >)
        ensures
            final(self)@ == eval_args(
                old(self)@,
                Node::models(args@),
                Node::models(params@),
                Map::empty(),
                d as nat,
            ).0,
            match (r, eval_args(
                old(self)@,
                Node::models(args@),
                Node::models(params@),
                Map::empty(),
                d as nat,
            ).1) {
                (Ok(f), Ok(m)) => frame_model(f@) == m,
                (Err(e), Err(m)) => e.model() == m,
                _ => false,
            },
        decreases d, args,
    {
        let ghost a = Node::models(args@);
        let ghost p = Node::models(params@);
        proof {
            Node::lemma_models(args@);
            Node::lemma_models(params@);
            assert(a.subrange(0, a.len() as int) =~= a);
            assert(p.subrange(0, p.len() as int) =~= p);
        }
        let mut frame: Vec<(Vec<u8>, Value)> = Vec::new();
        proof {
            assert(frame_entries(frame@) =~= Seq::empty());
        }
        let mut i: usize = 0;
        while i < args.len() && i < params.len()
            invariant
                i <= args@.len(),
                i <= params@.len(),
                a == Node::models(args@),
                p == Node::models(params@),
                a.len() == args@.len(),
                p.len() == params@.len(),
                forall|k: int| 0 <= k < a.len() ==> #[trigger] a[k] == args@[k].model(),
                forall|k: int| 0 <= k < p.len() ==> #[trigger] p[k] == params@[k].model(),
                eval_args(old(self)@, a, p, Map::empty(), d as nat) == eval_args(
                    self@,
                    a.subrange(i as int, a.len() as int),
                    p.subrange(i as int, p.len() as int),
                    frame_model(frame@),
                    d as nat,
                ),
            decreases args@.len() - i,
        {
            let ghost ra = a.subrange(i as int, a.len() as int);
            let ghost rp = p.subrange(i as int, p.len() as int);
            proof {
                assert(ra[0] == args@[i as int].model());
                assert(rp[0] == params@[i as int].model());
                assert(ra.subrange(1, ra.len() as int) =~= a.subrange(i + 1, a.len() as int));
                assert(rp.subrange(1, rp.len() as int) =~= p.subrange(i + 1, p.len() as int));
            }
            let v = match self.run(&args[i], d) {
                Err(e) => {
                    return Err(e);
                },
                Ok(v) => v,
            };
            let nm = match param_name_of(&params[i]) {
                None => {
                    return Err(malformed_error());
                },
                Some(nm) => nm,
            };
            frame_set(&mut frame, nm, v);
            i = i + 1;
        }
        Ok(frame)
    }

    fn run_call(&mut self, name: &Vec<u8>, children: &Vec<Node>, d: u64) -> (r: Result<
        Value,
        AsaErrorKind,
    >)
        ensures
            (final(self)@, outcome(r)) == eval(
                old(self)@,
                Ast::FunctionCall(name@, Node::models(children@)),
                d as nat,
            ),
        decreases d, children,
    {
        proof {
            Node::lemma_models(children@);
        }
        let j = match find_last(&self.functions, name) {
            None => {
                proof {
                    lemma_assoc_absent(function_entries(self.functions@), name@);
                }
                return Err(AsaErrorKind::UndefinedFunction);
            },
            Some(j) => j,
        };
        proof {
            lemma_assoc_found(function_entries(self.functions@), j as int, name@);
        }
        if d == 0 {
            return Err(AsaErrorKind::StackError);
        }
        let params = Node::duplicate_all(&self.functions[j].1.0);
        let body = Node::duplicate_all(&self.functions[j].1.1);
        let mut frame: Vec<(Vec<u8>, Value)> = Vec::new();
        proof {
            assert(frame_entries(frame@) =~= Seq::empty());
        }
        if children.len() > 0 {
            match &children[children.len() - 1] {
                Node::FunctionArguments { children: args } => {
                    match self.bind_args(args, &params, d) {
                        Err(e) => {
                            return Err(e);
                        },
                        Ok(f) => {
                            frame = f;
                        },
                    }
                },
                _ => {},
            }
        }
        self.push_frame(frame);
        let r = self.run_seq(&body, d - 1, false);
        self.pop_frame();
        r
    }

    fn run_math(&mut self, name: &Vec<u8>, children: &Vec<Node>, d: u64) -> (r: Result<
        Value,
        AsaErrorKind,
    >)
        ensures
            (final(self)@, outcome(r)) == eval(
                old(self)@,
                Ast::MathExpression(name@, Node::models(children@)),
                d as nat,
            ),
        decreases d, children,
    {
        proof {
            Node::lemma_models(children@);
        }
        if children.len() < 2 {
            return Err(malformed_error());
        }
        let l = match self.run(&children[0], d) {
            Err(e) => {
                return Err(e);
            },
            Ok(v) => v,
        };
        let r = match self.run(&children[1], d) {
            Err(e) => {
                return Err(e);
            },
            Ok(v) => v,
        };
        apply_arith(name, l, r)
    }

    fn run_condition(&mut self, children: &Vec<Node>, d: u64) -> (r: Result<Value, AsaErrorKind>)
        ensures
            (final(self)@, outcome(r)) == eval(
                old(self)@,
                Ast::Condition(Node::models(children@)),
                d as nat,
            ),
        decreases d, children,
    {
        proof {
            Node::lemma_models(children@);
        }
        if children.len() < 3 {
            return Err(malformed_error());
        }
        let op = match &children[1] {
            Node::Operator { value } => value,
            _ => {
                return Err(malformed_error());
            },
        };
        let l = match self.run(&children[0], d) {
            Err(e) => {
                return Err(e);
            },
            Ok(v) => v,
        };
        let r = match self.run(&children[2], d) {
            Err(e) => {
                return Err(e);
            },
            Ok(v) => v,
        };
        apply_compare(op, l, r)
    }

    fn run_if_expression(&mut self, children: &Vec<Node>, d: u64) -> (r: Result<Value, AsaErrorKind>)
        ensures
            (final(self)@, outcome(r)) == eval(
                old(self)@,
                Ast::IfExpression(Node::models(children@)),
                d as nat,
            ),
        decreases d, children,
    {
        proof {
            Node::lemma_models(children@);
        }
        if children.len() < 3 {
            return Err(malformed_error());
        }
        let c = match self.run(&children[0], d) {
            Err(e) => {
                return Err(e);
            },
            Ok(Value::Bool(b)) => b,
            Ok(_) => {
                return Err(AsaErrorKind::TypeError);
            },
        };
        if c {
            match self.run(&children[1], d) {
                Err(e) => Err(e),
                Ok(_) => Ok(Value::Bool(true)),
            }
        } else {
            match self.run(&children[2], d) {
                Err(e) => Err(e),
                Ok(_) => Ok(Value::Bool(false)),
            }
        }
    }

    fn run_if_else(&mut self, children: &Vec<Node>, d: u64) -> (r: Result<Value, AsaErrorKind>)
        ensures
            (final(self)@, outcome(r)) == eval(
                old(self)@,
                Ast::IfElse(Node::models(children@)),
                d as nat,
            ),
        decreases d, children,
    {
        proof {
            Node::lemma_models(children@);
        }
        if children.len() < 5 {
            return Err(malformed_error());
        }
        let c = match self.run(&children[0], d) {
            Err(e) => {
                return Err(e);
            },
            Ok(Value::Bool(b)) => b,
            Ok(_) => {
                return Err(AsaErrorKind::TypeError);
            },
        };
        if c {
            return match self.run(&children[1], d) {
                Err(e) => Err(e),
                Ok(_) => Ok(Value::Bool(true)),
            };
        }
        let c2 = match self.run(&children[2], d) {
            Err(e) => {
                return Err(e);
            },
            Ok(Value::Bool(b)) => b,
            Ok(_) => {
                return Err(AsaErrorKind::TypeError);
            },
        };
        if c2 {
            match self.run(&children[3], d) {
                Err(e) => Err(e),
                Ok(_) => Ok(Value::Bool(true)),
            }
        } else {
            match self.run(&children[4], d) {
                Err(e) => Err(e),
                Ok(_) => Ok(Value::Bool(false)),
            }
        }
    }

    fn run_if_assign(&mut self, children: &Vec<Node>, d: u64) -> (r: Result<Value, AsaErrorKind>)
        ensures
            (final(self)@, outcome(r)) == eval(
                old(self)@,
                Ast::IfAssign(Node::models(children@)),
                d as nat,
            ),
        decreases d, children,
    {
        proof {
            Node::lemma_models(children@);
        }
        if children.len() < 4 {
            return Err(malformed_error());
        }
        let nm = match &children[0] {
            Node::Identifier { value } => value.clone(),
            _ => {
                return Err(AsaErrorKind::TypeError);
            },
        };
        let c = match self.run(&children[1], d) {
            Err(e) => {
                return Err(e);
            },
            Ok(Value::Bool(b)) => b,
            Ok(_) => {
                return Err(AsaErrorKind::TypeError);
            },
        };
        let v = match self.run(if c {
            &children[2]
        } else {
            &children[3]
        }, d) {
            Err(e) => {
                return Err(e);
            },
            Ok(v) => v,
        };
        let out = v.copy();
        self.bind_top(nm, v);
        Ok(out)
    }

    fn run_multi_line_if(&mut self, children: &Vec<Node>, d: u64) -> (r: Result<Value, AsaErrorKind>)
        ensures
            (final(self)@, outcome(r)) == eval(
                old(self)@,
                Ast::MultiLineIf(Node::models(children@)),
                d as nat,
            ),
        decreases d, children,
    {
        proof {
            Node::lemma_models(children@);
        }
        if children.len() < 3 {
            return Err(malformed_error());
        }
        let c = match self.run(&children[0], d) {
            Err(e) => {
                return Err(e);
            },
            Ok(Value::Bool(b)) => b,
            Ok(_) => {
                return Err(AsaErrorKind::TypeError);
            },
        };
        let branch = if c {
            &children[1]
        } else {
            &children[2]
        };
        match branch {
            Node::FunctionStatements { children: ss } => {
                if ss.len() == 0 {
                    Ok(Value::Bool(c))
                } else {
                    match self.run_seq(ss, d, false) {
                        Err(e) => Err(e),
                        Ok(_) => Ok(Value::Bool(c)),
                    }
                }
            },
            _ => Ok(Value::Bool(c)),
        }
    }
}

} // verus!
