use vstd::prelude::*;

verus! {

/// A node of the syntax tree built by the parser and read by the interpreter.
/// Each node owns its children, in source order.
#[allow(inconsistent_fields)]
#[derive(Debug, PartialEq)]
pub enum Node {
    Program { children: Vec<Node> },
    Statement { children: Vec<Node> },
    FunctionDefine { name: Vec<u8>, children: Vec<Node> },
    FunctionArguments { children: Vec<Node> },
    FunctionStatements { children: Vec<Node> },
    Condition { children: Vec<Node> },
    IfExpression { children: Vec<Node> },
    MultiLineIf { children: Vec<Node> },
    IfElse { children: Vec<Node> },
    IfAssign { children: Vec<Node> },
    IfIndent { children: Vec<Node> },
    ReturnIf { children: Vec<Node> },
    ReturnIfNum { children: Vec<Node> },
    ReturnElse { children: Vec<Node> },
    Expression { children: Vec<Node> },
    MathExpression { name: Vec<u8>, children: Vec<Node> },
    FunctionCall { name: Vec<u8>, children: Vec<Node> },
    VariableDefine { children: Vec<Node> },
    FunctionReturn { children: Vec<Node> },
    Number { value: i32 },
    Bool { value: bool },
    Identifier { value: Vec<u8> },
    Operator { value: Vec<u8> },
    String { value: String },
    Comment { value: Vec<u8> },
    NewLine,
    Tab,
    Null,
}

/// The mathematical model of a syntax tree: the same shape as `Node`, with
/// sequences in place of vectors and strings.
#[allow(inconsistent_fields)]
pub enum Ast {
    Program(Seq<Ast>),
    Statement(Seq<Ast>),
    FunctionDefine(Seq<u8>, Seq<Ast>),
    FunctionArguments(Seq<Ast>),
    FunctionStatements(Seq<Ast>),
    Condition(Seq<Ast>),
    IfExpression(Seq<Ast>),
    MultiLineIf(Seq<Ast>),
    IfElse(Seq<Ast>),
    IfAssign(Seq<Ast>),
    IfIndent(Seq<Ast>),
    ReturnIf(Seq<Ast>),
    ReturnIfNum(Seq<Ast>),
    ReturnElse(Seq<Ast>),
    Expression(Seq<Ast>),
    MathExpression(Seq<u8>, Seq<Ast>),
    FunctionCall(Seq<u8>, Seq<Ast>),
    VariableDefine(Seq<Ast>),
    FunctionReturn(Seq<Ast>),
    Number(i32),
    Bool(bool),
    Identifier(Seq<u8>),
    Operator(Seq<u8>),
    String(Seq<char>),
    Comment(Seq<u8>),
    NewLine,
    Tab,
    Null,
}

impl Node {
    /// The model of this tree.
    pub open spec fn model(&self) -> Ast
        decreases self,
    {
        match self {
            Node::Program { children } => Ast::Program(Node::models(children@)),
            Node::Statement { children } => Ast::Statement(Node::models(children@)),
            Node::FunctionDefine { name, children } => Ast::FunctionDefine(name@, Node::models(children@)),
            Node::FunctionArguments { children } => Ast::FunctionArguments(Node::models(children@)),
            Node::FunctionStatements { children } => Ast::FunctionStatements(Node::models(children@)),
            Node::Condition { children } => Ast::Condition(Node::models(children@)),
            Node::IfExpression { children } => Ast::IfExpression(Node::models(children@)),
            Node::MultiLineIf { children } => Ast::MultiLineIf(Node::models(children@)),
            Node::IfElse { children } => Ast::IfElse(Node::models(children@)),
            Node::IfAssign { children } => Ast::IfAssign(Node::models(children@)),
            Node::IfIndent { children } => Ast::IfIndent(Node::models(children@)),
            Node::ReturnIf { children } => Ast::ReturnIf(Node::models(children@)),
            Node::ReturnIfNum { children } => Ast::ReturnIfNum(Node::models(children@)),
            Node::ReturnElse { children } => Ast::ReturnElse(Node::models(children@)),
            Node::Expression { children } => Ast::Expression(Node::models(children@)),
            Node::MathExpression { name, children } => Ast::MathExpression(name@, Node::models(children@)),
            Node::FunctionCall { name, children } => Ast::FunctionCall(name@, Node::models(children@)),
            Node::VariableDefine { children } => Ast::VariableDefine(Node::models(children@)),
            Node::FunctionReturn { children } => Ast::FunctionReturn(Node::models(children@)),
            Node::Number { value } => Ast::Number(*value),
            Node::Bool { value } => Ast::Bool(*value),
            Node::Identifier { value } => Ast::Identifier(value@),
            Node::Operator { value } => Ast::Operator(value@),
            Node::String { value } => Ast::String(value@),
            Node::Comment { value } => Ast::Comment(value@),
            Node::NewLine => Ast::NewLine,
            Node::Tab => Ast::Tab,
            Node::Null => Ast::Null,
        }
    }

    /// The models of a sequence of trees, one for one.
    pub open spec fn models(s: Seq<Node>) -> Seq<Ast>
        decreases s,
    {
        if s.len() == 0 {
            Seq::empty()
        } else {
            Node::models(s.drop_last()).push(s.last().model())
        }
    }

    pub proof fn lemma_models(s: Seq<Node>)
        ensures
            Node::models(s).len() == s.len(),
            forall|i: int| 0 <= i < s.len() ==> #[trigger] Node::models(s)[i] == s[i].model(),
        decreases s.len(),
    {
        if s.len() > 0 {
            Node::lemma_models(s.drop_last());
        }
    }

    pub proof fn lemma_models_push(s: Seq<Node>, n: Node)
        ensures
            Node::models(s.push(n)) == Node::models(s).push(n.model()),
    {
        assert(s.push(n).drop_last() =~= s);
    }

    /// A copy of this tree that owns all of its parts.
    pub fn duplicate(&self) -> (r: Node)
        ensures
            r.model() == self.model(),
        decreases self,
    {
        match self {
            Node::Program { children } => Node::Program { children: Node::duplicate_all(children) },
            Node::Statement { children } => Node::Statement { children: Node::duplicate_all(children) },
            Node::FunctionDefine { name, children } => Node::FunctionDefine { name: name.clone(), children: Node::duplicate_all(children) },
            Node::FunctionArguments { children } => Node::FunctionArguments { children: Node::duplicate_all(children) },
            Node::FunctionStatements { children } => Node::FunctionStatements { children: Node::duplicate_all(children) },
            Node::Condition { children } => Node::Condition { children: Node::duplicate_all(children) },
            Node::IfExpression { children } => Node::IfExpression { children: Node::duplicate_all(children) },
            Node::MultiLineIf { children } => Node::MultiLineIf { children: Node::duplicate_all(children) },
            Node::IfElse { children } => Node::IfElse { children: Node::duplicate_all(children) },
            Node::IfAssign { children } => Node::IfAssign { children: Node::duplicate_all(children) },
            Node::IfIndent { children } => Node::IfIndent { children: Node::duplicate_all(children) },
            Node::ReturnIf { children } => Node::ReturnIf { children: Node::duplicate_all(children) },
            Node::ReturnIfNum { children } => Node::ReturnIfNum { children: Node::duplicate_all(children) },
            Node::ReturnElse { children } => Node::ReturnElse { children: Node::duplicate_all(children) },
            Node::Expression { children } => Node::Expression { children: Node::duplicate_all(children) },
            Node::MathExpression { name, children } => Node::MathExpression { name: name.clone(), children: Node::duplicate_all(children) },
            Node::FunctionCall { name, children } => Node::FunctionCall { name: name.clone(), children: Node::duplicate_all(children) },
            Node::VariableDefine { children } => Node::VariableDefine { children: Node::duplicate_all(children) },
            Node::FunctionReturn { children } => Node::FunctionReturn { children: Node::duplicate_all(children) },
            Node::Number { value } => Node::Number { value: *value },
            Node::Bool { value } => Node::Bool { value: *value },
            Node::Identifier { value } => Node::Identifier { value: value.clone() },
            Node::Operator { value } => Node::Operator { value: value.clone() },
            Node::String { value } => Node::String { value: value.clone() },
            Node::Comment { value } => Node::Comment { value: value.clone() },
            Node::NewLine => Node::NewLine,
            Node::Tab => Node::Tab,
            Node::Null => Node::Null,
        }
    }

    /// Copies of a sequence of trees, one for one.
    pub fn duplicate_all(v: &Vec<Node>) -> (r: Vec<Node>)
        ensures
            Node::models(r@) == Node::models(v@),
        decreases v,
    {
        let mut r: Vec<Node> = Vec::new();
        let mut i: usize = 0;
        while i < v.len()
            invariant
                i <= v.len(),
                Node::models(r@) == Node::models(v@.subrange(0, i as int)),
            decreases v.len() - i,
        {
            proof {
                assert(decreases_to!(v => v@[i as int]));
            }
            let c = v[i].duplicate();
            let ghost prev = r@;
            r.push(c);
            proof {
                let s = v@.subrange(0, i as int + 1);
                assert(s.drop_last() =~= v@.subrange(0, i as int));
                assert(r@.drop_last() =~= prev);
            }
            i = i + 1;
        }
        proof {
            assert(v@.subrange(0, v@.len() as int) =~= v@);
        }
        r
    }
}

} // verus!
