use vstd::prelude::*;
use std::rc::Rc;
use crate::type_system::{type_view, Type, TypeV};

verus! {

/// The binary operators of the language.
#[derive(Clone, Copy, PartialEq, Eq, Structural)]
pub enum Op {
    Add,
    Sub,
    Mul,
    Div,
    Eq,
    NotEq,
    Lt,
    Gt,
    LtEq,
    GtEq,
}

/// One node of the syntax tree.  Numeric literals carry IEEE-754 binary64
/// bit patterns.  Bodies that runtime values capture are shared through
/// `Rc`, so that a defined function holds the same tree the parser built.
pub enum ASTNode {
    Module { body: Vec<ASTNode> },
    Import { names: Vec<String> },
    FunctionDef { name: String, args: Rc<Vec<(String, Type)>>, return_type: Type, body: Rc<Vec<ASTNode>> },
    ClassDef { name: String, methods: Vec<ASTNode> },
    Assign { target: String, value: Box<ASTNode> },
    Expr { value: Box<ASTNode> },
    Call { func: String, args: Vec<ASTNode> },
    Str { value: String },
    Num { value: u64 },
    Bool { value: bool },
    Name { id: String },
    BinOp { left: Box<ASTNode>, op: Op, right: Box<ASTNode> },
    If { condition: Box<ASTNode>, body: Vec<ASTNode>, orelse: Vec<ASTNode> },
    While { condition: Box<ASTNode>, body: Vec<ASTNode> },
    For { target: String, iter: Box<ASTNode>, body: Vec<ASTNode> },
    Return { value: Option<Box<ASTNode>> },
    Closure { params: Rc<Vec<(String, Type)>>, body: Rc<ASTNode> },
    Generator { body: Rc<Vec<ASTNode>> },
    Yield { value: Box<ASTNode> },
    Async { body: Vec<ASTNode> },
    Await { value: Box<ASTNode> },
    List { elements: Vec<ASTNode> },
    Dict { pairs: Vec<(ASTNode, ASTNode)> },
    Attribute { value: Box<ASTNode>, attr: String },
    InteropCall { language: String, code: String },
}

/// Mathematical image of `ASTNode`.
pub enum AstV {
    Module { body: Seq<AstV> },
    Import { names: Seq<Seq<char>> },
    FunctionDef { name: Seq<char>, args: Seq<(Seq<char>, TypeV)>, return_type: TypeV, body: Seq<AstV> },
    ClassDef { name: Seq<char>, methods: Seq<AstV> },
    Assign { target: Seq<char>, value: Box<AstV> },
    Expr { value: Box<AstV> },
    Call { func: Seq<char>, args: Seq<AstV> },
    Str { value: Seq<char> },
    Num { value: u64 },
    Bool { value: bool },
    Name { id: Seq<char> },
    BinOp { left: Box<AstV>, op: Op, right: Box<AstV> },
    If { condition: Box<AstV>, body: Seq<AstV>, orelse: Seq<AstV> },
    While { condition: Box<AstV>, body: Seq<AstV> },
    For { target: Seq<char>, iter: Box<AstV>, body: Seq<AstV> },
    Return { value: Option<Box<AstV>> },
    Closure { params: Seq<(Seq<char>, TypeV)>, body: Box<AstV> },
    Generator { body: Seq<AstV> },
    Yield { value: Box<AstV> },
    Async { body: Seq<AstV> },
    Await { value: Box<AstV> },
    List { elements: Seq<AstV> },
    Dict { pairs: Seq<(AstV, AstV)> },
    Attribute { value: Box<AstV>, attr: Seq<char> },
    InteropCall { language: Seq<char>, code: Seq<char> },
}

/// Mathematical image of a parameter list: names with declared types.
pub open spec fn params_view(s: Seq<(String, Type)>) -> Seq<(Seq<char>, TypeV)> {
    Seq::new(s.len(), |i: int| (s[i].0@, type_view(s[i].1)))
}

/// Mathematical image of a name list.
pub open spec fn names_view(s: Seq<String>) -> Seq<Seq<char>> {
    Seq::new(s.len(), |i: int| s[i]@)
}

/// Mathematical image of a syntax tree.
pub open spec fn ast_view(n: ASTNode) -> AstV
    decreases n,
{
    match n {
        ASTNode::Module { body } => AstV::Module { body: asts_view(body@) },
        ASTNode::Import { names } => AstV::Import { names: names_view(names@) },
        ASTNode::FunctionDef { name, args, return_type, body } => AstV::FunctionDef {
            name: name@,
            args: params_view(args@),
            return_type: type_view(return_type),
            body: asts_view(body@),
        },
        ASTNode::ClassDef { name, methods } => AstV::ClassDef {
            name: name@,
            methods: asts_view(methods@),
        },
        ASTNode::Assign { target, value } => AstV::Assign {
            target: target@,
            value: Box::new(ast_view(*value)),
        },
        ASTNode::Expr { value } => AstV::Expr { value: Box::new(ast_view(*value)) },
        ASTNode::Call { func, args } => AstV::Call { func: func@, args: asts_view(args@) },
        ASTNode::Str { value } => AstV::Str { value: value@ },
        ASTNode::Num { value } => AstV::Num { value },
        ASTNode::Bool { value } => AstV::Bool { value },
        ASTNode::Name { id } => AstV::Name { id: id@ },
        ASTNode::BinOp { left, op, right } => AstV::BinOp {
            left: Box::new(ast_view(*left)),
            op,
            right: Box::new(ast_view(*right)),
        },
        ASTNode::If { condition, body, orelse } => AstV::If {
            condition: Box::new(ast_view(*condition)),
            body: asts_view(body@),
            orelse: asts_view(orelse@),
        },
        ASTNode::While { condition, body } => AstV::While {
            condition: Box::new(ast_view(*condition)),
            body: asts_view(body@),
        },
        ASTNode::For { target, iter, body } => AstV::For {
            target: target@,
            iter: Box::new(ast_view(*iter)),
            body: asts_view(body@),
        },
        ASTNode::Return { value } => AstV::Return {
            value: match value {
                Some(v) => Some(Box::new(ast_view(*v))),
                None => None,
            },
        },
        ASTNode::Closure { params, body } => AstV::Closure {
            params: params_view(params@),
            body: Box::new(ast_view(*body)),
        },
        ASTNode::Generator { body } => AstV::Generator { body: asts_view(body@) },
        ASTNode::Yield { value } => AstV::Yield { value: Box::new(ast_view(*value)) },
        ASTNode::Async { body } => AstV::Async { body: asts_view(body@) },
        ASTNode::Await { value } => AstV::Await { value: Box::new(ast_view(*value)) },
        ASTNode::List { elements } => AstV::List { elements: asts_view(elements@) },
        ASTNode::Dict { pairs } => AstV::Dict { pairs: ast_pairs_view(pairs@) },
        ASTNode::Attribute { value, attr } => AstV::Attribute {
            value: Box::new(ast_view(*value)),
            attr: attr@,
        },
        ASTNode::InteropCall { language, code } => AstV::InteropCall {
            language: language@,
            code: code@,
        },
    }
}

/// Mathematical image of a statement sequence.
pub open spec fn asts_view(s: Seq<ASTNode>) -> Seq<AstV>
    decreases s,
{
    if s.len() == 0 {
        Seq::empty()
    } else {
        seq![ast_view(s[0])] + asts_view(s.drop_first())
    }
}

/// Mathematical image of a key-value pair sequence.
pub open spec fn ast_pairs_view(s: Seq<(ASTNode, ASTNode)>) -> Seq<(AstV, AstV)>
    decreases s,
{
    if s.len() == 0 {
        Seq::empty()
    } else {
        seq![(ast_view(s[0].0), ast_view(s[0].1))] + ast_pairs_view(s.drop_first())
    }
}

/// `asts_view` maps the sequence pointwise.
pub proof fn lemma_asts_view(s: Seq<ASTNode>)
    ensures
        asts_view(s).len() == s.len(),
        forall|i: int|
            #![trigger asts_view(s)[i]]
            #![trigger s[i]]
            0 <= i < s.len() ==> asts_view(s)[i] == ast_view(s[i]),
    decreases s,
{
    if s.len() > 0 {
        lemma_asts_view(s.drop_first());
        assert forall|i: int|
            #![trigger asts_view(s)[i]]
            #![trigger s[i]]
            0 <= i < s.len() implies asts_view(s)[i] == ast_view(s[i]) by {
            if i > 0 {
                assert(asts_view(s)[i] == asts_view(s.drop_first())[i - 1]);
                assert(s.drop_first()[i - 1] == s[i]);
            }
        }
    }
}

/// `ast_pairs_view` maps the sequence pointwise.
pub proof fn lemma_ast_pairs_view(s: Seq<(ASTNode, ASTNode)>)
    ensures
        ast_pairs_view(s).len() == s.len(),
        forall|i: int|
            #![trigger ast_pairs_view(s)[i]]
            #![trigger s[i]]
            0 <= i < s.len() ==> ast_pairs_view(s)[i] == (ast_view(s[i].0), ast_view(s[i].1)),
    decreases s,
{
    if s.len() > 0 {
        lemma_ast_pairs_view(s.drop_first());
        assert forall|i: int|
            #![trigger ast_pairs_view(s)[i]]
            #![trigger s[i]]
            0 <= i < s.len() implies ast_pairs_view(s)[i] == (ast_view(s[i].0), ast_view(s[i].1)) by {
            if i > 0 {
                assert(ast_pairs_view(s)[i] == ast_pairs_view(s.drop_first())[i - 1]);
                assert(s.drop_first()[i - 1] == s[i]);
            }
        }
    }
}

impl DeepView for ASTNode {
    type V = AstV;

    open spec fn deep_view(&self) -> AstV {
        ast_view(*self)
    }
}

} // verus!
