use vstd::prelude::*;
use crate::ast::{ASTNode, AstV, Op};
use crate::error::{BellronosError, ErrV};
use crate::table::assoc_get;
use crate::table::assoc_set;
use vstd::string::StringExecFns;
use crate::strutil::{concat_str, lowercase, lower_of, spec_contains, str_contains, str_eq};

verus! {

/// Foreign type tags that an interop fragment can denote, keyed by
/// language.
#[derive(Clone, Copy, PartialEq, Eq, Structural)]
pub enum InteropType {
    CInt,
    CFloat,
    CString,
    PyInt,
    PyFloat,
    PyString,
    PyList,
    PyDict,
    JsNumber,
    JsString,
    JsBoolean,
    JsArray,
    JsObject,
    Unknown,
}

/// The foreign languages whose fragments the type checker understands.
#[derive(Clone, Copy, PartialEq, Eq, Structural)]
pub enum InteropLanguage {
    C,
    Python,
    JavaScript,
}

/// The static types of the language.  `NoneType` is the type of statements
/// and of an absent return value.
pub enum Type {
    Int,
    Float,
    String,
    Bool,
    List(Box<Type>),
    Dict(Box<Type>, Box<Type>),
    Function(Vec<Type>, Box<Type>),
    Class(String),
    Instance(String),
    NoneType,
    Any,
    Custom(String),
    Interop(InteropType),
}

/// Mathematical image of `Type`.
pub enum TypeV {
    Int,
    Float,
    String,
    Bool,
    List(Box<TypeV>),
    Dict(Box<TypeV>, Box<TypeV>),
    Function(Seq<TypeV>, Box<TypeV>),
    Class(Seq<char>),
    Instance(Seq<char>),
    NoneType,
    Any,
    Custom(Seq<char>),
    Interop(InteropType),
}

/// Mathematical image of a type.
pub open spec fn type_view(t: Type) -> TypeV
    decreases t,
{
    match t {
        Type::Int => TypeV::Int,
        Type::Float => TypeV::Float,
        Type::String => TypeV::String,
        Type::Bool => TypeV::Bool,
        Type::List(inner) => TypeV::List(Box::new(type_view(*inner))),
        Type::Dict(k, v) => TypeV::Dict(Box::new(type_view(*k)), Box::new(type_view(*v))),
        Type::Function(params, ret) => TypeV::Function(
            types_view(params@),
            Box::new(type_view(*ret)),
        ),
        Type::Class(n) => TypeV::Class(n@),
        Type::Instance(n) => TypeV::Instance(n@),
        Type::NoneType => TypeV::NoneType,
        Type::Any => TypeV::Any,
        Type::Custom(n) => TypeV::Custom(n@),
        Type::Interop(it) => TypeV::Interop(it),
    }
}

/// Mathematical image of a sequence of types.
pub open spec fn types_view(s: Seq<Type>) -> Seq<TypeV>
    decreases s,
{
    if s.len() == 0 {
        Seq::empty()
    } else {
        seq![type_view(s[0])] + types_view(s.drop_first())
    }
}

/// `types_view` maps the sequence pointwise.
pub proof fn lemma_types_view(s: Seq<Type>)
    ensures
        types_view(s).len() == s.len(),
        forall|i: int|
            #![trigger types_view(s)[i]]
            #![trigger s[i]]
            0 <= i < s.len() ==> types_view(s)[i] == type_view(s[i]),
    decreases s,
{
    if s.len() > 0 {
        lemma_types_view(s.drop_first());
        assert forall|i: int|
            #![trigger types_view(s)[i]]
            #![trigger s[i]]
            0 <= i < s.len() implies types_view(s)[i] == type_view(s[i]) by {
            if i > 0 {
                assert(types_view(s)[i] == types_view(s.drop_first())[i - 1]);
                assert(s.drop_first()[i - 1] == s[i]);
            }
        }
    }
}

impl DeepView for Type {
    type V = TypeV;

    open spec fn deep_view(&self) -> TypeV {
        type_view(*self)
    }
}

/// Structure-preserving copy of a type.
pub fn clone_type(t: &Type) -> (r: Type)
    ensures
        r.deep_view() == t.deep_view(),
    decreases *t,
{
    match t {
        Type::Int => Type::Int,
        Type::Float => Type::Float,
        Type::String => Type::String,
        Type::Bool => Type::Bool,
        Type::List(inner) => Type::List(Box::new(clone_type(&**inner))),
        Type::Dict(k, v) => Type::Dict(Box::new(clone_type(&**k)), Box::new(clone_type(&**v))),
        Type::Function(params, ret) => {
            let mut ps: Vec<Type> = Vec::new();
            let mut i: usize = 0;
            while i < params.len()
                invariant
                    i <= params@.len(),
                    ps@.len() == i,
                    forall|j: int|
                        0 <= j < i ==> type_view(#[trigger] ps@[j]) == type_view(params@[j]),
                decreases params@.len() - i,
            {
                proof {
                    broadcast use vstd::std_specs::vec::axiom_vec_index_decreases;

                    assert(decreases_to!(*t => params[i as int]));
                }
                ps.push(clone_type(&params[i]));
                i = i + 1;
            }
            proof {
                lemma_types_view(ps@);
                lemma_types_view(params@);
                assert(types_view(ps@) =~= types_view(params@));
            }
            Type::Function(ps, Box::new(clone_type(&**ret)))
        },
        Type::Class(n) => Type::Class(n.clone()),
        Type::Instance(n) => Type::Instance(n.clone()),
        Type::NoneType => Type::NoneType,
        Type::Any => Type::Any,
        Type::Custom(n) => Type::Custom(n.clone()),
        Type::Interop(it) => Type::Interop(*it),
    }
}

impl Clone for Type {
    fn clone(&self) -> (r: Self)
        ensures
            r.deep_view() == self.deep_view(),
    {
        clone_type(self)
    }
}

/// Structural equality of two types.
pub fn type_eq(a: &Type, b: &Type) -> (r: bool)
    ensures
        r == (a.deep_view() == b.deep_view()),
    decreases *a,
{
    match (a, b) {
        (Type::Int, Type::Int) => true,
        (Type::Float, Type::Float) => true,
        (Type::String, Type::String) => true,
        (Type::Bool, Type::Bool) => true,
        (Type::List(x), Type::List(y)) => type_eq(&**x, &**y),
        (Type::Dict(ka, va), Type::Dict(kb, vb)) => type_eq(&**ka, &**kb) && type_eq(&**va, &**vb),
        (Type::Function(pa, ra), Type::Function(pb, rb)) => {
            proof {
                lemma_types_view(pa@);
                lemma_types_view(pb@);
            }
            if pa.len() != pb.len() {
                return false;
            }
            let mut i: usize = 0;
            while i < pa.len()
                invariant
                    i <= pa@.len(),
                    pa@.len() == pb@.len(),
                    forall|j: int|
                        0 <= j < i ==> type_view(#[trigger] pa@[j]) == type_view(pb@[j]),
                decreases pa@.len() - i,
            {
                proof {
                    broadcast use vstd::std_specs::vec::axiom_vec_index_decreases;

                    assert(decreases_to!(*a => pa[i as int]));
                }
                if !type_eq(&pa[i], &pb[i]) {
                    proof {
                        assert(types_view(pa@)[i as int] != types_view(pb@)[i as int]);
                    }
                    return false;
                }
                i = i + 1;
            }
            proof {
                assert(types_view(pa@) =~= types_view(pb@));
            }
            type_eq(&**ra, &**rb)
        },
        (Type::Class(x), Type::Class(y)) => str_eq(x.as_str(), y.as_str()),
        (Type::Instance(x), Type::Instance(y)) => str_eq(x.as_str(), y.as_str()),
        (Type::NoneType, Type::NoneType) => true,
        (Type::Any, Type::Any) => true,
        (Type::Custom(x), Type::Custom(y)) => str_eq(x.as_str(), y.as_str()),
        (Type::Interop(x), Type::Interop(y)) => x == y,
        _ => false,
    }
}

/// The compatibility relation of the type checker: `Any` matches
/// everything, `Int` and `Float` widen into each other, parametric types
/// match componentwise, interop types only match themselves, and all other
/// types match only their equals.
pub open spec fn spec_compatible(a: TypeV, b: TypeV) -> bool
    decreases a,
{
    match (a, b) {
        (TypeV::Any, _) => true,
        (_, TypeV::Any) => true,
        (TypeV::Int, TypeV::Float) => true,
        (TypeV::Float, TypeV::Int) => true,
        (TypeV::List(x), TypeV::List(y)) => spec_compatible(*x, *y),
        (TypeV::Dict(ka, va), TypeV::Dict(kb, vb)) => spec_compatible(*ka, *kb) && spec_compatible(
            *va,
            *vb,
        ),
        (TypeV::Function(pa, ra), TypeV::Function(pb, rb)) => pa.len() == pb.len() && (forall|
            j: int,
        |
            0 <= j < pa.len() ==> spec_compatible(#[trigger] pa[j], pb[j])) && spec_compatible(
            *ra,
            *rb,
        ),
        (TypeV::Interop(x), TypeV::Interop(y)) => x == y,
        (TypeV::Interop(_), _) => false,
        (_, TypeV::Interop(_)) => false,
        (x, y) => x == y,
    }
}

/// Decides `spec_compatible`.
pub fn is_compatible_types(a: &Type, b: &Type) -> (r: bool)
    ensures
        r == spec_compatible(a.deep_view(), b.deep_view()),
    decreases *a,
{
    match (a, b) {
        (Type::Any, _) => true,
        (_, Type::Any) => true,
        (Type::Int, Type::Float) => true,
        (Type::Float, Type::Int) => true,
        (Type::List(x), Type::List(y)) => is_compatible_types(&**x, &**y),
        (Type::Dict(ka, va), Type::Dict(kb, vb)) => is_compatible_types(&**ka, &**kb)
            && is_compatible_types(&**va, &**vb),
        (Type::Function(pa, ra), Type::Function(pb, rb)) => {
            proof {
                lemma_types_view(pa@);
                lemma_types_view(pb@);
            }
            if pa.len() != pb.len() {
                return false;
            }
            let mut i: usize = 0;
            let mut all_ok = true;
            while i < pa.len()
                invariant
                    i <= pa@.len(),
                    pa@.len() == pb@.len(),
                    all_ok == (forall|j: int|
                        0 <= j < i ==> spec_compatible(
                            type_view(#[trigger] pa@[j]),
                            type_view(pb@[j]),
                        )),
                decreases pa@.len() - i,
            {
                proof {
                    broadcast use vstd::std_specs::vec::axiom_vec_index_decreases;

                    assert(decreases_to!(*a => pa[i as int]));
                }
                if !is_compatible_types(&pa[i], &pb[i]) {
                    all_ok = false;
                }
                i = i + 1;
            }
            all_ok && is_compatible_types(&**ra, &**rb)
        },
        (Type::Interop(x), Type::Interop(y)) => x == y,
        (Type::Interop(_), _) => false,
        (_, Type::Interop(_)) => false,
        (x, y) => type_eq(x, y),
    }
}

/// The interop language a tag denotes, compared without regard to case.
pub open spec fn spec_language_of(s: Seq<char>) -> Result<InteropLanguage, ErrV> {
    if lower_of(s) == "c"@ {
        Ok(InteropLanguage::C)
    } else if lower_of(s) == "python"@ {
        Ok(InteropLanguage::Python)
    } else if lower_of(s) == "javascript"@ || lower_of(s) == "js"@ {
        Ok(InteropLanguage::JavaScript)
    } else {
        Err(ErrV::Type("Unknown interop language: "@ + s))
    }
}

/// The foreign type a fragment in language `lang` is taken to produce: the
/// first marker substring found decides the tag.
pub open spec fn spec_infer_type(lang: InteropLanguage, code: Seq<char>) -> InteropType {
    match lang {
        InteropLanguage::C => if spec_contains(code, "int"@) {
            InteropType::CInt
        } else if spec_contains(code, "float"@) {
            InteropType::CFloat
        } else if spec_contains(code, "char*"@) {
            InteropType::CString
        } else {
            InteropType::Unknown
        },
        InteropLanguage::Python => if spec_contains(code, "int("@) {
            InteropType::PyInt
        } else if spec_contains(code, "float("@) {
            InteropType::PyFloat
        } else if spec_contains(code, "str("@) {
            InteropType::PyString
        } else if spec_contains(code, "list("@) {
            InteropType::PyList
        } else if spec_contains(code, "dict("@) {
            InteropType::PyDict
        } else {
            InteropType::Unknown
        },
        InteropLanguage::JavaScript => if spec_contains(code, "Number("@) {
            InteropType::JsNumber
        } else if spec_contains(code, "String("@) {
            InteropType::JsString
        } else if spec_contains(code, "Boolean("@) {
            InteropType::JsBoolean
        } else if spec_contains(code, "Array("@) {
            InteropType::JsArray
        } else if spec_contains(code, "Object("@) {
            InteropType::JsObject
        } else {
            InteropType::Unknown
        },
    }
}

impl InteropLanguage {
    /// The language a tag such as `"python"` or `"JS"` denotes.
    pub fn from_str(s: &str) -> (r: Result<InteropLanguage, BellronosError>)
        ensures
            match r {
                Ok(l) => spec_language_of(s@) == Ok::<InteropLanguage, ErrV>(l),
                Err(e) => spec_language_of(s@) == Err::<InteropLanguage, ErrV>(e.deep_view()),
            },
    {
        let lower = lowercase(s);
        let l = lower.as_str();
        if str_eq(l, "c") {
            Ok(InteropLanguage::C)
        } else if str_eq(l, "python") {
            Ok(InteropLanguage::Python)
        } else if str_eq(l, "javascript") || str_eq(l, "js") {
            Ok(InteropLanguage::JavaScript)
        } else {
            Err(BellronosError::Type(concat_str("Unknown interop language: ", s)))
        }
    }

    /// The foreign type tag a fragment of this language produces.
    pub fn infer_type(&self, code: &str) -> (r: Result<InteropType, BellronosError>)
        ensures
            r == Ok::<InteropType, BellronosError>(spec_infer_type(*self, code@)),
    {
        match self {
            InteropLanguage::C => {
                if str_contains(code, "int") {
                    Ok(InteropType::CInt)
                } else if str_contains(code, "float") {
                    Ok(InteropType::CFloat)
                } else if str_contains(code, "char*") {
                    Ok(InteropType::CString)
                } else {
                    Ok(InteropType::Unknown)
                }
            },
            InteropLanguage::Python => {
                if str_contains(code, "int(") {
                    Ok(InteropType::PyInt)
                } else if str_contains(code, "float(") {
                    Ok(InteropType::PyFloat)
                } else if str_contains(code, "str(") {
                    Ok(InteropType::PyString)
                } else if str_contains(code, "list(") {
                    Ok(InteropType::PyList)
                } else if str_contains(code, "dict(") {
                    Ok(InteropType::PyDict)
                } else {
                    Ok(InteropType::Unknown)
                }
            },
            InteropLanguage::JavaScript => {
                if str_contains(code, "Number(") {
                    Ok(InteropType::JsNumber)
                } else if str_contains(code, "String(") {
                    Ok(InteropType::JsString)
                } else if str_contains(code, "Boolean(") {
                    Ok(InteropType::JsBoolean)
                } else if str_contains(code, "Array(") {
                    Ok(InteropType::JsArray)
                } else if str_contains(code, "Object(") {
                    Ok(InteropType::JsObject)
                } else {
                    Ok(InteropType::Unknown)
                }
            },
        }
    }
}

/// The language type that stands for a foreign type tag.
pub open spec fn spec_interop_to_type(t: InteropType) -> TypeV {
    match t {
        InteropType::CInt => TypeV::Int,
        InteropType::PyInt => TypeV::Int,
        InteropType::CFloat => TypeV::Float,
        InteropType::PyFloat => TypeV::Float,
        InteropType::JsNumber => TypeV::Float,
        InteropType::CString => TypeV::String,
        InteropType::PyString => TypeV::String,
        InteropType::JsString => TypeV::String,
        InteropType::PyList => TypeV::List(Box::new(TypeV::Any)),
        InteropType::JsArray => TypeV::List(Box::new(TypeV::Any)),
        InteropType::PyDict => TypeV::Dict(Box::new(TypeV::Any), Box::new(TypeV::Any)),
        InteropType::JsObject => TypeV::Dict(Box::new(TypeV::Any), Box::new(TypeV::Any)),
        InteropType::JsBoolean => TypeV::Bool,
        InteropType::Unknown => TypeV::Any,
    }
}

/// The language type that stands for a foreign type tag.
pub fn interop_type_to_bellronos_type(interop_type: InteropType) -> (r: Type)
    ensures
        r.deep_view() == spec_interop_to_type(interop_type),
{
    proof {
        reveal_with_fuel(type_view, 2);
    }
    match interop_type {
        InteropType::CInt => Type::Int,
        InteropType::PyInt => Type::Int,
        InteropType::CFloat => Type::Float,
        InteropType::PyFloat => Type::Float,
        InteropType::JsNumber => Type::Float,
        InteropType::CString => Type::String,
        InteropType::PyString => Type::String,
        InteropType::JsString => Type::String,
        InteropType::PyList => Type::List(Box::new(Type::Any)),
        InteropType::JsArray => Type::List(Box::new(Type::Any)),
        InteropType::PyDict => Type::Dict(Box::new(Type::Any), Box::new(Type::Any)),
        InteropType::JsObject => Type::Dict(Box::new(Type::Any), Box::new(Type::Any)),
        InteropType::JsBoolean => Type::Bool,
        InteropType::Unknown => Type::Any,
    }
}

/// The foreign type tag that stands for a language type in the given
/// language.
pub open spec fn spec_type_to_interop(t: TypeV, lang: InteropLanguage) -> InteropType {
    match (t, lang) {
        (TypeV::Int, InteropLanguage::C) => InteropType::CInt,
        (TypeV::Float, InteropLanguage::C) => InteropType::CFloat,
        (TypeV::String, InteropLanguage::C) => InteropType::CString,
        (TypeV::Int, InteropLanguage::Python) => InteropType::PyInt,
        (TypeV::Float, InteropLanguage::Python) => InteropType::PyFloat,
        (TypeV::String, InteropLanguage::Python) => InteropType::PyString,
        (TypeV::List(_), InteropLanguage::Python) => InteropType::PyList,
        (TypeV::Dict(_, _), InteropLanguage::Python) => InteropType::PyDict,
        (TypeV::Int, InteropLanguage::JavaScript) => InteropType::JsNumber,
        (TypeV::Float, InteropLanguage::JavaScript) => InteropType::JsNumber,
        (TypeV::String, InteropLanguage::JavaScript) => InteropType::JsString,
        (TypeV::Bool, InteropLanguage::JavaScript) => InteropType::JsBoolean,
        (TypeV::List(_), InteropLanguage::JavaScript) => InteropType::JsArray,
        (TypeV::Dict(_, _), InteropLanguage::JavaScript) => InteropType::JsObject,
        _ => InteropType::Unknown,
    }
}

/// The foreign type tag that stands for a language type in the given
/// language.
pub fn bellronos_type_to_interop_type(bellronos_type: &Type, language: &InteropLanguage) -> (r:
    InteropType)
    ensures
        r == spec_type_to_interop(bellronos_type.deep_view(), *language),
{
    match (bellronos_type, language) {
        (Type::Int, InteropLanguage::C) => InteropType::CInt,
        (Type::Float, InteropLanguage::C) => InteropType::CFloat,
        (Type::String, InteropLanguage::C) => InteropType::CString,
        (Type::Int, InteropLanguage::Python) => InteropType::PyInt,
        (Type::Float, InteropLanguage::Python) => InteropType::PyFloat,
        (Type::String, InteropLanguage::Python) => InteropType::PyString,
        (Type::List(_), InteropLanguage::Python) => InteropType::PyList,
        (Type::Dict(_, _), InteropLanguage::Python) => InteropType::PyDict,
        (Type::Int, InteropLanguage::JavaScript) => InteropType::JsNumber,
        (Type::Float, InteropLanguage::JavaScript) => InteropType::JsNumber,
        (Type::String, InteropLanguage::JavaScript) => InteropType::JsString,
        (Type::Bool, InteropLanguage::JavaScript) => InteropType::JsBoolean,
        (Type::List(_), InteropLanguage::JavaScript) => InteropType::JsArray,
        (Type::Dict(_, _), InteropLanguage::JavaScript) => InteropType::JsObject,
        _ => InteropType::Unknown,
    }
}

/// The symbol for a binary operator, as it appears in messages.
pub open spec fn op_text(op: Op) -> Seq<char> {
    match op {
        Op::Add => "+"@,
        Op::Sub => "-"@,
        Op::Mul => "*"@,
        Op::Div => "/"@,
        Op::Eq => "=="@,
        Op::NotEq => "!="@,
        Op::Lt => "<"@,
        Op::Gt => ">"@,
        Op::LtEq => "<="@,
        Op::GtEq => ">="@,
    }
}

/// The symbol for a binary operator.
pub fn op_text_exec(op: Op) -> (r: String)
    ensures
        r@ == op_text(op),
{
    match op {
        Op::Add => String::from_str("+"),
        Op::Sub => String::from_str("-"),
        Op::Mul => String::from_str("*"),
        Op::Div => String::from_str("/"),
        Op::Eq => String::from_str("=="),
        Op::NotEq => String::from_str("!="),
        Op::Lt => String::from_str("<"),
        Op::Gt => String::from_str(">"),
        Op::LtEq => String::from_str("<="),
        Op::GtEq => String::from_str(">="),
    }
}

/// Three string pieces, joined.
pub fn msg3(a: &str, b: &str, c: &str) -> (r: String)
    ensures
        r@ == a@ + b@ + c@,
{
    let mut m = String::from_str(a);
    m.append(b);
    m.append(c);
    proof {
        assert(m@ =~= a@ + b@ + c@);
    }
    m
}

/// Five string pieces, joined.
pub fn msg5(a: &str, b: &str, c: &str, d: &str, e: &str) -> (r: String)
    ensures
        r@ == a@ + b@ + c@ + d@ + e@,
{
    let mut m = String::from_str(a);
    m.append(b);
    m.append(c);
    m.append(d);
    m.append(e);
    proof {
        assert(m@ =~= a@ + b@ + c@ + d@ + e@);
    }
    m
}

/// Mathematical image of the type checker's state: the name and class
/// tables.
#[verifier::ext_equal]
pub struct TcV {
    pub types: Seq<(Seq<char>, TypeV)>,
    pub classes: Seq<(Seq<char>, Seq<(Seq<char>, TypeV)>)>,
}

/// The static rule for one binary operation: arithmetic is monomorphic
/// within `Int` or `Float`, `+` also joins strings, `/` yields `Float`,
/// comparisons need numeric operands, and equality accepts anything.
pub open spec fn spec_check_binop(l: TypeV, op: Op, r: TypeV) -> Result<TypeV, ErrV> {
    match (l, op, r) {
        (TypeV::Int, Op::Add, TypeV::Int) => Ok(TypeV::Int),
        (TypeV::Float, Op::Add, TypeV::Float) => Ok(TypeV::Float),
        (TypeV::String, Op::Add, TypeV::String) => Ok(TypeV::String),
        (TypeV::Int, Op::Sub, TypeV::Int) => Ok(TypeV::Int),
        (TypeV::Float, Op::Sub, TypeV::Float) => Ok(TypeV::Float),
        (TypeV::Int, Op::Mul, TypeV::Int) => Ok(TypeV::Int),
        (TypeV::Float, Op::Mul, TypeV::Float) => Ok(TypeV::Float),
        (TypeV::Int, Op::Div, TypeV::Int) => Ok(TypeV::Float),
        (TypeV::Float, Op::Div, TypeV::Float) => Ok(TypeV::Float),
        (TypeV::Int, Op::Lt, TypeV::Int) => Ok(TypeV::Bool),
        (TypeV::Int, Op::Lt, TypeV::Float) => Ok(TypeV::Bool),
        (TypeV::Float, Op::Lt, TypeV::Int) => Ok(TypeV::Bool),
        (TypeV::Float, Op::Lt, TypeV::Float) => Ok(TypeV::Bool),
        (TypeV::Int, Op::Gt, TypeV::Int) => Ok(TypeV::Bool),
        (TypeV::Int, Op::Gt, TypeV::Float) => Ok(TypeV::Bool),
        (TypeV::Float, Op::Gt, TypeV::Int) => Ok(TypeV::Bool),
        (TypeV::Float, Op::Gt, TypeV::Float) => Ok(TypeV::Bool),
        (TypeV::Int, Op::LtEq, TypeV::Int) => Ok(TypeV::Bool),
        (TypeV::Int, Op::LtEq, TypeV::Float) => Ok(TypeV::Bool),
        (TypeV::Float, Op::LtEq, TypeV::Int) => Ok(TypeV::Bool),
        (TypeV::Float, Op::LtEq, TypeV::Float) => Ok(TypeV::Bool),
        (TypeV::Int, Op::GtEq, TypeV::Int) => Ok(TypeV::Bool),
        (TypeV::Int, Op::GtEq, TypeV::Float) => Ok(TypeV::Bool),
        (TypeV::Float, Op::GtEq, TypeV::Int) => Ok(TypeV::Bool),
        (TypeV::Float, Op::GtEq, TypeV::Float) => Ok(TypeV::Bool),
        (_, Op::Eq, _) => Ok(TypeV::Bool),
        (_, Op::NotEq, _) => Ok(TypeV::Bool),
        _ => Err(ErrV::Type("Invalid operation: "@ + op_text(op))),
    }
}

/// The parameter types of a declared parameter list.
pub open spec fn fn_param_types(args: Seq<(Seq<char>, TypeV)>) -> Seq<TypeV> {
    Seq::new(args.len(), |i: int| args[i].1)
}

/// A name table with every parameter bound to its declared type.
pub open spec fn spec_bind_params(
    types: Seq<(Seq<char>, TypeV)>,
    args: Seq<(Seq<char>, TypeV)>,
) -> Seq<(Seq<char>, TypeV)>
    decreases args,
{
    if args.len() == 0 {
        types
    } else {
        spec_bind_params(assoc_set(types, args[0].0, args[0].1), args.drop_first())
    }
}

/// A name table with every imported name bound to `Any`.
pub open spec fn spec_bind_imports(
    types: Seq<(Seq<char>, TypeV)>,
    names: Seq<Seq<char>>,
) -> Seq<(Seq<char>, TypeV)>
    decreases names,
{
    if names.len() == 0 {
        types
    } else {
        spec_bind_imports(assoc_set(types, names[0], TypeV::Any), names.drop_first())
    }
}

/// The method table a class declares: each inner function definition
/// becomes a function type under the method's name.
pub open spec fn spec_method_table(
    acc: Seq<(Seq<char>, TypeV)>,
    methods: Seq<AstV>,
) -> Seq<(Seq<char>, TypeV)>
    decreases methods,
{
    if methods.len() == 0 {
        acc
    } else {
        let acc2 = match methods[0] {
            AstV::FunctionDef { name, args, return_type, body } => assoc_set(
                acc,
                name,
                TypeV::Function(fn_param_types(args), Box::new(return_type)),
            ),
            _ => acc,
        };
        spec_method_table(acc2, methods.drop_first())
    }
}

/// The static type of a node, together with the table state it leaves
/// behind.
pub open spec fn spec_check(st: TcV, node: AstV) -> (Result<TypeV, ErrV>, TcV)
    decreases node, 0int,
{
    match node {
        AstV::Module { body } => {
            let (r, st1) = spec_check_seq(st, body);
            match r {
                Ok(_) => (Ok(TypeV::NoneType), st1),
                Err(e) => (Err(e), st1),
            }
        },
        AstV::Import { names } => (
            Ok(TypeV::NoneType),
            TcV { types: spec_bind_imports(st.types, names), classes: st.classes },
        ),
        AstV::FunctionDef { name, args, return_type, body } => {
            let fnty = TypeV::Function(fn_param_types(args), Box::new(return_type));
            let st1 = TcV { types: assoc_set(st.types, name, fnty), classes: st.classes };
            let inner = TcV { types: spec_bind_params(st1.types, args), classes: st1.classes };
            match spec_check_fn_body(inner, name, return_type, body) {
                Ok(_) => (Ok(TypeV::NoneType), st1),
                Err(e) => (Err(e), st1),
            }
        },
        AstV::ClassDef { name, methods } => {
            let table = spec_method_table(Seq::empty(), methods);
            let st1 = TcV {
                types: assoc_set(st.types, name, TypeV::Class(name)),
                classes: assoc_set(st.classes, name, table),
            };
            (Ok(TypeV::NoneType), st1)
        },
        AstV::Assign { target, value } => {
            let (r, st1) = spec_check(st, *value);
            match r {
                Ok(t) => (
                    Ok(TypeV::NoneType),
                    TcV { types: assoc_set(st1.types, target, t), classes: st1.classes },
                ),
                Err(e) => (Err(e), st1),
            }
        },
        AstV::Expr { value } => spec_check(st, *value),
        AstV::Call { func, args } => {
            match assoc_get(st.types, func) {
                Some(TypeV::Function(params, ret)) => if args.len() != params.len() {
                    (
                        Err(
                            ErrV::Type(
                                "Function "@ + func
                                    + " called with the wrong number of arguments"@,
                            ),
                        ),
                        st,
                    )
                } else {
                    let (r, st1) = spec_check_args(st, args, params);
                    match r {
                        Ok(_) => (Ok(*ret), st1),
                        Err(e) => (Err(e), st1),
                    }
                },
                Some(_) => (Err(ErrV::Type(func + " is not a function"@)), st),
                None => (Err(ErrV::Type("Undefined function: "@ + func)), st),
            }
        },
        AstV::Str { value } => (Ok(TypeV::String), st),
        AstV::Num { value } => (Ok(TypeV::Float), st),
        AstV::Bool { value } => (Ok(TypeV::Bool), st),
        AstV::Name { id } => match assoc_get(st.types, id) {
            Some(t) => (Ok(t), st),
            None => (Err(ErrV::Type("Undefined variable: "@ + id)), st),
        },
        AstV::BinOp { left, op, right } => {
            let (rl, st1) = spec_check(st, *left);
            match rl {
                Ok(lt) => {
                    let (rr, st2) = spec_check(st1, *right);
                    match rr {
                        Ok(rt) => (spec_check_binop(lt, op, rt), st2),
                        Err(e) => (Err(e), st2),
                    }
                },
                Err(e) => (Err(e), st1),
            }
        },
        AstV::If { condition, body, orelse } => {
            let (rc, st1) = spec_check(st, *condition);
            match rc {
                Ok(ct) => if ct != TypeV::Bool {
                    (Err(ErrV::Type("If condition must be a boolean"@)), st1)
                } else {
                    let (rb, st2) = spec_check_seq(st1, body);
                    match rb {
                        Ok(_) => {
                            let (ro, st3) = spec_check_seq(st2, orelse);
                            match ro {
                                Ok(_) => (Ok(TypeV::NoneType), st3),
                                Err(e) => (Err(e), st3),
                            }
                        },
                        Err(e) => (Err(e), st2),
                    }
                },
                Err(e) => (Err(e), st1),
            }
        },
        AstV::While { condition, body } => {
            let (rc, st1) = spec_check(st, *condition);
            match rc {
                Ok(ct) => if ct != TypeV::Bool {
                    (Err(ErrV::Type("While condition must be a boolean"@)), st1)
                } else {
                    let (rb, st2) = spec_check_seq(st1, body);
                    match rb {
                        Ok(_) => (Ok(TypeV::NoneType), st2),
                        Err(e) => (Err(e), st2),
                    }
                },
                Err(e) => (Err(e), st1),
            }
        },
        AstV::For { target, iter, body } => {
            let (ri, st1) = spec_check(st, *iter);
            match ri {
                Ok(it) => match it {
                    TypeV::List(elem) => {
                        let st2 = TcV {
                            types: assoc_set(st1.types, target, *elem),
                            classes: st1.classes,
                        };
                        let (rb, st3) = spec_check_seq(st2, body);
                        match rb {
                            Ok(_) => (Ok(TypeV::NoneType), st3),
                            Err(e) => (Err(e), st3),
                        }
                    },
                    _ => (Err(ErrV::Type("For loop iterable must be a list"@)), st1),
                },
                Err(e) => (Err(e), st1),
            }
        },
        AstV::Return { value } => match value {
            Some(v) => spec_check(st, *v),
            None => (Ok(TypeV::NoneType), st),
        },
        AstV::Closure { params, body } => {
            let inner = TcV { types: spec_bind_params(st.types, params), classes: st.classes };
            let (rb, _) = spec_check(inner, *body);
            match rb {
                Ok(rt) => (Ok(TypeV::Function(fn_param_types(params), Box::new(rt))), st),
                Err(e) => (Err(e), st),
            }
        },
        AstV::Generator { body } => {
            let (rb, st1) = spec_check_seq(st, body);
            match rb {
                Ok(_) => (Ok(TypeV::List(Box::new(TypeV::Any))), st1),
                Err(e) => (Err(e), st1),
            }
        },
        AstV::Yield { value } => spec_check(st, *value),
        AstV::Async { body } => {
            let (rb, st1) = spec_check_seq(st, body);
            match rb {
                Ok(_) => (Ok(TypeV::Any), st1),
                Err(e) => (Err(e), st1),
            }
        },
        AstV::Await { value } => spec_check(st, *value),
        AstV::List { elements } => {
            if elements.len() == 0 {
                (Ok(TypeV::List(Box::new(TypeV::Any))), st)
            } else {
                let (r0, st1) = spec_check(st, elements[0]);
                match r0 {
                    Ok(t0) => {
                        let (rr, st2) = spec_check_elems(st1, elements.drop_first(), t0);
                        match rr {
                            Ok(_) => (Ok(TypeV::List(Box::new(t0))), st2),
                            Err(e) => (Err(e), st2),
                        }
                    },
                    Err(e) => (Err(e), st1),
                }
            }
        },
        AstV::Dict { pairs } => {
            if pairs.len() == 0 {
                (Ok(TypeV::Dict(Box::new(TypeV::Any), Box::new(TypeV::Any))), st)
            } else {
                let (rk, st1) = spec_check(st, pairs[0].0);
                match rk {
                    Ok(kt) => {
                        let (rv, st2) = spec_check(st1, pairs[0].1);
                        match rv {
                            Ok(vt) => {
                                let (rr, st3) = spec_check_pairs(
                                    st2,
                                    pairs.drop_first(),
                                    kt,
                                    vt,
                                );
                                match rr {
                                    Ok(_) => (
                                        Ok(TypeV::Dict(Box::new(kt), Box::new(vt))),
                                        st3,
                                    ),
                                    Err(e) => (Err(e), st3),
                                }
                            },
                            Err(e) => (Err(e), st2),
                        }
                    },
                    Err(e) => (Err(e), st1),
                }
            }
        },
        AstV::Attribute { value, attr } => {
            let (rv, st1) = spec_check(st, *value);
            match rv {
                Ok(vt) => match vt {
                    TypeV::Instance(cname) => match assoc_get(st1.classes, cname) {
                        Some(table) => match assoc_get(table, attr) {
                            Some(t) => (Ok(t), st1),
                            None => (
                                Err(
                                    ErrV::Type(
                                        "Attribute '"@ + attr + "' not found in class '"@
                                            + cname + "'"@,
                                    ),
                                ),
                                st1,
                            ),
                        },
                        None => (
                            Err(ErrV::Type("Class '"@ + cname + "' not found"@)),
                            st1,
                        ),
                    },
                    _ => (
                        Err(
                            ErrV::Type(
                                "Cannot access attribute '"@ + attr
                                    + "' on non-instance type"@,
                            ),
                        ),
                        st1,
                    ),
                },
                Err(e) => (Err(e), st1),
            }
        },
        AstV::InteropCall { language, code } => match spec_language_of(language) {
            Ok(lang) => (Ok(TypeV::Interop(spec_infer_type(lang, code))), st),
            Err(e) => (Err(e), st),
        },
    }
}

/// The table state after checking each statement in order; statements have
/// no type of their own.
pub open spec fn spec_check_seq(st: TcV, stmts: Seq<AstV>) -> (Result<(), ErrV>, TcV)
    decreases stmts, 1int,
{
    if stmts.len() == 0 {
        (Ok(()), st)
    } else {
        let (r, st1) = spec_check(st, stmts[0]);
        match r {
            Ok(_) => spec_check_seq(st1, stmts.drop_first()),
            Err(e) => (Err(e), st1),
        }
    }
}

/// Checks a function body: each statement in order, and a top-level return
/// statement must produce exactly the declared return type.
pub open spec fn spec_check_fn_body(st: TcV, name: Seq<char>, ret: TypeV, body: Seq<AstV>) -> Result<
    (),
    ErrV,
>
    decreases body, 1int,
{
    if body.len() == 0 {
        Ok(())
    } else {
        let (r, st1) = spec_check(st, body[0]);
        match r {
            Ok(t) => if body[0] is Return && t != ret {
                Err(ErrV::Type("Function "@ + name + " return type mismatch"@))
            } else {
                spec_check_fn_body(st1, name, ret, body.drop_first())
            },
            Err(e) => Err(e),
        }
    }
}

/// Checks call arguments in order against the parameter types.
pub open spec fn spec_check_args(st: TcV, args: Seq<AstV>, params: Seq<TypeV>) -> (Result<
    (),
    ErrV,
>, TcV)
    decreases args, 1int,
{
    if args.len() == 0 {
        (Ok(()), st)
    } else {
        let (r, st1) = spec_check(st, args[0]);
        match r {
            Ok(at) => if params.len() > 0 && spec_compatible(at, params[0]) {
                spec_check_args(st1, args.drop_first(), params.drop_first())
            } else {
                (Err(ErrV::Type("Type mismatch in function arguments"@)), st1)
            },
            Err(e) => (Err(e), st1),
        }
    }
}

/// Checks the remaining list elements against the first element's type.
pub open spec fn spec_check_elems(st: TcV, elems: Seq<AstV>, expected: TypeV) -> (Result<
    (),
    ErrV,
>, TcV)
    decreases elems, 1int,
{
    if elems.len() == 0 {
        (Ok(()), st)
    } else {
        let (r, st1) = spec_check(st, elems[0]);
        match r {
            Ok(t) => if spec_compatible(t, expected) {
                spec_check_elems(st1, elems.drop_first(), expected)
            } else {
                (Err(ErrV::Type("All list elements must have compatible types"@)), st1)
            },
            Err(e) => (Err(e), st1),
        }
    }
}

/// Checks the remaining dictionary pairs against the first pair's types.
pub open spec fn spec_check_pairs(st: TcV, pairs: Seq<(AstV, AstV)>, kt: TypeV, vt: TypeV) -> (
    Result<(), ErrV>,
    TcV,
)
    decreases pairs, 1int,
{
    if pairs.len() == 0 {
        (Ok(()), st)
    } else {
        let (rk, st1) = spec_check(st, pairs[0].0);
        match rk {
            Ok(k) => {
                let (rv, st2) = spec_check(st1, pairs[0].1);
                match rv {
                    Ok(v) => if spec_compatible(k, kt) && spec_compatible(v, vt) {
                        spec_check_pairs(st2, pairs.drop_first(), kt, vt)
                    } else {
                        (
                            Err(
                                ErrV::Type(
                                    "All dictionary keys must have compatible types, and all values must have compatible types"@,
                                ),
                            ),
                            st2,
                        )
                    },
                    Err(e) => (Err(e), st2),
                }
            },
            Err(e) => (Err(e), st1),
        }
    }
}

/// Structure-preserving copy of a name table.
pub fn clone_types_table(v: &Vec<(String, Type)>) -> (r: Vec<(String, Type)>)
    ensures
        r.deep_view() == v.deep_view(),
{
    let mut out: Vec<(String, Type)> = Vec::new();
    let mut i: usize = 0;
    while i < v.len()
        invariant
            i <= v@.len(),
            out@.len() == i,
            forall|j: int| 0 <= j < i ==> (#[trigger] out.deep_view()[j]) == v.deep_view()[j],
        decreases v@.len() - i,
    {
        let ghost prevdv = out.deep_view();
        let item = (v[i].0.clone(), v[i].1.clone());
        let ghost itemdv = item.deep_view();
        out.push(item);
        proof {
            assert(out.deep_view() =~= prevdv.push(itemdv));
        }
        i = i + 1;
    }
    proof {
        assert(out.deep_view() =~= v.deep_view());
    }
    out
}

/// Structure-preserving copy of a class table.
pub fn clone_class_table(v: &Vec<(String, Vec<(String, Type)>)>) -> (r: Vec<
    (String, Vec<(String, Type)>),
>)
    ensures
        r.deep_view() == v.deep_view(),
{
    let mut out: Vec<(String, Vec<(String, Type)>)> = Vec::new();
    let mut i: usize = 0;
    while i < v.len()
        invariant
            i <= v@.len(),
            out@.len() == i,
            forall|j: int| 0 <= j < i ==> (#[trigger] out.deep_view()[j]) == v.deep_view()[j],
        decreases v@.len() - i,
    {
        let ghost prevdv = out.deep_view();
        let item = (v[i].0.clone(), clone_types_table(&v[i].1));
        let ghost itemdv = item.deep_view();
        out.push(item);
        proof {
            assert(out.deep_view() =~= prevdv.push(itemdv));
        }
        i = i + 1;
    }
    proof {
        assert(out.deep_view() =~= v.deep_view());
    }
    out
}

/// The static checker: a name table and a class table, threaded through
/// the statements of a program.
pub struct TypeChecker {
    pub type_env: Vec<(String, Type)>,
    pub class_env: Vec<(String, Vec<(String, Type)>)>,
}

impl DeepView for TypeChecker {
    type V = TcV;

    open spec fn deep_view(&self) -> TcV {
        TcV { types: self.type_env.deep_view(), classes: self.class_env.deep_view() }
    }
}

impl TypeChecker {
    /// A checker with empty tables.
    pub fn new() -> (r: Self)
        ensures
            r.deep_view().types =~= Seq::<(Seq<char>, TypeV)>::empty(),
            r.deep_view().classes =~= Seq::<(Seq<char>, Seq<(Seq<char>, TypeV)>)>::empty(),
    {
        let r = TypeChecker { type_env: Vec::new(), class_env: Vec::new() };
        proof {
            assert(r.deep_view().types =~= Seq::<(Seq<char>, TypeV)>::empty());
            assert(r.deep_view().classes =~= Seq::<(Seq<char>, Seq<(Seq<char>, TypeV)>)>::empty());
        }
        r
    }

    /// A checker holding copies of the same tables.
    fn duplicate(&self) -> (r: Self)
        ensures
            r.deep_view() == self.deep_view(),
    {
        let r = TypeChecker {
            type_env: clone_types_table(&self.type_env),
            class_env: clone_class_table(&self.class_env),
        };
        proof {
            assert(r.deep_view() =~= self.deep_view());
        }
        r
    }

    /// The type bound to a name, if any.
    pub fn get_type(&self, name: &str) -> (r: Option<&Type>)
        ensures
            match r {
                Some(t) => assoc_get(self.deep_view().types, name@) == Some(t.deep_view()),
                None => assoc_get(self.deep_view().types, name@) is None,
            },
    {
        crate::table::assoc_get_ref(&self.type_env, name)
    }

    /// Binds a name to a type.
    pub fn set_type(&mut self, name: String, typ: Type)
        ensures
            final(self).deep_view().types == assoc_set(
                old(self).deep_view().types,
                name@,
                typ.deep_view(),
            ),
            final(self).deep_view().classes == old(self).deep_view().classes,
    {
        crate::table::assoc_update(&mut self.type_env, name, typ);
    }

    /// The type of a method of a class, if both exist.
    pub fn get_class_method(&self, class_name: &str, method_name: &str) -> (r: Option<&Type>)
        ensures
            match r {
                Some(t) => match assoc_get(self.deep_view().classes, class_name@) {
                    Some(table) => assoc_get(table, method_name@) == Some(t.deep_view()),
                    None => false,
                },
                None => match assoc_get(self.deep_view().classes, class_name@) {
                    Some(table) => assoc_get(table, method_name@) is None,
                    None => true,
                },
            },
    {
        match crate::table::assoc_get_ref(&self.class_env, class_name) {
            Some(methods) => crate::table::assoc_get_ref(methods, method_name),
            None => None,
        }
    }

    /// Records a method type under a class name, creating the class entry
    /// if it is new.
    pub fn add_class_method(&mut self, class_name: &str, method_name: String, method_type: Type)
        ensures
            final(self).deep_view().classes == assoc_set(
                old(self).deep_view().classes,
                class_name@,
                assoc_set(
                    match assoc_get(old(self).deep_view().classes, class_name@) {
                        Some(table) => table,
                        None => Seq::empty(),
                    },
                    method_name@,
                    method_type.deep_view(),
                ),
            ),
            final(self).deep_view().types == old(self).deep_view().types,
    {
        let mut methods: Vec<(String, Type)> = match crate::table::assoc_get_ref(
            &self.class_env,
            class_name,
        ) {
            Some(m) => clone_types_table(m),
            None => {
                let fresh: Vec<(String, Type)> = Vec::new();
                proof {
                    assert(fresh.deep_view() =~= Seq::<(Seq<char>, TypeV)>::empty());
                }
                fresh
            },
        };
        crate::table::assoc_update(&mut methods, method_name, method_type);
        crate::table::assoc_update(&mut self.class_env, String::from_str(class_name), methods);
    }

    /// The static type of a node; the checker's tables advance past any
    /// bindings the node makes.
    #[verifier::rlimit(60)]
    #[verifier::spinoff_prover]
    pub fn check(&mut self, node: &ASTNode) -> (r: Result<Type, BellronosError>)
        ensures
            ({
                let s = spec_check(old(self).deep_view(), node.deep_view());
                match r {
                    Ok(t) => s.0 == Ok::<TypeV, ErrV>(t.deep_view()) && s.1 == final(self).deep_view(),
                    Err(e) => s.0 == Err::<TypeV, ErrV>(e.deep_view()),
                }
            }),
        decreases *node, 0int,
    {
        match node {
            ASTNode::Module { body } => {
                proof {
                    crate::ast::lemma_asts_view(body@);
                }
                match self.check_seq(body) {
                    Ok(_) => Ok(Type::NoneType),
                    Err(e) => Err(e),
                }
            },
            ASTNode::Import { names } => {
                let mut i: usize = 0;
                let ghost ts0 = self.deep_view().types;
                let ghost namesv = crate::ast::names_view(names@);
                proof {
                    assert(forall|j: int|
                        0 <= j < names@.len() ==> (#[trigger] namesv[j]) == names@[j]@);
                    assert(namesv.skip(0) =~= namesv);
                }
                while i < names.len()
                    invariant
                        i <= names@.len(),
                        self.deep_view().classes == old(self).deep_view().classes,
                        spec_bind_imports(ts0, namesv) == spec_bind_imports(
                            self.deep_view().types,
                            namesv.skip(i as int),
                        ),
                        self.type_env@.len() >= 0,
                    decreases names@.len() - i,
                {
                    proof {
                        assert(namesv.skip(i as int)[0] == names@[i as int]@);
                        assert(namesv.skip(i as int).drop_first() =~= namesv.skip(i + 1));
                    }
                    self.set_type(names[i].clone(), Type::Any);
                    i = i + 1;
                }
                proof {
                    assert(namesv.skip(names@.len() as int) =~= Seq::<Seq<char>>::empty());
                }
                Ok(Type::NoneType)
            },
            ASTNode::FunctionDef { name, args, return_type, body } => {
                let arg_types = params_type_vec(args);
                let func_type = Type::Function(arg_types, Box::new(return_type.clone()));
                proof {
                    crate::ast::lemma_asts_view(body@);
                    lemma_types_view(func_type->Function_0@);
                    assert(types_view(func_type->Function_0@) =~= fn_param_types(
                        crate::ast::params_view(args@),
                    ));
                }
                self.set_type(name.clone(), func_type);
                let mut inner = self.duplicate();
                inner.bind_params(args);
                proof {
                    assert(crate::ast::asts_view(body@).skip(0) =~= crate::ast::asts_view(body@));
                }
                match inner.check_fn_body(name, return_type, body, 0) {
                    Ok(_) => Ok(Type::NoneType),
                    Err(e) => Err(e),
                }
            },
            ASTNode::ClassDef { name, methods } => {
                proof {
                    crate::ast::lemma_asts_view(methods@);
                }
                let mut table: Vec<(String, Type)> = Vec::new();
                proof {
                    assert(table.deep_view() =~= Seq::<(Seq<char>, TypeV)>::empty());
                }
                let mut i: usize = 0;
                let ghost msv = crate::ast::asts_view(methods@);
                proof {
                    assert(msv.skip(0) =~= msv);
                }
                while i < methods.len()
                    invariant
                        i <= methods@.len(),
                        msv == crate::ast::asts_view(methods@),
                        msv.len() == methods@.len(),
                        forall|j: int|
                            0 <= j < methods@.len() ==> (#[trigger] msv[j]) == crate::ast::ast_view(
                                methods@[j],
                            ),
                        spec_method_table(Seq::empty(), msv) == spec_method_table(
                            table.deep_view(),
                            msv.skip(i as int),
                        ),
                    decreases methods@.len() - i,
                {
                    proof {
                        assert(msv.skip(i as int)[0] == msv[i as int]);
                        assert(msv.skip(i as int).drop_first() =~= msv.skip(i + 1));
                    }
                    match &methods[i] {
                        ASTNode::FunctionDef { name: mname, args, return_type, body } => {
                            let arg_types = params_type_vec(args);
                            let mty = Type::Function(arg_types, Box::new(clone_type(return_type)));
                            proof {
                                lemma_types_view(mty->Function_0@);
                                assert(types_view(mty->Function_0@) =~= fn_param_types(
                                    crate::ast::params_view(args@),
                                ));
                            }
                            crate::table::assoc_update(&mut table, mname.clone(), mty);
                        },
                        _ => {},
                    }
                    i = i + 1;
                }
                proof {
                    assert(msv.skip(methods@.len() as int) =~= Seq::<AstV>::empty());
                }
                self.set_type(name.clone(), Type::Class(name.clone()));
                crate::table::assoc_update(&mut self.class_env, name.clone(), table);
                Ok(Type::NoneType)
            },
            ASTNode::Assign { target, value } => {
                let t = match self.check(value) {
                    Ok(t) => t,
                    Err(e) => {
                        return Err(e);
                    },
                };
                self.set_type(target.clone(), t);
                Ok(Type::NoneType)
            },
            ASTNode::Expr { value } => self.check(value),
            ASTNode::Call { func, args } => {
                proof {
                    crate::ast::lemma_asts_view(args@);
                }
                let fty = match self.get_type(func.as_str()) {
                    Some(t) => t.clone(),
                    None => {
                        return Err(
                            BellronosError::Type(concat_str("Undefined function: ", func.as_str())),
                        );
                    },
                };
                match fty {
                    Type::Function(params, ret) => {
                        proof {
                            lemma_types_view(params@);
                        }
                        if args.len() != params.len() {
                            return Err(
                                BellronosError::Type(
                                    msg3(
                                        "Function ",
                                        func.as_str(),
                                        " called with the wrong number of arguments",
                                    ),
                                ),
                            );
                        }
                        proof {
                            assert(crate::ast::asts_view(args@).skip(0) =~= crate::ast::asts_view(
                                args@,
                            ));
                            assert(types_view(params@).skip(0) =~= types_view(params@));
                        }
                        match self.check_args(args, &params, 0) {
                            Ok(_) => Ok(*ret),
                            Err(e) => Err(e),
                        }
                    },
                    _ => Err(BellronosError::Type(concat_str(func.as_str(), " is not a function"))),
                }
            },
            ASTNode::Str { .. } => Ok(Type::String),
            ASTNode::Num { .. } => Ok(Type::Float),
            ASTNode::Bool { .. } => Ok(Type::Bool),
            ASTNode::Name { id } => match self.get_type(id.as_str()) {
                Some(t) => Ok(t.clone()),
                None => Err(BellronosError::Type(concat_str("Undefined variable: ", id.as_str()))),
            },
            ASTNode::BinOp { left, op, right } => {
                let lt = match self.check(left) {
                    Ok(t) => t,
                    Err(e) => {
                        return Err(e);
                    },
                };
                let rt = match self.check(right) {
                    Ok(t) => t,
                    Err(e) => {
                        return Err(e);
                    },
                };
                check_binop_exec(&lt, *op, &rt)
            },
            ASTNode::If { condition, body, orelse } => {
                proof {
                    crate::ast::lemma_asts_view(body@);
                    crate::ast::lemma_asts_view(orelse@);
                }
                let ct = match self.check(condition) {
                    Ok(t) => t,
                    Err(e) => {
                        return Err(e);
                    },
                };
                if !matches!(ct, Type::Bool) {
                    return Err(
                        BellronosError::Type(String::from_str("If condition must be a boolean")),
                    );
                }
                match self.check_seq(body) {
                    Ok(_) => {},
                    Err(e) => {
                        return Err(e);
                    },
                }
                match self.check_seq(orelse) {
                    Ok(_) => Ok(Type::NoneType),
                    Err(e) => Err(e),
                }
            },
            ASTNode::While { condition, body } => {
                proof {
                    crate::ast::lemma_asts_view(body@);
                }
                let ct = match self.check(condition) {
                    Ok(t) => t,
                    Err(e) => {
                        return Err(e);
                    },
                };
                if !matches!(ct, Type::Bool) {
                    return Err(
                        BellronosError::Type(String::from_str("While condition must be a boolean")),
                    );
                }
                match self.check_seq(body) {
                    Ok(_) => Ok(Type::NoneType),
                    Err(e) => Err(e),
                }
            },
            ASTNode::For { target, iter, body } => {
                proof {
                    crate::ast::lemma_asts_view(body@);
                }
                let it = match self.check(iter) {
                    Ok(t) => t,
                    Err(e) => {
                        return Err(e);
                    },
                };
                match it {
                    Type::List(elem) => {
                        self.set_type(target.clone(), *elem);
                        match self.check_seq(body) {
                            Ok(_) => Ok(Type::NoneType),
                            Err(e) => Err(e),
                        }
                    },
                    _ => Err(
                        BellronosError::Type(String::from_str("For loop iterable must be a list")),
                    ),
                }
            },
            ASTNode::Return { value } => match value {
                Some(v) => self.check(v),
                None => Ok(Type::NoneType),
            },
            ASTNode::Closure { params, body } => {
                let mut inner = self.duplicate();
                inner.bind_params(params);
                let rt = match inner.check(body) {
                    Ok(t) => t,
                    Err(e) => {
                        return Err(e);
                    },
                };
                let param_types = params_type_vec(params);
                let fty = Type::Function(param_types, Box::new(rt));
                proof {
                    lemma_types_view(fty->Function_0@);
                    assert(types_view(fty->Function_0@) =~= fn_param_types(
                        crate::ast::params_view(params@),
                    ));
                }
                Ok(fty)
            },
            ASTNode::Generator { body } => {
                proof {
                    crate::ast::lemma_asts_view(body@);
                }
                match self.check_seq(body) {
                    Ok(_) => Ok(Type::List(Box::new(Type::Any))),
                    Err(e) => Err(e),
                }
            },
            ASTNode::Yield { value } => self.check(value),
            ASTNode::Async { body } => {
                proof {
                    crate::ast::lemma_asts_view(body@);
                }
                match self.check_seq(body) {
                    Ok(_) => Ok(Type::Any),
                    Err(e) => Err(e),
                }
            },
            ASTNode::Await { value } => self.check(value),
            ASTNode::List { elements } => {
                proof {
                    crate::ast::lemma_asts_view(elements@);
                }
                if elements.len() == 0 {
                    return Ok(Type::List(Box::new(Type::Any)));
                }
                let t0 = match self.check(&elements[0]) {
                    Ok(t) => t,
                    Err(e) => {
                        return Err(e);
                    },
                };
                proof {
                    assert(crate::ast::asts_view(elements@).skip(1)
                        =~= crate::ast::asts_view(elements@).drop_first());
                }
                match self.check_elems(elements, 1, &t0) {
                    Ok(_) => Ok(Type::List(Box::new(t0))),
                    Err(e) => Err(e),
                }
            },
            ASTNode::Dict { pairs } => {
                proof {
                    crate::ast::lemma_ast_pairs_view(pairs@);
                }
                if pairs.len() == 0 {
                    return Ok(Type::Dict(Box::new(Type::Any), Box::new(Type::Any)));
                }
                let kt = match self.check(&pairs[0].0) {
                    Ok(t) => t,
                    Err(e) => {
                        return Err(e);
                    },
                };
                let vt = match self.check(&pairs[0].1) {
                    Ok(t) => t,
                    Err(e) => {
                        return Err(e);
                    },
                };
                proof {
                    assert(crate::ast::ast_pairs_view(pairs@).skip(1)
                        =~= crate::ast::ast_pairs_view(pairs@).drop_first());
                }
                match self.check_pairs(pairs, 1, &kt, &vt) {
                    Ok(_) => Ok(Type::Dict(Box::new(kt), Box::new(vt))),
                    Err(e) => Err(e),
                }
            },
            ASTNode::Attribute { value, attr } => {
                let vt = match self.check(value) {
                    Ok(t) => t,
                    Err(e) => {
                        return Err(e);
                    },
                };
                match vt {
                    Type::Instance(cname) => {
                        match crate::table::assoc_get_ref(&self.class_env, cname.as_str()) {
                            Some(methods) => match crate::table::assoc_get_ref(
                                methods,
                                attr.as_str(),
                            ) {
                                Some(t) => Ok(t.clone()),
                                None => Err(
                                    BellronosError::Type(
                                        msg5(
                                            "Attribute '",
                                            attr.as_str(),
                                            "' not found in class '",
                                            cname.as_str(),
                                            "'",
                                        ),
                                    ),
                                ),
                            },
                            None => Err(
                                BellronosError::Type(
                                    msg3("Class '", cname.as_str(), "' not found"),
                                ),
                            ),
                        }
                    },
                    _ => Err(
                        BellronosError::Type(
                            msg3(
                                "Cannot access attribute '",
                                attr.as_str(),
                                "' on non-instance type",
                            ),
                        ),
                    ),
                }
            },
            ASTNode::InteropCall { language, code } => {
                match InteropLanguage::from_str(language.as_str()) {
                    Ok(lang) => match lang.infer_type(code.as_str()) {
                        Ok(it) => Ok(Type::Interop(it)),
                        Err(e) => Err(e),
                    },
                    Err(e) => Err(e),
                }
            },
        }
    }

    /// Checks each statement of a block in order.
    fn check_seq(&mut self, stmts: &Vec<ASTNode>) -> (r: Result<(), BellronosError>)
        ensures
            ({
                let s = spec_check_seq(old(self).deep_view(), crate::ast::asts_view(stmts@));
                match r {
                    Ok(_) => s.0 == Ok::<(), ErrV>(()) && s.1 == final(self).deep_view(),
                    Err(e) => s.0 == Err::<(), ErrV>(e.deep_view()),
                }
            }),
        decreases *stmts, 1int, 0int,
    {
        proof {
            assert(crate::ast::asts_view(stmts@).skip(0) =~= crate::ast::asts_view(stmts@));
        }
        self.check_seq_from(stmts, 0)
    }

    /// Checks the statements of a block from index `i` on.
    fn check_seq_from(&mut self, stmts: &Vec<ASTNode>, i: usize) -> (r: Result<
        (),
        BellronosError,
    >)
        requires
            i <= stmts@.len(),
        ensures
            ({
                let s = spec_check_seq(
                    old(self).deep_view(),
                    crate::ast::asts_view(stmts@).skip(i as int),
                );
                match r {
                    Ok(_) => s.0 == Ok::<(), ErrV>(()) && s.1 == final(self).deep_view(),
                    Err(e) => s.0 == Err::<(), ErrV>(e.deep_view()),
                }
            }),
        decreases *stmts, 0int, stmts@.len() - i,
    {
        proof {
            crate::ast::lemma_asts_view(stmts@);
        }
        if i >= stmts.len() {
            proof {
                assert(crate::ast::asts_view(stmts@).skip(i as int) =~= Seq::<AstV>::empty());
            }
            return Ok(());
        }
        proof {
            broadcast use vstd::std_specs::vec::axiom_vec_index_decreases;

            assert(decreases_to!(*stmts => stmts[i as int]));
            assert(crate::ast::asts_view(stmts@).skip(i as int)[0] == crate::ast::ast_view(
                stmts@[i as int],
            ));
            assert(crate::ast::asts_view(stmts@).skip(i as int).drop_first()
                =~= crate::ast::asts_view(stmts@).skip(i + 1));
        }
        match self.check(&stmts[i]) {
            Ok(_) => self.check_seq_from(stmts, i + 1),
            Err(e) => Err(e),
        }
    }

    /// Checks a function body from index `i` on, holding each top-level
    /// return statement to the declared return type.
    fn check_fn_body(&mut self, name: &str, ret: &Type, body: &Vec<ASTNode>, i: usize) -> (r:
        Result<(), BellronosError>)
        requires
            i <= body@.len(),
        ensures
            ({
                let s = spec_check_fn_body(
                    old(self).deep_view(),
                    name@,
                    ret.deep_view(),
                    crate::ast::asts_view(body@).skip(i as int),
                );
                match r {
                    Ok(_) => s == Ok::<(), ErrV>(()),
                    Err(e) => s == Err::<(), ErrV>(e.deep_view()),
                }
            }),
        decreases *body, 0int, body@.len() - i,
    {
        proof {
            crate::ast::lemma_asts_view(body@);
        }
        if i >= body.len() {
            proof {
                assert(crate::ast::asts_view(body@).skip(i as int) =~= Seq::<AstV>::empty());
            }
            return Ok(());
        }
        proof {
            broadcast use vstd::std_specs::vec::axiom_vec_index_decreases;

            assert(decreases_to!(*body => body[i as int]));
            assert(crate::ast::asts_view(body@).skip(i as int)[0] == crate::ast::ast_view(
                body@[i as int],
            ));
            assert(crate::ast::asts_view(body@).skip(i as int).drop_first()
                =~= crate::ast::asts_view(body@).skip(i + 1));
        }
        match self.check(&body[i]) {
            Ok(t) => {
                let is_ret = matches!(&body[i], ASTNode::Return { .. });
                if is_ret && !type_eq(&t, ret) {
                    Err(
                        BellronosError::Type(
                            msg3("Function ", name, " return type mismatch"),
                        ),
                    )
                } else {
                    self.check_fn_body(name, ret, body, i + 1)
                }
            },
            Err(e) => Err(e),
        }
    }

    /// Checks call arguments from index `i` on against the parameter types.
    fn check_args(&mut self, args: &Vec<ASTNode>, params: &Vec<Type>, i: usize) -> (r: Result<
        (),
        BellronosError,
    >)
        requires
            i <= args@.len(),
            args@.len() == params@.len(),
        ensures
            ({
                let s = spec_check_args(
                    old(self).deep_view(),
                    crate::ast::asts_view(args@).skip(i as int),
                    types_view(params@).skip(i as int),
                );
                match r {
                    Ok(_) => s.0 == Ok::<(), ErrV>(()) && s.1 == final(self).deep_view(),
                    Err(e) => s.0 == Err::<(), ErrV>(e.deep_view()),
                }
            }),
        decreases *args, 0int, args@.len() - i,
    {
        proof {
            crate::ast::lemma_asts_view(args@);
            lemma_types_view(params@);
        }
        if i >= args.len() {
            proof {
                assert(crate::ast::asts_view(args@).skip(i as int) =~= Seq::<AstV>::empty());
            }
            return Ok(());
        }
        proof {
            broadcast use vstd::std_specs::vec::axiom_vec_index_decreases;

            assert(decreases_to!(*args => args[i as int]));
            assert(crate::ast::asts_view(args@).skip(i as int)[0] == crate::ast::ast_view(
                args@[i as int],
            ));
            assert(crate::ast::asts_view(args@).skip(i as int).drop_first()
                =~= crate::ast::asts_view(args@).skip(i + 1));
            assert(types_view(params@).skip(i as int)[0] == type_view(params@[i as int]));
            assert(types_view(params@).skip(i as int).drop_first() =~= types_view(params@).skip(
                i + 1,
            ));
            assert(types_view(params@).skip(i as int).len() == params@.len() - i);
        }
        match self.check(&args[i]) {
            Ok(at) => {
                if is_compatible_types(&at, &params[i]) {
                    self.check_args(args, params, i + 1)
                } else {
                    Err(BellronosError::Type(String::from_str("Type mismatch in function arguments")))
                }
            },
            Err(e) => Err(e),
        }
    }

    /// Checks list elements from index `i` on against the first element's
    /// type.
    fn check_elems(&mut self, elems: &Vec<ASTNode>, i: usize, expected: &Type) -> (r: Result<
        (),
        BellronosError,
    >)
        requires
            1 <= i <= elems@.len(),
        ensures
            ({
                let s = spec_check_elems(
                    old(self).deep_view(),
                    crate::ast::asts_view(elems@).skip(i as int),
                    expected.deep_view(),
                );
                match r {
                    Ok(_) => s.0 == Ok::<(), ErrV>(()) && s.1 == final(self).deep_view(),
                    Err(e) => s.0 == Err::<(), ErrV>(e.deep_view()),
                }
            }),
        decreases *elems, 0int, elems@.len() - i,
    {
        proof {
            crate::ast::lemma_asts_view(elems@);
        }
        if i >= elems.len() {
            proof {
                assert(crate::ast::asts_view(elems@).skip(i as int) =~= Seq::<AstV>::empty());
            }
            return Ok(());
        }
        proof {
            broadcast use vstd::std_specs::vec::axiom_vec_index_decreases;

            assert(decreases_to!(*elems => elems[i as int]));
            assert(crate::ast::asts_view(elems@).skip(i as int)[0] == crate::ast::ast_view(
                elems@[i as int],
            ));
            assert(crate::ast::asts_view(elems@).skip(i as int).drop_first()
                =~= crate::ast::asts_view(elems@).skip(i + 1));
        }
        match self.check(&elems[i]) {
            Ok(t) => {
                if is_compatible_types(&t, expected) {
                    self.check_elems(elems, i + 1, expected)
                } else {
                    Err(
                        BellronosError::Type(
                            String::from_str("All list elements must have compatible types"),
                        ),
                    )
                }
            },
            Err(e) => Err(e),
        }
    }

    /// Checks dictionary pairs from index `i` on against the first pair's
    /// types.
    fn check_pairs(&mut self, pairs: &Vec<(ASTNode, ASTNode)>, i: usize, kt: &Type, vt: &Type) -> (r:
        Result<(), BellronosError>)
        requires
            1 <= i <= pairs@.len(),
        ensures
            ({
                let s = spec_check_pairs(
                    old(self).deep_view(),
                    crate::ast::ast_pairs_view(pairs@).skip(i as int),
                    kt.deep_view(),
                    vt.deep_view(),
                );
                match r {
                    Ok(_) => s.0 == Ok::<(), ErrV>(()) && s.1 == final(self).deep_view(),
                    Err(e) => s.0 == Err::<(), ErrV>(e.deep_view()),
                }
            }),
        decreases *pairs, 0int, pairs@.len() - i,
    {
        proof {
            crate::ast::lemma_ast_pairs_view(pairs@);
        }
        if i >= pairs.len() {
            proof {
                assert(crate::ast::ast_pairs_view(pairs@).skip(i as int) =~= Seq::<(
                    AstV,
                    AstV,
                )>::empty());
            }
            return Ok(());
        }
        proof {
            broadcast use vstd::std_specs::vec::axiom_vec_index_decreases;

            assert(decreases_to!(*pairs => pairs[i as int]));
            assert(crate::ast::ast_pairs_view(pairs@).skip(i as int)[0] == (
                crate::ast::ast_view(pairs@[i as int].0),
                crate::ast::ast_view(pairs@[i as int].1),
            ));
            assert(crate::ast::ast_pairs_view(pairs@).skip(i as int).drop_first()
                =~= crate::ast::ast_pairs_view(pairs@).skip(i + 1));
        }
        let k = match self.check(&pairs[i].0) {
            Ok(t) => t,
            Err(e) => {
                return Err(e);
            },
        };
        let v = match self.check(&pairs[i].1) {
            Ok(t) => t,
            Err(e) => {
                return Err(e);
            },
        };
        if is_compatible_types(&k, kt) && is_compatible_types(&v, vt) {
            self.check_pairs(pairs, i + 1, kt, vt)
        } else {
            Err(
                BellronosError::Type(
                    String::from_str(
                        "All dictionary keys must have compatible types, and all values must have compatible types",
                    ),
                ),
            )
        }
    }

    /// Binds each declared parameter to its type.
    fn bind_params(&mut self, params: &Vec<(String, Type)>)
        ensures
            final(self).deep_view().types == spec_bind_params(
                old(self).deep_view().types,
                crate::ast::params_view(params@),
            ),
            final(self).deep_view().classes == old(self).deep_view().classes,
    {
        let ghost pv = crate::ast::params_view(params@);
        let ghost ts0 = self.deep_view().types;
        let mut i: usize = 0;
        proof {
            assert(pv.skip(0) =~= pv);
        }
        while i < params.len()
            invariant
                i <= params@.len(),
                pv == crate::ast::params_view(params@),
                self.deep_view().classes == old(self).deep_view().classes,
                spec_bind_params(ts0, pv) == spec_bind_params(
                    self.deep_view().types,
                    pv.skip(i as int),
                ),
            decreases params@.len() - i,
        {
            proof {
                assert(pv.skip(i as int)[0] == (params@[i as int].0@, type_view(
                    params@[i as int].1,
                )));
                assert(pv.skip(i as int).drop_first() =~= pv.skip(i + 1));
            }
            self.set_type(params[i].0.clone(), params[i].1.clone());
            i = i + 1;
        }
        proof {
            assert(pv.skip(params@.len() as int) =~= Seq::<(Seq<char>, TypeV)>::empty());
        }
    }
}

/// The declared parameter types, in order.
fn params_type_vec(params: &Vec<(String, Type)>) -> (r: Vec<Type>)
    ensures
        r.deep_view() =~= fn_param_types(crate::ast::params_view(params@)),
{
    let mut out: Vec<Type> = Vec::new();
    let mut i: usize = 0;
    while i < params.len()
        invariant
            i <= params@.len(),
            out@.len() == i,
            forall|j: int|
                0 <= j < i ==> (#[trigger] out.deep_view()[j]) == type_view(params@[j].1),
        decreases params@.len() - i,
    {
        let ghost prevdv = out.deep_view();
        let item = clone_type(&params[i].1);
        let ghost itemdv = item.deep_view();
        out.push(item);
        proof {
            assert(out.deep_view() =~= prevdv.push(itemdv));
        }
        i = i + 1;
    }
    proof {
        assert(out.deep_view() =~= fn_param_types(crate::ast::params_view(params@)));
    }
    out
}

/// Decides `spec_check_binop`.
pub fn check_binop_exec(l: &Type, op: Op, r: &Type) -> (res: Result<Type, BellronosError>)
    ensures
        ({
            let s = spec_check_binop(l.deep_view(), op, r.deep_view());
            match res {
                Ok(t) => s == Ok::<TypeV, ErrV>(t.deep_view()),
                Err(e) => s == Err::<TypeV, ErrV>(e.deep_view()),
            }
        }),
{
    match (l, op, r) {
        (Type::Int, Op::Add, Type::Int) => Ok(Type::Int),
        (Type::Float, Op::Add, Type::Float) => Ok(Type::Float),
        (Type::String, Op::Add, Type::String) => Ok(Type::String),
        (Type::Int, Op::Sub, Type::Int) => Ok(Type::Int),
        (Type::Float, Op::Sub, Type::Float) => Ok(Type::Float),
        (Type::Int, Op::Mul, Type::Int) => Ok(Type::Int),
        (Type::Float, Op::Mul, Type::Float) => Ok(Type::Float),
        (Type::Int, Op::Div, Type::Int) => Ok(Type::Float),
        (Type::Float, Op::Div, Type::Float) => Ok(Type::Float),
        (Type::Int, Op::Lt, Type::Int) => Ok(Type::Bool),
        (Type::Int, Op::Lt, Type::Float) => Ok(Type::Bool),
        (Type::Float, Op::Lt, Type::Int) => Ok(Type::Bool),
        (Type::Float, Op::Lt, Type::Float) => Ok(Type::Bool),
        (Type::Int, Op::Gt, Type::Int) => Ok(Type::Bool),
        (Type::Int, Op::Gt, Type::Float) => Ok(Type::Bool),
        (Type::Float, Op::Gt, Type::Int) => Ok(Type::Bool),
        (Type::Float, Op::Gt, Type::Float) => Ok(Type::Bool),
        (Type::Int, Op::LtEq, Type::Int) => Ok(Type::Bool),
        (Type::Int, Op::LtEq, Type::Float) => Ok(Type::Bool),
        (Type::Float, Op::LtEq, Type::Int) => Ok(Type::Bool),
        (Type::Float, Op::LtEq, Type::Float) => Ok(Type::Bool),
        (Type::Int, Op::GtEq, Type::Int) => Ok(Type::Bool),
        (Type::Int, Op::GtEq, Type::Float) => Ok(Type::Bool),
        (Type::Float, Op::GtEq, Type::Int) => Ok(Type::Bool),
        (Type::Float, Op::GtEq, Type::Float) => Ok(Type::Bool),
        (_, Op::Eq, _) => Ok(Type::Bool),
        (_, Op::NotEq, _) => Ok(Type::Bool),
        _ => {
            let sym = op_text_exec(op);
            Err(BellronosError::Type(concat_str("Invalid operation: ", sym.as_str())))
        },
    }
}

} // verus!
