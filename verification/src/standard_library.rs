use vstd::prelude::*;
use vstd::string::StringExecFns;
use std::rc::Rc;
use crate::type_system::{Type, TypeV};
use crate::value::{Value, ValueV};

verus! {

/// IEEE-754 binary64 bit pattern of the circle constant pi.
pub const PI_BITS: u64 = 0x400921FB54442D18;

/// IEEE-754 binary64 bit pattern of Euler's number e.
pub const E_BITS: u64 = 0x4005BF0A8B145769;

/// An intrinsic stub: a function value with one named parameter, an empty
/// body, and the global frame as its captured scope.
pub open spec fn stub_value(param: Seq<char>) -> ValueV {
    ValueV::Function(seq![(param, TypeV::Any)], Seq::empty(), 0)
}

/// The table of standard modules: `math`, `io` and `string`, each mapping
/// symbol names to values.
pub open spec fn spec_stdlib() -> Seq<(Seq<char>, Seq<(Seq<char>, ValueV)>)> {
    seq![
        (
            "math"@,
            seq![
                ("pi"@, ValueV::Float(PI_BITS)),
                ("e"@, ValueV::Float(E_BITS)),
                ("sqrt"@, stub_value("x"@)),
            ],
        ),
        ("io"@, seq![("print"@, stub_value("args"@)), ("input"@, stub_value("prompt"@))]),
        (
            "string"@,
            seq![
                ("length"@, stub_value("s"@)),
                ("to_upper"@, stub_value("s"@)),
                ("to_lower"@, stub_value("s"@)),
            ],
        ),
    ]
}

/// The named table of standard modules installed on import.
pub struct StandardLibrary {
    pub modules: Vec<(String, Vec<(String, Value)>)>,
}

/// An intrinsic stub with one named parameter.
fn make_stub(param: &str) -> (r: Value)
    ensures
        r.deep_view() == stub_value(param@),
{
    let mut params: Vec<(String, Type)> = Vec::new();
    params.push((String::from_str(param), Type::Any));
    let body: Vec<crate::ast::ASTNode> = Vec::new();
    let r = Value::Function(Rc::new(params), Rc::new(body), 0);
    proof {
        assert(r.deep_view()->Function_0 =~= seq![(param@, TypeV::Any)]);
        assert(r.deep_view()->Function_1 =~= Seq::<crate::ast::AstV>::empty());
    }
    r
}

impl StandardLibrary {
    /// Builds the three standard modules.
    pub fn new() -> (r: Self)
        ensures
            r.modules.deep_view() == spec_stdlib(),
    {
        let mut math: Vec<(String, Value)> = Vec::new();
        math.push((String::from_str("pi"), Value::Float(PI_BITS)));
        math.push((String::from_str("e"), Value::Float(E_BITS)));
        math.push((String::from_str("sqrt"), make_stub("x")));
        let mut io: Vec<(String, Value)> = Vec::new();
        io.push((String::from_str("print"), make_stub("args")));
        io.push((String::from_str("input"), make_stub("prompt")));
        let mut stringmod: Vec<(String, Value)> = Vec::new();
        stringmod.push((String::from_str("length"), make_stub("s")));
        stringmod.push((String::from_str("to_upper"), make_stub("s")));
        stringmod.push((String::from_str("to_lower"), make_stub("s")));
        proof {
            assert(math.deep_view() =~= spec_stdlib()[0].1);
            assert(io.deep_view() =~= spec_stdlib()[1].1);
            assert(stringmod.deep_view() =~= spec_stdlib()[2].1);
        }
        let mut modules: Vec<(String, Vec<(String, Value)>)> = Vec::new();
        modules.push((String::from_str("math"), math));
        modules.push((String::from_str("io"), io));
        modules.push((String::from_str("string"), stringmod));
        proof {
            assert(modules.deep_view() =~= spec_stdlib());
        }
        StandardLibrary { modules }
    }

    /// The symbol table of a standard module, if one has the name.
    pub fn get_module(&self, name: &str) -> (r: Option<&Vec<(String, Value)>>)
        ensures
            match r {
                Some(m) => crate::table::assoc_get(self.modules.deep_view(), name@) == Some(
                    m.deep_view(),
                ),
                None => crate::table::assoc_get(self.modules.deep_view(), name@) is None,
            },
    {
        crate::table::assoc_get_ref(&self.modules, name)
    }
}

} // verus!
