use vstd::prelude::*;
use std::rc::Rc;
use crate::ast::{ast_view, ASTNode, AstV};
use crate::strutil::rc_clone;
use crate::type_system::{Type, TypeV};

verus! {

/// A runtime value.  Numbers are 64-bit integers or IEEE-754 binary64 bit
/// patterns; callables carry the frame they captured as an index into the
/// interpreter's frame arena.
pub enum Value {
    Int(i64),
    Float(u64),
    String(String),
    Bool(bool),
    List(Vec<Value>),
    Dict(Vec<(String, Value)>),
    Function(Rc<Vec<(String, Type)>>, Rc<Vec<ASTNode>>, usize),
    Class { methods: Vec<(String, Value)> },
    Instance { class: String, attributes: Vec<(String, Value)> },
    Closure(Rc<Vec<(String, Type)>>, Rc<ASTNode>, usize),
    Generator(Rc<Vec<ASTNode>>, usize, usize),
    NoneVal,
}

/// Mathematical image of `Value`.
pub enum ValueV {
    Int(i64),
    Float(u64),
    String(Seq<char>),
    Bool(bool),
    List(Seq<ValueV>),
    Dict(Seq<(Seq<char>, ValueV)>),
    Function(Seq<(Seq<char>, TypeV)>, Seq<AstV>, int),
    Class { methods: Seq<(Seq<char>, ValueV)> },
    Instance { class: Seq<char>, attributes: Seq<(Seq<char>, ValueV)> },
    Closure(Seq<(Seq<char>, TypeV)>, Box<AstV>, int),
    Generator(Seq<AstV>, int, int),
    NoneVal,
}

/// Mathematical image of a value.
pub open spec fn value_view(v: Value) -> ValueV
    decreases v,
{
    match v {
        Value::Int(i) => ValueV::Int(i),
        Value::Float(b) => ValueV::Float(b),
        Value::String(s) => ValueV::String(s@),
        Value::Bool(b) => ValueV::Bool(b),
        Value::List(items) => ValueV::List(values_view(items@)),
        Value::Dict(pairs) => ValueV::Dict(val_pairs_view(pairs@)),
        Value::Function(params, body, env) => ValueV::Function(
            crate::ast::params_view(params@),
            crate::ast::asts_view(body@),
            env as int,
        ),
        Value::Class { methods } => ValueV::Class { methods: val_pairs_view(methods@) },
        Value::Instance { class, attributes } => ValueV::Instance {
            class: class@,
            attributes: val_pairs_view(attributes@),
        },
        Value::Closure(params, body, env) => ValueV::Closure(
            crate::ast::params_view(params@),
            Box::new(ast_view(*body)),
            env as int,
        ),
        Value::Generator(body, env, pos) => ValueV::Generator(
            crate::ast::asts_view(body@),
            env as int,
            pos as int,
        ),
        Value::NoneVal => ValueV::NoneVal,
    }
}

/// Mathematical image of a value sequence.
pub open spec fn values_view(s: Seq<Value>) -> Seq<ValueV>
    decreases s,
{
    if s.len() == 0 {
        Seq::empty()
    } else {
        seq![value_view(s[0])] + values_view(s.drop_first())
    }
}

/// Mathematical image of a name-value pair sequence.
pub open spec fn val_pairs_view(s: Seq<(String, Value)>) -> Seq<(Seq<char>, ValueV)>
    decreases s,
{
    if s.len() == 0 {
        Seq::empty()
    } else {
        seq![(s[0].0@, value_view(s[0].1))] + val_pairs_view(s.drop_first())
    }
}

/// `values_view` maps the sequence pointwise.
pub proof fn lemma_values_view(s: Seq<Value>)
    ensures
        values_view(s).len() == s.len(),
        forall|i: int|
            #![trigger values_view(s)[i]]
            #![trigger s[i]]
            0 <= i < s.len() ==> values_view(s)[i] == value_view(s[i]),
    decreases s,
{
    if s.len() > 0 {
        lemma_values_view(s.drop_first());
        assert forall|i: int|
            #![trigger values_view(s)[i]]
            #![trigger s[i]]
            0 <= i < s.len() implies values_view(s)[i] == value_view(s[i]) by {
            if i > 0 {
                assert(values_view(s)[i] == values_view(s.drop_first())[i - 1]);
                assert(s.drop_first()[i - 1] == s[i]);
            }
        }
    }
}

/// `val_pairs_view` maps the sequence pointwise.
pub proof fn lemma_val_pairs_view(s: Seq<(String, Value)>)
    ensures
        val_pairs_view(s).len() == s.len(),
        forall|i: int|
            #![trigger val_pairs_view(s)[i]]
            #![trigger s[i]]
            0 <= i < s.len() ==> val_pairs_view(s)[i] == (s[i].0@, value_view(s[i].1)),
    decreases s,
{
    if s.len() > 0 {
        lemma_val_pairs_view(s.drop_first());
        assert forall|i: int|
            #![trigger val_pairs_view(s)[i]]
            #![trigger s[i]]
            0 <= i < s.len() implies val_pairs_view(s)[i] == (s[i].0@, value_view(s[i].1)) by {
            if i > 0 {
                assert(val_pairs_view(s)[i] == val_pairs_view(s.drop_first())[i - 1]);
                assert(s.drop_first()[i - 1] == s[i]);
            }
        }
    }
}

impl DeepView for Value {
    type V = ValueV;

    open spec fn deep_view(&self) -> ValueV {
        value_view(*self)
    }
}

/// A value references only frames below `n`, throughout its structure.
pub open spec fn val_wf(v: ValueV, n: int) -> bool
    decreases v,
{
    match v {
        ValueV::List(items) => vals_wf(items, n),
        ValueV::Dict(pairs) => val_pairs_wf(pairs, n),
        ValueV::Function(_, _, env) => 0 <= env < n,
        ValueV::Class { methods } => val_pairs_wf(methods, n),
        ValueV::Instance { class, attributes } => val_pairs_wf(attributes, n),
        ValueV::Closure(_, _, env) => 0 <= env < n,
        ValueV::Generator(_, env, _) => 0 <= env < n,
        _ => true,
    }
}

/// All of a sequence of values reference only frames below `n`.
pub open spec fn vals_wf(s: Seq<ValueV>, n: int) -> bool
    decreases s,
{
    s.len() == 0 || (val_wf(s[0], n) && vals_wf(s.drop_first(), n))
}

/// All values of a name-value table reference only frames below `n`.
pub open spec fn val_pairs_wf(s: Seq<(Seq<char>, ValueV)>, n: int) -> bool
    decreases s,
{
    s.len() == 0 || (val_wf(s[0].1, n) && val_pairs_wf(s.drop_first(), n))
}

/// A value well formed below `n` is well formed below any larger bound.
pub proof fn lemma_val_wf_mono(v: ValueV, n: int, m: int)
    requires
        val_wf(v, n),
        n <= m,
    ensures
        val_wf(v, m),
    decreases v,
{
    match v {
        ValueV::List(items) => lemma_vals_wf_mono(items, n, m),
        ValueV::Dict(pairs) => lemma_val_pairs_wf_mono(pairs, n, m),
        ValueV::Class { methods } => lemma_val_pairs_wf_mono(methods, n, m),
        ValueV::Instance { class, attributes } => lemma_val_pairs_wf_mono(attributes, n, m),
        _ => {},
    }
}

pub proof fn lemma_vals_wf_mono(s: Seq<ValueV>, n: int, m: int)
    requires
        vals_wf(s, n),
        n <= m,
    ensures
        vals_wf(s, m),
    decreases s,
{
    if s.len() > 0 {
        lemma_val_wf_mono(s[0], n, m);
        lemma_vals_wf_mono(s.drop_first(), n, m);
    }
}

pub proof fn lemma_val_pairs_wf_mono(s: Seq<(Seq<char>, ValueV)>, n: int, m: int)
    requires
        val_pairs_wf(s, n),
        n <= m,
    ensures
        val_pairs_wf(s, m),
    decreases s,
{
    if s.len() > 0 {
        lemma_val_wf_mono(s[0].1, n, m);
        lemma_val_pairs_wf_mono(s.drop_first(), n, m);
    }
}

/// Pointwise well-formedness of a table equals the recursive form.
pub proof fn lemma_val_pairs_wf_index(s: Seq<(Seq<char>, ValueV)>, n: int)
    ensures
        val_pairs_wf(s, n) <==> (forall|i: int|
            0 <= i < s.len() ==> val_wf((#[trigger] s[i]).1, n)),
    decreases s,
{
    if s.len() > 0 {
        lemma_val_pairs_wf_index(s.drop_first(), n);
        assert(forall|i: int|
            1 <= i < s.len() ==> (#[trigger] s[i]) == s.drop_first()[i - 1]);
    }
}

/// A member of a well-formed table is a well-formed value.
pub proof fn lemma_assoc_get_wf(s: Seq<(Seq<char>, ValueV)>, k: Seq<char>, n: int)
    requires
        val_pairs_wf(s, n),
    ensures
        crate::table::assoc_get(s, k) matches Some(v) ==> val_wf(v, n),
    decreases s,
{
    if s.len() > 0 && s[0].0 != k {
        lemma_assoc_get_wf(s.drop_first(), k, n);
    }
}

/// Updating a well-formed table with a well-formed value keeps it well
/// formed.
pub proof fn lemma_assoc_set_wf(s: Seq<(Seq<char>, ValueV)>, k: Seq<char>, v: ValueV, n: int)
    requires
        val_pairs_wf(s, n),
        val_wf(v, n),
    ensures
        val_pairs_wf(crate::table::assoc_set(s, k, v), n),
    decreases s,
{
    let t = crate::table::assoc_set(s, k, v);
    if s.len() == 0 {
        assert(t == seq![(k, v)]);
        assert(t[0] == (k, v));
        assert(t.drop_first() =~= Seq::<(Seq<char>, ValueV)>::empty());
        assert(val_wf(t[0].1, n) && val_pairs_wf(t.drop_first(), n));
    } else if s[0].0 == k {
        assert(t == seq![(k, v)] + s.drop_first());
        assert(t.len() == 1 + s.drop_first().len());
        assert(t[0] == (k, v));
        assert(t.drop_first() =~= s.drop_first());
        assert(val_wf(t[0].1, n) && val_pairs_wf(t.drop_first(), n));
    } else {
        lemma_assoc_set_wf(s.drop_first(), k, v, n);
        assert(t == seq![s[0]] + crate::table::assoc_set(s.drop_first(), k, v));
        assert(t.len() == 1 + crate::table::assoc_set(s.drop_first(), k, v).len());
        assert(t[0] == s[0]);
        assert(t.drop_first() =~= crate::table::assoc_set(s.drop_first(), k, v));
        assert(val_wf(t[0].1, n) && val_pairs_wf(t.drop_first(), n));
    }
}

/// Structure-preserving copy of a value.
pub fn clone_value(v: &Value) -> (r: Value)
    ensures
        r.deep_view() == v.deep_view(),
    decreases *v, 1int,
{
    match v {
        Value::Int(i) => Value::Int(*i),
        Value::Float(b) => Value::Float(*b),
        Value::String(s) => Value::String(s.clone()),
        Value::Bool(b) => Value::Bool(*b),
        Value::List(items) => {
            let mut out: Vec<Value> = Vec::new();
            let mut i: usize = 0;
            while i < items.len()
                invariant
                    i <= items@.len(),
                    out@.len() == i,
                    forall|j: int|
                        0 <= j < i ==> value_view(#[trigger] out@[j]) == value_view(items@[j]),
                decreases items@.len() - i,
            {
                proof {
                    broadcast use vstd::std_specs::vec::axiom_vec_index_decreases;

                    assert(decreases_to!(*v => items[i as int]));
                }
                out.push(clone_value(&items[i]));
                i = i + 1;
            }
            proof {
                lemma_values_view(out@);
                lemma_values_view(items@);
                assert(values_view(out@) =~= values_view(items@));
            }
            Value::List(out)
        },
        Value::Dict(pairs) => Value::Dict(clone_val_pairs(pairs)),
        Value::Function(params, body, env) => Value::Function(
            rc_clone(params),
            rc_clone(body),
            *env,
        ),
        Value::Class { methods } => Value::Class { methods: clone_val_pairs(methods) },
        Value::Instance { class, attributes } => Value::Instance {
            class: class.clone(),
            attributes: clone_val_pairs(attributes),
        },
        Value::Closure(params, body, env) => Value::Closure(rc_clone(params), rc_clone(body), *env),
        Value::Generator(body, env, pos) => Value::Generator(rc_clone(body), *env, *pos),
        Value::NoneVal => Value::NoneVal,
    }
}

/// Structure-preserving copy of a name-value table.
pub fn clone_val_pairs(pairs: &Vec<(String, Value)>) -> (r: Vec<(String, Value)>)
    ensures
        val_pairs_view(r@) == val_pairs_view(pairs@),
        r.deep_view() == pairs.deep_view(),
    decreases *pairs, 0int,
{
    let mut out: Vec<(String, Value)> = Vec::new();
    let mut i: usize = 0;
    while i < pairs.len()
        invariant
            i <= pairs@.len(),
            out@.len() == i,
            forall|j: int|
                0 <= j < i ==> (#[trigger] out@[j]).0@ == pairs@[j].0@ && value_view(out@[j].1)
                    == value_view(pairs@[j].1),
        decreases pairs@.len() - i,
    {
        proof {
            broadcast use vstd::std_specs::vec::axiom_vec_index_decreases;

            assert(decreases_to!(*pairs => pairs[i as int]));
        }
        out.push((pairs[i].0.clone(), clone_value(&pairs[i].1)));
        i = i + 1;
    }
    proof {
        lemma_val_pairs_view(out@);
        lemma_val_pairs_view(pairs@);
        assert(val_pairs_view(out@) =~= val_pairs_view(pairs@));
        assert(out.deep_view() =~= pairs.deep_view());
    }
    out
}


/// Appending a well-formed value keeps a value sequence well formed.
pub proof fn lemma_vals_wf_push(s: Seq<ValueV>, v: ValueV, n: int)
    requires
        vals_wf(s, n),
        val_wf(v, n),
    ensures
        vals_wf(s.push(v), n),
    decreases s,
{
    if s.len() == 0 {
        assert(s.push(v)[0] == v);
        assert(s.push(v).drop_first() =~= Seq::<ValueV>::empty());
        assert(val_wf(s.push(v)[0], n) && vals_wf(s.push(v).drop_first(), n));
    } else {
        lemma_vals_wf_push(s.drop_first(), v, n);
        assert(s.push(v)[0] == s[0]);
        assert(s.push(v).drop_first() =~= s.drop_first().push(v));
        assert(val_wf(s.push(v)[0], n) && vals_wf(s.push(v).drop_first(), n));
    }
}

/// Pointwise well-formedness of a value sequence equals the recursive
/// form.
pub proof fn lemma_vals_wf_index(s: Seq<ValueV>, n: int)
    ensures
        vals_wf(s, n) <==> (forall|i: int| 0 <= i < s.len() ==> val_wf(#[trigger] s[i], n)),
    decreases s,
{
    if s.len() > 0 {
        lemma_vals_wf_index(s.drop_first(), n);
        assert(forall|i: int| 1 <= i < s.len() ==> (#[trigger] s[i]) == s.drop_first()[i - 1]);
    }
}

/// The textual form of a value, as the interpreter reports it: numbers in
/// decimal, strings quoted, lists bracketed, dictionaries braced, and
/// callables as tags.
pub open spec fn spec_render(v: ValueV) -> Seq<char>
    decreases v,
{
    match v {
        ValueV::Int(i) => crate::strutil::int_text(i),
        ValueV::Float(b) => crate::float_bits::float_text(b),
        ValueV::String(s) => "\""@ + s + "\""@,
        ValueV::Bool(b) => if b {
            "true"@
        } else {
            "false"@
        },
        ValueV::List(items) => "["@ + spec_render_items(items) + "]"@,
        ValueV::Dict(pairs) => "{"@ + spec_render_pairs(pairs) + "}"@,
        ValueV::Function(_, _, _) => "<function>"@,
        ValueV::Class { methods } => "<class>"@,
        ValueV::Instance { class, attributes } => "<instance of "@ + class + ">"@,
        ValueV::Closure(_, _, _) => "<closure>"@,
        ValueV::Generator(_, _, _) => "<generator>"@,
        ValueV::NoneVal => "None"@,
    }
}

/// The comma-joined renderings of a value sequence.
pub open spec fn spec_render_items(items: Seq<ValueV>) -> Seq<char>
    decreases items,
{
    if items.len() == 0 {
        Seq::empty()
    } else if items.len() == 1 {
        spec_render(items[0])
    } else {
        spec_render(items[0]) + ", "@ + spec_render_items(items.drop_first())
    }
}

/// The comma-joined renderings of a dictionary's entries.
pub open spec fn spec_render_pairs(pairs: Seq<(Seq<char>, ValueV)>) -> Seq<char>
    decreases pairs,
{
    if pairs.len() == 0 {
        Seq::empty()
    } else if pairs.len() == 1 {
        "\""@ + pairs[0].0 + "\": "@ + spec_render(pairs[0].1)
    } else {
        "\""@ + pairs[0].0 + "\": "@ + spec_render(pairs[0].1) + ", "@ + spec_render_pairs(
            pairs.drop_first(),
        )
    }
}

impl Value {
    /// Renders the value as its reported text.
    pub fn render(&self) -> (r: String)
        ensures
            r@ == spec_render(self.deep_view()),
        decreases *self, 1int,
    {
        match self {
            Value::Int(i) => crate::strutil::i64_to_text(*i),
            Value::Float(b) => crate::float_bits::bits_to_text(*b),
            Value::String(s) => {
                let mut m = <String as vstd::string::StringExecFns>::from_str("\"");
                vstd::string::StringExecFns::append(&mut m, s.as_str());
                vstd::string::StringExecFns::append(&mut m, "\"");
                proof {
                    assert(m@ =~= "\""@ + s@ + "\""@);
                }
                m
            },
            Value::Bool(b) => if *b {
                <String as vstd::string::StringExecFns>::from_str("true")
            } else {
                <String as vstd::string::StringExecFns>::from_str("false")
            },
            Value::List(items) => {
                let mut m = <String as vstd::string::StringExecFns>::from_str("[");
                let inner = render_items(items, 0);
                vstd::string::StringExecFns::append(&mut m, inner.as_str());
                vstd::string::StringExecFns::append(&mut m, "]");
                proof {
                    lemma_values_view(items@);
                    assert(values_view(items@).skip(0) =~= values_view(items@));
                    assert(m@ =~= "["@ + spec_render_items(values_view(items@)) + "]"@);
                }
                m
            },
            Value::Dict(pairs) => {
                let mut m = <String as vstd::string::StringExecFns>::from_str("{");
                let inner = render_pairs(pairs, 0);
                vstd::string::StringExecFns::append(&mut m, inner.as_str());
                vstd::string::StringExecFns::append(&mut m, "}");
                proof {
                    lemma_val_pairs_view(pairs@);
                    assert(val_pairs_view(pairs@).skip(0) =~= val_pairs_view(pairs@));
                    assert(m@ =~= "{"@ + spec_render_pairs(val_pairs_view(pairs@)) + "}"@);
                }
                m
            },
            Value::Function(_, _, _) => <String as vstd::string::StringExecFns>::from_str("<function>"),
            Value::Class { .. } => <String as vstd::string::StringExecFns>::from_str("<class>"),
            Value::Instance { class, .. } => {
                let mut m = <String as vstd::string::StringExecFns>::from_str("<instance of ");
                vstd::string::StringExecFns::append(&mut m, class.as_str());
                vstd::string::StringExecFns::append(&mut m, ">");
                proof {
                    assert(m@ =~= "<instance of "@ + class@ + ">"@);
                }
                m
            },
            Value::Closure(_, _, _) => <String as vstd::string::StringExecFns>::from_str("<closure>"),
            Value::Generator(_, _, _) => <String as vstd::string::StringExecFns>::from_str("<generator>"),
            Value::NoneVal => <String as vstd::string::StringExecFns>::from_str("None"),
        }
    }
}

/// Renders the items from index `i`, comma joined.
fn render_items(items: &Vec<Value>, i: usize) -> (r: String)
    requires
        i <= items@.len(),
    ensures
        r@ == spec_render_items(values_view(items@).skip(i as int)),
    decreases *items, items@.len() - i,
{
    proof {
        lemma_values_view(items@);
    }
    if i >= items.len() {
        proof {
            assert(values_view(items@).skip(i as int) =~= Seq::<ValueV>::empty());
        }
        return String::new();
    }
    proof {
        broadcast use vstd::std_specs::vec::axiom_vec_index_decreases;

        assert(decreases_to!(*items => items[i as int]));
        assert(values_view(items@).skip(i as int)[0] == value_view(items@[i as int]));
        assert(values_view(items@).skip(i as int).drop_first() =~= values_view(items@).skip(
            i + 1,
        ));
        assert(values_view(items@).skip(i as int).len() == items@.len() - i);
    }
    let mut m = items[i].render();
    if i + 1 < items.len() {
        vstd::string::StringExecFns::append(&mut m, ", ");
        let rest = render_items(items, i + 1);
        vstd::string::StringExecFns::append(&mut m, rest.as_str());
        proof {
            assert(m@ =~= spec_render(value_view(items@[i as int])) + ", "@ + spec_render_items(
                values_view(items@).skip(i + 1),
            ));
        }
    }
    m
}

/// Renders the entries from index `i`, comma joined.
fn render_pairs(pairs: &Vec<(String, Value)>, i: usize) -> (r: String)
    requires
        i <= pairs@.len(),
    ensures
        r@ == spec_render_pairs(val_pairs_view(pairs@).skip(i as int)),
    decreases *pairs, pairs@.len() - i,
{
    proof {
        lemma_val_pairs_view(pairs@);
    }
    if i >= pairs.len() {
        proof {
            assert(val_pairs_view(pairs@).skip(i as int) =~= Seq::<(Seq<char>, ValueV)>::empty());
        }
        return String::new();
    }
    proof {
        broadcast use vstd::std_specs::vec::axiom_vec_index_decreases;

        assert(decreases_to!(*pairs => pairs[i as int]));
        assert(val_pairs_view(pairs@).skip(i as int)[0] == (
            pairs@[i as int].0@,
            value_view(pairs@[i as int].1),
        ));
        assert(val_pairs_view(pairs@).skip(i as int).drop_first() =~= val_pairs_view(
            pairs@,
        ).skip(i + 1));
        assert(val_pairs_view(pairs@).skip(i as int).len() == pairs@.len() - i);
    }
    let mut m = <String as vstd::string::StringExecFns>::from_str("\"");
    vstd::string::StringExecFns::append(&mut m, pairs[i].0.as_str());
    vstd::string::StringExecFns::append(&mut m, "\": ");
    let rendered = pairs[i].1.render();
    vstd::string::StringExecFns::append(&mut m, rendered.as_str());
    if i + 1 < pairs.len() {
        vstd::string::StringExecFns::append(&mut m, ", ");
        let rest = render_pairs(pairs, i + 1);
        vstd::string::StringExecFns::append(&mut m, rest.as_str());
        proof {
            assert(m@ =~= "\""@ + pairs@[i as int].0@ + "\": "@ + spec_render(
                value_view(pairs@[i as int].1),
            ) + ", "@ + spec_render_pairs(val_pairs_view(pairs@).skip(i + 1)));
        }
    } else {
        proof {
            assert(m@ =~= "\""@ + pairs@[i as int].0@ + "\": "@ + spec_render(
                value_view(pairs@[i as int].1),
            ));
        }
    }
    m
}

} // verus!
