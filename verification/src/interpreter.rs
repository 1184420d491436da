use vstd::prelude::*;
use vstd::string::StringExecFns;
use std::rc::Rc;
use crate::ast::{ast_view, ASTNode, AstV, Op};
use crate::error::{BellronosError, ErrV};
use crate::float_bits::{float_eq, float_ge, float_gt, float_le, float_lt, float_of_i64, float_to_i64};
use crate::lexer::{spec_tokenize, Lexer};
use crate::parser::{sp_parse, Parser};
use crate::standard_library::StandardLibrary;
use crate::strutil::{concat_str, rc_clone, str_eq};
use crate::table::{assoc_get, assoc_set};
use crate::type_system::{op_text, Type, TypeV};
use crate::value::{
    clone_val_pairs, clone_value, val_pairs_wf, val_wf, vals_wf, value_view, Value, ValueV,
};

verus! {

/// One scope: bindings and the frame it was opened under.  Frames form an
/// arena; a parent always lies at a smaller index.
pub struct Frame {
    pub parent: Option<usize>,
    pub bindings: Vec<(String, Value)>,
}

/// Mathematical image of `Frame`.
#[verifier::ext_equal]
pub struct FrameV {
    pub parent: Option<int>,
    pub bindings: Seq<(Seq<char>, ValueV)>,
}

impl DeepView for Frame {
    type V = FrameV;

    open spec fn deep_view(&self) -> FrameV {
        FrameV {
            parent: match self.parent {
                Some(p) => Some(p as int),
                None => None,
            },
            bindings: self.bindings.deep_view(),
        }
    }
}

/// One prepared interop outcome: what running `code` under the toolchain
/// of `language` produced, standard output on success or the failure text.
pub struct InteropOutcome {
    pub language: String,
    pub code: String,
    pub ok: bool,
    pub text: String,
}

/// Mathematical image of `InteropOutcome`.
#[verifier::ext_equal]
pub struct InteropOutcomeV {
    pub language: Seq<char>,
    pub code: Seq<char>,
    pub ok: bool,
    pub text: Seq<char>,
}

impl DeepView for InteropOutcome {
    type V = InteropOutcomeV;

    open spec fn deep_view(&self) -> InteropOutcomeV {
        InteropOutcomeV {
            language: self.language@,
            code: self.code@,
            ok: self.ok,
            text: self.text@,
        }
    }
}

/// Mathematical image of the interpreter: the frame arena plus the fixed
/// standard library, package table and prepared interop outcomes.
#[verifier::ext_equal]
pub struct InterpV {
    pub frames: Seq<FrameV>,
    pub stdlib: Seq<(Seq<char>, Seq<(Seq<char>, ValueV)>)>,
    pub packages: Seq<(Seq<char>, Seq<char>)>,
    pub interop: Seq<InteropOutcomeV>,
}

/// A frame is well formed at index `i` of an arena of `n` frames: its
/// parent lies strictly below it and its values reference the arena only.
pub open spec fn frame_wf(f: FrameV, i: int, n: int) -> bool {
    &&& (f.parent matches Some(p) ==> 0 <= p < i)
    &&& val_pairs_wf(f.bindings, n)
}

/// Every frame of the arena is well formed at its own index.
pub open spec fn frames_wf(frames: Seq<FrameV>) -> bool {
    forall|i: int| 0 <= i < frames.len() ==> frame_wf(#[trigger] frames[i], i, frames.len() as int)
}

/// The standard library's values reference only the global frame.
pub open spec fn stdlib_wf(stdlib: Seq<(Seq<char>, Seq<(Seq<char>, ValueV)>)>) -> bool {
    forall|i: int| 0 <= i < stdlib.len() ==> val_pairs_wf((#[trigger] stdlib[i]).1, 1int)
}

/// The interpreter's invariant: a global frame exists and the arena and
/// the standard library are well formed.
pub open spec fn interp_wf(st: InterpV) -> bool {
    &&& st.frames.len() >= 1
    &&& frames_wf(st.frames)
    &&& stdlib_wf(st.stdlib)
}

/// The value a name denotes, walking the frame chain from `cur` outward.
pub open spec fn spec_lookup(frames: Seq<FrameV>, cur: int, name: Seq<char>) -> Option<ValueV>
    decreases cur,
{
    if !(0 <= cur < frames.len()) {
        None
    } else {
        match assoc_get(frames[cur].bindings, name) {
            Some(v) => Some(v),
            None => match frames[cur].parent {
                Some(p) => if 0 <= p < cur {
                    spec_lookup(frames, p, name)
                } else {
                    None
                },
                None => None,
            },
        }
    }
}

/// The frame whose binding of `name` an assignment would overwrite, if a
/// frame on the chain already binds it.
pub open spec fn spec_target(frames: Seq<FrameV>, cur: int, name: Seq<char>) -> Option<int>
    decreases cur,
{
    if !(0 <= cur < frames.len()) {
        None
    } else if assoc_get(frames[cur].bindings, name) is Some {
        Some(cur)
    } else {
        match frames[cur].parent {
            Some(p) => if 0 <= p < cur {
                spec_target(frames, p, name)
            } else {
                None
            },
            None => None,
        }
    }
}

/// The arena after binding `name` to `v`: the nearest enclosing frame that
/// already binds the name is updated, otherwise the current frame.
pub open spec fn spec_assign(frames: Seq<FrameV>, cur: int, name: Seq<char>, v: ValueV) -> Seq<
    FrameV,
> {
    let tgt = match spec_target(frames, cur, name) {
        Some(f) => f,
        None => cur,
    };
    if 0 <= tgt < frames.len() {
        frames.update(
            tgt,
            FrameV { parent: frames[tgt].parent, bindings: assoc_set(frames[tgt].bindings, name, v) },
        )
    } else {
        frames
    }
}

/// A looked-up value is well formed for the arena.
pub proof fn lemma_lookup_wf(frames: Seq<FrameV>, cur: int, name: Seq<char>)
    requires
        frames_wf(frames),
    ensures
        spec_lookup(frames, cur, name) matches Some(v) ==> val_wf(v, frames.len() as int),
    decreases cur,
{
    if 0 <= cur < frames.len() {
        crate::value::lemma_assoc_get_wf(frames[cur].bindings, name, frames.len() as int);
        match frames[cur].parent {
            Some(p) => if 0 <= p < cur {
                lemma_lookup_wf(frames, p, name);
            },
            None => {},
        }
    }
}

/// The target of an assignment lies inside the arena.
pub proof fn lemma_target_in_range(frames: Seq<FrameV>, cur: int, name: Seq<char>)
    ensures
        spec_target(frames, cur, name) matches Some(f) ==> 0 <= f < frames.len(),
    decreases cur,
{
    if 0 <= cur < frames.len() {
        match frames[cur].parent {
            Some(p) => if 0 <= p < cur {
                lemma_target_in_range(frames, p, name);
            },
            None => {},
        }
    }
}

/// Assignment of a well-formed value keeps the arena well formed and its
/// length fixed.
pub proof fn lemma_assign_wf(frames: Seq<FrameV>, cur: int, name: Seq<char>, v: ValueV)
    requires
        frames_wf(frames),
        0 <= cur < frames.len(),
        val_wf(v, frames.len() as int),
    ensures
        frames_wf(spec_assign(frames, cur, name, v)),
        spec_assign(frames, cur, name, v).len() == frames.len(),
{
    lemma_target_in_range(frames, cur, name);
    let tgt = match spec_target(frames, cur, name) {
        Some(f) => f,
        None => cur,
    };
    let out = spec_assign(frames, cur, name, v);
    crate::value::lemma_assoc_set_wf(frames[tgt].bindings, name, v, frames.len() as int);
    assert forall|i: int| 0 <= i < out.len() implies frame_wf(#[trigger] out[i], i, out.len() as int) by {
        if i != tgt {
            assert(out[i] == frames[i]);
        }
    }
}

/// A new frame whose parent exists keeps the grown arena well formed.
pub proof fn lemma_push_frame_wf(frames: Seq<FrameV>, f: FrameV)
    requires
        frames_wf(frames),
        f.parent matches Some(p) ==> 0 <= p < frames.len(),
        val_pairs_wf(f.bindings, frames.len() as int + 1),
    ensures
        frames_wf(frames.push(f)),
{
    let out = frames.push(f);
    assert forall|i: int| 0 <= i < out.len() implies frame_wf(#[trigger] out[i], i, out.len() as int) by {
        if i < frames.len() {
            assert(out[i] == frames[i]);
            assert(frame_wf(frames[i], i, frames.len() as int));
            crate::value::lemma_val_pairs_wf_mono(
                frames[i].bindings,
                frames.len() as int,
                frames.len() as int + 1,
            );
        } else {
            assert(out[i] == f);
        }
    }
}

/// The value an argument is bound at when its parameter declares a numeric
/// type: numbers convert to the declared representation, everything else
/// binds unchanged.
pub open spec fn spec_coerce(v: ValueV, t: TypeV) -> ValueV {
    match (v, t) {
        (ValueV::Float(b), TypeV::Int) => ValueV::Int(float_to_i64(b)),
        (ValueV::Int(i), TypeV::Float) => ValueV::Float(float_of_i64(i)),
        _ => v,
    }
}

/// The bindings of a call frame: parameters paired with their coerced
/// arguments, up to the shorter of the two lists.
pub open spec fn spec_zip_bind(params: Seq<(Seq<char>, TypeV)>, vals: Seq<ValueV>) -> Seq<
    (Seq<char>, ValueV),
>
    decreases params,
{
    if params.len() == 0 || vals.len() == 0 {
        Seq::empty()
    } else {
        seq![(params[0].0, spec_coerce(vals[0], params[0].1))] + spec_zip_bind(
            params.drop_first(),
            vals.drop_first(),
        )
    }
}

/// Coercion never introduces a frame reference.
pub proof fn lemma_coerce_wf(v: ValueV, t: TypeV, n: int)
    requires
        val_wf(v, n),
    ensures
        val_wf(spec_coerce(v, t), n),
{
}

/// Call-frame bindings of well-formed arguments are well formed.
pub proof fn lemma_zip_bind_wf(params: Seq<(Seq<char>, TypeV)>, vals: Seq<ValueV>, n: int)
    requires
        vals_wf(vals, n),
    ensures
        val_pairs_wf(spec_zip_bind(params, vals), n),
    decreases params,
{
    if params.len() > 0 && vals.len() > 0 {
        lemma_zip_bind_wf(params.drop_first(), vals.drop_first(), n);
        let out = spec_zip_bind(params, vals);
        assert(out[0] == (params[0].0, spec_coerce(vals[0], params[0].1)));
        assert(out.drop_first() =~= spec_zip_bind(params.drop_first(), vals.drop_first()));
        lemma_coerce_wf(vals[0], params[0].1, n);
    }
}

/// The value of one binary operation: numeric operators stay within the
/// operand representation (integer arithmetic wraps), `/` always yields a
/// float, `+` joins strings, comparisons and `==` on primitives yield
/// booleans, and everything else is a runtime error.
pub open spec fn spec_apply_binop(l: ValueV, op: Op, r: ValueV) -> Result<ValueV, ErrV> {
    match (l, op, r) {
        (ValueV::Int(a), Op::Add, ValueV::Int(b)) => Ok(
            ValueV::Int(vstd::wrapping::i64_specs::wrapping_add(a, b)),
        ),
        (ValueV::Float(a), Op::Add, ValueV::Float(b)) => Ok(
            ValueV::Float(crate::float_bits::float_add(a, b)),
        ),
        (ValueV::String(a), Op::Add, ValueV::String(b)) => Ok(ValueV::String(a + b)),
        (ValueV::Int(a), Op::Sub, ValueV::Int(b)) => Ok(
            ValueV::Int(vstd::wrapping::i64_specs::wrapping_sub(a, b)),
        ),
        (ValueV::Float(a), Op::Sub, ValueV::Float(b)) => Ok(
            ValueV::Float(crate::float_bits::float_sub(a, b)),
        ),
        (ValueV::Int(a), Op::Mul, ValueV::Int(b)) => Ok(
            ValueV::Int(vstd::wrapping::i64_specs::wrapping_mul(a, b)),
        ),
        (ValueV::Float(a), Op::Mul, ValueV::Float(b)) => Ok(
            ValueV::Float(crate::float_bits::float_mul(a, b)),
        ),
        (ValueV::Int(a), Op::Div, ValueV::Int(b)) => Ok(
            ValueV::Float(crate::float_bits::float_div(float_of_i64(a), float_of_i64(b))),
        ),
        (ValueV::Float(a), Op::Div, ValueV::Float(b)) => Ok(
            ValueV::Float(crate::float_bits::float_div(a, b)),
        ),
        (ValueV::Int(a), Op::Gt, ValueV::Int(b)) => Ok(ValueV::Bool(a > b)),
        (ValueV::Float(a), Op::Gt, ValueV::Float(b)) => Ok(ValueV::Bool(float_gt(a, b))),
        (ValueV::Int(a), Op::Lt, ValueV::Int(b)) => Ok(ValueV::Bool(a < b)),
        (ValueV::Float(a), Op::Lt, ValueV::Float(b)) => Ok(ValueV::Bool(float_lt(a, b))),
        (ValueV::Int(a), Op::GtEq, ValueV::Int(b)) => Ok(ValueV::Bool(a >= b)),
        (ValueV::Float(a), Op::GtEq, ValueV::Float(b)) => Ok(ValueV::Bool(float_ge(a, b))),
        (ValueV::Int(a), Op::LtEq, ValueV::Int(b)) => Ok(ValueV::Bool(a <= b)),
        (ValueV::Float(a), Op::LtEq, ValueV::Float(b)) => Ok(ValueV::Bool(float_le(a, b))),
        (ValueV::Int(a), Op::Eq, ValueV::Int(b)) => Ok(ValueV::Bool(a == b)),
        (ValueV::Float(a), Op::Eq, ValueV::Float(b)) => Ok(ValueV::Bool(float_eq(a, b))),
        (ValueV::String(a), Op::Eq, ValueV::String(b)) => Ok(ValueV::Bool(a == b)),
        (ValueV::Bool(a), Op::Eq, ValueV::Bool(b)) => Ok(ValueV::Bool(a == b)),
        _ => Err(ErrV::Runtime("Unsupported operation: "@ + op_text(op))),
    }
}

/// The class's method table as runtime values: each inner function
/// definition captured under the current frame.
pub open spec fn spec_class_table(methods: Seq<AstV>, cur: int, acc: Seq<(Seq<char>, ValueV)>) -> Seq<
    (Seq<char>, ValueV),
>
    decreases methods,
{
    if methods.len() == 0 {
        acc
    } else {
        let acc2 = match methods[0] {
            AstV::FunctionDef { name, args, return_type, body } => assoc_set(
                acc,
                name,
                ValueV::Function(args, body, cur),
            ),
            _ => acc,
        };
        spec_class_table(methods.drop_first(), cur, acc2)
    }
}

/// A class table built from well-formed pieces is well formed.
pub proof fn lemma_class_table_wf(methods: Seq<AstV>, cur: int, acc: Seq<(Seq<char>, ValueV)>, n: int)
    requires
        val_pairs_wf(acc, n),
        0 <= cur < n,
    ensures
        val_pairs_wf(spec_class_table(methods, cur, acc), n),
    decreases methods,
{
    if methods.len() > 0 {
        match methods[0] {
            AstV::FunctionDef { name, args, return_type, body } => {
                crate::value::lemma_assoc_set_wf(
                    acc,
                    name,
                    ValueV::Function(args, body, cur),
                    n,
                );
                lemma_class_table_wf(
                    methods.drop_first(),
                    cur,
                    assoc_set(acc, name, ValueV::Function(args, body, cur)),
                    n,
                );
            },
            _ => {
                lemma_class_table_wf(methods.drop_first(), cur, acc, n);
            },
        }
    }
}

/// The first prepared interop outcome for this language and fragment.
pub open spec fn spec_interop_find(s: Seq<InteropOutcomeV>, language: Seq<char>, code: Seq<char>) -> Option<
    InteropOutcomeV,
>
    decreases s,
{
    if s.len() == 0 {
        None
    } else if s[0].language == language && s[0].code == code {
        Some(s[0])
    } else {
        spec_interop_find(s.drop_first(), language, code)
    }
}

/// The error reported when the evaluation budget runs out.
pub open spec fn out_of_fuel() -> ErrV {
    ErrV::Runtime("evaluation budget exhausted"@)
}

/// The value of a node, together with the frame arena it leaves behind.
/// `fuel` bounds the number of evaluation steps.
pub open spec fn spec_eval(st: InterpV, cur: int, node: AstV, fuel: nat) -> (Result<
    ValueV,
    ErrV,
>, Seq<FrameV>)
    decreases fuel, 0int,
{
    if fuel == 0 {
        (Err(out_of_fuel()), st.frames)
    } else {
        match node {
            AstV::Module { body } => spec_eval_seq(st, cur, body, (fuel - 1) as nat),
            AstV::Import { names } => spec_eval_imports(st, cur, names, (fuel - 1) as nat),
            AstV::FunctionDef { name, args, return_type, body } => {
                let v = ValueV::Function(args, body, cur);
                (Ok(ValueV::NoneVal), spec_assign(st.frames, cur, name, v))
            },
            AstV::ClassDef { name, methods } => {
                let table = spec_class_table(methods, cur, Seq::empty());
                (
                    Ok(ValueV::NoneVal),
                    spec_assign(st.frames, cur, name, ValueV::Class { methods: table }),
                )
            },
            AstV::Assign { target, value } => {
                let (rv, f1) = spec_eval(st, cur, *value, (fuel - 1) as nat);
                match rv {
                    Ok(v) => (
                        Ok(ValueV::NoneVal),
                        spec_assign(f1, cur, target, v),
                    ),
                    Err(e) => (Err(e), f1),
                }
            },
            AstV::Expr { value } => spec_eval(st, cur, *value, (fuel - 1) as nat),
            AstV::Call { func, args } => {
                match spec_lookup(st.frames, cur, func) {
                    Some(ValueV::Function(params, fbody, env)) => {
                        let (ra, f1) = spec_eval_args(
                            st,
                            cur,
                            args,
                            Seq::empty(),
                            (fuel - 1) as nat,
                        );
                        match ra {
                            Ok(vals) => {
                                let frame = FrameV {
                                    parent: Some(env),
                                    bindings: spec_zip_bind(params, vals),
                                };
                                let st1 = InterpV { frames: f1.push(frame), ..st };
                                spec_eval_seq(st1, f1.len() as int, fbody, (fuel - 1) as nat)
                            },
                            Err(e) => (Err(e), f1),
                        }
                    },
                    Some(ValueV::Class { methods }) => (
                        Ok(ValueV::Instance { class: func, attributes: Seq::empty() }),
                        st.frames,
                    ),
                    Some(_) => (Err(ErrV::Runtime(func + " is not callable"@)), st.frames),
                    None => (
                        Err(ErrV::Runtime("Undefined function: "@ + func)),
                        st.frames,
                    ),
                }
            },
            AstV::Str { value } => (Ok(ValueV::String(value)), st.frames),
            AstV::Num { value } => (Ok(ValueV::Float(value)), st.frames),
            AstV::Bool { value } => (Ok(ValueV::Bool(value)), st.frames),
            AstV::Name { id } => match spec_lookup(st.frames, cur, id) {
                Some(v) => (Ok(v), st.frames),
                None => (Err(ErrV::Runtime("Undefined variable: "@ + id)), st.frames),
            },
            AstV::BinOp { left, op, right } => {
                let (rl, f1) = spec_eval(st, cur, *left, (fuel - 1) as nat);
                match rl {
                    Ok(lv) => {
                        let st1 = InterpV { frames: f1, ..st };
                        let (rr, f2) = spec_eval(st1, cur, *right, (fuel - 1) as nat);
                        match rr {
                            Ok(rv) => (spec_apply_binop(lv, op, rv), f2),
                            Err(e) => (Err(e), f2),
                        }
                    },
                    Err(e) => (Err(e), f1),
                }
            },
            AstV::If { condition, body, orelse } => {
                let (rc, f1) = spec_eval(st, cur, *condition, (fuel - 1) as nat);
                match rc {
                    Ok(cv) => {
                        let st1 = InterpV { frames: f1, ..st };
                        if cv == ValueV::Bool(true) {
                            let (rb, f2) = spec_eval_seq(st1, cur, body, (fuel - 1) as nat);
                            match rb {
                                Ok(_) => (Ok(ValueV::NoneVal), f2),
                                Err(e) => (Err(e), f2),
                            }
                        } else {
                            let (rb, f2) = spec_eval_seq(st1, cur, orelse, (fuel - 1) as nat);
                            match rb {
                                Ok(_) => (Ok(ValueV::NoneVal), f2),
                                Err(e) => (Err(e), f2),
                            }
                        }
                    },
                    Err(e) => (Err(e), f1),
                }
            },
            AstV::While { condition, body } => {
                let (rc, f1) = spec_eval(st, cur, *condition, (fuel - 1) as nat);
                match rc {
                    Ok(cv) => {
                        let st1 = InterpV { frames: f1, ..st };
                        if cv == ValueV::Bool(true) {
                            let (rb, f2) = spec_eval_seq(st1, cur, body, (fuel - 1) as nat);
                            match rb {
                                Ok(_) => {
                                    let st2 = InterpV { frames: f2, ..st };
                                    spec_eval(
                                        st2,
                                        cur,
                                        AstV::While { condition, body },
                                        (fuel - 1) as nat,
                                    )
                                },
                                Err(e) => (Err(e), f2),
                            }
                        } else {
                            (Ok(ValueV::NoneVal), f1)
                        }
                    },
                    Err(e) => (Err(e), f1),
                }
            },
            AstV::For { target, iter, body } => {
                let (ri, f1) = spec_eval(st, cur, *iter, (fuel - 1) as nat);
                match ri {
                    Ok(iv) => match iv {
                        ValueV::List(items) => {
                            let st1 = InterpV { frames: f1, ..st };
                            spec_eval_for(st1, cur, target, items, body, (fuel - 1) as nat)
                        },
                        _ => (
                            Err(ErrV::Runtime("For loop iterable must be a list"@)),
                            f1,
                        ),
                    },
                    Err(e) => (Err(e), f1),
                }
            },
            AstV::Return { value } => match value {
                Some(v) => spec_eval(st, cur, *v, (fuel - 1) as nat),
                None => (Ok(ValueV::NoneVal), st.frames),
            },
            AstV::Closure { params, body } => (
                Ok(ValueV::Closure(params, body, cur)),
                st.frames,
            ),
            AstV::Generator { body } => (Ok(ValueV::Generator(body, cur, 0)), st.frames),
            AstV::Yield { value } => (
                Err(ErrV::Runtime("Yield outside of generator"@)),
                st.frames,
            ),
            AstV::Async { body } => spec_eval_seq(st, cur, body, (fuel - 1) as nat),
            AstV::Await { value } => spec_eval(st, cur, *value, (fuel - 1) as nat),
            AstV::List { elements } => {
                let (ra, f1) = spec_eval_args(st, cur, elements, Seq::empty(), (fuel - 1) as nat);
                match ra {
                    Ok(vals) => (Ok(ValueV::List(vals)), f1),
                    Err(e) => (Err(e), f1),
                }
            },
            AstV::Dict { pairs } => {
                let (rd, f1) = spec_eval_dict(st, cur, pairs, Seq::empty(), (fuel - 1) as nat);
                match rd {
                    Ok(table) => (Ok(ValueV::Dict(table)), f1),
                    Err(e) => (Err(e), f1),
                }
            },
            AstV::Attribute { value, attr } => {
                let (rv, f1) = spec_eval(st, cur, *value, (fuel - 1) as nat);
                match rv {
                    Ok(ov) => match ov {
                        ValueV::Instance { class, attributes } => match assoc_get(
                            attributes,
                            attr,
                        ) {
                            Some(v) => (Ok(v), f1),
                            None => match spec_lookup(f1, cur, class) {
                                Some(ValueV::Class { methods }) => match assoc_get(
                                    methods,
                                    attr,
                                ) {
                                    Some(m) => (Ok(m), f1),
                                    None => (
                                        Err(
                                            ErrV::Runtime(
                                                "Attribute '"@ + attr
                                                    + "' not found on instance of class '"@ + class
                                                    + "'"@,
                                            ),
                                        ),
                                        f1,
                                    ),
                                },
                                _ => (
                                    Err(
                                        ErrV::Runtime("Class '"@ + class + "' not found"@),
                                    ),
                                    f1,
                                ),
                            },
                        },
                        _ => (
                            Err(
                                ErrV::Runtime(
                                    "Cannot access attribute '"@ + attr
                                        + "' on non-instance type"@,
                                ),
                            ),
                            f1,
                        ),
                    },
                    Err(e) => (Err(e), f1),
                }
            },
            AstV::InteropCall { language, code } => {
                if !crate::interop::spec_supported_language(language) {
                    (Err(ErrV::Runtime("Unsupported language: "@ + language)), st.frames)
                } else {
                    match spec_interop_find(st.interop, language, code) {
                        Some(outcome) => if outcome.ok {
                            (Ok(ValueV::String(outcome.text)), st.frames)
                        } else {
                            (Err(ErrV::Runtime(outcome.text)), st.frames)
                        },
                        None => (
                            Err(
                                ErrV::Runtime("Interop runtime unavailable: "@ + language),
                            ),
                            st.frames,
                        ),
                    }
                }
            },
        }
    }
}

/// The value of a statement sequence: statements run in order and the last
/// value is the result, `NoneVal` for an empty block.
pub open spec fn spec_eval_seq(st: InterpV, cur: int, stmts: Seq<AstV>, fuel: nat) -> (Result<
    ValueV,
    ErrV,
>, Seq<FrameV>)
    decreases fuel, 0int,
{
    if fuel == 0 {
        (Err(out_of_fuel()), st.frames)
    } else if stmts.len() == 0 {
        (Ok(ValueV::NoneVal), st.frames)
    } else {
        let (r, f1) = spec_eval(st, cur, stmts[0], (fuel - 1) as nat);
        match r {
            Ok(v) => if stmts.len() == 1 {
                (Ok(v), f1)
            } else {
                let st1 = InterpV { frames: f1, ..st };
                spec_eval_seq(st1, cur, stmts.drop_first(), (fuel - 1) as nat)
            },
            Err(e) => (Err(e), f1),
        }
    }
}

/// The values of an expression list, evaluated left to right.
pub open spec fn spec_eval_args(
    st: InterpV,
    cur: int,
    args: Seq<AstV>,
    acc: Seq<ValueV>,
    fuel: nat,
) -> (Result<Seq<ValueV>, ErrV>, Seq<FrameV>)
    decreases fuel, 0int,
{
    if fuel == 0 {
        (Err(out_of_fuel()), st.frames)
    } else if args.len() == 0 {
        (Ok(acc), st.frames)
    } else {
        let (r, f1) = spec_eval(st, cur, args[0], (fuel - 1) as nat);
        match r {
            Ok(v) => {
                let st1 = InterpV { frames: f1, ..st };
                spec_eval_args(st1, cur, args.drop_first(), acc.push(v), (fuel - 1) as nat)
            },
            Err(e) => (Err(e), f1),
        }
    }
}

/// The entries of a dictionary literal: each key must evaluate to a
/// string; a repeated key replaces the earlier entry.
pub open spec fn spec_eval_dict(
    st: InterpV,
    cur: int,
    pairs: Seq<(AstV, AstV)>,
    acc: Seq<(Seq<char>, ValueV)>,
    fuel: nat,
) -> (Result<Seq<(Seq<char>, ValueV)>, ErrV>, Seq<FrameV>)
    decreases fuel, 0int,
{
    if fuel == 0 {
        (Err(out_of_fuel()), st.frames)
    } else if pairs.len() == 0 {
        (Ok(acc), st.frames)
    } else {
        let (rk, f1) = spec_eval(st, cur, pairs[0].0, (fuel - 1) as nat);
        match rk {
            Ok(kv) => match kv {
                ValueV::String(k) => {
                    let st1 = InterpV { frames: f1, ..st };
                    let (rv, f2) = spec_eval(st1, cur, pairs[0].1, (fuel - 1) as nat);
                    match rv {
                        Ok(v) => {
                            let st2 = InterpV { frames: f2, ..st };
                            spec_eval_dict(
                                st2,
                                cur,
                                pairs.drop_first(),
                                assoc_set(acc, k, v),
                                (fuel - 1) as nat,
                            )
                        },
                        Err(e) => (Err(e), f2),
                    }
                },
                _ => (Err(ErrV::Runtime("Dictionary keys must be strings"@)), f1),
            },
            Err(e) => (Err(e), f1),
        }
    }
}

/// A for loop: the target is bound to each element in order and the body
/// runs after each binding.
pub open spec fn spec_eval_for(
    st: InterpV,
    cur: int,
    target: Seq<char>,
    items: Seq<ValueV>,
    body: Seq<AstV>,
    fuel: nat,
) -> (Result<ValueV, ErrV>, Seq<FrameV>)
    decreases fuel, 0int,
{
    if fuel == 0 {
        (Err(out_of_fuel()), st.frames)
    } else if items.len() == 0 {
        (Ok(ValueV::NoneVal), st.frames)
    } else {
        let f1 = spec_assign(st.frames, cur, target, items[0]);
        let st1 = InterpV { frames: f1, ..st };
        let (rb, f2) = spec_eval_seq(st1, cur, body, (fuel - 1) as nat);
        match rb {
            Ok(_) => {
                let st2 = InterpV { frames: f2, ..st };
                spec_eval_for(st2, cur, target, items.drop_first(), body, (fuel - 1) as nat)
            },
            Err(e) => (Err(e), f2),
        }
    }
}

/// An import statement: a standard module installs as a dictionary; any
/// other name is read from the package table and its source is run in the
/// global frame; a name found in neither is an input/output error.
pub open spec fn spec_eval_imports(st: InterpV, cur: int, names: Seq<Seq<char>>, fuel: nat) -> (
    Result<ValueV, ErrV>,
    Seq<FrameV>,
)
    decreases fuel, 0int,
{
    if fuel == 0 {
        (Err(out_of_fuel()), st.frames)
    } else if names.len() == 0 {
        (Ok(ValueV::NoneVal), st.frames)
    } else {
        match assoc_get(st.stdlib, names[0]) {
            Some(table) => {
                let f1 = spec_assign(st.frames, cur, names[0], ValueV::Dict(table));
                let st1 = InterpV { frames: f1, ..st };
                spec_eval_imports(st1, cur, names.drop_first(), (fuel - 1) as nat)
            },
            None => match assoc_get(st.packages, names[0]) {
                Some(src) => {
                    let (r, f1) = spec_run(st, src, (fuel - 1) as nat);
                    match r {
                        Ok(_) => {
                            let st1 = InterpV { frames: f1, ..st };
                            spec_eval_imports(st1, cur, names.drop_first(), (fuel - 1) as nat)
                        },
                        Err(e) => (Err(e), f1),
                    }
                },
                None => (
                    Err(
                        ErrV::IO(
                            "Failed to read package file "@ + names[0] + ".bellronos"@,
                        ),
                    ),
                    st.frames,
                ),
            },
        }
    }
}

/// A whole source text: lexed, parsed, and evaluated in the global frame.
pub open spec fn spec_run(st: InterpV, src: Seq<char>, fuel: nat) -> (Result<ValueV, ErrV>, Seq<
    FrameV,
>)
    decreases fuel, 1int,
{
    match spec_tokenize(src) {
        Ok(toks) => match sp_parse(toks) {
            Ok(m) => match m {
                AstV::Module { body } => spec_eval_seq(st, 0, body, fuel),
                _ => (Ok(ValueV::NoneVal), st.frames),
            },
            Err(e) => (Err(e), st.frames),
        },
        Err(e) => (Err(e), st.frames),
    }
}

/// The tree-walking interpreter: a frame arena driven over the syntax
/// tree, with the standard library, a preloaded package table, and
/// prepared interop outcomes supplied by the host.
pub struct BellronosInterpreter {
    pub frames: Vec<Frame>,
    pub stdlib: StandardLibrary,
    pub packages: Vec<(String, String)>,
    pub interop_outcomes: Vec<InteropOutcome>,
}

impl DeepView for BellronosInterpreter {
    type V = InterpV;

    open spec fn deep_view(&self) -> InterpV {
        InterpV {
            frames: self.frames.deep_view(),
            stdlib: self.stdlib.modules.deep_view(),
            packages: self.packages.deep_view(),
            interop: self.interop_outcomes.deep_view(),
        }
    }
}

/// The argument a parameter receives: numbers convert to the declared
/// numeric representation, everything else binds unchanged.
fn coerce_value(v: Value, t: &Type) -> (r: Value)
    ensures
        r.deep_view() == spec_coerce(v.deep_view(), t.deep_view()),
        forall|n: int| val_wf(v.deep_view(), n) ==> val_wf(#[trigger] r.deep_view(), n),
{
    match (&v, t) {
        (Value::Float(b), Type::Int) => Value::Int(crate::float_bits::bits_to_i64(*b)),
        (Value::Int(i), Type::Float) => Value::Float(crate::float_bits::i64_to_bits(*i)),
        _ => v,
    }
}

/// Decides `spec_apply_binop`.
fn apply_binop(l: &Value, op: Op, r: &Value) -> (res: Result<Value, BellronosError>)
    ensures
        ({
            let s = spec_apply_binop(l.deep_view(), op, r.deep_view());
            match res {
                Ok(v) => s == Ok::<ValueV, ErrV>(v.deep_view()) && (forall|n: int|
                    val_wf(#[trigger] v.deep_view(), n)),
                Err(e) => s == Err::<ValueV, ErrV>(e.deep_view()),
            }
        }),
{
    match (l, op, r) {
        (Value::Int(a), Op::Add, Value::Int(b)) => Ok(Value::Int(a.wrapping_add(*b))),
        (Value::Float(a), Op::Add, Value::Float(b)) => Ok(
            Value::Float(crate::float_bits::add_bits(*a, *b)),
        ),
        (Value::String(a), Op::Add, Value::String(b)) => Ok(
            Value::String(concat_str(a.as_str(), b.as_str())),
        ),
        (Value::Int(a), Op::Sub, Value::Int(b)) => Ok(Value::Int(a.wrapping_sub(*b))),
        (Value::Float(a), Op::Sub, Value::Float(b)) => Ok(
            Value::Float(crate::float_bits::sub_bits(*a, *b)),
        ),
        (Value::Int(a), Op::Mul, Value::Int(b)) => Ok(Value::Int(a.wrapping_mul(*b))),
        (Value::Float(a), Op::Mul, Value::Float(b)) => Ok(
            Value::Float(crate::float_bits::mul_bits(*a, *b)),
        ),
        (Value::Int(a), Op::Div, Value::Int(b)) => Ok(
            Value::Float(
                crate::float_bits::div_bits(
                    crate::float_bits::i64_to_bits(*a),
                    crate::float_bits::i64_to_bits(*b),
                ),
            ),
        ),
        (Value::Float(a), Op::Div, Value::Float(b)) => Ok(
            Value::Float(crate::float_bits::div_bits(*a, *b)),
        ),
        (Value::Int(a), Op::Gt, Value::Int(b)) => Ok(Value::Bool(*a > *b)),
        (Value::Float(a), Op::Gt, Value::Float(b)) => Ok(
            Value::Bool(crate::float_bits::gt_bits(*a, *b)),
        ),
        (Value::Int(a), Op::Lt, Value::Int(b)) => Ok(Value::Bool(*a < *b)),
        (Value::Float(a), Op::Lt, Value::Float(b)) => Ok(
            Value::Bool(crate::float_bits::lt_bits(*a, *b)),
        ),
        (Value::Int(a), Op::GtEq, Value::Int(b)) => Ok(Value::Bool(*a >= *b)),
        (Value::Float(a), Op::GtEq, Value::Float(b)) => Ok(
            Value::Bool(crate::float_bits::ge_bits(*a, *b)),
        ),
        (Value::Int(a), Op::LtEq, Value::Int(b)) => Ok(Value::Bool(*a <= *b)),
        (Value::Float(a), Op::LtEq, Value::Float(b)) => Ok(
            Value::Bool(crate::float_bits::le_bits(*a, *b)),
        ),
        (Value::Int(a), Op::Eq, Value::Int(b)) => Ok(Value::Bool(*a == *b)),
        (Value::Float(a), Op::Eq, Value::Float(b)) => Ok(
            Value::Bool(crate::float_bits::eq_bits(*a, *b)),
        ),
        (Value::String(a), Op::Eq, Value::String(b)) => Ok(
            Value::Bool(str_eq(a.as_str(), b.as_str())),
        ),
        (Value::Bool(a), Op::Eq, Value::Bool(b)) => Ok(Value::Bool(*a == *b)),
        _ => {
            let sym = crate::type_system::op_text_exec(op);
            Err(BellronosError::Runtime(concat_str("Unsupported operation: ", sym.as_str())))
        },
    }
}

/// Builds the bindings of a call frame: parameters paired with coerced
/// arguments, up to the shorter list.
fn build_call_frame(
    params: &Vec<(String, Type)>,
    vals: &Vec<Value>,
    i: usize,
    out: &mut Vec<(String, Value)>,
)
    requires
        i <= params@.len(),
        i <= vals@.len(),
    ensures
        final(out).deep_view() == old(out).deep_view() + spec_zip_bind(
            crate::ast::params_view(params@).skip(i as int),
            vals.deep_view().skip(i as int),
        ),
    decreases params@.len() - i,
{
    let ghost pv = crate::ast::params_view(params@).skip(i as int);
    let ghost vv = vals.deep_view().skip(i as int);
    if i >= params.len() || i >= vals.len() {
        proof {
            assert(pv.len() == 0 || vv.len() == 0);
            assert(old(out).deep_view() + spec_zip_bind(pv, vv) =~= out.deep_view());
        }
        return ;
    }
    proof {
        assert(pv[0] == (params@[i as int].0@, crate::type_system::type_view(
            params@[i as int].1,
        )));
        assert(vv[0] == vals@[i as int].deep_view());
        assert(pv.drop_first() =~= crate::ast::params_view(params@).skip(i + 1));
        assert(vv.drop_first() =~= vals.deep_view().skip(i + 1));
    }
    let ghost prev = out.deep_view();
    let bound = coerce_value(clone_value(&vals[i]), &params[i].1);
    let ghost bv = bound.deep_view();
    out.push((params[i].0.clone(), bound));
    proof {
        assert(out.deep_view() =~= prev.push((params@[i as int].0@, bv)));
    }
    build_call_frame(params, vals, i + 1, out);
    proof {
        assert(prev.push((params@[i as int].0@, bv)) + spec_zip_bind(
            pv.drop_first(),
            vv.drop_first(),
        ) =~= prev + spec_zip_bind(pv, vv));
    }
}

/// The first prepared interop outcome for this language and fragment.
fn find_interop(v: &Vec<InteropOutcome>, language: &str, code: &str, i: usize) -> (r: Option<
    (bool, String),
>)
    requires
        i <= v@.len(),
    ensures
        ({
            let s = spec_interop_find(v.deep_view().skip(i as int), language@, code@);
            match r {
                Some((ok, text)) => s matches Some(o) && o.ok == ok && o.text == text@,
                None => s is None,
            }
        }),
    decreases v@.len() - i,
{
    if i >= v.len() {
        proof {
            assert(v.deep_view().skip(i as int) =~= Seq::<InteropOutcomeV>::empty());
        }
        return None;
    }
    proof {
        assert(v.deep_view().skip(i as int)[0] == v@[i as int].deep_view());
        assert(v.deep_view().skip(i as int).drop_first() =~= v.deep_view().skip(i + 1));
    }
    if str_eq(v[i].language.as_str(), language) && str_eq(v[i].code.as_str(), code) {
        Some((v[i].ok, v[i].text.clone()))
    } else {
        find_interop(v, language, code, i + 1)
    }
}

impl BellronosInterpreter {
    /// A fresh interpreter: one empty global frame, the standard library,
    /// and no packages or interop outcomes yet.
    pub fn new() -> (r: Self)
        ensures
            interp_wf(r.deep_view()),
            r.deep_view().frames =~= seq![
                FrameV { parent: None, bindings: Seq::empty() },
            ],
            r.deep_view().stdlib == crate::standard_library::spec_stdlib(),
            r.deep_view().packages =~= Seq::<(Seq<char>, Seq<char>)>::empty(),
            r.deep_view().interop =~= Seq::<InteropOutcomeV>::empty(),
    {
        let mut frames: Vec<Frame> = Vec::new();
        frames.push(Frame { parent: None, bindings: Vec::new() });
        let r = BellronosInterpreter {
            frames,
            stdlib: StandardLibrary::new(),
            packages: Vec::new(),
            interop_outcomes: Vec::new(),
        };
        proof {
            assert(r.deep_view().frames[0].bindings =~= Seq::<(Seq<char>, ValueV)>::empty());
            assert(r.deep_view().frames[0] =~= (FrameV { parent: None, bindings: Seq::empty() }));
            assert(r.deep_view().frames =~= seq![
                FrameV { parent: None, bindings: Seq::empty() },
            ]);
            assert(r.deep_view().frames[0].bindings.len() == 0);
            assert(frames_wf(r.deep_view().frames));
            assert(r.deep_view().packages =~= Seq::<(Seq<char>, Seq<char>)>::empty());
            assert(r.deep_view().interop =~= Seq::<InteropOutcomeV>::empty());
            assert forall|i: int|
                0 <= i < r.deep_view().stdlib.len() implies val_pairs_wf(
                (#[trigger] r.deep_view().stdlib[i]).1,
                1int,
            ) by {
                crate::value::lemma_val_pairs_wf_index(r.deep_view().stdlib[i].1, 1int);
                let tbl = r.deep_view().stdlib[i].1;
                assert forall|j: int| 0 <= j < tbl.len() implies val_wf(
                    (#[trigger] tbl[j]).1,
                    1int,
                ) by {
                    assert(r.deep_view().stdlib == crate::standard_library::spec_stdlib());
                }
            }
        }
        r
    }

    /// Registers the source text of an installed package.
    pub fn add_package(&mut self, name: String, source: String)
        requires
            interp_wf(old(self).deep_view()),
        ensures
            interp_wf(final(self).deep_view()),
            final(self).deep_view().packages == old(self).deep_view().packages.push(
                (name@, source@),
            ),
            final(self).deep_view().frames == old(self).deep_view().frames,
            final(self).deep_view().stdlib == old(self).deep_view().stdlib,
            final(self).deep_view().interop == old(self).deep_view().interop,
    {
        let ghost prev = self.packages.deep_view();
        self.packages.push((name, source));
        proof {
            assert(self.packages.deep_view() =~= prev.push(
                (self.packages@[prev.len() as int].0@, self.packages@[prev.len() as int].1@),
            ));
        }
    }

    /// Registers the outcome a host obtained for one interop fragment.
    pub fn add_interop_outcome(&mut self, language: String, code: String, ok: bool, text: String)
        requires
            interp_wf(old(self).deep_view()),
        ensures
            interp_wf(final(self).deep_view()),
            final(self).deep_view().interop == old(self).deep_view().interop.push(
                InteropOutcomeV { language: language@, code: code@, ok, text: text@ },
            ),
            final(self).deep_view().frames == old(self).deep_view().frames,
            final(self).deep_view().stdlib == old(self).deep_view().stdlib,
            final(self).deep_view().packages == old(self).deep_view().packages,
    {
        let ghost prev = self.interop_outcomes.deep_view();
        let ghost item = InteropOutcomeV { language: language@, code: code@, ok, text: text@ };
        self.interop_outcomes.push(InteropOutcome { language, code, ok, text });
        proof {
            assert(self.interop_outcomes.deep_view() =~= prev.push(item));
        }
    }

    /// The value a name denotes, walking the chain from frame `idx`.
    fn lookup_from(&self, idx: usize, name: &str) -> (r: Option<Value>)
        requires
            interp_wf(self.deep_view()),
            idx < self.deep_view().frames.len(),
        ensures
            ({
                let s = spec_lookup(self.deep_view().frames, idx as int, name@);
                match r {
                    Some(v) => s == Some(v.deep_view()) && val_wf(
                        v.deep_view(),
                        self.deep_view().frames.len() as int,
                    ),
                    None => s is None,
                }
            }),
        decreases idx,
    {
        proof {
            lemma_lookup_wf(self.deep_view().frames, idx as int, name@);
            assert(self.deep_view().frames[idx as int] == self.frames@[idx as int].deep_view());
        }
        match crate::table::assoc_get_ref(&self.frames[idx].bindings, name) {
            Some(v) => Some(clone_value(v)),
            None => match self.frames[idx].parent {
                Some(p) => {
                    proof {
                        assert(frame_wf(
                            self.deep_view().frames[idx as int],
                            idx as int,
                            self.deep_view().frames.len() as int,
                        ));
                    }
                    self.lookup_from(p, name)
                },
                None => None,
            },
        }
    }

    /// The frame an assignment of `name` would update, if one on the chain
    /// already binds it.
    fn target_from(&self, idx: usize, name: &str) -> (r: Option<usize>)
        requires
            interp_wf(self.deep_view()),
            idx < self.deep_view().frames.len(),
        ensures
            ({
                let s = spec_target(self.deep_view().frames, idx as int, name@);
                match r {
                    Some(f) => s == Some(f as int) && f < self.deep_view().frames.len(),
                    None => s is None,
                }
            }),
        decreases idx,
    {
        proof {
            assert(self.deep_view().frames[idx as int] == self.frames@[idx as int].deep_view());
        }
        match crate::table::assoc_get_ref(&self.frames[idx].bindings, name) {
            Some(_) => Some(idx),
            None => match self.frames[idx].parent {
                Some(p) => {
                    proof {
                        assert(frame_wf(
                            self.deep_view().frames[idx as int],
                            idx as int,
                            self.deep_view().frames.len() as int,
                        ));
                    }
                    self.target_from(p, name)
                },
                None => None,
            },
        }
    }

    /// Binds `name` to `v`: the nearest enclosing frame that already binds
    /// it is updated, otherwise the current frame.
    fn assign_value(&mut self, cur: usize, name: String, v: Value)
        requires
            interp_wf(old(self).deep_view()),
            cur < old(self).deep_view().frames.len(),
            val_wf(v.deep_view(), old(self).deep_view().frames.len() as int),
        ensures
            interp_wf(final(self).deep_view()),
            final(self).deep_view().frames == spec_assign(
                old(self).deep_view().frames,
                cur as int,
                name@,
                v.deep_view(),
            ),
            final(self).deep_view().frames.len() == old(self).deep_view().frames.len(),
            final(self).deep_view().stdlib == old(self).deep_view().stdlib,
            final(self).deep_view().packages == old(self).deep_view().packages,
            final(self).deep_view().interop == old(self).deep_view().interop,
    {
        proof {
            lemma_assign_wf(old(self).deep_view().frames, cur as int, name@, v.deep_view());
        }
        let tgt = match self.target_from(cur, name.as_str()) {
            Some(f) => f,
            None => cur,
        };
        let parent = self.frames[tgt].parent;
        let mut bindings = clone_val_pairs(&self.frames[tgt].bindings);
        crate::table::assoc_update(&mut bindings, name, v);
        let ghost fv = FrameV { parent: self.frames@[tgt as int].deep_view().parent, bindings: bindings.deep_view() };
        self.frames.set(tgt, Frame { parent, bindings });
        proof {
            assert(self.frames.deep_view() =~= old(self).frames.deep_view().update(
                tgt as int,
                fv,
            ));
        }
    }
}

/// Standard modules hold values that reference only the global frame.
proof fn lemma_stdlib_get_wf(
    s: Seq<(Seq<char>, Seq<(Seq<char>, ValueV)>)>,
    name: Seq<char>,
)
    requires
        forall|i: int| 0 <= i < s.len() ==> val_pairs_wf((#[trigger] s[i]).1, 1int),
    ensures
        assoc_get(s, name) matches Some(t) ==> val_pairs_wf(t, 1int),
    decreases s,
{
    if s.len() > 0 && s[0].0 != name {
        assert(forall|i: int|
            0 <= i < s.drop_first().len() ==> (#[trigger] s.drop_first()[i]) == s[i + 1]);
        lemma_stdlib_get_wf(s.drop_first(), name);
    }
}

impl BellronosInterpreter {
    /// The value of a node under the frame `cur`; `fuel` bounds the
    /// number of evaluation steps.
    #[verifier::rlimit(90)]
    #[verifier::spinoff_prover]
    pub fn eval(&mut self, node: &ASTNode, cur: usize, fuel: u64) -> (r: Result<
        Value,
        BellronosError,
    >)
        requires
            interp_wf(old(self).deep_view()),
            cur < old(self).deep_view().frames.len(),
        ensures
            interp_wf(final(self).deep_view()),
            final(self).deep_view().frames.len() >= old(self).deep_view().frames.len(),
            final(self).deep_view().stdlib == old(self).deep_view().stdlib,
            final(self).deep_view().packages == old(self).deep_view().packages,
            final(self).deep_view().interop == old(self).deep_view().interop,
            ({
                let s = spec_eval(old(self).deep_view(), cur as int, node.deep_view(), fuel as nat);
                match r {
                    Ok(v) => s.0 == Ok::<ValueV, ErrV>(v.deep_view()) && s.1 == final(self).deep_view().frames && val_wf(
                        v.deep_view(),
                        final(self).deep_view().frames.len() as int,
                    ),
                    Err(e) => s.0 == Err::<ValueV, ErrV>(e.deep_view()),
                }
            }),
        decreases fuel, 0int,
    {
        let ghost st0 = old(self).deep_view();
        if fuel == 0 {
            return Err(BellronosError::Runtime(String::from_str("evaluation budget exhausted")));
        }
        match node {
            ASTNode::Module { body } => {
                proof {
                    crate::ast::lemma_asts_view(body@);
                    assert(crate::ast::asts_view(body@).skip(0) =~= crate::ast::asts_view(body@));
                }
                self.eval_seq(body, 0, cur, fuel - 1)
            },
            ASTNode::Import { names } => {
                proof {
                    assert(crate::ast::names_view(names@).skip(0) =~= crate::ast::names_view(
                        names@,
                    ));
                }
                self.eval_imports(names, 0, cur, fuel - 1)
            },
            ASTNode::FunctionDef { name, args, return_type, body } => {
                let v = Value::Function(rc_clone(args), rc_clone(body), cur);
                proof {
                    assert(val_wf(v.deep_view(), self.deep_view().frames.len() as int));
                }
                self.assign_value(cur, name.clone(), v);
                Ok(Value::NoneVal)
            },
            ASTNode::ClassDef { name, methods } => {
                proof {
                    crate::ast::lemma_asts_view(methods@);
                }
                let mut table: Vec<(String, Value)> = Vec::new();
                let ghost msv = crate::ast::asts_view(methods@);
                proof {
                    assert(table.deep_view() =~= Seq::<(Seq<char>, ValueV)>::empty());
                    assert(msv.skip(0) =~= msv);
                }
                let mut i: usize = 0;
                while i < methods.len()
                    invariant
                        i <= methods@.len(),
                        msv == crate::ast::asts_view(methods@),
                        msv.len() == methods@.len(),
                        forall|j: int|
                            0 <= j < methods@.len() ==> (#[trigger] msv[j]) == crate::ast::ast_view(
                                methods@[j],
                            ),
                        spec_class_table(msv, cur as int, Seq::empty()) == spec_class_table(
                            msv.skip(i as int),
                            cur as int,
                            table.deep_view(),
                        ),
                    decreases methods@.len() - i,
                {
                    proof {
                        assert(msv.skip(i as int)[0] == msv[i as int]);
                        assert(msv.skip(i as int).drop_first() =~= msv.skip(i + 1));
                    }
                    match &methods[i] {
                        ASTNode::FunctionDef { name: mname, args, return_type: _, body } => {
                            let mv = Value::Function(rc_clone(args), rc_clone(body), cur);
                            crate::table::assoc_update(&mut table, mname.clone(), mv);
                        },
                        _ => {},
                    }
                    i = i + 1;
                }
                proof {
                    assert(msv.skip(methods@.len() as int) =~= Seq::<AstV>::empty());
                    crate::value::lemma_val_pairs_wf_index(
                        table.deep_view(),
                        self.deep_view().frames.len() as int,
                    );
                    lemma_class_table_wf(
                        msv,
                        cur as int,
                        Seq::empty(),
                        self.deep_view().frames.len() as int,
                    );
                }
                let cv = Value::Class { methods: table };
                proof {
                    crate::value::lemma_val_pairs_view(cv->Class_methods@);
                    assert(crate::value::val_pairs_view(cv->Class_methods@)
                        =~= cv->Class_methods.deep_view());
                    assert(val_wf(cv.deep_view(), self.deep_view().frames.len() as int));
                }
                self.assign_value(cur, name.clone(), cv);
                Ok(Value::NoneVal)
            },
            ASTNode::Assign { target, value } => {
                let v = match self.eval(value, cur, fuel - 1) {
                    Ok(v) => v,
                    Err(e) => {
                        return Err(e);
                    },
                };
                self.assign_value(cur, target.clone(), v);
                Ok(Value::NoneVal)
            },
            ASTNode::Expr { value } => self.eval(value, cur, fuel - 1),
            ASTNode::Call { func, args } => {
                proof {
                    crate::ast::lemma_asts_view(args@);
                }
                let fv = match self.lookup_from(cur, func.as_str()) {
                    Some(v) => v,
                    None => {
                        return Err(
                            BellronosError::Runtime(
                                concat_str("Undefined function: ", func.as_str()),
                            ),
                        );
                    },
                };
                match fv {
                    Value::Function(params, fbody, env) => {
                        let mut vals: Vec<Value> = Vec::new();
                        proof {
                            assert(vals.deep_view() =~= Seq::<ValueV>::empty());
                            assert(crate::ast::asts_view(args@).skip(0) =~= crate::ast::asts_view(
                                args@,
                            ));
                        }
                        match self.eval_args(args, 0, cur, fuel - 1, &mut vals) {
                            Ok(_) => {},
                            Err(e) => {
                                return Err(e);
                            },
                        }
                        let newcur = self.frames.len();
                        let mut bindings: Vec<(String, Value)> = Vec::new();
                        proof {
                            assert(bindings.deep_view() =~= Seq::<(Seq<char>, ValueV)>::empty());
                        }
                        build_call_frame(&params, &vals, 0, &mut bindings);
                        let ghost fdv = FrameV {
                            parent: Some(env as int),
                            bindings: bindings.deep_view(),
                        };
                        proof {
                            assert(crate::ast::params_view(params@).skip(0)
                                =~= crate::ast::params_view(params@));
                            assert(vals.deep_view().skip(0) =~= vals.deep_view());
                            assert(bindings.deep_view() =~= spec_zip_bind(
                                crate::ast::params_view(params@),
                                vals.deep_view(),
                            ));
                            lemma_zip_bind_wf(
                                crate::ast::params_view(params@),
                                vals.deep_view(),
                                self.deep_view().frames.len() as int,
                            );
                            crate::value::lemma_val_pairs_wf_mono(
                                bindings.deep_view(),
                                self.deep_view().frames.len() as int,
                                self.deep_view().frames.len() as int + 1,
                            );
                            lemma_push_frame_wf(self.deep_view().frames, fdv);
                        }
                        let ghost fprev = self.deep_view().frames;
                        self.frames.push(Frame { parent: Some(env), bindings });
                        proof {
                            assert(self.deep_view().frames =~= fprev.push(fdv));
                            crate::ast::lemma_asts_view(fbody@);
                            assert(crate::ast::asts_view(fbody@).skip(0) =~= crate::ast::asts_view(
                                fbody@,
                            ));
                        }
                        self.eval_seq(&fbody, 0, newcur, fuel - 1)
                    },
                    Value::Class { methods } => {
                        let inst = Value::Instance { class: func.clone(), attributes: Vec::new() };
                        proof {
                            assert(inst.deep_view()->Instance_attributes =~= Seq::<(
                                Seq<char>,
                                ValueV,
                            )>::empty());
                        }
                        Ok(inst)
                    },
                    _ => Err(
                        BellronosError::Runtime(concat_str(func.as_str(), " is not callable")),
                    ),
                }
            },
            ASTNode::Str { value } => Ok(Value::String(value.clone())),
            ASTNode::Num { value } => Ok(Value::Float(*value)),
            ASTNode::Bool { value } => Ok(Value::Bool(*value)),
            ASTNode::Name { id } => match self.lookup_from(cur, id.as_str()) {
                Some(v) => Ok(v),
                None => Err(
                    BellronosError::Runtime(concat_str("Undefined variable: ", id.as_str())),
                ),
            },
            ASTNode::BinOp { left, op, right } => {
                let lv = match self.eval(left, cur, fuel - 1) {
                    Ok(v) => v,
                    Err(e) => {
                        return Err(e);
                    },
                };
                let rv = match self.eval(right, cur, fuel - 1) {
                    Ok(v) => v,
                    Err(e) => {
                        return Err(e);
                    },
                };
                apply_binop(&lv, *op, &rv)
            },
            ASTNode::If { condition, body, orelse } => {
                proof {
                    crate::ast::lemma_asts_view(body@);
                    crate::ast::lemma_asts_view(orelse@);
                    assert(crate::ast::asts_view(body@).skip(0) =~= crate::ast::asts_view(body@));
                    assert(crate::ast::asts_view(orelse@).skip(0) =~= crate::ast::asts_view(
                        orelse@,
                    ));
                }
                let cv = match self.eval(condition, cur, fuel - 1) {
                    Ok(v) => v,
                    Err(e) => {
                        return Err(e);
                    },
                };
                let is_true = matches!(cv, Value::Bool(true));
                if is_true {
                    match self.eval_seq(body, 0, cur, fuel - 1) {
                        Ok(_) => Ok(Value::NoneVal),
                        Err(e) => Err(e),
                    }
                } else {
                    match self.eval_seq(orelse, 0, cur, fuel - 1) {
                        Ok(_) => Ok(Value::NoneVal),
                        Err(e) => Err(e),
                    }
                }
            },
            ASTNode::While { condition, body } => {
                proof {
                    crate::ast::lemma_asts_view(body@);
                    assert(crate::ast::asts_view(body@).skip(0) =~= crate::ast::asts_view(body@));
                }
                let cv = match self.eval(condition, cur, fuel - 1) {
                    Ok(v) => v,
                    Err(e) => {
                        return Err(e);
                    },
                };
                let is_true = matches!(cv, Value::Bool(true));
                if is_true {
                    match self.eval_seq(body, 0, cur, fuel - 1) {
                        Ok(_) => {},
                        Err(e) => {
                            return Err(e);
                        },
                    }
                    self.eval(node, cur, fuel - 1)
                } else {
                    Ok(Value::NoneVal)
                }
            },
            ASTNode::For { target, iter, body } => {
                proof {
                    crate::ast::lemma_asts_view(body@);
                }
                let iv = match self.eval(iter, cur, fuel - 1) {
                    Ok(v) => v,
                    Err(e) => {
                        return Err(e);
                    },
                };
                match iv {
                    Value::List(items) => {
                        proof {
                            crate::value::lemma_values_view(items@);
                            assert(crate::value::values_view(items@) =~= items.deep_view());
                            assert(items.deep_view().skip(0) =~= items.deep_view());
                        }
                        self.eval_for(target, &items, 0, body, cur, fuel - 1)
                    },
                    _ => Err(
                        BellronosError::Runtime(
                            String::from_str("For loop iterable must be a list"),
                        ),
                    ),
                }
            },
            ASTNode::Return { value } => match value {
                Some(v) => self.eval(v, cur, fuel - 1),
                None => Ok(Value::NoneVal),
            },
            ASTNode::Closure { params, body } => {
                let v = Value::Closure(rc_clone(params), rc_clone(body), cur);
                proof {
                    assert(val_wf(v.deep_view(), self.deep_view().frames.len() as int));
                }
                Ok(v)
            },
            ASTNode::Generator { body } => {
                let v = Value::Generator(rc_clone(body), cur, 0);
                proof {
                    assert(val_wf(v.deep_view(), self.deep_view().frames.len() as int));
                }
                Ok(v)
            },
            ASTNode::Yield { value } => Err(
                BellronosError::Runtime(String::from_str("Yield outside of generator")),
            ),
            ASTNode::Async { body } => {
                proof {
                    crate::ast::lemma_asts_view(body@);
                    assert(crate::ast::asts_view(body@).skip(0) =~= crate::ast::asts_view(body@));
                }
                self.eval_seq(body, 0, cur, fuel - 1)
            },
            ASTNode::Await { value } => self.eval(value, cur, fuel - 1),
            ASTNode::List { elements } => {
                proof {
                    crate::ast::lemma_asts_view(elements@);
                    assert(crate::ast::asts_view(elements@).skip(0) =~= crate::ast::asts_view(
                        elements@,
                    ));
                }
                let mut vals: Vec<Value> = Vec::new();
                proof {
                    assert(vals.deep_view() =~= Seq::<ValueV>::empty());
                }
                match self.eval_args(elements, 0, cur, fuel - 1, &mut vals) {
                    Ok(_) => {
                        let lv = Value::List(vals);
                        proof {
                            crate::value::lemma_values_view(lv->List_0@);
                            assert(crate::value::values_view(lv->List_0@) =~= lv->List_0.deep_view());
                        }
                        Ok(lv)
                    },
                    Err(e) => Err(e),
                }
            },
            ASTNode::Dict { pairs } => {
                proof {
                    crate::ast::lemma_ast_pairs_view(pairs@);
                    assert(crate::ast::ast_pairs_view(pairs@).skip(0)
                        =~= crate::ast::ast_pairs_view(pairs@));
                }
                let mut table: Vec<(String, Value)> = Vec::new();
                proof {
                    assert(table.deep_view() =~= Seq::<(Seq<char>, ValueV)>::empty());
                }
                match self.eval_dict(pairs, 0, cur, fuel - 1, &mut table) {
                    Ok(_) => {
                        let dv = Value::Dict(table);
                        proof {
                            crate::value::lemma_val_pairs_view(dv->Dict_0@);
                            assert(crate::value::val_pairs_view(dv->Dict_0@)
                                =~= dv->Dict_0.deep_view());
                        }
                        Ok(dv)
                    },
                    Err(e) => Err(e),
                }
            },
            ASTNode::Attribute { value, attr } => {
                let ov = match self.eval(value, cur, fuel - 1) {
                    Ok(v) => v,
                    Err(e) => {
                        return Err(e);
                    },
                };
                match ov {
                    Value::Instance { class, attributes } => {
                        proof {
                            crate::value::lemma_val_pairs_view(attributes@);
                            assert(crate::value::val_pairs_view(attributes@)
                                =~= attributes.deep_view());
                            crate::value::lemma_assoc_get_wf(
                                attributes.deep_view(),
                                attr@,
                                self.deep_view().frames.len() as int,
                            );
                        }
                        match crate::table::assoc_get_ref(&attributes, attr.as_str()) {
                            Some(v) => Ok(clone_value(v)),
                            None => match self.lookup_from(cur, class.as_str()) {
                                Some(Value::Class { methods }) => {
                                    proof {
                                        crate::value::lemma_val_pairs_view(methods@);
                                        assert(crate::value::val_pairs_view(methods@)
                                            =~= methods.deep_view());
                                        crate::value::lemma_assoc_get_wf(
                                            methods.deep_view(),
                                            attr@,
                                            self.deep_view().frames.len() as int,
                                        );
                                    }
                                    match crate::table::assoc_get_ref(&methods, attr.as_str()) {
                                        Some(m) => Ok(clone_value(m)),
                                        None => Err(
                                            BellronosError::Runtime(
                                                crate::type_system::msg5(
                                                    "Attribute '",
                                                    attr.as_str(),
                                                    "' not found on instance of class '",
                                                    class.as_str(),
                                                    "'",
                                                ),
                                            ),
                                        ),
                                    }
                                },
                                _ => Err(
                                    BellronosError::Runtime(
                                        crate::type_system::msg3(
                                            "Class '",
                                            class.as_str(),
                                            "' not found",
                                        ),
                                    ),
                                ),
                            },
                        }
                    },
                    _ => Err(
                        BellronosError::Runtime(
                            crate::type_system::msg3(
                                "Cannot access attribute '",
                                attr.as_str(),
                                "' on non-instance type",
                            ),
                        ),
                    ),
                }
            },
            ASTNode::InteropCall { language, code } => {
                if !crate::interop::supported_language(language.as_str()) {
                    return Err(
                        BellronosError::Runtime(
                            concat_str("Unsupported language: ", language.as_str()),
                        ),
                    );
                }
                proof {
                    assert(self.deep_view().interop.skip(0) =~= self.deep_view().interop);
                }
                match find_interop(
                    &self.interop_outcomes,
                    language.as_str(),
                    code.as_str(),
                    0,
                ) {
                    Some((ok, text)) => if ok {
                        Ok(Value::String(text))
                    } else {
                        Err(BellronosError::Runtime(text))
                    },
                    None => Err(
                        BellronosError::Runtime(
                            concat_str("Interop runtime unavailable: ", language.as_str()),
                        ),
                    ),
                }
            },
        }
    }

    /// Runs the statements of a block from index `i`; the last value is
    /// the block's value.
    fn eval_seq(&mut self, stmts: &Vec<ASTNode>, i: usize, cur: usize, fuel: u64) -> (r: Result<
        Value,
        BellronosError,
    >)
        requires
            interp_wf(old(self).deep_view()),
            cur < old(self).deep_view().frames.len(),
            i <= stmts@.len(),
        ensures
            interp_wf(final(self).deep_view()),
            final(self).deep_view().frames.len() >= old(self).deep_view().frames.len(),
            final(self).deep_view().stdlib == old(self).deep_view().stdlib,
            final(self).deep_view().packages == old(self).deep_view().packages,
            final(self).deep_view().interop == old(self).deep_view().interop,
            ({
                let s = spec_eval_seq(
                    old(self).deep_view(),
                    cur as int,
                    crate::ast::asts_view(stmts@).skip(i as int),
                    fuel as nat,
                );
                match r {
                    Ok(v) => s.0 == Ok::<ValueV, ErrV>(v.deep_view()) && s.1 == final(self).deep_view().frames && val_wf(
                        v.deep_view(),
                        final(self).deep_view().frames.len() as int,
                    ),
                    Err(e) => s.0 == Err::<ValueV, ErrV>(e.deep_view()),
                }
            }),
        decreases fuel, 0int,
    {
        proof {
            crate::ast::lemma_asts_view(stmts@);
        }
        if fuel == 0 {
            return Err(BellronosError::Runtime(String::from_str("evaluation budget exhausted")));
        }
        if i >= stmts.len() {
            proof {
                assert(crate::ast::asts_view(stmts@).skip(i as int) =~= Seq::<AstV>::empty());
            }
            return Ok(Value::NoneVal);
        }
        proof {
            assert(crate::ast::asts_view(stmts@).skip(i as int)[0] == crate::ast::ast_view(
                stmts@[i as int],
            ));
            assert(crate::ast::asts_view(stmts@).skip(i as int).drop_first()
                =~= crate::ast::asts_view(stmts@).skip(i + 1));
            assert(crate::ast::asts_view(stmts@).skip(i as int).len() == stmts@.len() - i);
        }
        let v = match self.eval(&stmts[i], cur, fuel - 1) {
            Ok(v) => v,
            Err(e) => {
                return Err(e);
            },
        };
        if i + 1 >= stmts.len() {
            Ok(v)
        } else {
            self.eval_seq(stmts, i + 1, cur, fuel - 1)
        }
    }

    /// Evaluates the expressions of a list from index `i`, appending their
    /// values to `out`.
    fn eval_args(
        &mut self,
        args: &Vec<ASTNode>,
        i: usize,
        cur: usize,
        fuel: u64,
        out: &mut Vec<Value>,
    ) -> (r: Result<(), BellronosError>)
        requires
            interp_wf(old(self).deep_view()),
            cur < old(self).deep_view().frames.len(),
            i <= args@.len(),
            vals_wf(old(out).deep_view(), old(self).deep_view().frames.len() as int),
        ensures
            interp_wf(final(self).deep_view()),
            final(self).deep_view().frames.len() >= old(self).deep_view().frames.len(),
            final(self).deep_view().stdlib == old(self).deep_view().stdlib,
            final(self).deep_view().packages == old(self).deep_view().packages,
            final(self).deep_view().interop == old(self).deep_view().interop,
            ({
                let s = spec_eval_args(
                    old(self).deep_view(),
                    cur as int,
                    crate::ast::asts_view(args@).skip(i as int),
                    old(out).deep_view(),
                    fuel as nat,
                );
                match r {
                    Ok(_) => s.0 == Ok::<Seq<ValueV>, ErrV>(final(out).deep_view()) && s.1
                        == final(self).deep_view().frames && vals_wf(
                        final(out).deep_view(),
                        final(self).deep_view().frames.len() as int,
                    ),
                    Err(e) => s.0 == Err::<Seq<ValueV>, ErrV>(e.deep_view()),
                }
            }),
        decreases fuel, 0int,
    {
        proof {
            crate::ast::lemma_asts_view(args@);
        }
        if fuel == 0 {
            return Err(BellronosError::Runtime(String::from_str("evaluation budget exhausted")));
        }
        if i >= args.len() {
            proof {
                assert(crate::ast::asts_view(args@).skip(i as int) =~= Seq::<AstV>::empty());
            }
            return Ok(());
        }
        proof {
            assert(crate::ast::asts_view(args@).skip(i as int)[0] == crate::ast::ast_view(
                args@[i as int],
            ));
            assert(crate::ast::asts_view(args@).skip(i as int).drop_first()
                =~= crate::ast::asts_view(args@).skip(i + 1));
        }
        let v = match self.eval(&args[i], cur, fuel - 1) {
            Ok(v) => v,
            Err(e) => {
                return Err(e);
            },
        };
        let ghost prev = out.deep_view();
        let ghost vv = v.deep_view();
        out.push(v);
        proof {
            assert(out.deep_view() =~= prev.push(vv));
            crate::value::lemma_vals_wf_mono(
                prev,
                old(self).deep_view().frames.len() as int,
                self.deep_view().frames.len() as int,
            );
            crate::value::lemma_vals_wf_push(
                prev,
                vv,
                self.deep_view().frames.len() as int,
            );
        }
        self.eval_args(args, i + 1, cur, fuel - 1, out)
    }

    /// Evaluates dictionary entries from index `i` into `out`; every key
    /// must evaluate to a string.
    fn eval_dict(
        &mut self,
        pairs: &Vec<(ASTNode, ASTNode)>,
        i: usize,
        cur: usize,
        fuel: u64,
        out: &mut Vec<(String, Value)>,
    ) -> (r: Result<(), BellronosError>)
        requires
            interp_wf(old(self).deep_view()),
            cur < old(self).deep_view().frames.len(),
            i <= pairs@.len(),
            val_pairs_wf(old(out).deep_view(), old(self).deep_view().frames.len() as int),
        ensures
            interp_wf(final(self).deep_view()),
            final(self).deep_view().frames.len() >= old(self).deep_view().frames.len(),
            final(self).deep_view().stdlib == old(self).deep_view().stdlib,
            final(self).deep_view().packages == old(self).deep_view().packages,
            final(self).deep_view().interop == old(self).deep_view().interop,
            ({
                let s = spec_eval_dict(
                    old(self).deep_view(),
                    cur as int,
                    crate::ast::ast_pairs_view(pairs@).skip(i as int),
                    old(out).deep_view(),
                    fuel as nat,
                );
                match r {
                    Ok(_) => s.0 == Ok::<Seq<(Seq<char>, ValueV)>, ErrV>(final(out).deep_view())
                        && s.1 == final(self).deep_view().frames && val_pairs_wf(
                        final(out).deep_view(),
                        final(self).deep_view().frames.len() as int,
                    ),
                    Err(e) => s.0 == Err::<Seq<(Seq<char>, ValueV)>, ErrV>(e.deep_view()),
                }
            }),
        decreases fuel, 0int,
    {
        proof {
            crate::ast::lemma_ast_pairs_view(pairs@);
        }
        if fuel == 0 {
            return Err(BellronosError::Runtime(String::from_str("evaluation budget exhausted")));
        }
        if i >= pairs.len() {
            proof {
                assert(crate::ast::ast_pairs_view(pairs@).skip(i as int) =~= Seq::<(
                    AstV,
                    AstV,
                )>::empty());
            }
            return Ok(());
        }
        proof {
            assert(crate::ast::ast_pairs_view(pairs@).skip(i as int)[0] == (
                crate::ast::ast_view(pairs@[i as int].0),
                crate::ast::ast_view(pairs@[i as int].1),
            ));
            assert(crate::ast::ast_pairs_view(pairs@).skip(i as int).drop_first()
                =~= crate::ast::ast_pairs_view(pairs@).skip(i + 1));
        }
        let kv = match self.eval(&pairs[i].0, cur, fuel - 1) {
            Ok(v) => v,
            Err(e) => {
                return Err(e);
            },
        };
        let k = match kv {
            Value::String(k) => k,
            _ => {
                return Err(
                    BellronosError::Runtime(String::from_str("Dictionary keys must be strings")),
                );
            },
        };
        let v = match self.eval(&pairs[i].1, cur, fuel - 1) {
            Ok(v) => v,
            Err(e) => {
                return Err(e);
            },
        };
        let ghost prev = out.deep_view();
        let ghost vv = v.deep_view();
        let ghost kk = k@;
        crate::table::assoc_update(out, k, v);
        proof {
            crate::value::lemma_val_pairs_wf_mono(
                prev,
                old(self).deep_view().frames.len() as int,
                self.deep_view().frames.len() as int,
            );
            crate::value::lemma_assoc_set_wf(
                prev,
                kk,
                vv,
                self.deep_view().frames.len() as int,
            );
        }
        self.eval_dict(pairs, i + 1, cur, fuel - 1, out)
    }

    /// Runs a for loop over the items from index `i`: the target is bound
    /// to each item and the body runs after each binding.
    fn eval_for(
        &mut self,
        target: &String,
        items: &Vec<Value>,
        i: usize,
        body: &Vec<ASTNode>,
        cur: usize,
        fuel: u64,
    ) -> (r: Result<Value, BellronosError>)
        requires
            interp_wf(old(self).deep_view()),
            cur < old(self).deep_view().frames.len(),
            i <= items@.len(),
            vals_wf(items.deep_view(), old(self).deep_view().frames.len() as int),
        ensures
            interp_wf(final(self).deep_view()),
            final(self).deep_view().frames.len() >= old(self).deep_view().frames.len(),
            final(self).deep_view().stdlib == old(self).deep_view().stdlib,
            final(self).deep_view().packages == old(self).deep_view().packages,
            final(self).deep_view().interop == old(self).deep_view().interop,
            ({
                let s = spec_eval_for(
                    old(self).deep_view(),
                    cur as int,
                    target@,
                    items.deep_view().skip(i as int),
                    crate::ast::asts_view(body@),
                    fuel as nat,
                );
                match r {
                    Ok(v) => s.0 == Ok::<ValueV, ErrV>(v.deep_view()) && s.1 == final(self).deep_view().frames && val_wf(
                        v.deep_view(),
                        final(self).deep_view().frames.len() as int,
                    ),
                    Err(e) => s.0 == Err::<ValueV, ErrV>(e.deep_view()),
                }
            }),
        decreases fuel, 0int,
    {
        proof {
            crate::value::lemma_values_view(items@);
            crate::value::lemma_vals_wf_index(
                items.deep_view(),
                old(self).deep_view().frames.len() as int,
            );
            crate::ast::lemma_asts_view(body@);
        }
        if fuel == 0 {
            return Err(BellronosError::Runtime(String::from_str("evaluation budget exhausted")));
        }
        if i >= items.len() {
            proof {
                assert(items.deep_view().skip(i as int) =~= Seq::<ValueV>::empty());
            }
            return Ok(Value::NoneVal);
        }
        proof {
            assert(items.deep_view().skip(i as int)[0] == items@[i as int].deep_view());
            assert(items.deep_view().skip(i as int).drop_first() =~= items.deep_view().skip(
                i + 1,
            ));
        }
        let item = clone_value(&items[i]);
        self.assign_value(cur, target.clone(), item);
        proof {
            assert(crate::ast::asts_view(body@).skip(0) =~= crate::ast::asts_view(body@));
        }
        match self.eval_seq(body, 0, cur, fuel - 1) {
            Ok(_) => {},
            Err(e) => {
                return Err(e);
            },
        }
        proof {
            crate::value::lemma_vals_wf_mono(
                items.deep_view(),
                old(self).deep_view().frames.len() as int,
                self.deep_view().frames.len() as int,
            );
        }
        self.eval_for(target, items, i + 1, body, cur, fuel - 1)
    }

    /// Imports the names from index `i`: standard modules install as
    /// dictionaries; other names load from the package table and run.
    fn eval_imports(&mut self, names: &Vec<String>, i: usize, cur: usize, fuel: u64) -> (r: Result<
        Value,
        BellronosError,
    >)
        requires
            interp_wf(old(self).deep_view()),
            cur < old(self).deep_view().frames.len(),
            i <= names@.len(),
        ensures
            interp_wf(final(self).deep_view()),
            final(self).deep_view().frames.len() >= old(self).deep_view().frames.len(),
            final(self).deep_view().stdlib == old(self).deep_view().stdlib,
            final(self).deep_view().packages == old(self).deep_view().packages,
            final(self).deep_view().interop == old(self).deep_view().interop,
            ({
                let s = spec_eval_imports(
                    old(self).deep_view(),
                    cur as int,
                    crate::ast::names_view(names@).skip(i as int),
                    fuel as nat,
                );
                match r {
                    Ok(v) => s.0 == Ok::<ValueV, ErrV>(v.deep_view()) && s.1 == final(self).deep_view().frames && val_wf(
                        v.deep_view(),
                        final(self).deep_view().frames.len() as int,
                    ),
                    Err(e) => s.0 == Err::<ValueV, ErrV>(e.deep_view()),
                }
            }),
        decreases fuel, 0int,
    {
        proof {
            assert(forall|j: int|
                0 <= j < names@.len() ==> (#[trigger] crate::ast::names_view(names@)[j])
                    == names@[j]@);
        }
        if fuel == 0 {
            return Err(BellronosError::Runtime(String::from_str("evaluation budget exhausted")));
        }
        if i >= names.len() {
            proof {
                assert(crate::ast::names_view(names@).skip(i as int) =~= Seq::<Seq<char>>::empty());
            }
            return Ok(Value::NoneVal);
        }
        proof {
            assert(crate::ast::names_view(names@).skip(i as int)[0] == names@[i as int]@);
            assert(crate::ast::names_view(names@).skip(i as int).drop_first()
                =~= crate::ast::names_view(names@).skip(i + 1));
        }
        let module_table = match self.stdlib.get_module(names[i].as_str()) {
            Some(m) => Some(clone_val_pairs(m)),
            None => None,
        };
        match module_table {
            Some(table) => {
                proof {
                    lemma_stdlib_get_wf(self.deep_view().stdlib, names@[i as int]@);
                    crate::value::lemma_val_pairs_wf_mono(
                        table.deep_view(),
                        1int,
                        self.deep_view().frames.len() as int,
                    );
                }
                let dv = Value::Dict(table);
                proof {
                    crate::value::lemma_val_pairs_view(dv->Dict_0@);
                    assert(crate::value::val_pairs_view(dv->Dict_0@) =~= dv->Dict_0.deep_view());
                }
                self.assign_value(cur, names[i].clone(), dv);
                self.eval_imports(names, i + 1, cur, fuel - 1)
            },
            None => {
                let source = match crate::table::assoc_get_ref(&self.packages, names[i].as_str()) {
                    Some(s) => Some(s.clone()),
                    None => None,
                };
                match source {
                    Some(src) => {
                        match self.run_source(src.as_str(), fuel - 1) {
                            Ok(_) => {},
                            Err(e) => {
                                return Err(e);
                            },
                        }
                        self.eval_imports(names, i + 1, cur, fuel - 1)
                    },
                    None => Err(
                        BellronosError::IO(
                            crate::type_system::msg3(
                                "Failed to read package file ",
                                names[i].as_str(),
                                ".bellronos",
                            ),
                        ),
                    ),
                }
            },
        }
    }

    /// Lexes, parses and evaluates a whole source text in the global
    /// frame.
    fn run_source(&mut self, code: &str, fuel: u64) -> (r: Result<Value, BellronosError>)
        requires
            interp_wf(old(self).deep_view()),
        ensures
            interp_wf(final(self).deep_view()),
            final(self).deep_view().frames.len() >= old(self).deep_view().frames.len(),
            final(self).deep_view().stdlib == old(self).deep_view().stdlib,
            final(self).deep_view().packages == old(self).deep_view().packages,
            final(self).deep_view().interop == old(self).deep_view().interop,
            ({
                let s = spec_run(old(self).deep_view(), code@, fuel as nat);
                match r {
                    Ok(v) => s.0 == Ok::<ValueV, ErrV>(v.deep_view()) && s.1 == final(self).deep_view().frames,
                    Err(e) => s.0 == Err::<ValueV, ErrV>(e.deep_view()),
                }
            }),
        decreases fuel, 1int,
    {
        let mut lexer = Lexer::new(code);
        let tokens = match lexer.tokenize() {
            Ok(t) => t,
            Err(e) => {
                return Err(e);
            },
        };
        let mut parser = Parser::new(tokens);
        let node = match parser.parse() {
            Ok(n) => n,
            Err(e) => {
                return Err(e);
            },
        };
        match &node {
            ASTNode::Module { body } => {
                proof {
                    crate::ast::lemma_asts_view(body@);
                    assert(crate::ast::asts_view(body@).skip(0) =~= crate::ast::asts_view(body@));
                }
                match self.eval_seq(body, 0, 0, fuel) {
                    Ok(v) => Ok(v),
                    Err(e) => Err(e),
                }
            },
            _ => Ok(Value::NoneVal),
        }
    }

    /// Runs a source text: lex, parse, evaluate.  The filename is carried
    /// for the caller's reporting only; `fuel` bounds evaluation steps.
    pub fn run(&mut self, code: &str, _filename: &str, fuel: u64) -> (r: Result<
        (),
        BellronosError,
    >)
        requires
            interp_wf(old(self).deep_view()),
        ensures
            interp_wf(final(self).deep_view()),
            ({
                let s = spec_run(old(self).deep_view(), code@, fuel as nat);
                match r {
                    Ok(_) => s.0 is Ok && s.1 == final(self).deep_view().frames,
                    Err(e) => s.0 == Err::<ValueV, ErrV>(e.deep_view()),
                }
            }),
    {
        match self.run_source(code, fuel) {
            Ok(_) => Ok(()),
            Err(e) => Err(e),
        }
    }

    /// Evaluates one node in the global frame.
    pub fn eval_node(&mut self, node: &ASTNode, fuel: u64) -> (r: Result<Value, BellronosError>)
        requires
            interp_wf(old(self).deep_view()),
        ensures
            interp_wf(final(self).deep_view()),
            ({
                let s = spec_eval(old(self).deep_view(), 0, node.deep_view(), fuel as nat);
                match r {
                    Ok(v) => s.0 == Ok::<ValueV, ErrV>(v.deep_view()) && s.1 == final(self).deep_view().frames,
                    Err(e) => s.0 == Err::<ValueV, ErrV>(e.deep_view()),
                }
            }),
    {
        self.eval(node, 0, fuel)
    }

    /// The value bound to a name in the global frame's chain.
    pub fn get_global(&self, name: &str) -> (r: Option<Value>)
        requires
            interp_wf(self.deep_view()),
        ensures
            ({
                let s = spec_lookup(self.deep_view().frames, 0, name@);
                match r {
                    Some(v) => s == Some(v.deep_view()),
                    None => s is None,
                }
            }),
    {
        self.lookup_from(0, name)
    }
}

} // verus!
