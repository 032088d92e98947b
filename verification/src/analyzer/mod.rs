//! Partially known values of a script, and what is done with them.

use vstd::prelude::*;

pub mod display;
pub mod graph;
pub mod graph_laws;
pub mod hash;
pub mod laws;
pub mod linker;
pub mod pattern;
pub mod well_known;

verus! {

/// An identifier that no declaration of the module binds, and that the host
/// gives a meaning.
#[derive(Debug, Clone, Copy, PartialEq, Eq, Structural, Hash)]
pub enum FreeVarKind {
    /// `require`
    Require,
    /// `import(...)`
    Import,
    /// `__dirname`
    Dirname,
    /// `__filename`
    Filename,
    /// `global`
    Global,
}

/// An object of the host that the analysis knows.
#[derive(Debug, Clone, Copy, PartialEq, Eq, Structural, Hash)]
pub enum WellKnownObjectKind {
    /// The `path` module.
    PathModule,
    /// The `fs` module.
    FsModule,
    /// The `process` module.
    ProcessModule,
}

/// A function of the host that the analysis knows.
#[derive(Debug, PartialEq, Eq, Hash)]
pub enum WellKnownFunctionKind {
    /// `require`
    Require,
    /// `require.resolve`
    RequireResolve,
    /// `import(...)`
    Import,
    /// A method of the `fs` module that reads the file it is given.
    FsReadMethod(String),
    /// `path.join`
    PathJoin,
    /// `path.resolve`
    PathResolve,
    /// `path.dirname`
    PathDirname,
}

/// A literal of the script.
#[derive(Debug, PartialEq, Eq, Hash)]
pub enum ConstantValue {
    /// A string.
    Str(String),
    /// A number, as its decimal text.
    Num(String),
    /// `true` or `false`
    Bool(bool),
    /// `null`
    Null,
    /// `undefined`
    Undefined,
    /// A regular expression: its source and its flags.
    Regex(String, String),
}

/// What is known of a value of the script.
#[derive(Debug, PartialEq, Eq, Hash)]
pub enum JsValue {
    /// A literal.
    Constant(ConstantValue),
    /// An identifier that the host defines.
    FreeVar(FreeVarKind),
    /// What an import of the named module is bound to.
    Module(String),
    /// A known function of the host.
    WellKnownFunction(WellKnownFunctionKind),
    /// A known object of the host.
    WellKnownObject(WellKnownObjectKind),
    /// The value of a binding of the module, by its identifier.
    Variable(u64),
    /// A call: the function, `this`, and the arguments.
    Call(Box<JsValue>, Box<JsValue>, Vec<JsValue>),
    /// A member access: the object and the property.
    MemberAccess(Box<JsValue>, Box<JsValue>),
    /// The parts of a template, to be concatenated.
    Concat(Vec<JsValue>),
    /// The operands of `+`.
    Add(Vec<JsValue>),
    /// One of several values, where control flow joins.
    Alternatives(Vec<JsValue>),
    /// Nothing is known.
    Unknown,
}

/// The mathematical model of a known function.
pub ghost enum WellKnownFunction {
    Require,
    RequireResolve,
    Import,
    FsReadMethod(Seq<char>),
    PathJoin,
    PathResolve,
    PathDirname,
}

/// The mathematical model of a literal.
pub ghost enum Constant {
    Str(Seq<char>),
    Num(Seq<char>),
    Bool(bool),
    Null,
    Undefined,
    Regex(Seq<char>, Seq<char>),
}

/// The mathematical model of a value.
pub ghost enum Value {
    Constant(Constant),
    FreeVar(FreeVarKind),
    Module(Seq<char>),
    WellKnownFunction(WellKnownFunction),
    WellKnownObject(WellKnownObjectKind),
    Variable(u64),
    Call(Box<Value>, Box<Value>, Seq<Value>),
    MemberAccess(Box<Value>, Box<Value>),
    Concat(Seq<Value>),
    Add(Seq<Value>),
    Alternatives(Seq<Value>),
    Unknown,
}

impl View for WellKnownFunctionKind {
    type V = WellKnownFunction;

    open spec fn view(&self) -> WellKnownFunction {
        match self {
            WellKnownFunctionKind::Require => WellKnownFunction::Require,
            WellKnownFunctionKind::RequireResolve => WellKnownFunction::RequireResolve,
            WellKnownFunctionKind::Import => WellKnownFunction::Import,
            WellKnownFunctionKind::FsReadMethod(name) => WellKnownFunction::FsReadMethod(name@),
            WellKnownFunctionKind::PathJoin => WellKnownFunction::PathJoin,
            WellKnownFunctionKind::PathResolve => WellKnownFunction::PathResolve,
            WellKnownFunctionKind::PathDirname => WellKnownFunction::PathDirname,
        }
    }
}

impl View for ConstantValue {
    type V = Constant;

    open spec fn view(&self) -> Constant {
        match self {
            ConstantValue::Str(text) => Constant::Str(text@),
            ConstantValue::Num(text) => Constant::Num(text@),
            ConstantValue::Bool(flag) => Constant::Bool(*flag),
            ConstantValue::Null => Constant::Null,
            ConstantValue::Undefined => Constant::Undefined,
            ConstantValue::Regex(source, flags) => Constant::Regex(source@, flags@),
        }
    }
}

/// The model of a value.
pub open spec fn model(value: JsValue) -> Value
    decreases value,
{
    match value {
        JsValue::Constant(constant) => Value::Constant(constant@),
        JsValue::FreeVar(kind) => Value::FreeVar(kind),
        JsValue::Module(name) => Value::Module(name@),
        JsValue::WellKnownFunction(kind) => Value::WellKnownFunction(kind@),
        JsValue::WellKnownObject(kind) => Value::WellKnownObject(kind),
        JsValue::Variable(id) => Value::Variable(id),
        JsValue::Call(func, this, args) => Value::Call(
            Box::new(model(*func)),
            Box::new(model(*this)),
            models(args@),
        ),
        JsValue::MemberAccess(obj, prop) => Value::MemberAccess(Box::new(model(*obj)), Box::new(model(*prop))),
        JsValue::Concat(parts) => Value::Concat(models(parts@)),
        JsValue::Add(parts) => Value::Add(models(parts@)),
        JsValue::Alternatives(alts) => Value::Alternatives(models(alts@)),
        JsValue::Unknown => Value::Unknown,
    }
}

/// The models of a list of values.
pub open spec fn models(values: Seq<JsValue>) -> Seq<Value>
    decreases values,
{
    Seq::new(
        values.len(),
        |i: int|
            if 0 <= i < values.len() {
                model(values[i])
            } else {
                Value::Unknown
            },
    )
}

impl View for JsValue {
    type V = Value;

    open spec fn view(&self) -> Value {
        model(*self)
    }
}

impl Clone for WellKnownFunctionKind {
    fn clone(&self) -> (copy: Self)
        ensures
            copy@ == self@,
    {
        match self {
            WellKnownFunctionKind::Require => WellKnownFunctionKind::Require,
            WellKnownFunctionKind::RequireResolve => WellKnownFunctionKind::RequireResolve,
            WellKnownFunctionKind::Import => WellKnownFunctionKind::Import,
            WellKnownFunctionKind::FsReadMethod(name) => WellKnownFunctionKind::FsReadMethod(
                name.clone(),
            ),
            WellKnownFunctionKind::PathJoin => WellKnownFunctionKind::PathJoin,
            WellKnownFunctionKind::PathResolve => WellKnownFunctionKind::PathResolve,
            WellKnownFunctionKind::PathDirname => WellKnownFunctionKind::PathDirname,
        }
    }
}

impl WellKnownFunctionKind {
    /// Whether two kinds are the same.
    pub fn same(&self, other: &WellKnownFunctionKind) -> (same: bool)
        ensures
            same == (self@ == other@),
    {
        match (self, other) {
            (WellKnownFunctionKind::Require, WellKnownFunctionKind::Require) => true,
            (WellKnownFunctionKind::RequireResolve, WellKnownFunctionKind::RequireResolve) => true,
            (WellKnownFunctionKind::Import, WellKnownFunctionKind::Import) => true,
            (WellKnownFunctionKind::FsReadMethod(a), WellKnownFunctionKind::FsReadMethod(b)) => *a
                == *b,
            (WellKnownFunctionKind::PathJoin, WellKnownFunctionKind::PathJoin) => true,
            (WellKnownFunctionKind::PathResolve, WellKnownFunctionKind::PathResolve) => true,
            (WellKnownFunctionKind::PathDirname, WellKnownFunctionKind::PathDirname) => true,
            _ => false,
        }
    }
}

impl Clone for ConstantValue {
    fn clone(&self) -> (copy: Self)
        ensures
            copy@ == self@,
    {
        match self {
            ConstantValue::Str(text) => ConstantValue::Str(text.clone()),
            ConstantValue::Num(text) => ConstantValue::Num(text.clone()),
            ConstantValue::Bool(flag) => ConstantValue::Bool(*flag),
            ConstantValue::Null => ConstantValue::Null,
            ConstantValue::Undefined => ConstantValue::Undefined,
            ConstantValue::Regex(source, flags) => ConstantValue::Regex(
                source.clone(),
                flags.clone(),
            ),
        }
    }
}

impl ConstantValue {
    /// Whether two literals are the same.
    pub fn same(&self, other: &ConstantValue) -> (same: bool)
        ensures
            same == (self@ == other@),
    {
        match (self, other) {
            (ConstantValue::Str(a), ConstantValue::Str(b)) => *a == *b,
            (ConstantValue::Num(a), ConstantValue::Num(b)) => *a == *b,
            (ConstantValue::Bool(a), ConstantValue::Bool(b)) => *a == *b,
            (ConstantValue::Null, ConstantValue::Null) => true,
            (ConstantValue::Undefined, ConstantValue::Undefined) => true,
            (ConstantValue::Regex(a, c), ConstantValue::Regex(b, d)) => *a == *b && *c == *d,
            _ => false,
        }
    }

    /// The string, if the literal is one.
    pub fn as_str(&self) -> (text: Option<&String>)
        ensures
            match text {
                Some(text) => self@ == Constant::Str(text@),
                None => !(self@ is Str),
            },
    {
        match self {
            ConstantValue::Str(text) => Some(text),
            _ => None,
        }
    }
}

impl Clone for JsValue {
    fn clone(&self) -> (copy: Self)
        ensures
            copy@ == self@,
        decreases self,
    {
        match self {
            JsValue::Constant(constant) => JsValue::Constant(constant.clone()),
            JsValue::FreeVar(kind) => JsValue::FreeVar(*kind),
            JsValue::Module(name) => JsValue::Module(name.clone()),
            JsValue::WellKnownFunction(kind) => JsValue::WellKnownFunction(kind.clone()),
            JsValue::WellKnownObject(kind) => JsValue::WellKnownObject(*kind),
            JsValue::Variable(id) => JsValue::Variable(*id),
            JsValue::Call(func, this, args) => JsValue::Call(
                Box::new((**func).clone()),
                Box::new((**this).clone()),
                clone_values(args),
            ),
            JsValue::MemberAccess(obj, prop) => JsValue::MemberAccess(
                Box::new((**obj).clone()),
                Box::new((**prop).clone()),
            ),
            JsValue::Concat(parts) => JsValue::Concat(clone_values(parts)),
            JsValue::Add(parts) => JsValue::Add(clone_values(parts)),
            JsValue::Alternatives(alts) => JsValue::Alternatives(clone_values(alts)),
            JsValue::Unknown => JsValue::Unknown,
        }
    }
}

/// Copies a list of values.
pub fn clone_values(values: &Vec<JsValue>) -> (copies: Vec<JsValue>)
    ensures
        models(copies@) == models(values@),
    decreases values,
{
    let mut copies: Vec<JsValue> = Vec::new();
    let mut i: usize = 0;
    while i < values.len()
        invariant
            i <= values.len(),
            copies.len() == i,
            forall|j: int| 0 <= j < i ==> copies[j]@ == values[j]@,
        decreases values.len() - i,
    {
        copies.push(values[i].clone());
        i += 1;
    }
    copies
}

impl JsValue {
    /// Whether two values are the same.
    pub fn same(&self, other: &JsValue) -> (same: bool)
        ensures
            same == (self@ == other@),
        decreases self,
    {
        match (self, other) {
            (JsValue::Constant(a), JsValue::Constant(b)) => a.same(b),
            (JsValue::FreeVar(a), JsValue::FreeVar(b)) => *a == *b,
            (JsValue::Module(a), JsValue::Module(b)) => *a == *b,
            (JsValue::WellKnownFunction(a), JsValue::WellKnownFunction(b)) => a.same(b),
            (JsValue::WellKnownObject(a), JsValue::WellKnownObject(b)) => *a == *b,
            (JsValue::Variable(a), JsValue::Variable(b)) => *a == *b,
            (JsValue::Call(f, t, a), JsValue::Call(g, u, b)) => f.same(g) && t.same(u)
                && same_values(a, b),
            (JsValue::MemberAccess(o, p), JsValue::MemberAccess(q, r)) => o.same(q) && p.same(r),
            (JsValue::Concat(a), JsValue::Concat(b)) => same_values(a, b),
            (JsValue::Add(a), JsValue::Add(b)) => same_values(a, b),
            (JsValue::Alternatives(a), JsValue::Alternatives(b)) => same_values(a, b),
            (JsValue::Unknown, JsValue::Unknown) => true,
            _ => false,
        }
    }
}

/// Whether two lists of values are the same.
pub fn same_values(left: &Vec<JsValue>, right: &Vec<JsValue>) -> (same: bool)
    ensures
        same == (models(left@) == models(right@)),
    decreases left,
{
    if left.len() != right.len() {
        assert(models(left@).len() != models(right@).len());
        return false;
    }
    let mut i: usize = 0;
    while i < left.len()
        invariant
            i <= left.len(),
            left.len() == right.len(),
            forall|j: int| 0 <= j < i ==> left[j]@ == right[j]@,
        decreases left.len() - i,
    {
        if !left[i].same(&right[i]) {
            assert(models(left@)[i as int] != models(right@)[i as int]);
            return false;
        }
        i += 1;
    }
    assert(models(left@) =~= models(right@));
    true
}

} // verus!
