//! The values that the analysis knows by name, and the rewrites that
//! introduce them.

use vstd::prelude::*;
use vstd::string::StringExecFns;
use crate::text::text_is;
use crate::analyzer::{
    Constant, ConstantValue, FreeVarKind, JsValue, Value, WellKnownFunction,
    WellKnownFunctionKind, WellKnownObjectKind, models,
};

verus! {

/// Whether `fs.<name>` reads the file that its first argument names. The set
/// is fixed: `readFile`, `readFileSync`, `readdir`, `readdirSync`,
/// `createReadStream` and `existsSync`.
pub open spec fn is_fs_read_method(name: Seq<char>) -> bool {
    ||| name == "readFile"@
    ||| name == "readFileSync"@
    ||| name == "readdir"@
    ||| name == "readdirSync"@
    ||| name == "createReadStream"@
    ||| name == "existsSync"@
}

/// The known function that the member `name` of a known object is, if any.
pub open spec fn well_known_member(object: WellKnownObjectKind, name: Seq<char>) -> Option<
    WellKnownFunction,
> {
    match object {
        WellKnownObjectKind::FsModule => if is_fs_read_method(name) {
            Some(WellKnownFunction::FsReadMethod(name))
        } else {
            None
        },
        WellKnownObjectKind::PathModule => if name == "join"@ {
            Some(WellKnownFunction::PathJoin)
        } else if name == "resolve"@ {
            Some(WellKnownFunction::PathResolve)
        } else if name == "dirname"@ {
            Some(WellKnownFunction::PathDirname)
        } else {
            None
        },
        WellKnownObjectKind::ProcessModule => None,
    }
}

/// Whether every value is a string literal.
pub open spec fn all_strings(values: Seq<Value>) -> bool {
    forall|i: int| 0 <= i < values.len() ==> (#[trigger] values[i]) is Constant && values[i]->Constant_0 is Str
}

/// The texts of string literals.
pub open spec fn texts(values: Seq<Value>) -> Seq<Seq<char>> {
    Seq::new(values.len(), |i: int| values[i]->Constant_0->Str_0)
}

/// The segments of a path, joined by `/`; `.` when there is none.
pub open spec fn joined_path(segments: Seq<Seq<char>>) -> Seq<char>
    decreases segments.len(),
{
    if segments.len() == 0 {
        "."@
    } else if segments.len() == 1 {
        segments[0]
    } else {
        joined_path(segments.drop_last()) + "/"@ + segments.last()
    }
}

/// One rewrite of a member access or of a call over known values: the result,
/// and whether anything changed.
pub open spec fn replaced_well_known(value: Value) -> (Value, bool) {
    match value {
        Value::MemberAccess(object, property) => match (*object, *property) {
            (Value::WellKnownObject(kind), Value::Constant(Constant::Str(name))) => {
                match well_known_member(kind, name) {
                    Some(function) => (Value::WellKnownFunction(function), true),
                    None => (value, false),
                }
            },
            (
                Value::WellKnownFunction(WellKnownFunction::Require),
                Value::Constant(Constant::Str(name)),
            ) => if name == "resolve"@ {
                (Value::WellKnownFunction(WellKnownFunction::RequireResolve), true)
            } else {
                (value, false)
            },
            _ => (value, false),
        },
        Value::Call(function, _, arguments) => if *function == Value::WellKnownFunction(
            WellKnownFunction::PathJoin,
        ) && all_strings(arguments) {
            (Value::Constant(Constant::Str(joined_path(texts(arguments)))), true)
        } else {
            (value, false)
        },
        _ => (value, false),
    }
}

/// Whether `fs.<name>` reads the file that its first argument names.
pub fn fs_read_method(name: &String) -> (known: bool)
    ensures
        known == is_fs_read_method(name@),
{
    text_is(name, "readFile") || text_is(name, "readFileSync") || text_is(name, "readdir")
        || text_is(name, "readdirSync") || text_is(name, "createReadStream") || text_is(
        name,
        "existsSync",
    )
}

/// The known function that the member `name` of a known object is, if any.
pub fn member_of_well_known(object: WellKnownObjectKind, name: &String) -> (function: Option<
    WellKnownFunctionKind,
>)
    ensures
        match function {
            Some(kind) => well_known_member(object, name@) == Some(kind@),
            None => well_known_member(object, name@) is None,
        },
{
    match object {
        WellKnownObjectKind::FsModule => if fs_read_method(name) {
            Some(WellKnownFunctionKind::FsReadMethod(name.clone()))
        } else {
            None
        },
        WellKnownObjectKind::PathModule => if text_is(name, "join") {
            Some(WellKnownFunctionKind::PathJoin)
        } else if text_is(name, "resolve") {
            Some(WellKnownFunctionKind::PathResolve)
        } else if text_is(name, "dirname") {
            Some(WellKnownFunctionKind::PathDirname)
        } else {
            None
        },
        WellKnownObjectKind::ProcessModule => None,
    }
}

/// Joins the string literals `arguments` to a path; `None` when one of them
/// is no string literal.
pub fn path_join(arguments: &Vec<JsValue>) -> (path: Option<String>)
    ensures
        match path {
            Some(path) => all_strings(models(arguments@)) && path@ == joined_path(
                texts(models(arguments@)),
            ),
            None => !all_strings(models(arguments@)),
        },
{
    let ghost values = models(arguments@);
    if arguments.len() == 0 {
        return Some(".".to_owned());
    }
    let mut path = String::new();
    let mut i: usize = 0;
    while i < arguments.len()
        invariant
            i <= arguments.len(),
            values == models(arguments@),
            all_strings(values.subrange(0, i as int)),
            i > 0 ==> path@ == joined_path(texts(values.subrange(0, i as int))),
            i == 0 ==> path@ == Seq::<char>::empty(),
        decreases arguments.len() - i,
    {
        let ghost before = values.subrange(0, i as int);
        let ghost after = values.subrange(0, i as int + 1);
        match &arguments[i] {
            JsValue::Constant(ConstantValue::Str(text)) => {
                if i > 0 {
                    path.append("/");
                }
                path.append(text.as_str());
                proof {
                    assert(texts(after).drop_last() =~= texts(before));
                }
            },
            _ => {
                assert(!(values[i as int] is Constant && values[i as int]->Constant_0 is Str));
                return None;
            },
        }
        i += 1;
    }
    assert(values.subrange(0, i as int) =~= values);
    Some(path)
}

/// Applies one rewrite of a member access or of a call over known values, and
/// says whether anything changed.
pub fn replace_well_known(value: JsValue) -> (result: (JsValue, bool))
    ensures
        (result.0@, result.1) == replaced_well_known(value@),
{
    proof {
        reveal_with_fuel(crate::analyzer::model, 3);
    }
    match &value {
        JsValue::MemberAccess(object, property) => {
            match (&**object, &**property) {
                (JsValue::WellKnownObject(kind), JsValue::Constant(ConstantValue::Str(name))) => {
                    match member_of_well_known(*kind, name) {
                        Some(function) => {
                            return (JsValue::WellKnownFunction(function), true);
                        },
                        None => {},
                    }
                },
                (
                    JsValue::WellKnownFunction(WellKnownFunctionKind::Require),
                    JsValue::Constant(ConstantValue::Str(name)),
                ) => {
                    if text_is(name, "resolve") {
                        return (
                            JsValue::WellKnownFunction(WellKnownFunctionKind::RequireResolve),
                            true,
                        );
                    }
                },
                _ => {},
            }
        },
        JsValue::Call(function, _, arguments) => {
            match &**function {
                JsValue::WellKnownFunction(WellKnownFunctionKind::PathJoin) => {
                    match path_join(arguments) {
                        Some(path) => {
                            return (JsValue::Constant(ConstantValue::Str(path)), true);
                        },
                        None => {},
                    }
                },
                _ => {},
            }
        },
        _ => {},
    }
    (value, false)
}

/// The known object that an import of the module `name` is, if any.
pub open spec fn well_known_module(name: Seq<char>) -> Option<WellKnownObjectKind> {
    if name == "path"@ {
        Some(WellKnownObjectKind::PathModule)
    } else if name == "fs"@ || name == "fs/promises"@ {
        Some(WellKnownObjectKind::FsModule)
    } else if name == "process"@ {
        Some(WellKnownObjectKind::ProcessModule)
    } else {
        None
    }
}

/// One rewrite of a value of a module in `directory`: the rewrites over known
/// values, then those that introduce them; the result, and whether anything
/// changed.
pub open spec fn visited(directory: Seq<char>, value: Value) -> (Value, bool) {
    let (value, modified) = replaced_well_known(value);
    match value {
        Value::FreeVar(FreeVarKind::Dirname) => (Value::Constant(Constant::Str(directory)), true),
        Value::FreeVar(FreeVarKind::Require) => (
            Value::WellKnownFunction(WellKnownFunction::Require),
            true,
        ),
        Value::FreeVar(FreeVarKind::Import) => (
            Value::WellKnownFunction(WellKnownFunction::Import),
            true,
        ),
        Value::Module(name) => match well_known_module(name) {
            Some(object) => (Value::WellKnownObject(object), true),
            None => (value, modified),
        },
        _ => (value, modified),
    }
}

/// Applies one rewrite to a value of a module in `directory`, and says
/// whether anything changed.
pub fn value_visitor(directory: &String, value: JsValue) -> (result: (JsValue, bool))
    ensures
        (result.0@, result.1) == visited(directory@, value@),
{
    let (value, modified) = replace_well_known(value);
    let replacement = match &value {
        JsValue::FreeVar(FreeVarKind::Dirname) => JsValue::Constant(
            ConstantValue::Str(directory.clone()),
        ),
        JsValue::FreeVar(FreeVarKind::Require) => JsValue::WellKnownFunction(
            WellKnownFunctionKind::Require,
        ),
        JsValue::FreeVar(FreeVarKind::Import) => JsValue::WellKnownFunction(
            WellKnownFunctionKind::Import,
        ),
        JsValue::Module(name) => {
            if text_is(name, "path") {
                JsValue::WellKnownObject(WellKnownObjectKind::PathModule)
            } else if text_is(name, "fs/promises") {
                JsValue::WellKnownObject(WellKnownObjectKind::FsModule)
            } else if text_is(name, "fs") {
                JsValue::WellKnownObject(WellKnownObjectKind::FsModule)
            } else if text_is(name, "process") {
                JsValue::WellKnownObject(WellKnownObjectKind::ProcessModule)
            } else {
                return (value, modified);
            }
        },
        _ => {
            return (value, modified);
        },
    };
    (replacement, true)
}

} // verus!
