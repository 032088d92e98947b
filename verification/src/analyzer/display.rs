//! Values as text, for diagnostics.

use vstd::prelude::*;
use vstd::string::StringExecFns;
use crate::analyzer::{
    Constant, ConstantValue, FreeVarKind, JsValue, Value, WellKnownFunction,
    WellKnownFunctionKind, WellKnownObjectKind, models,
};

verus! {

/// The decimal digit `digit`, as text.
pub open spec fn digit_text(digit: nat) -> Seq<char> {
    if digit == 0 {
        "0"@
    } else if digit == 1 {
        "1"@
    } else if digit == 2 {
        "2"@
    } else if digit == 3 {
        "3"@
    } else if digit == 4 {
        "4"@
    } else if digit == 5 {
        "5"@
    } else if digit == 6 {
        "6"@
    } else if digit == 7 {
        "7"@
    } else if digit == 8 {
        "8"@
    } else {
        "9"@
    }
}

/// A number in decimal.
pub open spec fn decimal(number: nat) -> Seq<char>
    decreases number,
{
    if number < 10 {
        digit_text(number)
    } else {
        decimal(number / 10) + digit_text(number % 10)
    }
}

/// A literal as text: a string in double quotes, a regular expression
/// between slashes, everything else as in the source.
pub open spec fn printed_constant(constant: Constant) -> Seq<char> {
    match constant {
        Constant::Str(text) => "\""@ + text + "\""@,
        Constant::Num(text) => text,
        Constant::Bool(flag) => if flag {
            "true"@
        } else {
            "false"@
        },
        Constant::Null => "null"@,
        Constant::Undefined => "undefined"@,
        Constant::Regex(source, flags) => "/"@ + source + "/"@ + flags,
    }
}

/// The name of a free variable.
pub open spec fn printed_free_var(kind: FreeVarKind) -> Seq<char> {
    match kind {
        FreeVarKind::Require => "require"@,
        FreeVarKind::Import => "import"@,
        FreeVarKind::Dirname => "__dirname"@,
        FreeVarKind::Filename => "__filename"@,
        FreeVarKind::Global => "global"@,
    }
}

/// A known function as the script names it.
pub open spec fn printed_function(function: WellKnownFunction) -> Seq<char> {
    match function {
        WellKnownFunction::Require => "require"@,
        WellKnownFunction::RequireResolve => "require.resolve"@,
        WellKnownFunction::Import => "import"@,
        WellKnownFunction::FsReadMethod(name) => "fs."@ + name,
        WellKnownFunction::PathJoin => "path.join"@,
        WellKnownFunction::PathResolve => "path.resolve"@,
        WellKnownFunction::PathDirname => "path.dirname"@,
    }
}

/// A known object as the script names it.
pub open spec fn printed_object(object: WellKnownObjectKind) -> Seq<char> {
    match object {
        WellKnownObjectKind::PathModule => "path"@,
        WellKnownObjectKind::FsModule => "fs"@,
        WellKnownObjectKind::ProcessModule => "process"@,
    }
}

/// A value as text.
pub open spec fn printed(value: Value) -> Seq<char>
    decreases value, 0nat,
{
    match value {
        Value::Constant(constant) => printed_constant(constant),
        Value::FreeVar(kind) => "FreeVar("@ + printed_free_var(kind) + ")"@,
        Value::Module(name) => "Module("@ + name + ")"@,
        Value::WellKnownFunction(function) => printed_function(function),
        Value::WellKnownObject(object) => printed_object(object),
        Value::Variable(id) => "Variable("@ + decimal(id as nat) + ")"@,
        Value::Call(function, this, arguments) => printed(*function) + "("@ + printed_list(
            arguments,
            arguments.len(),
            ", "@,
        ) + ")"@,
        Value::MemberAccess(object, property) => printed(*object) + "["@ + printed(*property) + "]"@,
        Value::Concat(parts) => "concat("@ + printed_list(parts, parts.len(), ", "@) + ")"@,
        Value::Add(parts) => "("@ + printed_list(parts, parts.len(), " + "@) + ")"@,
        Value::Alternatives(alts) => "("@ + printed_list(alts, alts.len(), " | "@) + ")"@,
        Value::Unknown => "???"@,
    }
}

/// The first `count` of the values as text, with `separator` between them.
pub open spec fn printed_list(values: Seq<Value>, count: nat, separator: Seq<char>) -> Seq<char>
    decreases values, count,
{
    if count == 0 || count > values.len() {
        Seq::empty()
    } else if count == 1 {
        printed(values[0])
    } else {
        printed_list(values, (count - 1) as nat, separator) + separator + printed(
            values[count - 1],
        )
    }
}

/// The text of a decimal digit.
fn digit(value: u64) -> (text: &'static str)
    requires
        value < 10,
    ensures
        text@ == digit_text(value as nat),
{
    let digit = value;
    if digit == 0 {
        "0"
    } else if digit == 1 {
        "1"
    } else if digit == 2 {
        "2"
    } else if digit == 3 {
        "3"
    } else if digit == 4 {
        "4"
    } else if digit == 5 {
        "5"
    } else if digit == 6 {
        "6"
    } else if digit == 7 {
        "7"
    } else if digit == 8 {
        "8"
    } else {
        "9"
    }
}

/// Appends a number in decimal.
fn print_decimal(out: &mut String, number: u64)
    ensures
        final(out)@ == old(out)@ + decimal(number as nat),
    decreases number,
{
    if number >= 10 {
        print_decimal(out, number / 10);
    }
    out.append(digit(number % 10));
}

/// Appends a literal as text.
fn print_constant(out: &mut String, constant: &ConstantValue)
    ensures
        final(out)@ == old(out)@ + printed_constant(constant@),
{
    match constant {
        ConstantValue::Str(text) => {
            out.append("\"");
            out.append(text.as_str());
            out.append("\"");
        },
        ConstantValue::Num(text) => {
            out.append(text.as_str());
        },
        ConstantValue::Bool(flag) => {
            if *flag {
                out.append("true");
            } else {
                out.append("false");
            }
        },
        ConstantValue::Null => {
            out.append("null");
        },
        ConstantValue::Undefined => {
            out.append("undefined");
        },
        ConstantValue::Regex(source, flags) => {
            out.append("/");
            out.append(source.as_str());
            out.append("/");
            out.append(flags.as_str());
        },
    }
}

/// Appends a known function as the script names it.
pub fn print_function(out: &mut String, function: &WellKnownFunctionKind)
    ensures
        final(out)@ == old(out)@ + printed_function(function@),
{
    match function {
        WellKnownFunctionKind::Require => {
            out.append("require");
        },
        WellKnownFunctionKind::RequireResolve => {
            out.append("require.resolve");
        },
        WellKnownFunctionKind::Import => {
            out.append("import");
        },
        WellKnownFunctionKind::FsReadMethod(name) => {
            out.append("fs.");
            out.append(name.as_str());
        },
        WellKnownFunctionKind::PathJoin => {
            out.append("path.join");
        },
        WellKnownFunctionKind::PathResolve => {
            out.append("path.resolve");
        },
        WellKnownFunctionKind::PathDirname => {
            out.append("path.dirname");
        },
    }
}

/// Appends a value as text.
pub fn print_value(out: &mut String, value: &JsValue)
    ensures
        final(out)@ == old(out)@ + printed(value@),
    decreases value,
{
    match value {
        JsValue::Constant(constant) => {
            print_constant(out, constant);
        },
        JsValue::FreeVar(kind) => {
            out.append("FreeVar(");
            match kind {
                FreeVarKind::Require => out.append("require"),
                FreeVarKind::Import => out.append("import"),
                FreeVarKind::Dirname => out.append("__dirname"),
                FreeVarKind::Filename => out.append("__filename"),
                FreeVarKind::Global => out.append("global"),
            }
            out.append(")");
        },
        JsValue::Module(name) => {
            out.append("Module(");
            out.append(name.as_str());
            out.append(")");
        },
        JsValue::WellKnownFunction(function) => {
            print_function(out, function);
        },
        JsValue::WellKnownObject(object) => {
            match object {
                WellKnownObjectKind::PathModule => out.append("path"),
                WellKnownObjectKind::FsModule => out.append("fs"),
                WellKnownObjectKind::ProcessModule => out.append("process"),
            }
        },
        JsValue::Variable(id) => {
            out.append("Variable(");
            print_decimal(out, *id);
            out.append(")");
        },
        JsValue::Call(function, this, arguments) => {
            print_value(out, function);
            out.append("(");
            print_values(out, arguments, ", ");
            out.append(")");
        },
        JsValue::MemberAccess(object, property) => {
            print_value(out, object);
            out.append("[");
            print_value(out, property);
            out.append("]");
        },
        JsValue::Concat(parts) => {
            out.append("concat(");
            print_values(out, parts, ", ");
            out.append(")");
        },
        JsValue::Add(parts) => {
            out.append("(");
            print_values(out, parts, " + ");
            out.append(")");
        },
        JsValue::Alternatives(alts) => {
            out.append("(");
            print_values(out, alts, " | ");
            out.append(")");
        },
        JsValue::Unknown => {
            out.append("???");
        },
    }
}

/// Appends values as text, with `separator` between them.
pub fn print_values(out: &mut String, values: &Vec<JsValue>, separator: &str)
    ensures
        final(out)@ == old(out)@ + printed_list(models(values@), values.len() as nat, separator@),
    decreases values,
{
    let ghost all = models(values@);
    let mut i: usize = 0;
    while i < values.len()
        invariant
            i <= values.len(),
            all == models(values@),
            out@ == old(out)@ + printed_list(all, i as nat, separator@),
        decreases values.len() - i,
    {
        if i > 0 {
            out.append(separator);
        }
        print_value(out, &values[i]);
        i += 1;
    }
}

impl JsValue {
    /// The value as text.
    pub fn print(&self) -> (text: String)
        ensures
            text@ == printed(self@),
    {
        let mut text = String::new();
        print_value(&mut text, self);
        text
    }
}

} // verus!
