//! The dataflow graph of a module: what its bindings hold, and the effects
//! that are worth interpreting.

use std::collections::HashMap;
use swc_common::Span;
use vstd::prelude::*;
use crate::analyzer::linker::{join, joined};
use crate::text::text_is;
use crate::analyzer::{Constant, ConstantValue, FreeVarKind, JsValue, Value, models};
use crate::ast::{
    requested_runtime, runtime_request, Callee, Expr, ExprOrSpread, Function, Ident,
    ImportSpecifier, MemberProp, Module, ObjectPatProp, Pat, Stmt, VarDeclarator,
};

verus! {

/// `swc_common::Span`, a range of the source text. The analysis carries the
/// span of a call from the syntax to the effect and to the warning, and reads
/// nothing in it: nothing is claimed of what it holds.
#[verifier::external_type_specification]
#[verifier::external_body]
pub struct ExSpan(swc_common::Span);

/// Something that the module does and that the analysis interprets.
#[derive(Debug, PartialEq, Eq)]
pub enum Effect {
    /// A call of `func` on `this` with `args`.
    Call { func: JsValue, this: JsValue, args: Vec<JsValue>, span: Span },
}

/// The mathematical model of an effect.
pub ghost enum EffectModel {
    Call { func: Value, this: Value, args: Seq<Value>, span: Span },
}

impl View for Effect {
    type V = EffectModel;

    open spec fn view(&self) -> EffectModel {
        match self {
            Effect::Call { func, this, args, span } => EffectModel::Call {
                func: func@,
                this: this@,
                args: models(args@),
                span: *span,
            },
        }
    }
}

/// The models of a list of effects.
pub open spec fn effect_models(effects: Seq<Effect>) -> Seq<EffectModel> {
    Seq::new(effects.len(), |i: int| effects[i]@)
}

/// The models of the values that bindings hold.
pub open spec fn binding_models(values: Map<u64, JsValue>) -> Map<u64, Value> {
    Map::new(|id: u64| values.contains_key(id), |id: u64| values[id]@)
}

/// The dataflow graph of a module.
#[derive(Debug)]
pub struct VarGraph {
    /// What each binding holds, by the binding's identifier.
    pub values: HashMap<u64, JsValue>,
    /// The effects, in the order of the source.
    pub effects: Vec<Effect>,
}

/// The mathematical model of a dataflow graph.
pub ghost struct VarGraphModel {
    pub values: Map<u64, Value>,
    pub effects: Seq<EffectModel>,
}

impl VarGraph {
    /// A graph has finitely many bindings, as the laws of linking ask.
    pub proof fn lemma_finite(&self)
        ensures
            self@.values.dom().finite(),
    {

        assert(self@.values.dom() =~= self.values@.dom());
    }
}

impl View for VarGraph {
    type V = VarGraphModel;

    open spec fn view(&self) -> VarGraphModel {
        VarGraphModel {
            values: binding_models(self.values@),
            effects: effect_models(self.effects@),
        }
    }
}

/// What a name that no declaration binds stands for.
pub open spec fn free_variable(sym: Seq<char>) -> Value {
    if sym == "require"@ {
        Value::FreeVar(FreeVarKind::Require)
    } else if sym == "__dirname"@ {
        Value::FreeVar(FreeVarKind::Dirname)
    } else if sym == "__filename"@ {
        Value::FreeVar(FreeVarKind::Filename)
    } else if sym == "global"@ {
        Value::FreeVar(FreeVarKind::Global)
    } else if sym == "undefined"@ {
        Value::Constant(Constant::Undefined)
    } else {
        Value::Unknown
    }
}

/// The parts of a template: the quasis and the values of the expressions in
/// turn, a quasi first.
pub open spec fn template_parts(quasis: Seq<String>, exprs: Seq<Expr>) -> Seq<Value>
    decreases exprs, 0nat,
{
    Seq::new(
        quasis.len() + exprs.len(),
        |i: int|
            if 0 <= i < quasis.len() + exprs.len() && i % 2 == 0 && i / 2 < quasis.len() {
                Value::Constant(Constant::Str(quasis[i / 2]@))
            } else if 0 <= i < quasis.len() + exprs.len() && i % 2 == 1 && i / 2 < exprs.len() {
                evaluated(exprs[i / 2])
            } else {
                Value::Unknown
            },
    )
}

/// The values of the arguments of a call; nothing is known of one that is
/// spread.
pub open spec fn evaluated_args(args: Seq<ExprOrSpread>) -> Seq<Value>
    decreases args, 0nat,
{
    Seq::new(
        args.len(),
        |i: int|
            if 0 <= i < args.len() && !args[i].spread {
                evaluated(args[i].expr)
            } else {
                Value::Unknown
            },
    )
}

/// The module that a call requires: the string that the free name `require`
/// is called with, where that is its one argument.
pub open spec fn required_module(callee: Callee, args: Seq<ExprOrSpread>) -> Option<Seq<char>> {
    match callee {
        Callee::Expr(function) => match *function {
            Expr::Ident(name) => if name.binding is None && name.sym@ == "require"@ && args.len()
                == 1 && !args[0].spread {
                match args[0].expr {
                    Expr::Lit(ConstantValue::Str(module)) => Some(module@),
                    _ => None,
                }
            } else {
                None
            },
            _ => None,
        },
        _ => None,
    }
}

/// What is known of the value of an expression, before linking. A call that
/// requires a module by a string is that module; every other call is a call
/// of what is known of its function, on what is known of its arguments.
pub open spec fn evaluated(expr: Expr) -> Value
    decreases expr, 1nat,
{
    match expr {
        Expr::Lit(constant) => Value::Constant(constant@),
        Expr::Ident(ident) => match ident.binding {
            Some(id) => Value::Variable(id),
            None => free_variable(ident.sym@),
        },
        Expr::Member { obj, prop } => match prop {
            MemberProp::Ident(name) => Value::MemberAccess(
                Box::new(evaluated(*obj)),
                Box::new(Value::Constant(Constant::Str(name@))),
            ),
            MemberProp::Computed(key) => Value::MemberAccess(
                Box::new(evaluated(*obj)),
                Box::new(evaluated(*key)),
            ),
            MemberProp::PrivateName(_) => Value::Unknown,
        },
        Expr::Call { callee, args, span } => match required_module(callee, args@) {
            Some(module) => Value::Module(module),
            None => Value::Call(
                Box::new(evaluated_callee(callee)),
                Box::new(evaluated_this(callee)),
                evaluated_args(args@),
            ),
        },
        Expr::Add(left, right) => Value::Add(seq![evaluated(*left), evaluated(*right)]),
        Expr::Tpl { quasis, exprs } => if quasis.len() == exprs.len() + 1 {
            Value::Concat(template_parts(quasis@, exprs@))
        } else {
            Value::Unknown
        },
        Expr::Cond { test, cons, alt } => Value::Alternatives(
            seq![evaluated(*cons), evaluated(*alt)],
        ),
        Expr::Assign { target, value } => evaluated(*value),
        _ => Value::Unknown,
    }
}

/// What is known of the function that a call calls.
pub open spec fn evaluated_callee(callee: Callee) -> Value
    decreases callee, 0nat,
{
    match callee {
        Callee::Expr(function) => evaluated(*function),
        Callee::Import => Value::FreeVar(FreeVarKind::Import),
        Callee::Super => Value::Unknown,
    }
}

/// What is known of `this` in a call: the object of a method call.
pub open spec fn evaluated_this(callee: Callee) -> Value
    decreases callee, 0nat,
{
    match callee {
        Callee::Expr(function) => match *function {
            Expr::Member { obj, prop } => evaluated(*obj),
            _ => Value::Unknown,
        },
        _ => Value::Unknown,
    }
}

impl VarGraphModel {
    /// The graph without bindings and effects.
    pub open spec fn empty() -> VarGraphModel {
        VarGraphModel { values: Map::empty(), effects: Seq::empty() }
    }

    /// The graph after `value` was bound to `id`: a binding that held a value
    /// already holds the join of both.
    pub open spec fn bound(self, id: u64, value: Value) -> VarGraphModel {
        VarGraphModel {
            values: self.values.insert(
                id,
                if self.values.contains_key(id) {
                    joined(seq![self.values[id], value])
                } else {
                    value
                },
            ),
            effects: self.effects,
        }
    }

    /// The graph after one more effect.
    pub open spec fn with_effect(self, effect: EffectModel) -> VarGraphModel {
        VarGraphModel { values: self.values, effects: self.effects.push(effect) }
    }
}

/// The value of the property `key` of `value`; unknown where the key is.
pub open spec fn property_of(value: Value, key: Option<String>) -> Value {
    match key {
        Some(name) => Value::MemberAccess(
            Box::new(value),
            Box::new(Value::Constant(Constant::Str(name@))),
        ),
        None => Value::Unknown,
    }
}

/// The graph after `value` was bound to a target: to a name, or property by
/// property to the names of an object pattern.
pub open spec fn bound_pat(graph: VarGraphModel, pat: Pat, value: Value) -> VarGraphModel
    decreases pat, 0nat,
{
    match pat {
        Pat::Ident(ident) => match ident.binding {
            Some(id) => graph.bound(id, value),
            None => graph,
        },
        Pat::Object(props) => bound_props(graph, props@, props.len() as nat, value),
        Pat::Other => graph,
    }
}

/// The graph after the properties of `value` were bound to the first `count`
/// properties of an object pattern.
pub open spec fn bound_props(
    graph: VarGraphModel,
    props: Seq<ObjectPatProp>,
    count: nat,
    value: Value,
) -> VarGraphModel
    decreases props, count,
{
    if count == 0 || count > props.len() {
        graph
    } else {
        bound_pat(
            bound_props(graph, props, (count - 1) as nat, value),
            props[count - 1].value,
            property_of(value, props[count - 1].key),
        )
    }
}

/// The graph after the first `count` parameters of a function were bound:
/// nothing is known of an argument.
pub open spec fn with_params(graph: VarGraphModel, params: Seq<Pat>, count: nat) -> VarGraphModel
    decreases count,
{
    if count == 0 || count > params.len() {
        graph
    } else {
        bound_pat(with_params(graph, params, (count - 1) as nat), params[count - 1], Value::Unknown)
    }
}

/// The graph after the first `count` specifiers of an import of `src` were
/// bound: each name to the module, but for those that import a type.
pub open spec fn with_specifiers(
    graph: VarGraphModel,
    specifiers: Seq<ImportSpecifier>,
    count: nat,
    src: Seq<char>,
) -> VarGraphModel
    decreases count,
{
    if count == 0 || count > specifiers.len() {
        graph
    } else {
        let before = with_specifiers(graph, specifiers, (count - 1) as nat, src);
        match specifiers[count - 1] {
            ImportSpecifier::Named { local, imported, is_type_only } => if is_type_only {
                before
            } else {
                bound_pat(before, Pat::Ident(local), Value::Module(src))
            },
            ImportSpecifier::Default { local } => bound_pat(
                before,
                Pat::Ident(local),
                Value::Module(src),
            ),
            ImportSpecifier::Namespace { local } => bound_pat(
                before,
                Pat::Ident(local),
                Value::Module(src),
            ),
        }
    }
}

/// The graph after an expression: every call in it is an effect, the call
/// itself before the calls in its parts, and every assignment and every
/// parameter in it is bound.
pub open spec fn with_expr(graph: VarGraphModel, expr: Expr) -> VarGraphModel
    decreases expr, 0nat,
{
    match expr {
        Expr::Lit(_) => graph,
        Expr::Ident(_) => graph,
        Expr::Member { obj, prop } => match prop {
            MemberProp::Computed(key) => with_expr(with_expr(graph, *obj), *key),
            _ => with_expr(graph, *obj),
        },
        Expr::Call { callee, args, span } => with_args(
            with_callee(
                graph.with_effect(
                    EffectModel::Call {
                        func: evaluated_callee(callee),
                        this: evaluated_this(callee),
                        args: evaluated_args(args@),
                        span,
                    },
                ),
                callee,
            ),
            args@,
            args.len() as nat,
        ),
        Expr::Array(elems) => with_elems(graph, elems@, elems.len() as nat),
        Expr::Add(left, right) => with_expr(with_expr(graph, *left), *right),
        Expr::Tpl { quasis, exprs } => with_exprs(graph, exprs@, exprs.len() as nat),
        Expr::Cond { test, cons, alt } => with_expr(
            with_expr(with_expr(graph, *test), *cons),
            *alt,
        ),
        Expr::Assign { target, value } => bound_pat(
            with_expr(graph, *value),
            target,
            evaluated(*value),
        ),
        Expr::Function(function) => with_function(graph, function),
        Expr::Other(children) => with_exprs(graph, children@, children.len() as nat),
    }
}

/// The graph after the expression that is called.
pub open spec fn with_callee(graph: VarGraphModel, callee: Callee) -> VarGraphModel
    decreases callee, 0nat,
{
    match callee {
        Callee::Expr(function) => with_expr(graph, *function),
        _ => graph,
    }
}

/// The graph after the first `count` of the expressions.
pub open spec fn with_exprs(graph: VarGraphModel, exprs: Seq<Expr>, count: nat) -> VarGraphModel
    decreases exprs, count,
{
    if count == 0 || count > exprs.len() {
        graph
    } else {
        with_expr(with_exprs(graph, exprs, (count - 1) as nat), exprs[count - 1])
    }
}

/// The graph after the first `count` of the arguments.
pub open spec fn with_args(graph: VarGraphModel, args: Seq<ExprOrSpread>, count: nat) -> VarGraphModel
    decreases args, count,
{
    if count == 0 || count > args.len() {
        graph
    } else {
        with_expr(with_args(graph, args, (count - 1) as nat), args[count - 1].expr)
    }
}

/// The graph after the first `count` of the elements of an array.
pub open spec fn with_elems(
    graph: VarGraphModel,
    elems: Seq<Option<ExprOrSpread>>,
    count: nat,
) -> VarGraphModel
    decreases elems, count,
{
    if count == 0 || count > elems.len() {
        graph
    } else {
        let before = with_elems(graph, elems, (count - 1) as nat);
        match elems[count - 1] {
            Some(elem) => with_expr(before, elem.expr),
            None => before,
        }
    }
}

/// The graph after a function: its parameters are bound, then its body is
/// walked.
pub open spec fn with_function(graph: VarGraphModel, function: Function) -> VarGraphModel
    decreases function, 0nat,
{
    with_stmts(
        with_params(graph, function.params@, function.params.len() as nat),
        function.body@,
        function.body.len() as nat,
    )
}

/// The graph after the first `count` of the declarators: the initializer is
/// walked and its value is bound to the name, where there is one. A
/// declarator that requires a module under the name of the bundler runtime is
/// left to the syntactic visitor: it is not walked.
pub open spec fn with_declarators(
    graph: VarGraphModel,
    declarators: Seq<VarDeclarator>,
    count: nat,
) -> VarGraphModel
    decreases declarators, count,
{
    if count == 0 || count > declarators.len() {
        graph
    } else {
        let before = with_declarators(graph, declarators, (count - 1) as nat);
        match (runtime_request(declarators[count - 1]), declarators[count - 1].init) {
            (None, Some(init)) => bound_pat(
                with_expr(before, init),
                declarators[count - 1].name,
                evaluated(init),
            ),
            _ => before,
        }
    }
}

/// The graph after a statement.
pub open spec fn with_stmt(graph: VarGraphModel, stmt: Stmt) -> VarGraphModel
    decreases stmt, 0nat,
{
    match stmt {
        Stmt::Import(decl) => if decl.type_only {
            graph
        } else {
            with_specifiers(graph, decl.specifiers@, decl.specifiers.len() as nat, decl.src@)
        },
        Stmt::ExportAll { src } => graph,
        Stmt::NamedExport { src } => graph,
        Stmt::Var(declarators) => with_declarators(
            graph,
            declarators@,
            declarators.len() as nat,
        ),
        Stmt::Expr(expr) => with_expr(graph, expr),
        Stmt::Function { ident, function } => with_function(
            bound_pat(graph, Pat::Ident(ident), Value::Unknown),
            function,
        ),
        Stmt::Block(stmts) => with_stmts(graph, stmts@, stmts.len() as nat),
    }
}

/// The graph after the first `count` of the statements.
pub open spec fn with_stmts(graph: VarGraphModel, stmts: Seq<Stmt>, count: nat) -> VarGraphModel
    decreases stmts, count,
{
    if count == 0 || count > stmts.len() {
        graph
    } else {
        with_stmt(with_stmts(graph, stmts, (count - 1) as nat), stmts[count - 1])
    }
}

/// The dataflow graph of a module.
pub open spec fn graph_of(module: Module) -> VarGraphModel {
    with_stmts(VarGraphModel::empty(), module.body@, module.body.len() as nat)
}

broadcast use vstd::std_specs::hash::group_hash_axioms;

/// What a name that no declaration binds stands for.
fn free_var(sym: &String) -> (value: JsValue)
    ensures
        value@ == free_variable(sym@),
{
    if text_is(sym, "require") {
        JsValue::FreeVar(FreeVarKind::Require)
    } else if text_is(sym, "__dirname") {
        JsValue::FreeVar(FreeVarKind::Dirname)
    } else if text_is(sym, "__filename") {
        JsValue::FreeVar(FreeVarKind::Filename)
    } else if text_is(sym, "global") {
        JsValue::FreeVar(FreeVarKind::Global)
    } else if text_is(sym, "undefined") {
        JsValue::Constant(ConstantValue::Undefined)
    } else {
        JsValue::Unknown
    }
}

/// Evaluates the parts of a template.
fn evaluate_template(quasis: &Vec<String>, exprs: &Vec<Expr>) -> (parts: Vec<JsValue>)
    requires
        quasis.len() == exprs.len() + 1,
    ensures
        models(parts@) == template_parts(quasis@, exprs@),
    decreases exprs,
{
    let mut parts: Vec<JsValue> = Vec::new();
    let mut i: usize = 0;
    while i < exprs.len()
        invariant
            i <= exprs.len(),
            quasis.len() == exprs.len() + 1,
            parts.len() == 2 * i,
            forall|j: int| 0 <= j < parts.len() ==> parts[j]@ == template_parts(quasis@, exprs@)[j],
        decreases exprs.len() - i,
    {
        parts.push(JsValue::Constant(ConstantValue::Str(quasis[i].clone())));
        parts.push(evaluate(&exprs[i]));
        i += 1;
    }
    parts.push(JsValue::Constant(ConstantValue::Str(quasis[i].clone())));
    parts
}

/// Evaluates the arguments of a call.
fn evaluate_args(args: &Vec<ExprOrSpread>) -> (values: Vec<JsValue>)
    ensures
        models(values@) == evaluated_args(args@),
    decreases args,
{
    let mut values: Vec<JsValue> = Vec::new();
    let mut i: usize = 0;
    while i < args.len()
        invariant
            i <= args.len(),
            values.len() == i,
            forall|j: int| 0 <= j < i ==> values[j]@ == evaluated_args(args@)[j],
        decreases args.len() - i,
    {
        if args[i].spread {
            values.push(JsValue::Unknown);
        } else {
            values.push(evaluate(&args[i].expr));
        }
        i += 1;
    }
    values
}

/// Evaluates the function that a call calls.
fn evaluate_callee(callee: &Callee) -> (value: JsValue)
    ensures
        value@ == evaluated_callee(*callee),
    decreases callee,
{
    match callee {
        Callee::Expr(function) => evaluate(function),
        Callee::Import => JsValue::FreeVar(FreeVarKind::Import),
        Callee::Super => JsValue::Unknown,
    }
}

/// Evaluates `this` of a call.
fn evaluate_this(callee: &Callee) -> (value: JsValue)
    ensures
        value@ == evaluated_this(*callee),
    decreases callee,
{
    match callee {
        Callee::Expr(function) => match &**function {
            Expr::Member { obj, prop } => evaluate(obj),
            _ => JsValue::Unknown,
        },
        _ => JsValue::Unknown,
    }
}

/// The module that a call requires, if it requires one by a string.
fn required(callee: &Callee, args: &Vec<ExprOrSpread>) -> (module: Option<String>)
    ensures
        match module {
            Some(module) => required_module(*callee, args@) == Some(module@),
            None => required_module(*callee, args@) is None,
        },
{
    let function = match callee {
        Callee::Expr(function) => function,
        _ => {
            return None;
        },
    };
    let name = match &**function {
        Expr::Ident(name) => name,
        _ => {
            return None;
        },
    };
    if name.binding.is_none() && text_is(&name.sym, "require") && args.len() == 1
        && !args[0].spread {
        match &args[0].expr {
            Expr::Lit(ConstantValue::Str(module)) => Some(module.clone()),
            _ => None,
        }
    } else {
        None
    }
}

/// Evaluates an expression: what is known of its value, before linking.
pub fn evaluate(expr: &Expr) -> (value: JsValue)
    ensures
        value@ == evaluated(*expr),
    decreases expr,
{
    proof {
        reveal_with_fuel(crate::analyzer::model, 2);
    }
    match expr {
        Expr::Lit(constant) => JsValue::Constant(constant.clone()),
        Expr::Ident(ident) => match ident.binding {
            Some(id) => JsValue::Variable(id),
            None => free_var(&ident.sym),
        },
        Expr::Member { obj, prop } => match prop {
            MemberProp::Ident(name) => JsValue::MemberAccess(
                Box::new(evaluate(obj)),
                Box::new(JsValue::Constant(ConstantValue::Str(name.clone()))),
            ),
            MemberProp::Computed(key) => JsValue::MemberAccess(
                Box::new(evaluate(obj)),
                Box::new(evaluate(key)),
            ),
            MemberProp::PrivateName(_) => JsValue::Unknown,
        },
        Expr::Call { callee, args, span } => match required(callee, args) {
            Some(module) => JsValue::Module(module),
            None => JsValue::Call(
                Box::new(evaluate_callee(callee)),
                Box::new(evaluate_this(callee)),
                evaluate_args(args),
            ),
        },
        Expr::Add(left, right) => {
            let mut parts: Vec<JsValue> = Vec::new();
            parts.push(evaluate(left));
            parts.push(evaluate(right));
            assert(models(parts@) =~= seq![evaluated(**left), evaluated(**right)]);
            JsValue::Add(parts)
        },
        Expr::Tpl { quasis, exprs } => {
            if exprs.len() < usize::MAX && quasis.len() == exprs.len() + 1 {
                JsValue::Concat(evaluate_template(quasis, exprs))
            } else {
                JsValue::Unknown
            }
        },
        Expr::Cond { test, cons, alt } => {
            let mut alts: Vec<JsValue> = Vec::new();
            alts.push(evaluate(cons));
            alts.push(evaluate(alt));
            assert(models(alts@) =~= seq![evaluated(**cons), evaluated(**alt)]);
            JsValue::Alternatives(alts)
        },
        Expr::Assign { target, value } => evaluate(value),
        _ => JsValue::Unknown,
    }
}

/// Binds a value to a binding: one that held a value already holds the join
/// of both.
fn bind(graph: &mut VarGraph, id: u64, value: JsValue)
    ensures
        final(graph)@ == old(graph)@.bound(id, value@),
{
    let ghost before = graph@;
    let held = match graph.values.remove(&id) {
        Some(earlier) => join(earlier, value),
        None => value,
    };
    graph.values.insert(id, held);
    assert(graph@.values =~= before.bound(id, value@).values);
}

/// Binds a value to a target.
fn bind_pat(graph: &mut VarGraph, pat: &Pat, value: JsValue)
    ensures
        final(graph)@ == bound_pat(old(graph)@, *pat, value@),
    decreases pat,
{
    match pat {
        Pat::Ident(ident) => match ident.binding {
            Some(id) => bind(graph, id, value),
            None => {},
        },
        Pat::Object(props) => bind_props(graph, props, &value),
        Pat::Other => {},
    }
}

/// Binds the properties of a value to the properties of an object pattern.
fn bind_props(graph: &mut VarGraph, props: &Vec<ObjectPatProp>, value: &JsValue)
    ensures
        final(graph)@ == bound_props(old(graph)@, props@, props.len() as nat, value@),
    decreases props,
{
    let mut i: usize = 0;
    while i < props.len()
        invariant
            i <= props.len(),
            graph@ == bound_props(old(graph)@, props@, i as nat, value@),
        decreases props.len() - i,
    {
        proof {
            reveal_with_fuel(crate::analyzer::model, 2);
        }
        let property = match &props[i].key {
            Some(name) => JsValue::MemberAccess(
                Box::new(value.clone()),
                Box::new(JsValue::Constant(ConstantValue::Str(name.clone()))),
            ),
            None => JsValue::Unknown,
        };
        bind_pat(graph, &props[i].value, property);
        i += 1;
    }
}

/// Binds the parameters of a function.
fn add_params(graph: &mut VarGraph, params: &Vec<Pat>)
    ensures
        final(graph)@ == with_params(old(graph)@, params@, params.len() as nat),
{
    let mut i: usize = 0;
    while i < params.len()
        invariant
            i <= params.len(),
            graph@ == with_params(old(graph)@, params@, i as nat),
        decreases params.len() - i,
    {
        bind_pat(graph, &params[i], JsValue::Unknown);
        i += 1;
    }
}

/// Binds the specifiers of an import of `src`.
fn add_specifiers(graph: &mut VarGraph, specifiers: &Vec<ImportSpecifier>, src: &String)
    ensures
        final(graph)@ == with_specifiers(
            old(graph)@,
            specifiers@,
            specifiers.len() as nat,
            src@,
        ),
{
    let mut i: usize = 0;
    while i < specifiers.len()
        invariant
            i <= specifiers.len(),
            graph@ == with_specifiers(old(graph)@, specifiers@, i as nat, src@),
        decreases specifiers.len() - i,
    {
        match &specifiers[i] {
            ImportSpecifier::Named { local, imported, is_type_only } => {
                if !*is_type_only {
                    bind_ident(graph, local, JsValue::Module(src.clone()));
                }
            },
            ImportSpecifier::Default { local } => {
                bind_ident(graph, local, JsValue::Module(src.clone()));
            },
            ImportSpecifier::Namespace { local } => {
                bind_ident(graph, local, JsValue::Module(src.clone()));
            },
        }
        i += 1;
    }
}

/// Binds a value to a name.
fn bind_ident(graph: &mut VarGraph, ident: &Ident, value: JsValue)
    ensures
        final(graph)@ == bound_pat(old(graph)@, Pat::Ident(*ident), value@),
{
    match ident.binding {
        Some(id) => bind(graph, id, value),
        None => {},
    }
}

/// Walks an expression.
fn add_expr(graph: &mut VarGraph, expr: &Expr)
    ensures
        final(graph)@ == with_expr(old(graph)@, *expr),
    decreases expr,
{
    match expr {
        Expr::Lit(_) => {},
        Expr::Ident(_) => {},
        Expr::Member { obj, prop } => {
            add_expr(graph, obj);
            match prop {
                MemberProp::Computed(key) => add_expr(graph, key),
                _ => {},
            }
        },
        Expr::Call { callee, args, span } => {
            let ghost before = graph@;
            let effect = Effect::Call {
                func: evaluate_callee(callee),
                this: evaluate_this(callee),
                args: evaluate_args(args),
                span: *span,
            };
            graph.effects.push(effect);
            assert(graph@.effects =~= before.with_effect(effect@).effects);
            match callee {
                Callee::Expr(function) => add_expr(graph, function),
                _ => {},
            }
            assert(graph@ == with_callee(before.with_effect(effect@), *callee));
            add_args(graph, args);
        },
        Expr::Array(elems) => add_elems(graph, elems),
        Expr::Add(left, right) => {
            add_expr(graph, left);
            add_expr(graph, right);
        },
        Expr::Tpl { quasis, exprs } => add_exprs(graph, exprs),
        Expr::Cond { test, cons, alt } => {
            add_expr(graph, test);
            add_expr(graph, cons);
            add_expr(graph, alt);
        },
        Expr::Assign { target, value } => {
            add_expr(graph, value);
            bind_pat(graph, target, evaluate(value));
        },
        Expr::Function(function) => add_function(graph, function),
        Expr::Other(children) => add_exprs(graph, children),
    }
}

/// Walks expressions, one after the other.
fn add_exprs(graph: &mut VarGraph, exprs: &Vec<Expr>)
    ensures
        final(graph)@ == with_exprs(old(graph)@, exprs@, exprs.len() as nat),
    decreases exprs,
{
    let mut i: usize = 0;
    while i < exprs.len()
        invariant
            i <= exprs.len(),
            graph@ == with_exprs(old(graph)@, exprs@, i as nat),
        decreases exprs.len() - i,
    {
        add_expr(graph, &exprs[i]);
        i += 1;
    }
}

/// Walks the arguments of a call.
fn add_args(graph: &mut VarGraph, args: &Vec<ExprOrSpread>)
    ensures
        final(graph)@ == with_args(old(graph)@, args@, args.len() as nat),
    decreases args,
{
    let mut i: usize = 0;
    while i < args.len()
        invariant
            i <= args.len(),
            graph@ == with_args(old(graph)@, args@, i as nat),
        decreases args.len() - i,
    {
        add_expr(graph, &args[i].expr);
        i += 1;
    }
}

/// Walks the elements of an array.
fn add_elems(graph: &mut VarGraph, elems: &Vec<Option<ExprOrSpread>>)
    ensures
        final(graph)@ == with_elems(old(graph)@, elems@, elems.len() as nat),
    decreases elems,
{
    let mut i: usize = 0;
    while i < elems.len()
        invariant
            i <= elems.len(),
            graph@ == with_elems(old(graph)@, elems@, i as nat),
        decreases elems.len() - i,
    {
        match &elems[i] {
            Some(elem) => add_expr(graph, &elem.expr),
            None => {},
        }
        i += 1;
    }
}

/// Walks a function: binds its parameters, then walks its body.
fn add_function(graph: &mut VarGraph, function: &Function)
    ensures
        final(graph)@ == with_function(old(graph)@, *function),
    decreases function,
{
    add_params(graph, &function.params);
    add_stmts(graph, &function.body);
}

/// Walks the declarators of a variable declaration.
fn add_declarators(graph: &mut VarGraph, declarators: &Vec<VarDeclarator>)
    ensures
        final(graph)@ == with_declarators(old(graph)@, declarators@, declarators.len() as nat),
    decreases declarators,
{
    let mut i: usize = 0;
    while i < declarators.len()
        invariant
            i <= declarators.len(),
            graph@ == with_declarators(old(graph)@, declarators@, i as nat),
        decreases declarators.len() - i,
    {
        if requested_runtime(&declarators[i]).is_none() {
            match &declarators[i].init {
                Some(init) => {
                    add_expr(graph, init);
                    bind_pat(graph, &declarators[i].name, evaluate(init));
                },
                None => {},
            }
        }
        i += 1;
    }
}

/// Walks a statement.
fn add_stmt(graph: &mut VarGraph, stmt: &Stmt)
    ensures
        final(graph)@ == with_stmt(old(graph)@, *stmt),
    decreases stmt,
{
    match stmt {
        Stmt::Import(decl) => {
            if !decl.type_only {
                add_specifiers(graph, &decl.specifiers, &decl.src);
            }
        },
        Stmt::ExportAll { src } => {},
        Stmt::NamedExport { src } => {},
        Stmt::Var(declarators) => add_declarators(graph, declarators),
        Stmt::Expr(expr) => add_expr(graph, expr),
        Stmt::Function { ident, function } => {
            bind_ident(graph, ident, JsValue::Unknown);
            add_function(graph, function);
        },
        Stmt::Block(stmts) => add_stmts(graph, stmts),
    }
}

/// Walks statements, one after the other.
fn add_stmts(graph: &mut VarGraph, stmts: &Vec<Stmt>)
    ensures
        final(graph)@ == with_stmts(old(graph)@, stmts@, stmts.len() as nat),
    decreases stmts,
{
    let mut i: usize = 0;
    while i < stmts.len()
        invariant
            i <= stmts.len(),
            graph@ == with_stmts(old(graph)@, stmts@, i as nat),
        decreases stmts.len() - i,
    {
        add_stmt(graph, &stmts[i]);
        i += 1;
    }
}

/// Builds the dataflow graph of a module in one walk: what each binding
/// holds, and the calls as effects, in the order of the source.
pub fn create_graph(module: &Module) -> (graph: VarGraph)
    ensures
        graph@ == graph_of(*module),
{
    let mut graph = VarGraph { values: HashMap::new(), effects: Vec::new() };
    assert(graph@.values =~= VarGraphModel::empty().values);
    assert(graph@.effects =~= VarGraphModel::empty().effects);
    add_stmts(&mut graph, &module.body);
    graph
}

} // verus!
