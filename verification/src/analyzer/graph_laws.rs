//! What holds of the dataflow graph of every module.

use vstd::prelude::*;
use crate::analyzer::graph::{
    bound_pat, bound_props, evaluated, evaluated_args, evaluated_callee, evaluated_this,
    graph_of, property_of, template_parts, with_args, with_callee, with_declarators, with_elems,
    with_expr, with_exprs, with_function, with_params, with_specifiers, with_stmt, with_stmts,
    EffectModel, VarGraphModel,
};
use crate::analyzer::laws::{
    all_closed, closed, lemma_joined_is_closed, lemma_link_keeps_all_closed,
    lemma_link_keeps_closed,
};
use crate::analyzer::linker::{linked, linked_each};
use crate::analyzer::Value;
use crate::ast::{
    runtime_request, Callee, Expr, ExprOrSpread, Function, ImportSpecifier, MemberProp, Module,
    ObjectPatProp, Pat, Stmt, VarDeclarator,
};

verus! {

/// Every known function in the effect is one of the fixed set.
pub open spec fn closed_effect(effect: EffectModel) -> bool {
    match effect {
        EffectModel::Call { func, this, args, span } => closed(func) && closed(this) && all_closed(
            args,
        ),
    }
}

/// The graph has finitely many bindings, and every known function in it is
/// one of the fixed set.
pub open spec fn closed_graph(graph: VarGraphModel) -> bool {
    &&& graph.values.dom().finite()
    &&& forall|id: u64| graph.values.contains_key(id) ==> closed(#[trigger] graph.values[id])
    &&& forall|i: int| 0 <= i < graph.effects.len() ==> closed_effect(#[trigger] graph.effects[i])
}

/// Evaluating an expression introduces no known function.
pub proof fn lemma_evaluated_is_closed(expr: Expr)
    ensures
        closed(evaluated(expr)),
    decreases expr, 1nat,
{
    reveal_with_fuel(closed, 2);
    match expr {
        Expr::Member { obj, prop } => {
            lemma_evaluated_is_closed(*obj);
            match prop {
                MemberProp::Computed(key) => lemma_evaluated_is_closed(*key),
                _ => {},
            }
        },
        Expr::Call { callee, args, span } => {
            lemma_callee_is_closed(callee);
            lemma_args_are_closed(args@);
        },
        Expr::Add(left, right) => {
            lemma_evaluated_is_closed(*left);
            lemma_evaluated_is_closed(*right);
            let parts = seq![evaluated(*left), evaluated(*right)];
        },
        Expr::Tpl { quasis, exprs } => {
            let parts = template_parts(quasis@, exprs@);
            assert forall|i: int| 0 <= i < parts.len() implies closed(#[trigger] parts[i]) by {
                if i % 2 == 1 && i / 2 < exprs.len() {
                    lemma_evaluated_is_closed(exprs@[i / 2]);
                }
            }
        },
        Expr::Cond { test, cons, alt } => {
            lemma_evaluated_is_closed(*cons);
            lemma_evaluated_is_closed(*alt);
            assert(all_closed(seq![evaluated(*cons), evaluated(*alt)]));
        },
        Expr::Assign { target, value } => {
            lemma_evaluated_is_closed(*value);
        },
        _ => {},
    }
}

/// Evaluating the function and `this` of a call introduces no known function.
pub proof fn lemma_callee_is_closed(callee: Callee)
    ensures
        closed(evaluated_callee(callee)),
        closed(evaluated_this(callee)),
    decreases callee, 0nat,
{
    match callee {
        Callee::Expr(function) => {
            lemma_evaluated_is_closed(*function);
            match *function {
                Expr::Member { obj, prop } => lemma_evaluated_is_closed(*obj),
                _ => {},
            }
        },
        _ => {},
    }
}

/// Evaluating the arguments of a call introduces no known function.
pub proof fn lemma_args_are_closed(args: Seq<ExprOrSpread>)
    ensures
        all_closed(evaluated_args(args)),
    decreases args, 0nat,
{
    let values = evaluated_args(args);
    assert forall|i: int| 0 <= i < values.len() implies closed(#[trigger] values[i]) by {
        if !args[i].spread {
            lemma_evaluated_is_closed(args[i].expr);
        }
    }
}

/// Binding a value keeps the graph closed.
proof fn lemma_bound_is_closed(graph: VarGraphModel, id: u64, value: Value)
    requires
        closed_graph(graph),
        closed(value),
    ensures
        closed_graph(graph.bound(id, value)),
{
    if graph.values.contains_key(id) {
        let both = seq![graph.values[id], value];
        lemma_joined_is_closed(both);
    }
}

/// Binding a value to a target keeps the graph closed.
proof fn lemma_bound_pat_is_closed(graph: VarGraphModel, pat: Pat, value: Value)
    requires
        closed_graph(graph),
        closed(value),
    ensures
        closed_graph(bound_pat(graph, pat, value)),
    decreases pat, 0nat,
{
    match pat {
        Pat::Ident(ident) => match ident.binding {
            Some(id) => lemma_bound_is_closed(graph, id, value),
            None => {},
        },
        Pat::Object(props) => lemma_bound_props_are_closed(graph, props@, props.len() as nat, value),
        Pat::Other => {},
    }
}

/// Binding the properties of a value keeps the graph closed.
proof fn lemma_bound_props_are_closed(
    graph: VarGraphModel,
    props: Seq<ObjectPatProp>,
    count: nat,
    value: Value,
)
    requires
        closed_graph(graph),
        closed(value),
    ensures
        closed_graph(bound_props(graph, props, count, value)),
    decreases props, count,
{
    reveal_with_fuel(closed, 2);
    if 0 < count <= props.len() {
        lemma_bound_props_are_closed(graph, props, (count - 1) as nat, value);
        lemma_bound_pat_is_closed(
            bound_props(graph, props, (count - 1) as nat, value),
            props[count - 1].value,
            property_of(value, props[count - 1].key),
        );
    }
}

/// Binding parameters keeps the graph closed.
proof fn lemma_params_are_closed(graph: VarGraphModel, params: Seq<Pat>, count: nat)
    requires
        closed_graph(graph),
    ensures
        closed_graph(with_params(graph, params, count)),
    decreases count,
{
    if 0 < count <= params.len() {
        lemma_params_are_closed(graph, params, (count - 1) as nat);
        lemma_bound_pat_is_closed(
            with_params(graph, params, (count - 1) as nat),
            params[count - 1],
            Value::Unknown,
        );
    }
}

/// Binding the specifiers of an import keeps the graph closed.
proof fn lemma_specifiers_are_closed(
    graph: VarGraphModel,
    specifiers: Seq<ImportSpecifier>,
    count: nat,
    src: Seq<char>,
)
    requires
        closed_graph(graph),
    ensures
        closed_graph(with_specifiers(graph, specifiers, count, src)),
    decreases count,
{
    if 0 < count <= specifiers.len() {
        lemma_specifiers_are_closed(graph, specifiers, (count - 1) as nat, src);
        let before = with_specifiers(graph, specifiers, (count - 1) as nat, src);
        match specifiers[count - 1] {
            ImportSpecifier::Named { local, imported, is_type_only } => {
                lemma_bound_pat_is_closed(before, Pat::Ident(local), Value::Module(src));
            },
            ImportSpecifier::Default { local } => {
                lemma_bound_pat_is_closed(before, Pat::Ident(local), Value::Module(src));
            },
            ImportSpecifier::Namespace { local } => {
                lemma_bound_pat_is_closed(before, Pat::Ident(local), Value::Module(src));
            },
        }
    }
}

/// Walking an expression keeps the graph closed.
pub proof fn lemma_expr_is_closed(graph: VarGraphModel, expr: Expr)
    requires
        closed_graph(graph),
    ensures
        closed_graph(with_expr(graph, expr)),
    decreases expr, 0nat,
{
    match expr {
        Expr::Lit(_) => {},
        Expr::Ident(_) => {},
        Expr::Member { obj, prop } => {
            lemma_expr_is_closed(graph, *obj);
            match prop {
                MemberProp::Computed(key) => lemma_expr_is_closed(with_expr(graph, *obj), *key),
                _ => {},
            }
        },
        Expr::Call { callee, args, span } => {
            lemma_callee_is_closed(callee);
            lemma_args_are_closed(args@);
            let effect = EffectModel::Call {
                func: evaluated_callee(callee),
                this: evaluated_this(callee),
                args: evaluated_args(args@),
                span,
            };
            let entered = graph.with_effect(effect);
            lemma_callee_walk_is_closed(entered, callee);
            lemma_args_walk_is_closed(with_callee(entered, callee), args@, args.len() as nat);
        },
        Expr::Array(elems) => lemma_elems_are_closed(graph, elems@, elems.len() as nat),
        Expr::Add(left, right) => {
            lemma_expr_is_closed(graph, *left);
            lemma_expr_is_closed(with_expr(graph, *left), *right);
        },
        Expr::Tpl { quasis, exprs } => lemma_exprs_are_closed(graph, exprs@, exprs.len() as nat),
        Expr::Cond { test, cons, alt } => {
            lemma_expr_is_closed(graph, *test);
            lemma_expr_is_closed(with_expr(graph, *test), *cons);
            lemma_expr_is_closed(with_expr(with_expr(graph, *test), *cons), *alt);
        },
        Expr::Assign { target, value } => {
            lemma_expr_is_closed(graph, *value);
            lemma_evaluated_is_closed(*value);
            lemma_bound_pat_is_closed(with_expr(graph, *value), target, evaluated(*value));
        },
        Expr::Function(function) => lemma_function_is_closed(graph, function),
        Expr::Other(children) => lemma_exprs_are_closed(
            graph,
            children@,
            children.len() as nat,
        ),
    }
}

/// Walking the function that is called keeps the graph closed.
proof fn lemma_callee_walk_is_closed(graph: VarGraphModel, callee: Callee)
    requires
        closed_graph(graph),
    ensures
        closed_graph(with_callee(graph, callee)),
    decreases callee, 0nat,
{
    match callee {
        Callee::Expr(function) => lemma_expr_is_closed(graph, *function),
        _ => {},
    }
}

/// Walking expressions keeps the graph closed.
proof fn lemma_exprs_are_closed(graph: VarGraphModel, exprs: Seq<Expr>, count: nat)
    requires
        closed_graph(graph),
    ensures
        closed_graph(with_exprs(graph, exprs, count)),
    decreases exprs, count,
{
    if 0 < count <= exprs.len() {
        lemma_exprs_are_closed(graph, exprs, (count - 1) as nat);
        lemma_expr_is_closed(with_exprs(graph, exprs, (count - 1) as nat), exprs[count - 1]);
    }
}

/// Walking the arguments of a call keeps the graph closed.
proof fn lemma_args_walk_is_closed(graph: VarGraphModel, args: Seq<ExprOrSpread>, count: nat)
    requires
        closed_graph(graph),
    ensures
        closed_graph(with_args(graph, args, count)),
    decreases args, count,
{
    if 0 < count <= args.len() {
        lemma_args_walk_is_closed(graph, args, (count - 1) as nat);
        lemma_expr_is_closed(with_args(graph, args, (count - 1) as nat), args[count - 1].expr);
    }
}

/// Walking the elements of an array keeps the graph closed.
proof fn lemma_elems_are_closed(
    graph: VarGraphModel,
    elems: Seq<Option<ExprOrSpread>>,
    count: nat,
)
    requires
        closed_graph(graph),
    ensures
        closed_graph(with_elems(graph, elems, count)),
    decreases elems, count,
{
    if 0 < count <= elems.len() {
        lemma_elems_are_closed(graph, elems, (count - 1) as nat);
        match elems[count - 1] {
            Some(elem) => lemma_expr_is_closed(
                with_elems(graph, elems, (count - 1) as nat),
                elem.expr,
            ),
            None => {},
        }
    }
}

/// Walking a function keeps the graph closed.
proof fn lemma_function_is_closed(graph: VarGraphModel, function: Function)
    requires
        closed_graph(graph),
    ensures
        closed_graph(with_function(graph, function)),
    decreases function, 0nat,
{
    lemma_params_are_closed(graph, function.params@, function.params.len() as nat);
    lemma_stmts_are_closed(
        with_params(graph, function.params@, function.params.len() as nat),
        function.body@,
        function.body.len() as nat,
    );
}

/// Walking declarators keeps the graph closed.
proof fn lemma_declarators_are_closed(
    graph: VarGraphModel,
    declarators: Seq<VarDeclarator>,
    count: nat,
)
    requires
        closed_graph(graph),
    ensures
        closed_graph(with_declarators(graph, declarators, count)),
    decreases declarators, count,
{
    if 0 < count <= declarators.len() {
        lemma_declarators_are_closed(graph, declarators, (count - 1) as nat);
        let before = with_declarators(graph, declarators, (count - 1) as nat);
        match (runtime_request(declarators[count - 1]), declarators[count - 1].init) {
            (None, Some(init)) => {
                lemma_expr_is_closed(before, init);
                lemma_evaluated_is_closed(init);
                lemma_bound_pat_is_closed(
                    with_expr(before, init),
                    declarators[count - 1].name,
                    evaluated(init),
                );
            },
            _ => {},
        }
    }
}

/// Walking a statement keeps the graph closed.
pub proof fn lemma_stmt_is_closed(graph: VarGraphModel, stmt: Stmt)
    requires
        closed_graph(graph),
    ensures
        closed_graph(with_stmt(graph, stmt)),
    decreases stmt, 0nat,
{
    match stmt {
        Stmt::Import(decl) => {
            if !decl.type_only {
                lemma_specifiers_are_closed(
                    graph,
                    decl.specifiers@,
                    decl.specifiers.len() as nat,
                    decl.src@,
                );
            }
        },
        Stmt::ExportAll { src } => {},
        Stmt::NamedExport { src } => {},
        Stmt::Var(declarators) => lemma_declarators_are_closed(
            graph,
            declarators@,
            declarators.len() as nat,
        ),
        Stmt::Expr(expr) => lemma_expr_is_closed(graph, expr),
        Stmt::Function { ident, function } => {
            lemma_bound_pat_is_closed(graph, Pat::Ident(ident), Value::Unknown);
            lemma_function_is_closed(bound_pat(graph, Pat::Ident(ident), Value::Unknown), function);
        },
        Stmt::Block(stmts) => lemma_stmts_are_closed(graph, stmts@, stmts.len() as nat),
    }
}

/// Walking statements keeps the graph closed.
proof fn lemma_stmts_are_closed(graph: VarGraphModel, stmts: Seq<Stmt>, count: nat)
    requires
        closed_graph(graph),
    ensures
        closed_graph(with_stmts(graph, stmts, count)),
    decreases stmts, count,
{
    if 0 < count <= stmts.len() {
        lemma_stmts_are_closed(graph, stmts, (count - 1) as nat);
        lemma_stmt_is_closed(with_stmts(graph, stmts, (count - 1) as nat), stmts[count - 1]);
    }
}

/// The graph of a module has finitely many bindings, and holds known
/// functions of the fixed set only.
pub proof fn lemma_graph_is_closed(module: Module)
    ensures
        closed_graph(graph_of(module)),
{
    lemma_stmts_are_closed(VarGraphModel::empty(), module.body@, module.body.len() as nat);
}

/// Closed set of known values, for a whole module: every function and every
/// argument of an effect of the module, once linked, holds known functions of
/// the fixed set only.
pub proof fn lemma_linked_effects_are_closed(module: Module, directory: Seq<char>, at: int)
    requires
        0 <= at < graph_of(module).effects.len(),
    ensures
        closed(
            linked(
                graph_of(module).values,
                directory,
                graph_of(module).effects[at]->func,
                Set::empty(),
            ),
        ),
        all_closed(
            linked_each(
                graph_of(module).values,
                directory,
                graph_of(module).effects[at]->args,
                Set::empty(),
            ),
        ),
{
    let graph = graph_of(module);
    lemma_graph_is_closed(module);
    lemma_link_keeps_closed(graph.values, directory, graph.effects[at]->func, Set::empty());
    lemma_link_keeps_all_closed(graph.values, directory, graph.effects[at]->args, Set::empty());
}

} // verus!
