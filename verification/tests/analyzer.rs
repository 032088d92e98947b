use std::collections::HashMap;

use asset_references::analyzer::graph::{create_graph, evaluate, Effect, VarGraph};
use asset_references::analyzer::linker::{join, join_all, link, link_all, widen, LinkCache};
use asset_references::analyzer::pattern::{literal_texts, Pattern};
use asset_references::analyzer::well_known::{
    fs_read_method, member_of_well_known, path_join, replace_well_known, value_visitor,
};
use asset_references::analyzer::{
    clone_values, same_values, ConstantValue, FreeVarKind, JsValue, WellKnownFunctionKind,
    WellKnownObjectKind,
};
use asset_references::ast::{
    Callee, Expr, ExprOrSpread, Function, Ident, ImportDecl, ImportSpecifier, MemberProp, Module,
    ObjectPatProp, Pat, Stmt, VarDeclarator,
};
use swc_common::{BytePos, Span};

fn text(value: &str) -> JsValue {
    JsValue::Constant(ConstantValue::Str(value.to_string()))
}

fn alternatives(values: Vec<JsValue>) -> JsValue {
    JsValue::Alternatives(values)
}

fn member(object: JsValue, property: &str) -> JsValue {
    JsValue::MemberAccess(Box::new(object), Box::new(text(property)))
}

fn call(function: JsValue, arguments: Vec<JsValue>) -> JsValue {
    JsValue::Call(Box::new(function), Box::new(JsValue::Unknown), arguments)
}

fn function(kind: WellKnownFunctionKind) -> JsValue {
    JsValue::WellKnownFunction(kind)
}

fn graph(bindings: Vec<(u64, JsValue)>) -> VarGraph {
    let mut values = HashMap::new();
    for (id, value) in bindings {
        values.insert(id, value);
    }
    VarGraph { values, effects: Vec::new() }
}

fn directory() -> String {
    "/project/lib".to_string()
}

fn link_in(graph: &VarGraph, value: JsValue) -> JsValue {
    let mut cache = LinkCache::new();
    link(graph, value, &directory(), &mut cache)
}

fn lit(value: &str) -> Expr {
    Expr::Lit(ConstantValue::Str(value.to_string()))
}

fn free(name: &str) -> Expr {
    Expr::Ident(Ident { sym: name.to_string(), binding: None })
}

fn bound(name: &str, binding: u64) -> Ident {
    Ident { sym: name.to_string(), binding: Some(binding) }
}

fn arg(expr: Expr) -> ExprOrSpread {
    ExprOrSpread { spread: false, expr }
}

fn span(lo: u32, hi: u32) -> Span {
    Span { lo: BytePos(lo), hi: BytePos(hi) }
}

// Values

#[test]
fn values_are_compared_by_structure() {
    let left = call(member(JsValue::Variable(1), "f"), vec![text("a"), JsValue::Unknown]);
    let right = call(member(JsValue::Variable(1), "f"), vec![text("a"), JsValue::Unknown]);
    let other = call(member(JsValue::Variable(2), "f"), vec![text("a"), JsValue::Unknown]);
    assert!(left.same(&right));
    assert!(!left.same(&other));
    assert!(!text("a").same(&JsValue::Module("a".to_string())));
    assert_eq!(left.clone(), right);
}

#[test]
fn lists_of_values_are_compared_by_structure() {
    let list = vec![text("a"), JsValue::Variable(3)];
    assert!(same_values(&list, &clone_values(&list)));
    assert!(!same_values(&list, &vec![text("a")]));
    assert!(!same_values(&list, &vec![text("a"), JsValue::Variable(4)]));
}

#[test]
fn constants_are_compared_by_kind_and_text() {
    let one = ConstantValue::Num("1".to_string());
    assert!(one.same(&ConstantValue::Num("1".to_string())));
    assert!(!one.same(&ConstantValue::Str("1".to_string())));
    assert!(ConstantValue::Regex("a+".to_string(), "g".to_string())
        .same(&ConstantValue::Regex("a+".to_string(), "g".to_string())));
    assert!(!ConstantValue::Regex("a+".to_string(), "g".to_string())
        .same(&ConstantValue::Regex("a+".to_string(), "i".to_string())));
    assert!(!ConstantValue::Null.same(&ConstantValue::Undefined));
    assert_eq!(ConstantValue::Str("x".to_string()).as_str(), Some(&"x".to_string()));
    assert_eq!(one.as_str(), None);
}

#[test]
fn known_functions_are_compared_by_kind_and_name() {
    let read = WellKnownFunctionKind::FsReadMethod("readFile".to_string());
    assert!(read.same(&WellKnownFunctionKind::FsReadMethod("readFile".to_string())));
    assert!(!read.same(&WellKnownFunctionKind::FsReadMethod("readdir".to_string())));
    assert!(!WellKnownFunctionKind::Require.same(&WellKnownFunctionKind::RequireResolve));
    assert_eq!(read.clone(), read);
}

#[test]
fn values_are_printed() {
    assert_eq!(text("a").print(), "\"a\"");
    assert_eq!(JsValue::Constant(ConstantValue::Num("1.5".to_string())).print(), "1.5");
    assert_eq!(JsValue::Constant(ConstantValue::Bool(true)).print(), "true");
    assert_eq!(JsValue::Constant(ConstantValue::Bool(false)).print(), "false");
    assert_eq!(JsValue::Constant(ConstantValue::Null).print(), "null");
    assert_eq!(JsValue::Constant(ConstantValue::Undefined).print(), "undefined");
    assert_eq!(
        JsValue::Constant(ConstantValue::Regex("a+".to_string(), "gi".to_string())).print(),
        "/a+/gi"
    );
    assert_eq!(JsValue::FreeVar(FreeVarKind::Filename).print(), "FreeVar(__filename)");
    assert_eq!(JsValue::Module("fs".to_string()).print(), "Module(fs)");
    assert_eq!(function(WellKnownFunctionKind::RequireResolve).print(), "require.resolve");
    assert_eq!(
        function(WellKnownFunctionKind::FsReadMethod("readdir".to_string())).print(),
        "fs.readdir"
    );
    assert_eq!(JsValue::WellKnownObject(WellKnownObjectKind::PathModule).print(), "path");
    assert_eq!(JsValue::Variable(0).print(), "Variable(0)");
    assert_eq!(JsValue::Variable(18446744073709551615).print(), "Variable(18446744073709551615)");
    assert_eq!(JsValue::Variable(1203).print(), "Variable(1203)");
    assert_eq!(
        call(member(JsValue::Variable(7), "f"), vec![text("a"), JsValue::Unknown]).print(),
        "Variable(7)[\"f\"](\"a\", ???)"
    );
    assert_eq!(JsValue::Concat(vec![text("a"), JsValue::Unknown]).print(), "concat(\"a\", ???)");
    assert_eq!(JsValue::Add(vec![text("a"), text("b")]).print(), "(\"a\" + \"b\")");
    assert_eq!(alternatives(vec![text("a"), text("b")]).print(), "(\"a\" | \"b\")");
    assert_eq!(alternatives(vec![]).print(), "()");
}

#[test]
fn same_values_have_the_same_hash() {
    let left = call(member(JsValue::Variable(1), "f"), vec![text("a"), JsValue::Unknown]);
    let right = call(member(JsValue::Variable(1), "f"), vec![text("a"), JsValue::Unknown]);
    assert_eq!(left.structural_hash(), right.structural_hash());
    assert_eq!(JsValue::Unknown.structural_hash(), 52);
    assert_eq!(JsValue::Constant(ConstantValue::Bool(true)).structural_hash(), 1274);
    assert_eq!(text("a").structural_hash(), 5240);
    assert_eq!(JsValue::Variable(4294967291).structural_hash(), 1426);
    assert_eq!(JsValue::Concat(vec![]).structural_hash(), 49);
    assert_eq!(JsValue::Add(vec![JsValue::Unknown]).structural_hash(), 1602);
    assert!(text("ab").structural_hash() != text("ba").structural_hash());
    assert!(
        JsValue::Add(vec![text("a")]).structural_hash()
            != JsValue::Concat(vec![text("a")]).structural_hash()
    );
}

// Join

#[test]
fn join_flattens_and_keeps_each_value_once() {
    assert_eq!(join(text("a"), text("b")), alternatives(vec![text("a"), text("b")]));
    assert_eq!(join(text("a"), text("a")), text("a"));
    assert_eq!(
        join(alternatives(vec![text("a"), text("b")]), text("c")),
        alternatives(vec![text("a"), text("b"), text("c")])
    );
    assert_eq!(
        join(alternatives(vec![text("a"), text("b")]), alternatives(vec![text("b"), text("c")])),
        alternatives(vec![text("a"), text("b"), text("c")])
    );
}

#[test]
fn join_retains_unknown() {
    assert_eq!(join(text("a"), JsValue::Unknown), alternatives(vec![text("a"), JsValue::Unknown]));
}

#[test]
fn widening_makes_unknown_absorbing() {
    assert_eq!(widen(join(text("a"), JsValue::Unknown)), JsValue::Unknown);
    assert_eq!(
        widen(join(text("a"), text("b"))),
        alternatives(vec![text("a"), text("b")])
    );
    assert_eq!(widen(text("a")), text("a"));
    assert_eq!(widen(JsValue::Unknown), JsValue::Unknown);
    assert_eq!(
        widen(JsValue::Add(vec![text("a"), JsValue::Unknown])),
        JsValue::Add(vec![text("a"), JsValue::Unknown])
    );
}

#[test]
fn join_of_nothing_is_unknown_and_of_one_is_that_one() {
    assert_eq!(join_all(&vec![]), JsValue::Unknown);
    assert_eq!(join_all(&vec![text("a")]), text("a"));
    assert_eq!(join_all(&vec![alternatives(vec![])]), JsValue::Unknown);
    assert_eq!(join_all(&vec![alternatives(vec![text("a")])]), text("a"));
}

// Patterns

#[test]
fn pattern_of_a_string_is_a_literal() {
    assert_eq!(Pattern::from(&text("./a")), Pattern::Literal("./a".to_string()));
    assert_eq!(Pattern::from(&text("./a")).into_string(), Some("./a".to_string()));
}

#[test]
fn pattern_of_a_concatenation_of_strings_is_a_literal() {
    assert_eq!(
        Pattern::from(&JsValue::Concat(vec![text("./"), text("a"), text(".js")])),
        Pattern::Literal("./a.js".to_string())
    );
    assert_eq!(
        Pattern::from(&JsValue::Add(vec![text("./"), JsValue::Add(vec![text("a"), text(".js")])])),
        Pattern::Literal("./a.js".to_string())
    );
    assert_eq!(Pattern::from(&JsValue::Concat(vec![])), Pattern::Literal(String::new()));
}

#[test]
fn pattern_of_alternatives_between_strings_is_their_list() {
    assert_eq!(
        Pattern::from(&alternatives(vec![text("a"), text("b")])),
        Pattern::Alternatives(vec!["a".to_string(), "b".to_string()])
    );
    assert_eq!(Pattern::from(&alternatives(vec![text("a"), text("b")])).into_string(), None);
}

#[test]
fn pattern_distributes_alternatives_over_concatenation() {
    let value = JsValue::Add(vec![
        alternatives(vec![text("a"), text("b")]),
        text("/"),
        alternatives(vec![text("x"), text("y")]),
    ]);
    assert_eq!(
        literal_texts(&value),
        Some(vec!["a/x".to_string(), "a/y".to_string(), "b/x".to_string(), "b/y".to_string()])
    );
}

#[test]
fn pattern_of_anything_else_is_dynamic() {
    assert_eq!(Pattern::from(&JsValue::Unknown), Pattern::Dynamic);
    assert_eq!(Pattern::from(&JsValue::Variable(1)), Pattern::Dynamic);
    assert_eq!(Pattern::from(&JsValue::Constant(ConstantValue::Num("1".to_string()))), Pattern::Dynamic);
    assert_eq!(Pattern::from(&JsValue::Add(vec![text("a"), JsValue::Unknown])), Pattern::Dynamic);
    assert_eq!(Pattern::from(&alternatives(vec![text("a"), JsValue::Unknown])), Pattern::Dynamic);
    assert_eq!(Pattern::from(&alternatives(vec![])), Pattern::Dynamic);
    assert_eq!(Pattern::from(&JsValue::Unknown).into_string(), None);
}

// Well-known values

#[test]
fn reading_methods_of_fs_are_a_fixed_set() {
    for name in ["readFile", "readFileSync", "readdir", "readdirSync", "createReadStream", "existsSync"] {
        assert!(fs_read_method(&name.to_string()), "{}", name);
    }
    for name in ["writeFile", "readfile", "", "read"] {
        assert!(!fs_read_method(&name.to_string()), "{}", name);
    }
}

#[test]
fn members_of_known_objects_are_known_functions() {
    assert_eq!(
        member_of_well_known(WellKnownObjectKind::FsModule, &"readFileSync".to_string()),
        Some(WellKnownFunctionKind::FsReadMethod("readFileSync".to_string()))
    );
    assert_eq!(member_of_well_known(WellKnownObjectKind::FsModule, &"join".to_string()), None);
    assert_eq!(
        member_of_well_known(WellKnownObjectKind::PathModule, &"join".to_string()),
        Some(WellKnownFunctionKind::PathJoin)
    );
    assert_eq!(
        member_of_well_known(WellKnownObjectKind::PathModule, &"resolve".to_string()),
        Some(WellKnownFunctionKind::PathResolve)
    );
    assert_eq!(
        member_of_well_known(WellKnownObjectKind::PathModule, &"dirname".to_string()),
        Some(WellKnownFunctionKind::PathDirname)
    );
    assert_eq!(member_of_well_known(WellKnownObjectKind::PathModule, &"readFile".to_string()), None);
    assert_eq!(member_of_well_known(WellKnownObjectKind::ProcessModule, &"cwd".to_string()), None);
}

#[test]
fn replace_rewrites_members_of_known_objects() {
    assert_eq!(
        replace_well_known(member(JsValue::WellKnownObject(WellKnownObjectKind::FsModule), "readFile")),
        (function(WellKnownFunctionKind::FsReadMethod("readFile".to_string())), true)
    );
    assert_eq!(
        replace_well_known(member(JsValue::WellKnownObject(WellKnownObjectKind::PathModule), "join")),
        (function(WellKnownFunctionKind::PathJoin), true)
    );
    assert_eq!(
        replace_well_known(member(function(WellKnownFunctionKind::Require), "resolve")),
        (function(WellKnownFunctionKind::RequireResolve), true)
    );
    let unknown_member = member(JsValue::WellKnownObject(WellKnownObjectKind::FsModule), "chmod");
    assert_eq!(replace_well_known(unknown_member.clone()), (unknown_member, false));
    let other = member(function(WellKnownFunctionKind::Require), "cache");
    assert_eq!(replace_well_known(other.clone()), (other, false));
}

#[test]
fn replace_joins_paths_of_literals() {
    assert_eq!(
        replace_well_known(call(function(WellKnownFunctionKind::PathJoin), vec![text("a"), text("b"), text("c.js")])),
        (text("a/b/c.js"), true)
    );
    assert_eq!(
        replace_well_known(call(function(WellKnownFunctionKind::PathJoin), vec![])),
        (text("."), true)
    );
    let dynamic = call(function(WellKnownFunctionKind::PathJoin), vec![text("a"), JsValue::Unknown]);
    assert_eq!(replace_well_known(dynamic.clone()), (dynamic, false));
}

#[test]
fn replace_does_not_reduce_require() {
    let required = call(function(WellKnownFunctionKind::Require), vec![text("fs")]);
    assert_eq!(replace_well_known(required.clone()), (required, false));
}

#[test]
fn path_join_joins_with_slashes() {
    assert_eq!(path_join(&vec![]), Some(".".to_string()));
    assert_eq!(path_join(&vec![text("a")]), Some("a".to_string()));
    assert_eq!(path_join(&vec![text("/a"), text("b")]), Some("/a/b".to_string()));
    assert_eq!(path_join(&vec![text("a"), JsValue::Variable(1)]), None);
    assert_eq!(path_join(&vec![JsValue::Constant(ConstantValue::Num("1".to_string()))]), None);
}

#[test]
fn visitor_introduces_the_known_values() {
    let dir = directory();
    assert_eq!(
        value_visitor(&dir, JsValue::FreeVar(FreeVarKind::Require)),
        (function(WellKnownFunctionKind::Require), true)
    );
    assert_eq!(
        value_visitor(&dir, JsValue::FreeVar(FreeVarKind::Import)),
        (function(WellKnownFunctionKind::Import), true)
    );
    assert_eq!(value_visitor(&dir, JsValue::FreeVar(FreeVarKind::Dirname)), (text("/project/lib"), true));
    assert_eq!(
        value_visitor(&dir, JsValue::FreeVar(FreeVarKind::Filename)),
        (JsValue::FreeVar(FreeVarKind::Filename), false)
    );
    assert_eq!(
        value_visitor(&dir, JsValue::FreeVar(FreeVarKind::Global)),
        (JsValue::FreeVar(FreeVarKind::Global), false)
    );
    assert_eq!(
        value_visitor(&dir, JsValue::Module("path".to_string())),
        (JsValue::WellKnownObject(WellKnownObjectKind::PathModule), true)
    );
    assert_eq!(
        value_visitor(&dir, JsValue::Module("fs".to_string())),
        (JsValue::WellKnownObject(WellKnownObjectKind::FsModule), true)
    );
    assert_eq!(
        value_visitor(&dir, JsValue::Module("fs/promises".to_string())),
        (JsValue::WellKnownObject(WellKnownObjectKind::FsModule), true)
    );
    assert_eq!(
        value_visitor(&dir, JsValue::Module("process".to_string())),
        (JsValue::WellKnownObject(WellKnownObjectKind::ProcessModule), true)
    );
    assert_eq!(
        value_visitor(&dir, JsValue::Module("./other".to_string())),
        (JsValue::Module("./other".to_string()), false)
    );
    assert_eq!(
        value_visitor(&dir, member(JsValue::WellKnownObject(WellKnownObjectKind::PathModule), "dirname")),
        (function(WellKnownFunctionKind::PathDirname), true)
    );
    assert_eq!(value_visitor(&dir, text("a")), (text("a"), false));
}

// Linking

#[test]
fn link_resolves_variables() {
    let graph = graph(vec![(1, JsValue::Variable(2)), (2, text("a"))]);
    assert_eq!(link_in(&graph, JsValue::Variable(1)), text("a"));
}

#[test]
fn link_of_an_unbound_variable_is_unknown() {
    let graph = graph(vec![]);
    assert_eq!(link_in(&graph, JsValue::Variable(1)), JsValue::Unknown);
}

#[test]
fn link_breaks_cycles() {
    let graph = graph(vec![
        (1, JsValue::Add(vec![text("a"), JsValue::Variable(2)])),
        (2, JsValue::Variable(1)),
    ]);
    assert_eq!(link_in(&graph, JsValue::Variable(1)), JsValue::Add(vec![text("a"), JsValue::Unknown]));
    assert_eq!(link_in(&graph, JsValue::Variable(2)), JsValue::Add(vec![text("a"), JsValue::Unknown]));
}

#[test]
fn link_chains_the_rewrites() {
    // module -> object -> member -> function -> call -> constant
    let graph = graph(vec![(1, JsValue::Module("path".to_string()))]);
    let value = call(
        member(JsValue::Variable(1), "join"),
        vec![JsValue::FreeVar(FreeVarKind::Dirname), text("data"), text("a.json")],
    );
    assert_eq!(link_in(&graph, value), text("/project/lib/data/a.json"));
}

#[test]
fn link_joins_alternatives() {
    let graph = graph(vec![(1, alternatives(vec![text("a"), text("b")])), (2, text("a"))]);
    assert_eq!(
        link_in(&graph, alternatives(vec![JsValue::Variable(1), JsValue::Variable(2), text("c")])),
        alternatives(vec![text("a"), text("b"), text("c")])
    );
    assert_eq!(link_in(&graph, alternatives(vec![JsValue::Variable(2), text("a")])), text("a"));
    assert_eq!(link_in(&graph, alternatives(vec![])), JsValue::Unknown);
}

#[test]
fn link_is_idempotent() {
    let graph = graph(vec![
        (1, JsValue::Module("fs".to_string())),
        (2, alternatives(vec![text("a"), JsValue::Variable(3)])),
        (3, JsValue::Variable(2)),
    ]);
    let values = vec![
        member(JsValue::Variable(1), "readFile"),
        call(JsValue::FreeVar(FreeVarKind::Require), vec![JsValue::Variable(2)]),
        JsValue::Add(vec![text("./"), JsValue::Variable(2)]),
        JsValue::Variable(9),
    ];
    for value in values {
        let once = link_in(&graph, value);
        let twice = link_in(&graph, once.clone());
        assert_eq!(twice, once);
    }
}

#[test]
fn link_keeps_the_literal_of_a_pattern() {
    let graph = graph(vec![]);
    let value = JsValue::Add(vec![text("./"), alternatives(vec![text("a")])]);
    assert_eq!(Pattern::from(&value), Pattern::Literal("./a".to_string()));
    assert_eq!(Pattern::from(&link_in(&graph, value)), Pattern::Literal("./a".to_string()));
}

fn holds_small_alternatives(value: &JsValue) -> bool {
    match value {
        JsValue::Alternatives(alts) => {
            alts.len() < 2
                || alts.iter().any(|alt| matches!(alt, JsValue::Alternatives(_)))
                || alts.iter().any(holds_small_alternatives)
        }
        JsValue::Call(function, this, arguments) => {
            holds_small_alternatives(function)
                || holds_small_alternatives(this)
                || arguments.iter().any(holds_small_alternatives)
        }
        JsValue::MemberAccess(object, property) => {
            holds_small_alternatives(object) || holds_small_alternatives(property)
        }
        JsValue::Concat(parts) | JsValue::Add(parts) => parts.iter().any(holds_small_alternatives),
        _ => false,
    }
}

#[test]
fn linked_values_hold_alternatives_in_normal_form() {
    let graph = graph(vec![
        (1, alternatives(vec![text("a")])),
        (2, alternatives(vec![])),
        (3, alternatives(vec![alternatives(vec![text("a"), text("b")]), text("a")])),
    ]);
    let values = vec![
        JsValue::Variable(1),
        JsValue::Variable(2),
        JsValue::Variable(3),
        call(JsValue::Variable(1), vec![JsValue::Variable(2), JsValue::Variable(3)]),
        JsValue::Add(vec![JsValue::Variable(3), alternatives(vec![JsValue::Variable(1)])]),
        member(alternatives(vec![JsValue::Variable(2), JsValue::Variable(2)]), "x"),
    ];
    for value in values {
        let linked = link_in(&graph, value);
        assert!(!holds_small_alternatives(&linked), "{:?}", linked);
    }
    assert_eq!(link_in(&graph, JsValue::Variable(3)), alternatives(vec![text("a"), text("b")]));
}

#[test]
fn linked_values_hold_known_functions_of_the_fixed_set() {
    let graph = graph(vec![(1, JsValue::Module("fs".to_string()))]);
    assert_eq!(
        link_in(&graph, member(JsValue::Variable(1), "readdirSync")),
        function(WellKnownFunctionKind::FsReadMethod("readdirSync".to_string()))
    );
    assert_eq!(
        link_in(&graph, member(JsValue::Variable(1), "unlink")),
        member(JsValue::WellKnownObject(WellKnownObjectKind::FsModule), "unlink")
    );
    assert_eq!(
        link_in(&graph, member(JsValue::FreeVar(FreeVarKind::Require), "resolve")),
        function(WellKnownFunctionKind::RequireResolve)
    );
}

#[test]
fn link_answers_from_the_cache() {
    let graph = graph(vec![(1, text("a"))]);
    let mut cache = LinkCache::new();
    let value = JsValue::Add(vec![JsValue::Variable(1), text("b")]);
    let first = link(&graph, value.clone(), &directory(), &mut cache);
    let second = link(&graph, value, &directory(), &mut cache);
    assert_eq!(first, JsValue::Add(vec![text("a"), text("b")]));
    assert_eq!(second, first);
    assert_eq!(
        link_all(&graph, &vec![JsValue::Variable(1), JsValue::Variable(2)], &directory(), &mut cache),
        vec![text("a"), JsValue::Unknown]
    );
}

// The graph

#[test]
fn evaluate_reads_the_forms_of_expressions() {
    assert_eq!(evaluate(&lit("a")), text("a"));
    assert_eq!(evaluate(&Expr::Ident(bound("x", 4))), JsValue::Variable(4));
    assert_eq!(evaluate(&free("require")), JsValue::FreeVar(FreeVarKind::Require));
    assert_eq!(evaluate(&free("__dirname")), JsValue::FreeVar(FreeVarKind::Dirname));
    assert_eq!(evaluate(&free("__filename")), JsValue::FreeVar(FreeVarKind::Filename));
    assert_eq!(evaluate(&free("global")), JsValue::FreeVar(FreeVarKind::Global));
    assert_eq!(evaluate(&free("undefined")), JsValue::Constant(ConstantValue::Undefined));
    assert_eq!(evaluate(&free("window")), JsValue::Unknown);
    assert_eq!(
        evaluate(&Expr::Member { obj: Box::new(free("global")), prop: MemberProp::Ident("x".to_string()) }),
        member(JsValue::FreeVar(FreeVarKind::Global), "x")
    );
    assert_eq!(
        evaluate(&Expr::Member {
            obj: Box::new(free("global")),
            prop: MemberProp::Computed(Box::new(Expr::Ident(bound("k", 2))))
        }),
        JsValue::MemberAccess(Box::new(JsValue::FreeVar(FreeVarKind::Global)), Box::new(JsValue::Variable(2)))
    );
    assert_eq!(
        evaluate(&Expr::Member { obj: Box::new(free("global")), prop: MemberProp::PrivateName("x".to_string()) }),
        JsValue::Unknown
    );
    assert_eq!(
        evaluate(&Expr::Add(Box::new(lit("a")), Box::new(lit("b")))),
        JsValue::Add(vec![text("a"), text("b")])
    );
    assert_eq!(
        evaluate(&Expr::Tpl {
            quasis: vec!["./".to_string(), ".js".to_string()],
            exprs: vec![Expr::Ident(bound("x", 1))]
        }),
        JsValue::Concat(vec![text("./"), JsValue::Variable(1), text(".js")])
    );
    assert_eq!(
        evaluate(&Expr::Tpl { quasis: vec![], exprs: vec![Expr::Ident(bound("x", 1))] }),
        JsValue::Unknown
    );
    assert_eq!(
        evaluate(&Expr::Cond {
            test: Box::new(free("c")),
            cons: Box::new(lit("a")),
            alt: Box::new(lit("b"))
        }),
        alternatives(vec![text("a"), text("b")])
    );
    assert_eq!(
        evaluate(&Expr::Assign { target: Pat::Ident(bound("x", 1)), value: Box::new(lit("a")) }),
        text("a")
    );
    assert_eq!(evaluate(&Expr::Array(vec![Some(arg(lit("a")))])), JsValue::Unknown);
    assert_eq!(evaluate(&Expr::Other(vec![lit("a")])), JsValue::Unknown);
    assert_eq!(
        evaluate(&Expr::Function(Function { params: vec![], body: vec![] })),
        JsValue::Unknown
    );
}

#[test]
fn evaluate_reads_calls() {
    // obj.f(a, ...b)
    let method = Expr::Call {
        callee: Callee::Expr(Box::new(Expr::Member {
            obj: Box::new(Expr::Ident(bound("obj", 1))),
            prop: MemberProp::Ident("f".to_string()),
        })),
        args: vec![arg(lit("a")), ExprOrSpread { spread: true, expr: Expr::Ident(bound("b", 2)) }],
        span: span(0, 10),
    };
    assert_eq!(
        evaluate(&method),
        JsValue::Call(
            Box::new(member(JsValue::Variable(1), "f")),
            Box::new(JsValue::Variable(1)),
            vec![text("a"), JsValue::Unknown]
        )
    );
    // import("a")
    let dynamic = Expr::Call { callee: Callee::Import, args: vec![arg(lit("a"))], span: span(0, 11) };
    assert_eq!(evaluate(&dynamic), call(JsValue::FreeVar(FreeVarKind::Import), vec![text("a")]));
    // require("a") is the module
    let required = Expr::Call {
        callee: Callee::Expr(Box::new(free("require"))),
        args: vec![arg(lit("a"))],
        span: span(0, 12),
    };
    assert_eq!(evaluate(&required), JsValue::Module("a".to_string()));
    // a bound `require` is any function
    let shadowed = Expr::Call {
        callee: Callee::Expr(Box::new(Expr::Ident(bound("require", 5)))),
        args: vec![arg(lit("a"))],
        span: span(0, 12),
    };
    assert_eq!(evaluate(&shadowed), call(JsValue::Variable(5), vec![text("a")]));
    // require(x) is a call
    let computed = Expr::Call {
        callee: Callee::Expr(Box::new(free("require"))),
        args: vec![arg(Expr::Ident(bound("x", 1)))],
        span: span(0, 10),
    };
    assert_eq!(
        evaluate(&computed),
        call(JsValue::FreeVar(FreeVarKind::Require), vec![JsValue::Variable(1)])
    );
    let of_super = Expr::Call { callee: Callee::Super, args: vec![], span: span(0, 7) };
    assert_eq!(
        evaluate(&of_super),
        JsValue::Call(Box::new(JsValue::Unknown), Box::new(JsValue::Unknown), vec![])
    );
}

#[test]
fn graph_binds_imports_declarations_parameters_and_assignments() {
    let module = Module {
        body: vec![
            // import fs, { readFile as read, type T } from "fs";
            Stmt::Import(ImportDecl {
                src: "fs".to_string(),
                type_only: false,
                specifiers: vec![
                    ImportSpecifier::Default { local: bound("fs", 1) },
                    ImportSpecifier::Named {
                        local: bound("read", 2),
                        imported: Some("readFile".to_string()),
                        is_type_only: false,
                    },
                    ImportSpecifier::Named { local: bound("T", 3), imported: None, is_type_only: true },
                ],
            }),
            // import type * as types from "types";
            Stmt::Import(ImportDecl {
                src: "types".to_string(),
                type_only: true,
                specifiers: vec![ImportSpecifier::Namespace { local: bound("types", 4) }],
            }),
            // const { a, b: { c }, [k]: d } = fs;
            Stmt::Var(vec![VarDeclarator {
                name: Pat::Object(vec![
                    ObjectPatProp { key: Some("a".to_string()), value: Pat::Ident(bound("a", 5)) },
                    ObjectPatProp {
                        key: Some("b".to_string()),
                        value: Pat::Object(vec![ObjectPatProp {
                            key: Some("c".to_string()),
                            value: Pat::Ident(bound("c", 6)),
                        }]),
                    },
                    ObjectPatProp { key: None, value: Pat::Ident(bound("d", 7)) },
                ]),
                init: Some(Expr::Ident(bound("fs", 1))),
            }]),
            // let x; x = "1"; x = "2";
            Stmt::Var(vec![VarDeclarator { name: Pat::Ident(bound("x", 8)), init: None }]),
            Stmt::Expr(Expr::Assign { target: Pat::Ident(bound("x", 8)), value: Box::new(lit("1")) }),
            Stmt::Expr(Expr::Assign { target: Pat::Ident(bound("x", 8)), value: Box::new(lit("2")) }),
            // function f(p) {}
            Stmt::Function {
                ident: bound("f", 9),
                function: Function { params: vec![Pat::Ident(bound("p", 10))], body: vec![] },
            },
        ],
    };
    let graph = create_graph(&module);
    let mut expected = HashMap::new();
    expected.insert(1, JsValue::Module("fs".to_string()));
    expected.insert(2, JsValue::Module("fs".to_string()));
    expected.insert(5, member(JsValue::Variable(1), "a"));
    expected.insert(6, member(member(JsValue::Variable(1), "b"), "c"));
    expected.insert(7, JsValue::Unknown);
    expected.insert(8, alternatives(vec![text("1"), text("2")]));
    expected.insert(9, JsValue::Unknown);
    expected.insert(10, JsValue::Unknown);
    assert_eq!(graph.values, expected);
    assert_eq!(graph.effects, vec![]);
}

#[test]
fn graph_records_calls_as_effects_in_source_order() {
    // f(g("a"), () => { h() });
    let inner = Expr::Call {
        callee: Callee::Expr(Box::new(free("g"))),
        args: vec![arg(lit("a"))],
        span: span(2, 8),
    };
    let last = Expr::Call { callee: Callee::Expr(Box::new(free("h"))), args: vec![], span: span(18, 21) };
    let outer = Expr::Call {
        callee: Callee::Expr(Box::new(free("f"))),
        args: vec![
            arg(inner),
            arg(Expr::Function(Function { params: vec![], body: vec![Stmt::Block(vec![Stmt::Expr(last)])] })),
        ],
        span: span(0, 24),
    };
    let graph = create_graph(&Module { body: vec![Stmt::Expr(outer)] });
    assert_eq!(
        graph.effects,
        vec![
            Effect::Call {
                func: JsValue::Unknown,
                this: JsValue::Unknown,
                args: vec![call(JsValue::Unknown, vec![text("a")]), JsValue::Unknown],
                span: span(0, 24),
            },
            Effect::Call {
                func: JsValue::Unknown,
                this: JsValue::Unknown,
                args: vec![text("a")],
                span: span(2, 8),
            },
            Effect::Call { func: JsValue::Unknown, this: JsValue::Unknown, args: vec![], span: span(18, 21) },
        ]
    );
    assert!(graph.values.is_empty());
}
