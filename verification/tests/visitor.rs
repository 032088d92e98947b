use asset_references::analyzer::ConstantValue;
use asset_references::ast::{
    requested_runtime, Callee, Expr, ExprOrSpread, Function, Ident, ImportDecl, ImportSpecifier,
    MemberProp, Module, Pat, Stmt, VarDeclarator,
};
use asset_references::ecmascript::references::{
    AssetRef, AssetReference, EsmAssetReference, WebpackRuntimeRef,
};
use asset_references::ecmascript::visitor::{AssetReferencesVisitor, StaticAnalyser, StaticExpr};
use swc_common::{BytePos, Span};

fn src() -> AssetRef {
    AssetRef { path: "src".to_string() }
}

fn esm(request: &str) -> AssetReference {
    AssetReference::Esm(EsmAssetReference { source: src(), request: request.to_string() })
}

fn text(value: &str) -> Expr {
    Expr::Lit(ConstantValue::Str(value.to_string()))
}

fn name(sym: &str) -> Ident {
    Ident { sym: sym.to_string(), binding: None }
}

fn ident(sym: &str) -> Expr {
    Expr::Ident(name(sym))
}

fn arg(expr: Expr) -> ExprOrSpread {
    ExprOrSpread { spread: false, expr }
}

fn member(obj: Expr, prop: &str) -> Expr {
    Expr::Member { obj: Box::new(obj), prop: MemberProp::Ident(prop.to_string()) }
}

fn computed(obj: Expr, key: Expr) -> Expr {
    Expr::Member { obj: Box::new(obj), prop: MemberProp::Computed(Box::new(key)) }
}

fn call(function: Expr, args: Vec<ExprOrSpread>) -> Expr {
    Expr::Call { callee: Callee::Expr(Box::new(function)), args, span: Span { lo: BytePos(0), hi: BytePos(0) } }
}

fn strings(values: &[&str]) -> Vec<String> {
    values.iter().map(|value| value.to_string()).collect()
}

fn runtime_declarator(request: &str) -> VarDeclarator {
    VarDeclarator {
        name: Pat::Ident(name("__webpack_require__")),
        init: Some(call(ident("require"), vec![arg(text(request))])),
    }
}

fn runtime(request: &str) -> WebpackRuntimeRef {
    WebpackRuntimeRef { source: src(), request: request.to_string() }
}

fn visit(body: Vec<Stmt>) -> Vec<AssetReference> {
    let source = src();
    let mut visitor = AssetReferencesVisitor::new(&source, Vec::new());
    visitor.visit_module(&Module { body });
    visitor.into_references()
}

// The static analyser

#[test]
fn analyser_follows_chains_of_free_names() {
    let analyser = StaticAnalyser::new();
    assert_eq!(analyser.evaluate_expr(&text("a")), StaticExpr::String("a".to_string()));
    assert_eq!(analyser.evaluate_expr(&ident("a")), StaticExpr::FreeVar(strings(&["a"])));
    assert_eq!(
        analyser.evaluate_expr(&member(member(ident("a"), "b"), "c")),
        StaticExpr::FreeVar(strings(&["a", "b", "c"]))
    );
    assert_eq!(
        analyser.evaluate_expr(&computed(ident("a"), text("b"))),
        StaticExpr::FreeVar(strings(&["a", "b"]))
    );
    assert_eq!(analyser.evaluate_expr(&computed(ident("a"), ident("b"))), StaticExpr::Unknown);
    assert_eq!(analyser.evaluate_expr(&member(text("a"), "length")), StaticExpr::Unknown);
    assert_eq!(
        analyser.evaluate_expr(&Expr::Member {
            obj: Box::new(ident("a")),
            prop: MemberProp::PrivateName("b".to_string())
        }),
        StaticExpr::Unknown
    );
    assert_eq!(analyser.evaluate_expr(&call(ident("a"), vec![])), StaticExpr::Unknown);
    assert_eq!(
        analyser.evaluate_expr(&Expr::Lit(ConstantValue::Num("1".to_string()))),
        StaticExpr::Unknown
    );
}

#[test]
fn analyser_follows_chains_of_imported_names() {
    let mut analyser = StaticAnalyser::new();
    analyser.insert("fs".to_string(), "node:fs".to_string(), strings(&["default"]));
    analyser.insert("all".to_string(), "lib".to_string(), vec![]);
    assert_eq!(
        analyser.evaluate_expr(&ident("fs")),
        StaticExpr::ImportedVar("node:fs".to_string(), strings(&["default"]))
    );
    assert_eq!(
        analyser.evaluate_expr(&member(ident("all"), "x")),
        StaticExpr::ImportedVar("lib".to_string(), strings(&["x"]))
    );
    assert_eq!(
        analyser.evaluate_expr(&computed(member(ident("fs"), "a"), text("b"))),
        StaticExpr::ImportedVar("node:fs".to_string(), strings(&["default", "a", "b"]))
    );
    assert_eq!(analyser.evaluate_expr(&computed(ident("fs"), ident("k"))), StaticExpr::Unknown);
    assert_eq!(analyser.evaluate_expr(&ident("other")), StaticExpr::FreeVar(strings(&["other"])));
}

#[test]
fn analyser_takes_the_later_import_of_a_name() {
    let mut analyser = StaticAnalyser::new();
    analyser.insert("x".to_string(), "first".to_string(), strings(&["a"]));
    analyser.insert("y".to_string(), "other".to_string(), vec![]);
    analyser.insert("x".to_string(), "second".to_string(), strings(&["b"]));
    assert_eq!(
        analyser.evaluate_expr(&ident("x")),
        StaticExpr::ImportedVar("second".to_string(), strings(&["b"]))
    );
}

#[test]
fn analyser_names_properties() {
    let analyser = StaticAnalyser::new();
    assert_eq!(analyser.prop_to_name(&MemberProp::Ident("a".to_string())), Some("a".to_string()));
    assert_eq!(analyser.prop_to_name(&MemberProp::PrivateName("a".to_string())), None);
    assert_eq!(
        analyser.prop_to_name(&MemberProp::Computed(Box::new(text("a")))),
        Some("a".to_string())
    );
    assert_eq!(analyser.prop_to_name(&MemberProp::Computed(Box::new(ident("a")))), None);
}

// The shape of the runtime declarator

#[test]
fn runtime_declarator_is_recognised() {
    assert_eq!(requested_runtime(&runtime_declarator("./rt.js")), Some(&"./rt.js".to_string()));
    let other_name = VarDeclarator {
        name: Pat::Ident(name("runtime")),
        init: Some(call(ident("require"), vec![arg(text("./rt.js"))])),
    };
    assert_eq!(requested_runtime(&other_name), None);
    let other_function = VarDeclarator {
        name: Pat::Ident(name("__webpack_require__")),
        init: Some(call(ident("load"), vec![arg(text("./rt.js"))])),
    };
    assert_eq!(requested_runtime(&other_function), None);
    let two_arguments = VarDeclarator {
        name: Pat::Ident(name("__webpack_require__")),
        init: Some(call(ident("require"), vec![arg(text("./rt.js")), arg(text("x"))])),
    };
    assert_eq!(requested_runtime(&two_arguments), None);
    let spread = VarDeclarator {
        name: Pat::Ident(name("__webpack_require__")),
        init: Some(call(ident("require"), vec![ExprOrSpread { spread: true, expr: text("./rt.js") }])),
    };
    assert_eq!(requested_runtime(&spread), None);
    let no_literal = VarDeclarator {
        name: Pat::Ident(name("__webpack_require__")),
        init: Some(call(ident("require"), vec![arg(ident("x"))])),
    };
    assert_eq!(requested_runtime(&no_literal), None);
    let no_init = VarDeclarator { name: Pat::Ident(name("__webpack_require__")), init: None };
    assert_eq!(requested_runtime(&no_init), None);
    let pattern = VarDeclarator {
        name: Pat::Object(vec![]),
        init: Some(call(ident("require"), vec![arg(text("./rt.js"))])),
    };
    assert_eq!(requested_runtime(&pattern), None);
    let import = VarDeclarator {
        name: Pat::Ident(name("__webpack_require__")),
        init: Some(Expr::Call {
            callee: Callee::Import,
            args: vec![arg(text("./rt.js"))],
            span: Span { lo: BytePos(0), hi: BytePos(0) },
        }),
    };
    assert_eq!(requested_runtime(&import), None);
}

// The visitor

#[test]
fn visitor_keeps_the_references_that_it_was_given() {
    let source = src();
    let mut visitor = AssetReferencesVisitor::new(&source, vec![esm("before")]);
    visitor.visit_export_all(&"a".to_string());
    assert_eq!(visitor.into_references(), vec![esm("before"), esm("a")]);
}

#[test]
fn visitor_refers_to_imports_and_exports_once_per_statement() {
    let references = visit(vec![
        Stmt::Import(ImportDecl {
            src: "a".to_string(),
            type_only: false,
            specifiers: vec![
                ImportSpecifier::Default { local: name("x") },
                ImportSpecifier::Named { local: name("y"), imported: None, is_type_only: false },
            ],
        }),
        Stmt::Import(ImportDecl { src: "types".to_string(), type_only: true, specifiers: vec![] }),
        Stmt::ExportAll { src: "b".to_string() },
        Stmt::NamedExport { src: Some("c".to_string()) },
        Stmt::NamedExport { src: None },
    ]);
    assert_eq!(references, vec![esm("a"), esm("types"), esm("b"), esm("c")]);
}

#[test]
fn visitor_visits_named_exports() {
    let source = src();
    let mut visitor = AssetReferencesVisitor::new(&source, Vec::new());
    visitor.visit_named_export(&None);
    visitor.visit_named_export(&Some("m".to_string()));
    assert_eq!(visitor.into_references(), vec![esm("m")]);
}

#[test]
fn visitor_records_the_runtime_candidate() {
    let source = src();
    let mut visitor = AssetReferencesVisitor::new(&source, Vec::new());
    visitor.visit_var_declarator(&runtime_declarator("./rt.js"));
    assert_eq!(
        visitor.into_references(),
        vec![AssetReference::WebpackRuntimeCandidate {
            source: src(),
            request: "./rt.js".to_string()
        }]
    );
}

#[test]
fn visitor_refers_to_the_entry_of_the_runtime() {
    // var __webpack_require__ = require("./rt.js"); __webpack_require__.C(x);
    let references = visit(vec![
        Stmt::Var(vec![runtime_declarator("./rt.js")]),
        Stmt::Expr(call(member(ident("__webpack_require__"), "C"), vec![arg(ident("x"))])),
    ]);
    assert_eq!(
        references,
        vec![
            AssetReference::WebpackRuntimeCandidate {
                source: src(),
                request: "./rt.js".to_string()
            },
            AssetReference::WebpackEntry { source: src(), runtime: runtime("./rt.js") },
        ]
    );
}

#[test]
fn visitor_refers_to_the_literal_chunks_only() {
    // __webpack_require__.X(0, ["a", , ...rest, id, 7], n);
    let references = visit(vec![
        Stmt::Var(vec![runtime_declarator("./rt.js")]),
        Stmt::Expr(call(
            member(ident("__webpack_require__"), "X"),
            vec![
                arg(Expr::Lit(ConstantValue::Num("0".to_string()))),
                arg(Expr::Array(vec![
                    Some(arg(text("a"))),
                    None,
                    Some(ExprOrSpread { spread: true, expr: text("rest") }),
                    Some(arg(ident("id"))),
                    Some(arg(Expr::Lit(ConstantValue::Num("7".to_string())))),
                ])),
                arg(ident("n")),
            ],
        )),
    ]);
    assert_eq!(
        references,
        vec![
            AssetReference::WebpackRuntimeCandidate {
                source: src(),
                request: "./rt.js".to_string()
            },
            AssetReference::WebpackChunk {
                runtime: runtime("./rt.js"),
                chunk_id: ConstantValue::Str("a".to_string())
            },
            AssetReference::WebpackChunk {
                runtime: runtime("./rt.js"),
                chunk_id: ConstantValue::Num("7".to_string())
            },
        ]
    );
}

#[test]
fn visitor_ignores_calls_of_the_runtime_of_another_shape() {
    let references = visit(vec![
        Stmt::Var(vec![runtime_declarator("./rt.js")]),
        // two arguments
        Stmt::Expr(call(
            member(ident("__webpack_require__"), "X"),
            vec![arg(ident("a")), arg(Expr::Array(vec![Some(arg(text("a")))]))],
        )),
        // the second argument is no array
        Stmt::Expr(call(
            member(ident("__webpack_require__"), "X"),
            vec![arg(ident("a")), arg(text("a")), arg(ident("n"))],
        )),
        // the second argument is spread
        Stmt::Expr(call(
            member(ident("__webpack_require__"), "X"),
            vec![
                arg(ident("a")),
                ExprOrSpread { spread: true, expr: Expr::Array(vec![Some(arg(text("a")))]) },
                arg(ident("n")),
            ],
        )),
        // another member
        Stmt::Expr(call(member(ident("__webpack_require__"), "Y"), vec![])),
        // a longer chain
        Stmt::Expr(call(member(member(ident("__webpack_require__"), "C"), "D"), vec![])),
        // another name
        Stmt::Expr(call(member(ident("runtime"), "C"), vec![])),
    ]);
    assert_eq!(
        references,
        vec![AssetReference::WebpackRuntimeCandidate {
            source: src(),
            request: "./rt.js".to_string()
        }]
    );
}

#[test]
fn visitor_ignores_the_runtime_before_it_was_met() {
    let references = visit(vec![
        Stmt::Expr(call(member(ident("__webpack_require__"), "C"), vec![])),
        Stmt::Expr(call(
            member(ident("__webpack_require__"), "X"),
            vec![arg(ident("a")), arg(Expr::Array(vec![Some(arg(text("a")))])), arg(ident("n"))],
        )),
    ]);
    assert_eq!(references, vec![]);
}

#[test]
fn visitor_ignores_an_imported_runtime_name() {
    // import __webpack_require__ from "x"; ... __webpack_require__.C()
    let references = visit(vec![
        Stmt::Var(vec![runtime_declarator("./rt.js")]),
        Stmt::Import(ImportDecl {
            src: "x".to_string(),
            type_only: false,
            specifiers: vec![ImportSpecifier::Default { local: name("__webpack_require__") }],
        }),
        Stmt::Expr(call(member(ident("__webpack_require__"), "C"), vec![])),
    ]);
    assert_eq!(
        references,
        vec![
            AssetReference::WebpackRuntimeCandidate {
                source: src(),
                request: "./rt.js".to_string()
            },
            esm("x"),
        ]
    );
}

#[test]
fn visitor_walks_into_every_form() {
    let entry = || call(member(ident("__webpack_require__"), "C"), vec![]);
    let expected_entry =
        || AssetReference::WebpackEntry { source: src(), runtime: runtime("./rt.js") };
    let forms: Vec<Stmt> = vec![
        Stmt::Expr(computed(entry(), entry())),
        Stmt::Expr(call(entry(), vec![arg(entry())])),
        Stmt::Expr(Expr::Array(vec![Some(arg(entry())), None])),
        Stmt::Expr(Expr::Add(Box::new(entry()), Box::new(entry()))),
        Stmt::Expr(Expr::Tpl { quasis: vec![String::new(), String::new()], exprs: vec![entry()] }),
        Stmt::Expr(Expr::Cond {
            test: Box::new(entry()),
            cons: Box::new(entry()),
            alt: Box::new(entry()),
        }),
        Stmt::Expr(Expr::Assign { target: Pat::Other, value: Box::new(entry()) }),
        Stmt::Expr(Expr::Function(Function { params: vec![], body: vec![Stmt::Expr(entry())] })),
        Stmt::Expr(Expr::Other(vec![entry(), entry()])),
        Stmt::Var(vec![VarDeclarator { name: Pat::Ident(name("x")), init: Some(entry()) }]),
        Stmt::Function {
            ident: name("f"),
            function: Function { params: vec![], body: vec![Stmt::Expr(entry())] },
        },
        Stmt::Block(vec![Stmt::Expr(entry()), Stmt::Block(vec![Stmt::Expr(entry())])]),
    ];
    let counts = [2, 2, 1, 2, 1, 3, 1, 1, 2, 1, 1, 2];
    for (form, count) in forms.into_iter().zip(counts) {
        let references = visit(vec![Stmt::Var(vec![runtime_declarator("./rt.js")]), form]);
        let mut expected = vec![AssetReference::WebpackRuntimeCandidate {
            source: src(),
            request: "./rt.js".to_string(),
        }];
        for _ in 0..count {
            expected.push(expected_entry());
        }
        assert_eq!(references, expected);
    }
}

#[test]
fn visitor_does_not_walk_the_runtime_declarator() {
    // var __webpack_require__ = require("./a.js"), __webpack_require__ = require("./b.js");
    let references = visit(vec![
        Stmt::Var(vec![runtime_declarator("./a.js"), runtime_declarator("./b.js")]),
        Stmt::Expr(call(member(ident("__webpack_require__"), "C"), vec![])),
    ]);
    assert_eq!(
        references,
        vec![
            AssetReference::WebpackRuntimeCandidate { source: src(), request: "./a.js".to_string() },
            AssetReference::WebpackRuntimeCandidate { source: src(), request: "./b.js".to_string() },
            AssetReference::WebpackEntry { source: src(), runtime: runtime("./b.js") },
        ]
    );
}

#[test]
fn visitor_visits_calls_and_statements_one_by_one() {
    let source = src();
    let mut visitor = AssetReferencesVisitor::new(&source, Vec::new());
    visitor.visit_stmt(&Stmt::Var(vec![runtime_declarator("./rt.js")]));
    visitor.visit_call_expr(&call(member(ident("__webpack_require__"), "C"), vec![]));
    visitor.visit_expr(&call(member(ident("__webpack_require__"), "C"), vec![]));
    visitor.visit_import_decl(&ImportDecl {
        src: "m".to_string(),
        type_only: false,
        specifiers: vec![],
    });
    assert_eq!(
        visitor.into_references(),
        vec![
            AssetReference::WebpackRuntimeCandidate {
                source: src(),
                request: "./rt.js".to_string()
            },
            AssetReference::WebpackEntry { source: src(), runtime: runtime("./rt.js") },
            AssetReference::WebpackEntry { source: src(), runtime: runtime("./rt.js") },
            esm("m"),
        ]
    );
}
