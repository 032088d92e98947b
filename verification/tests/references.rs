use asset_references::analyzer::ConstantValue;
use asset_references::analyzer::{JsValue, WellKnownFunctionKind};
use asset_references::ast::{
    Callee, Expr, ExprOrSpread, Function, Ident, ImportDecl, ImportSpecifier, MemberProp, Module,
    Pat, Stmt, VarDeclarator,
};
use asset_references::ecmascript::references::{
    handle_call, module_references, AssetRef, AssetReference, AssetReferencesSet, Diagnostic,
    EsmAssetReference, EsmAssetReferenceRef, FileSystemPathRef, FindPackageJsonResult,
    resolve_as_webpack_runtime, ModuleReferences, PackageJsonReference,
    PackageJsonReferenceRef, ParseResult, ResolveResult, WebpackRuntimeRef, DYNAMIC_IMPORT,
    FS_METHOD, REQUIRE,
};
use swc_common::{BytePos, Span};

fn src() -> AssetRef {
    AssetRef { path: "src".to_string() }
}

fn esm(request: &str) -> AssetReference {
    AssetReference::Esm(EsmAssetReference { source: src(), request: request.to_string() })
}

fn text(value: &str) -> Expr {
    Expr::Lit(ConstantValue::Str(value.to_string()))
}

fn free(name: &str) -> Expr {
    Expr::Ident(Ident { sym: name.to_string(), binding: None })
}

fn bound(name: &str, binding: u64) -> Ident {
    Ident { sym: name.to_string(), binding: Some(binding) }
}

fn arg(expr: Expr) -> ExprOrSpread {
    ExprOrSpread { spread: false, expr }
}

fn span(lo: u32, hi: u32) -> Span {
    Span { lo: BytePos(lo), hi: BytePos(hi) }
}

fn call(function: Expr, args: Vec<Expr>, at: Span) -> Expr {
    Expr::Call {
        callee: Callee::Expr(Box::new(function)),
        args: args.into_iter().map(arg).collect(),
        span: at,
    }
}

fn member(obj: Expr, name: &str) -> Expr {
    Expr::Member { obj: Box::new(obj), prop: MemberProp::Ident(name.to_string()) }
}

fn declare(name: Ident, init: Expr) -> Stmt {
    Stmt::Var(vec![VarDeclarator { name: Pat::Ident(name), init: Some(init) }])
}

fn analyse(body: Vec<Stmt>) -> ModuleReferences {
    module_references(
        &src(),
        &"/project/lib".to_string(),
        &FindPackageJsonResult::NotFound,
        &ParseResult::Parsed { module: Module { body } },
    )
}

#[test]
fn static_imports_are_referred_to_in_source_order() {
    // import x from "a"; import "b";
    let found = analyse(vec![
        Stmt::Import(ImportDecl {
            src: "a".to_string(),
            type_only: false,
            specifiers: vec![ImportSpecifier::Default { local: bound("x", 1) }],
        }),
        Stmt::Import(ImportDecl { src: "b".to_string(), type_only: false, specifiers: vec![] }),
    ]);
    assert_eq!(found.references.references, vec![esm("a"), esm("b")]);
    assert!(found.diagnostics.is_empty());
}

#[test]
fn require_of_a_literal_is_referred_to() {
    // require("./c")
    let found = analyse(vec![Stmt::Expr(call(free("require"), vec![text("./c")], span(0, 14)))]);
    assert_eq!(found.references.references, vec![esm("./c")]);
    assert!(found.diagnostics.is_empty());
}

#[test]
fn alternatives_distribute_over_a_sum() {
    // const p = "./" + (cond ? "d" : "e"); require(p);
    let found = analyse(vec![
        declare(
            bound("p", 1),
            Expr::Add(
                Box::new(text("./")),
                Box::new(Expr::Cond {
                    test: Box::new(free("cond")),
                    cons: Box::new(text("d")),
                    alt: Box::new(text("e")),
                }),
            ),
        ),
        Stmt::Expr(call(free("require"), vec![Expr::Ident(bound("p", 1))], span(37, 47))),
    ]);
    assert_eq!(found.references.references, vec![esm("./d"), esm("./e")]);
    assert!(found.diagnostics.is_empty());
}

#[test]
fn require_of_a_parameter_is_not_analysable() {
    // function load(name) { var variable = name; require(variable); }
    let found = analyse(vec![Stmt::Function {
        ident: bound("load", 1),
        function: Function {
            params: vec![Pat::Ident(bound("name", 2))],
            body: vec![
                declare(bound("variable", 3), Expr::Ident(bound("name", 2))),
                Stmt::Expr(call(
                    free("require"),
                    vec![Expr::Ident(bound("variable", 3))],
                    span(43, 60),
                )),
            ],
        },
    }]);
    assert_eq!(found.references.references, vec![]);
    assert_eq!(
        found.diagnostics,
        vec![Diagnostic {
            span: span(43, 60),
            message: "require(???) is not statically analysable".to_string(),
            id: "failed-to-analyse/ecmascript/require".to_string(),
        }]
    );
}

#[test]
fn reading_method_of_a_required_fs_is_referred_to() {
    // const fs = require("fs"); fs.readFile("./f.txt", cb);
    let found = analyse(vec![
        declare(bound("fs", 1), call(free("require"), vec![text("fs")], span(11, 24))),
        Stmt::Expr(call(
            member(Expr::Ident(bound("fs", 1)), "readFile"),
            vec![text("./f.txt"), free("cb")],
            span(26, 52),
        )),
    ]);
    assert_eq!(found.references.references, vec![esm("fs"), esm("./f.txt")]);
    assert!(found.diagnostics.is_empty());
}

#[test]
fn runtime_and_its_chunks_are_referred_to() {
    // var __webpack_require__ = require("./rt.js"); __webpack_require__.X(0, ["a","b"], n);
    let found = analyse(vec![
        declare(
            bound("__webpack_require__", 1),
            call(free("require"), vec![text("./rt.js")], span(26, 44)),
        ),
        Stmt::Expr(call(
            member(Expr::Ident(bound("__webpack_require__", 1)), "X"),
            vec![
                Expr::Lit(ConstantValue::Num("0".to_string())),
                Expr::Array(vec![Some(arg(text("a"))), Some(arg(text("b")))]),
                free("n"),
            ],
            span(46, 85),
        )),
    ]);
    let runtime = || WebpackRuntimeRef { source: src(), request: "./rt.js".to_string() };
    assert_eq!(
        found.references.references,
        vec![
            AssetReference::WebpackRuntimeCandidate {
                source: src(),
                request: "./rt.js".to_string()
            },
            AssetReference::WebpackChunk {
                runtime: runtime(),
                chunk_id: ConstantValue::Str("a".to_string())
            },
            AssetReference::WebpackChunk {
                runtime: runtime(),
                chunk_id: ConstantValue::Str("b".to_string())
            },
        ]
    );
    assert!(found.diagnostics.is_empty());
}

fn value(text: &str) -> JsValue {
    JsValue::Constant(ConstantValue::Str(text.to_string()))
}

fn known(kind: WellKnownFunctionKind) -> JsValue {
    JsValue::WellKnownFunction(kind)
}

fn handle(func: JsValue, args: Vec<JsValue>) -> ModuleReferences {
    let mut found = ModuleReferences {
        references: AssetReferencesSet { references: Vec::new() },
        diagnostics: Vec::new(),
    };
    handle_call(&src(), span(3, 9), &func, &args, &mut found);
    found
}

fn warning(message: &str, id: &str) -> Diagnostic {
    Diagnostic { span: span(3, 9), message: message.to_string(), id: id.to_string() }
}

#[test]
fn diagnostic_ids_are_stable() {
    assert_eq!(DYNAMIC_IMPORT, "failed-to-analyse/ecmascript/dynamic-import");
    assert_eq!(REQUIRE, "failed-to-analyse/ecmascript/require");
    assert_eq!(FS_METHOD, "failed-to-analyse/ecmascript/fs-method");
}

#[test]
fn handles_are_made_of_their_parts() {
    let esm_handle = EsmAssetReferenceRef::new(src(), "./a".to_string());
    assert_eq!(
        esm_handle.reference,
        EsmAssetReference { source: src(), request: "./a".to_string() }
    );
    assert_eq!(esm_handle.into_reference(), esm("./a"));
    let path = FileSystemPathRef { path: "/project/package.json".to_string() };
    let package_handle = PackageJsonReferenceRef::new(path.clone());
    assert_eq!(package_handle.reference, PackageJsonReference { package_json: path.clone() });
    assert_eq!(
        package_handle.into_reference(),
        AssetReference::PackageJson(PackageJsonReference { package_json: path })
    );
    assert_eq!(src().clone(), src());
    let runtime = WebpackRuntimeRef { source: src(), request: "./rt.js".to_string() };
    assert_eq!(runtime.clone(), runtime);
}

#[test]
fn import_of_a_literal_is_referred_to() {
    let found = handle(known(WellKnownFunctionKind::Import), vec![value("./a")]);
    assert_eq!(found.references.references, vec![esm("./a")]);
    assert_eq!(found.diagnostics, vec![]);
}

#[test]
fn import_of_alternatives_is_referred_to_one_by_one() {
    let found = handle(
        known(WellKnownFunctionKind::Import),
        vec![JsValue::Alternatives(vec![value("./a"), value("./b"), value("./c")])],
    );
    assert_eq!(found.references.references, vec![esm("./a"), esm("./b"), esm("./c")]);
    assert_eq!(found.diagnostics, vec![]);
}

#[test]
fn import_of_anything_else_is_not_analysable() {
    let found = handle(known(WellKnownFunctionKind::Import), vec![JsValue::Unknown]);
    assert_eq!(found.references.references, vec![]);
    assert_eq!(
        found.diagnostics,
        vec![warning(
            "import(???) is not statically analysable",
            "failed-to-analyse/ecmascript/dynamic-import"
        )]
    );
}

#[test]
fn require_with_another_number_of_arguments_is_not_analysable() {
    let none = handle(known(WellKnownFunctionKind::Require), vec![]);
    assert_eq!(none.references.references, vec![]);
    assert_eq!(
        none.diagnostics,
        vec![warning(
            "require() is not statically analysable",
            "failed-to-analyse/ecmascript/require"
        )]
    );
    let two = handle(known(WellKnownFunctionKind::Require), vec![value("a"), value("b")]);
    assert_eq!(two.references.references, vec![]);
    assert_eq!(
        two.diagnostics,
        vec![warning(
            "require(\"a\", \"b\") is not statically analysable",
            "failed-to-analyse/ecmascript/require"
        )]
    );
}

#[test]
fn require_resolve_is_never_analysed() {
    let found = handle(known(WellKnownFunctionKind::RequireResolve), vec![value("./a")]);
    assert_eq!(found.references.references, vec![]);
    assert_eq!(
        found.diagnostics,
        vec![warning(
            "require.resolve(\"./a\") is not statically analysable",
            "failed-to-analyse/ecmascript/require"
        )]
    );
}

#[test]
fn reading_method_refers_to_its_first_argument() {
    let found = handle(
        known(WellKnownFunctionKind::FsReadMethod("readFileSync".to_string())),
        vec![value("./f.txt"), JsValue::Unknown],
    );
    assert_eq!(found.references.references, vec![esm("./f.txt")]);
    assert_eq!(found.diagnostics, vec![]);
}

#[test]
fn reading_method_of_no_literal_is_not_analysable() {
    let alternatives = handle(
        known(WellKnownFunctionKind::FsReadMethod("readFile".to_string())),
        vec![JsValue::Alternatives(vec![value("a"), value("b")])],
    );
    assert_eq!(alternatives.references.references, vec![]);
    assert_eq!(
        alternatives.diagnostics,
        vec![warning(
            "fs.readFile((\"a\" | \"b\")) is not statically analysable",
            "failed-to-analyse/ecmascript/fs-method"
        )]
    );
    let none = handle(known(WellKnownFunctionKind::FsReadMethod("readdir".to_string())), vec![]);
    assert_eq!(none.references.references, vec![]);
    assert_eq!(
        none.diagnostics,
        vec![warning(
            "fs.readdir() is not statically analysable",
            "failed-to-analyse/ecmascript/fs-method"
        )]
    );
}

#[test]
fn call_of_alternatives_is_a_call_of_each() {
    let found = handle(
        JsValue::Alternatives(vec![
            known(WellKnownFunctionKind::Require),
            JsValue::Unknown,
            known(WellKnownFunctionKind::RequireResolve),
            known(WellKnownFunctionKind::Import),
        ]),
        vec![value("./a")],
    );
    assert_eq!(found.references.references, vec![esm("./a"), esm("./a")]);
    assert_eq!(
        found.diagnostics,
        vec![warning(
            "require.resolve(\"./a\") is not statically analysable",
            "failed-to-analyse/ecmascript/require"
        )]
    );
}

#[test]
fn call_of_any_other_function_is_ignored() {
    for func in [
        JsValue::Unknown,
        known(WellKnownFunctionKind::PathJoin),
        known(WellKnownFunctionKind::PathResolve),
        known(WellKnownFunctionKind::PathDirname),
        JsValue::Module("fs".to_string()),
        value("require"),
    ] {
        let found = handle(func, vec![value("./a")]);
        assert_eq!(found.references.references, vec![]);
        assert_eq!(found.diagnostics, vec![]);
    }
}

#[test]
fn package_json_is_referred_to_first() {
    let path = FileSystemPathRef { path: "/project/package.json".to_string() };
    let found = module_references(
        &src(),
        &"/project/lib".to_string(),
        &FindPackageJsonResult::Found(path.clone()),
        &ParseResult::Parsed {
            module: Module {
                body: vec![
                    Stmt::ExportAll { src: "a".to_string() },
                    Stmt::Expr(call(free("require"), vec![text("b")], span(0, 12))),
                ],
            },
        },
    );
    assert_eq!(
        found.references.references,
        vec![
            AssetReference::PackageJson(PackageJsonReference { package_json: path }),
            esm("a"),
            esm("b"),
        ]
    );
}

#[test]
fn module_that_was_not_parsed_has_no_references() {
    let path = FileSystemPathRef { path: "/project/package.json".to_string() };
    for parsed in [ParseResult::Unparseable, ParseResult::NotFound] {
        let found = module_references(
            &src(),
            &"/project/lib".to_string(),
            &FindPackageJsonResult::Found(path.clone()),
            &parsed,
        );
        assert_eq!(found.references.references, vec![]);
        assert_eq!(found.diagnostics, vec![]);
    }
}

#[test]
fn references_of_the_syntax_come_before_those_of_the_effects() {
    // require("./late"); import "./early";
    let found = analyse(vec![
        Stmt::Expr(call(free("require"), vec![text("./late")], span(0, 17))),
        Stmt::Import(ImportDecl { src: "./early".to_string(), type_only: false, specifiers: vec![] }),
    ]);
    assert_eq!(found.references.references, vec![esm("./early"), esm("./late")]);
}

#[test]
fn dynamic_import_of_a_computed_path_is_referred_to() {
    // import path from "path"; import(path.join(__dirname, "pages", "a.js"));
    let found = analyse(vec![
        Stmt::Import(ImportDecl {
            src: "path".to_string(),
            type_only: false,
            specifiers: vec![ImportSpecifier::Default { local: bound("path", 1) }],
        }),
        Stmt::Expr(Expr::Call {
            callee: Callee::Import,
            args: vec![arg(call(
                member(Expr::Ident(bound("path", 1)), "join"),
                vec![free("__dirname"), text("pages"), text("a.js")],
                span(32, 70),
            ))],
            span: span(25, 71),
        }),
    ]);
    assert_eq!(found.references.references, vec![esm("path"), esm("/project/lib/pages/a.js")]);
    assert_eq!(found.diagnostics, vec![]);
}

#[test]
fn warnings_come_in_the_order_of_the_effects() {
    // require.resolve(a); fs.readFile(b); import(c);
    let found = analyse(vec![
        declare(bound("fs", 1), call(free("require"), vec![text("fs")], span(0, 1))),
        Stmt::Expr(call(member(free("require"), "resolve"), vec![free("a")], span(10, 20))),
        Stmt::Expr(call(member(Expr::Ident(bound("fs", 1)), "readFile"), vec![free("b")], span(30, 40))),
        Stmt::Expr(Expr::Call { callee: Callee::Import, args: vec![arg(free("c"))], span: span(50, 60) }),
    ]);
    assert_eq!(found.references.references, vec![esm("fs")]);
    assert_eq!(
        found.diagnostics,
        vec![
            Diagnostic {
                span: span(10, 20),
                message: "require.resolve(???) is not statically analysable".to_string(),
                id: "failed-to-analyse/ecmascript/require".to_string(),
            },
            Diagnostic {
                span: span(30, 40),
                message: "fs.readFile(???) is not statically analysable".to_string(),
                id: "failed-to-analyse/ecmascript/fs-method".to_string(),
            },
            Diagnostic {
                span: span(50, 60),
                message: "import(???) is not statically analysable".to_string(),
                id: "failed-to-analyse/ecmascript/dynamic-import".to_string(),
            },
        ]
    );
}

#[test]
fn same_module_gives_the_same_references() {
    let body = || {
        vec![
            Stmt::Import(ImportDecl { src: "a".to_string(), type_only: false, specifiers: vec![] }),
            Stmt::Expr(call(free("require"), vec![free("x")], span(0, 10))),
            Stmt::Expr(call(free("require"), vec![text("b")], span(12, 24))),
        ]
    };
    assert_eq!(analyse(body()), analyse(body()));
}

#[test]
fn runtime_candidate_is_what_the_request_resolved_to() {
    let asset = AssetRef { path: "/project/rt.js".to_string() };
    assert_eq!(
        resolve_as_webpack_runtime(&ResolveResult::Single(asset.clone())),
        Some(&asset)
    );
    assert_eq!(resolve_as_webpack_runtime(&ResolveResult::Many(vec![asset.clone(), src()])), None);
    assert_eq!(resolve_as_webpack_runtime(&ResolveResult::Many(vec![asset])), None);
    assert_eq!(resolve_as_webpack_runtime(&ResolveResult::Unresolvable), None);
}
