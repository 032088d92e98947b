//! The references that the syntax of a module shows: static imports and
//! exports, and the calls of a bundler runtime.

use vstd::prelude::*;
use crate::text::{text_is, text_views};
use crate::analyzer::ConstantValue;
use crate::ast::{
    requested_runtime, runtime_request, Callee, Expr, ExprOrSpread, Function, ImportDecl,
    ImportSpecifier, MemberProp, Module, Stmt, VarDeclarator,
};
use crate::ecmascript::references::{
    reference_models, AssetRef, AssetReference, EsmAssetReferenceRef, Reference, Runtime,
    WebpackRuntimeRef,
};

verus! {

/// What the syntax of an expression shows it to be.
#[derive(Debug, PartialEq, Eq)]
pub enum StaticExpr {
    /// A string literal.
    String(String),
    /// A name that no import binds, with the members taken of it.
    FreeVar(Vec<String>),
    /// A name that an import of the module binds, with the path to what it
    /// imports and the members taken of it.
    ImportedVar(String, Vec<String>),
    /// Anything else.
    Unknown,
}

/// The mathematical model of what the syntax of an expression shows.
pub ghost enum StaticExprModel {
    String(Seq<char>),
    FreeVar(Seq<Seq<char>>),
    ImportedVar(Seq<char>, Seq<Seq<char>>),
    Unknown,
}

impl View for StaticExpr {
    type V = StaticExprModel;

    open spec fn view(&self) -> StaticExprModel {
        match self {
            StaticExpr::String(text) => StaticExprModel::String(text@),
            StaticExpr::FreeVar(path) => StaticExprModel::FreeVar(text_views(path@)),
            StaticExpr::ImportedVar(module, path) => StaticExprModel::ImportedVar(
                module@,
                text_views(path@),
            ),
            StaticExpr::Unknown => StaticExprModel::Unknown,
        }
    }
}

/// What a name of the module was imported as: the module, and the path to
/// what is imported of it.
#[derive(Debug, PartialEq, Eq)]
pub struct ImportBinding {
    pub local: String,
    pub module: String,
    pub path: Vec<String>,
}

/// The mathematical model of an import.
pub ghost struct ImportModel {
    pub module: Seq<char>,
    pub path: Seq<Seq<char>>,
}

impl View for ImportBinding {
    type V = ImportModel;

    open spec fn view(&self) -> ImportModel {
        ImportModel { module: self.module@, path: text_views(self.path@) }
    }
}

/// The imports by name: where a name was imported twice, the later import
/// counts.
pub open spec fn imports_of(bindings: Seq<ImportBinding>) -> Map<Seq<char>, ImportModel>
    decreases bindings.len(),
{
    if bindings.len() == 0 {
        Map::empty()
    } else {
        imports_of(bindings.drop_last()).insert(bindings.last().local@, bindings.last()@)
    }
}

/// What the analysis of the syntax knows: the imports of the module so far.
#[derive(Debug)]
pub struct StaticAnalyser {
    imports: Vec<ImportBinding>,
}

impl View for StaticAnalyser {
    type V = Map<Seq<char>, ImportModel>;

    closed spec fn view(&self) -> Map<Seq<char>, ImportModel> {
        imports_of(self.imports@)
    }
}

/// The name of a property, where the syntax shows it: the name itself, or
/// the string that a computed key is.
pub open spec fn static_prop(imports: Map<Seq<char>, ImportModel>, prop: MemberProp) -> Option<
    Seq<char>,
>
    decreases prop, 0nat,
{
    match prop {
        MemberProp::Ident(name) => Some(name@),
        MemberProp::PrivateName(_) => None,
        MemberProp::Computed(key) => match static_expr(imports, *key) {
            StaticExprModel::String(text) => Some(text),
            _ => None,
        },
    }
}

/// What the syntax of an expression shows it to be: a string literal, or a
/// chain of members of a free or of an imported name.
pub open spec fn static_expr(imports: Map<Seq<char>, ImportModel>, expr: Expr) -> StaticExprModel
    decreases expr, 0nat,
{
    match expr {
        Expr::Lit(ConstantValue::Str(text)) => StaticExprModel::String(text@),
        Expr::Ident(ident) => if imports.contains_key(ident.sym@) {
            StaticExprModel::ImportedVar(imports[ident.sym@].module, imports[ident.sym@].path)
        } else {
            StaticExprModel::FreeVar(seq![ident.sym@])
        },
        Expr::Member { obj, prop } => match static_expr(imports, *obj) {
            StaticExprModel::FreeVar(path) => match static_prop(imports, prop) {
                Some(name) => StaticExprModel::FreeVar(path.push(name)),
                None => StaticExprModel::Unknown,
            },
            StaticExprModel::ImportedVar(module, path) => match static_prop(imports, prop) {
                Some(name) => StaticExprModel::ImportedVar(module, path.push(name)),
                None => StaticExprModel::Unknown,
            },
            _ => StaticExprModel::Unknown,
        },
        _ => StaticExprModel::Unknown,
    }
}

/// The import that is last for a name is the one that counts.
proof fn lemma_import_found(bindings: Seq<ImportBinding>, name: Seq<char>, at: int)
    requires
        0 <= at < bindings.len(),
        bindings[at].local@ == name,
        forall|j: int| at < j < bindings.len() ==> (#[trigger] bindings[j]).local@ != name,
    ensures
        imports_of(bindings).contains_key(name),
        imports_of(bindings)[name] == bindings[at]@,
    decreases bindings.len(),
{
    if at < bindings.len() - 1 {
        let before = bindings.drop_last();
        lemma_import_found(before, name, at);
    }
}

/// A name that no import has is not imported.
proof fn lemma_import_missing(bindings: Seq<ImportBinding>, name: Seq<char>)
    requires
        forall|j: int| 0 <= j < bindings.len() ==> (#[trigger] bindings[j]).local@ != name,
    ensures
        !imports_of(bindings).contains_key(name),
    decreases bindings.len(),
{
    if bindings.len() > 0 {
        let before = bindings.drop_last();
        lemma_import_missing(before, name);
    }
}

/// Copies a list of strings.
fn clone_texts(texts: &Vec<String>) -> (copies: Vec<String>)
    ensures
        text_views(copies@) == text_views(texts@),
{
    let mut copies: Vec<String> = Vec::new();
    let mut i: usize = 0;
    while i < texts.len()
        invariant
            i <= texts.len(),
            copies.len() == i,
            forall|j: int| 0 <= j < i ==> copies[j]@ == texts[j]@,
        decreases texts.len() - i,
    {
        copies.push(texts[i].clone());
        i += 1;
    }
    copies
}

impl StaticAnalyser {
    /// An analyser that knows no import.
    pub fn new() -> (analyser: Self)
        ensures
            analyser@ == Map::<Seq<char>, ImportModel>::empty(),
    {
        StaticAnalyser { imports: Vec::new() }
    }

    /// Records that `local` names what `path` leads to in `module`.
    pub fn insert(&mut self, local: String, module: String, path: Vec<String>)
        ensures
            final(self)@ == old(self)@.insert(
                local@,
                ImportModel { module: module@, path: text_views(path@) },
            ),
    {
        let ghost before = self.imports@;
        self.imports.push(ImportBinding { local, module, path });
        assert(self.imports@.drop_last() =~= before);
    }

    /// The import that `name` stands for, if any.
    fn find(&self, name: &String) -> (found: Option<&ImportBinding>)
        ensures
            match found {
                Some(binding) => self@.contains_key(name@) && self@[name@] == binding@,
                None => !self@.contains_key(name@),
            },
    {
        let mut i: usize = self.imports.len();
        while i > 0
            invariant
                i <= self.imports.len(),
                forall|j: int| i <= j < self.imports.len() ==> (#[trigger] self.imports[j]).local@
                    != name@,
            decreases i,
        {
            i -= 1;
            if self.imports[i].local == *name {
                proof {
                    lemma_import_found(self.imports@, name@, i as int);
                }
                return Some(&self.imports[i]);
            }
        }
        proof {
            lemma_import_missing(self.imports@, name@);
        }
        None
    }

    /// The name of a property, where the syntax shows it.
    pub fn prop_to_name(&self, prop: &MemberProp) -> (name: Option<String>)
        ensures
            match name {
                Some(name) => static_prop(self@, *prop) == Some(name@),
                None => static_prop(self@, *prop) is None,
            },
        decreases prop,
    {
        match prop {
            MemberProp::Ident(name) => Some(name.clone()),
            MemberProp::PrivateName(_) => None,
            MemberProp::Computed(key) => match self.evaluate_expr(key) {
                StaticExpr::String(text) => Some(text),
                _ => None,
            },
        }
    }

    /// What the syntax of an expression shows it to be.
    pub fn evaluate_expr(&self, expr: &Expr) -> (shown: StaticExpr)
        ensures
            shown@ == static_expr(self@, *expr),
        decreases expr,
    {
        match expr {
            Expr::Lit(ConstantValue::Str(text)) => StaticExpr::String(text.clone()),
            Expr::Ident(ident) => {
                match self.find(&ident.sym) {
                    Some(binding) => StaticExpr::ImportedVar(
                        binding.module.clone(),
                        clone_texts(&binding.path),
                    ),
                    None => {
                        let mut path: Vec<String> = Vec::new();
                        path.push(ident.sym.clone());
                        assert(text_views(path@) =~= seq![ident.sym@]);
                        StaticExpr::FreeVar(path)
                    },
                }
            },
            Expr::Member { obj, prop } => match self.evaluate_expr(obj) {
                StaticExpr::FreeVar(mut path) => match self.prop_to_name(prop) {
                    Some(name) => {
                        let ghost before = text_views(path@);
                        path.push(name);
                        assert(text_views(path@) =~= before.push(name@));
                        StaticExpr::FreeVar(path)
                    },
                    None => StaticExpr::Unknown,
                },
                StaticExpr::ImportedVar(module, mut path) => match self.prop_to_name(prop) {
                    Some(name) => {
                        let ghost before = text_views(path@);
                        path.push(name);
                        assert(text_views(path@) =~= before.push(name@));
                        StaticExpr::ImportedVar(module, path)
                    },
                    None => StaticExpr::Unknown,
                },
                _ => StaticExpr::Unknown,
            },
            _ => StaticExpr::Unknown,
        }
    }
}

/// What the visitor holds: the module that it walks, the imports and the
/// runtime that it has met, and the references that it has found.
pub ghost struct VisitorModel {
    pub source: Seq<char>,
    pub imports: Map<Seq<char>, ImportModel>,
    pub webpack_runtime: Option<Runtime>,
    pub references: Seq<Reference>,
}

impl VisitorModel {
    /// The visitor with one more reference.
    pub open spec fn with_reference(self, reference: Reference) -> VisitorModel {
        VisitorModel { references: self.references.push(reference), ..self }
    }

    /// The visitor with more references.
    pub open spec fn with_references(self, references: Seq<Reference>) -> VisitorModel {
        VisitorModel { references: self.references + references, ..self }
    }

    /// The visitor with the reference to the module that `request` names.
    pub open spec fn with_esm(self, request: Seq<char>) -> VisitorModel {
        self.with_reference(Reference::Esm { source: self.source, request })
    }

    /// The visitor after `local` was imported.
    pub open spec fn with_import(
        self,
        local: Seq<char>,
        module: Seq<char>,
        path: Seq<Seq<char>>,
    ) -> VisitorModel {
        VisitorModel { imports: self.imports.insert(local, ImportModel { module, path }), ..self }
    }
}

/// The visitor after the first `count` specifiers of an import of `src`: a
/// named import leads to the name that it imports, a default import to
/// `default`, and a namespace import to the module itself; the import of a
/// type is passed over.
pub open spec fn with_imports(
    state: VisitorModel,
    specifiers: Seq<ImportSpecifier>,
    count: nat,
    src: Seq<char>,
) -> VisitorModel
    decreases count,
{
    if count == 0 || count > specifiers.len() {
        state
    } else {
        let before = with_imports(state, specifiers, (count - 1) as nat, src);
        match specifiers[count - 1] {
            ImportSpecifier::Named { local, imported, is_type_only } => if is_type_only {
                before
            } else {
                before.with_import(
                    local.sym@,
                    src,
                    seq![
                        match imported {
                            Some(name) => name@,
                            None => local.sym@,
                        },
                    ],
                )
            },
            ImportSpecifier::Default { local } => before.with_import(
                local.sym@,
                src,
                seq!["default"@],
            ),
            ImportSpecifier::Namespace { local } => before.with_import(
                local.sym@,
                src,
                Seq::empty(),
            ),
        }
    }
}

/// The visitor after an import declaration: the module is referred to, and
/// the names are imported unless the declaration imports types.
pub open spec fn visited_import(state: VisitorModel, import: ImportDecl) -> VisitorModel {
    if import.type_only {
        state.with_esm(import.src@)
    } else {
        with_imports(
            state.with_esm(import.src@),
            import.specifiers@,
            import.specifiers.len() as nat,
            import.src@,
        )
    }
}

/// The references to the chunks that the first `count` elements of an array
/// name: one for each literal that is not spread.
pub open spec fn chunk_references(
    runtime: Runtime,
    elems: Seq<Option<ExprOrSpread>>,
    count: nat,
) -> Seq<Reference>
    decreases count,
{
    if count == 0 || count > elems.len() {
        Seq::empty()
    } else {
        let before = chunk_references(runtime, elems, (count - 1) as nat);
        match elems[count - 1] {
            Some(ExprOrSpread { spread: false, expr: Expr::Lit(chunk_id) }) => before.push(
                Reference::WebpackChunk { runtime, chunk_id: chunk_id@ },
            ),
            _ => before,
        }
    }
}

/// The references that a call of the runtime makes: `__webpack_require__.C`
/// refers to the entry, and `__webpack_require__.X(_, [ids], _)` to the
/// chunks; nothing before a runtime was met.
pub open spec fn runtime_references(
    state: VisitorModel,
    callee: Callee,
    args: Seq<ExprOrSpread>,
) -> Seq<Reference> {
    match (callee, state.webpack_runtime) {
        (Callee::Expr(function), Some(runtime)) => match static_expr(state.imports, *function) {
            StaticExprModel::FreeVar(path) => if path.len() == 2 && path[0]
                == "__webpack_require__"@ {
                if path[1] == "C"@ {
                    seq![Reference::WebpackEntry { source: state.source, runtime }]
                } else if path[1] == "X"@ && args.len() == 3 && !args[1].spread {
                    match args[1].expr {
                        Expr::Array(elems) => chunk_references(
                            runtime,
                            elems@,
                            elems.len() as nat,
                        ),
                        _ => Seq::empty(),
                    }
                } else {
                    Seq::empty()
                }
            } else {
                Seq::empty()
            },
            _ => Seq::empty(),
        },
        _ => Seq::empty(),
    }
}

/// The visitor after an expression: the references of every call of the
/// runtime in it, a call before the calls in its parts.
pub open spec fn visited_expr(state: VisitorModel, expr: Expr) -> VisitorModel
    decreases expr, 1nat,
{
    match expr {
        Expr::Lit(_) => state,
        Expr::Ident(_) => state,
        Expr::Member { obj, prop } => match prop {
            MemberProp::Computed(key) => visited_expr(visited_expr(state, *obj), *key),
            _ => visited_expr(state, *obj),
        },
        Expr::Call { callee, args, span } => visited_args(
            visited_callee(
                state.with_references(runtime_references(state, callee, args@)),
                callee,
            ),
            args@,
            args.len() as nat,
        ),
        Expr::Array(elems) => visited_elems(state, elems@, elems.len() as nat),
        Expr::Add(left, right) => visited_expr(visited_expr(state, *left), *right),
        Expr::Tpl { quasis, exprs } => visited_exprs(state, exprs@, exprs.len() as nat),
        Expr::Cond { test, cons, alt } => visited_expr(
            visited_expr(visited_expr(state, *test), *cons),
            *alt,
        ),
        Expr::Assign { target, value } => visited_expr(state, *value),
        Expr::Function(function) => visited_function(state, function),
        Expr::Other(children) => visited_exprs(state, children@, children.len() as nat),
    }
}

/// The visitor after the expression that is called.
pub open spec fn visited_callee(state: VisitorModel, callee: Callee) -> VisitorModel
    decreases callee, 0nat,
{
    match callee {
        Callee::Expr(function) => visited_expr(state, *function),
        _ => state,
    }
}

/// The visitor after the first `count` of the expressions.
pub open spec fn visited_exprs(state: VisitorModel, exprs: Seq<Expr>, count: nat) -> VisitorModel
    decreases exprs, count,
{
    if count == 0 || count > exprs.len() {
        state
    } else {
        visited_expr(visited_exprs(state, exprs, (count - 1) as nat), exprs[count - 1])
    }
}

/// The visitor after the first `count` of the arguments.
pub open spec fn visited_args(
    state: VisitorModel,
    args: Seq<ExprOrSpread>,
    count: nat,
) -> VisitorModel
    decreases args, count,
{
    if count == 0 || count > args.len() {
        state
    } else {
        visited_expr(visited_args(state, args, (count - 1) as nat), args[count - 1].expr)
    }
}

/// The visitor after the first `count` of the elements of an array.
pub open spec fn visited_elems(
    state: VisitorModel,
    elems: Seq<Option<ExprOrSpread>>,
    count: nat,
) -> VisitorModel
    decreases elems, count,
{
    if count == 0 || count > elems.len() {
        state
    } else {
        let before = visited_elems(state, elems, (count - 1) as nat);
        match elems[count - 1] {
            Some(elem) => visited_expr(before, elem.expr),
            None => before,
        }
    }
}

/// The visitor after the body of a function.
pub open spec fn visited_function(state: VisitorModel, function: Function) -> VisitorModel
    decreases function, 0nat,
{
    visited_stmts(state, function.body@, function.body.len() as nat)
}

/// The visitor after a declarator: one that requires a module under the
/// name of the runtime makes that module the runtime and a candidate, and is
/// not walked; every other is walked.
pub open spec fn visited_declarator(state: VisitorModel, declarator: VarDeclarator) -> VisitorModel
    decreases declarator, 0nat,
{
    match runtime_request(declarator) {
        Some(request) => VisitorModel {
            webpack_runtime: Some(Runtime { source: state.source, request }),
            ..state.with_reference(
                Reference::WebpackRuntimeCandidate { source: state.source, request },
            )
        },
        None => match declarator.init {
            Some(init) => visited_expr(state, init),
            None => state,
        },
    }
}

/// The visitor after the first `count` of the declarators.
pub open spec fn visited_declarators(
    state: VisitorModel,
    declarators: Seq<VarDeclarator>,
    count: nat,
) -> VisitorModel
    decreases declarators, count,
{
    if count == 0 || count > declarators.len() {
        state
    } else {
        visited_declarator(
            visited_declarators(state, declarators, (count - 1) as nat),
            declarators[count - 1],
        )
    }
}

/// The visitor after a statement: an import and an export from a module
/// refer to that module, once for the statement.
pub open spec fn visited_stmt(state: VisitorModel, stmt: Stmt) -> VisitorModel
    decreases stmt, 0nat,
{
    match stmt {
        Stmt::Import(import) => visited_import(state, import),
        Stmt::ExportAll { src } => state.with_esm(src@),
        Stmt::NamedExport { src } => match src {
            Some(src) => state.with_esm(src@),
            None => state,
        },
        Stmt::Var(declarators) => visited_declarators(
            state,
            declarators@,
            declarators.len() as nat,
        ),
        Stmt::Expr(expr) => visited_expr(state, expr),
        Stmt::Function { ident, function } => visited_function(state, function),
        Stmt::Block(stmts) => visited_stmts(state, stmts@, stmts.len() as nat),
    }
}

/// The visitor after the first `count` of the statements.
pub open spec fn visited_stmts(state: VisitorModel, stmts: Seq<Stmt>, count: nat) -> VisitorModel
    decreases stmts, count,
{
    if count == 0 || count > stmts.len() {
        state
    } else {
        visited_stmt(visited_stmts(state, stmts, (count - 1) as nat), stmts[count - 1])
    }
}

/// The visitor after a module.
pub open spec fn visited_module(state: VisitorModel, module: Module) -> VisitorModel {
    visited_stmts(state, module.body@, module.body.len() as nat)
}

/// Walks the syntax of a module and collects the references that it shows.
#[derive(Debug)]
pub struct AssetReferencesVisitor<'a> {
    source: &'a AssetRef,
    analyser: StaticAnalyser,
    references: Vec<AssetReference>,
    webpack_runtime: Option<WebpackRuntimeRef>,
}

/// The model of a runtime that may have been met.
pub open spec fn runtime_model(runtime: Option<WebpackRuntimeRef>) -> Option<Runtime> {
    match runtime {
        Some(runtime) => Some(runtime@),
        None => None,
    }
}

impl<'a> View for AssetReferencesVisitor<'a> {
    type V = VisitorModel;

    closed spec fn view(&self) -> VisitorModel {
        VisitorModel {
            source: self.source@,
            imports: self.analyser@,
            webpack_runtime: runtime_model(self.webpack_runtime),
            references: reference_models(self.references@),
        }
    }
}

impl<'a> AssetReferencesVisitor<'a> {
    /// A visitor of the module `source` that adds to `references`.
    pub fn new(source: &'a AssetRef, references: Vec<AssetReference>) -> (visitor: Self)
        ensures
            visitor@ == (VisitorModel {
                source: source@,
                imports: Map::empty(),
                webpack_runtime: None,
                references: reference_models(references@),
            }),
    {
        Self { source, analyser: StaticAnalyser::new(), references, webpack_runtime: None }
    }

    /// The references: those that the visitor was given, then those that it
    /// found.
    pub fn into_references(self) -> (references: Vec<AssetReference>)
        ensures
            reference_models(references@) == self@.references,
    {
        self.references
    }

    /// Adds a reference.
    fn push(&mut self, reference: AssetReference)
        ensures
            final(self)@ == old(self)@.with_reference(reference@),
    {
        self.references.push(reference);
        assert(reference_models(self.references@) =~= old(self)@.references.push(reference@));
    }

    /// Adds the reference to the module that `request` names.
    fn push_esm(&mut self, request: &String)
        ensures
            final(self)@ == old(self)@.with_esm(request@),
    {
        let reference = EsmAssetReferenceRef::new(self.source.clone(), request.clone());
        self.push(reference.into_reference());
    }

    /// Visits `export * from "src"`.
    pub fn visit_export_all(&mut self, src: &String)
        ensures
            final(self)@ == old(self)@.with_esm(src@),
    {
        self.push_esm(src);
    }

    /// Visits `export { ... }`, from `src` where there is one.
    pub fn visit_named_export(&mut self, src: &Option<String>)
        ensures
            final(self)@ == match src {
                Some(src) => old(self)@.with_esm(src@),
                None => old(self)@,
            },
    {
        match src {
            Some(src) => self.push_esm(src),
            None => {},
        }
    }

    /// Visits an import declaration.
    pub fn visit_import_decl(&mut self, import: &ImportDecl)
        ensures
            final(self)@ == visited_import(old(self)@, *import),
    {
        self.push_esm(&import.src);
        if import.type_only {
            return ;
        }
        let ghost start = self@;
        let mut i: usize = 0;
        while i < import.specifiers.len()
            invariant
                i <= import.specifiers.len(),
                self@ == with_imports(start, import.specifiers@, i as nat, import.src@),
            decreases import.specifiers.len() - i,
        {
            match &import.specifiers[i] {
                ImportSpecifier::Named { local, imported, is_type_only } => {
                    if !*is_type_only {
                        let mut path: Vec<String> = Vec::new();
                        match imported {
                            Some(name) => path.push(name.clone()),
                            None => path.push(local.sym.clone()),
                        }
                        assert(text_views(path@) =~= seq![
                            match imported {
                                Some(name) => name@,
                                None => local.sym@,
                            },
                        ]);
                        self.analyser.insert(local.sym.clone(), import.src.clone(), path);
                    }
                },
                ImportSpecifier::Default { local } => {
                    let mut path: Vec<String> = Vec::new();
                    path.push("default".to_owned());
                    assert(text_views(path@) =~= seq!["default"@]);
                    self.analyser.insert(local.sym.clone(), import.src.clone(), path);
                },
                ImportSpecifier::Namespace { local } => {
                    let path: Vec<String> = Vec::new();
                    assert(text_views(path@) =~= Seq::<Seq<char>>::empty());
                    self.analyser.insert(local.sym.clone(), import.src.clone(), path);
                },
            }
            i += 1;
        }
    }

    /// Visits a declarator.
    pub fn visit_var_declarator(&mut self, decl: &VarDeclarator)
        ensures
            final(self)@ == visited_declarator(old(self)@, *decl),
        decreases decl, 0nat,
    {
        match requested_runtime(decl) {
            Some(request) => {
                self.webpack_runtime = Some(
                    WebpackRuntimeRef { source: self.source.clone(), request: request.clone() },
                );
                self.push(
                    AssetReference::WebpackRuntimeCandidate {
                        source: self.source.clone(),
                        request: request.clone(),
                    },
                );
            },
            None => match &decl.init {
                Some(init) => self.visit_expr(init),
                None => {},
            },
        }
    }

    /// Visits a call: finds the references that it makes as a call of the
    /// runtime, then visits its parts.
    pub fn visit_call_expr(&mut self, call: &Expr)
        requires
            *call is Call,
        ensures
            final(self)@ == visited_expr(old(self)@, *call),
        decreases call, 0nat,
    {
        match call {
            Expr::Call { callee, args, span } => {
                let ghost entered = self@.with_references(
                    runtime_references(self@, *callee, args@),
                );
                self.add_runtime_references(callee, args);
                match callee {
                    Callee::Expr(function) => self.visit_expr(function),
                    _ => {},
                }
                assert(self@ == visited_callee(entered, *callee));
                self.visit_args(args);
            },
            _ => {},
        }
    }

    /// Adds the references that a call makes as a call of the runtime.
    fn add_runtime_references(&mut self, callee: &Callee, args: &Vec<ExprOrSpread>)
        ensures
            final(self)@ == old(self)@.with_references(
                runtime_references(old(self)@, *callee, args@),
            ),
    {
        let ghost start = self@;
        let function = match callee {
            Callee::Expr(function) => function,
            _ => {
                return ;
            },
        };
        let runtime = match &self.webpack_runtime {
            Some(runtime) => runtime.clone(),
            None => {
                return ;
            },
        };
        let path = match self.analyser.evaluate_expr(function) {
            StaticExpr::FreeVar(path) => path,
            _ => {
                return ;
            },
        };
        if path.len() != 2 || !text_is(&path[0], "__webpack_require__") {
            return ;
        }
        if text_is(&path[1], "C") {
            self.push(AssetReference::WebpackEntry { source: self.source.clone(), runtime });
            assert(start.references.push(
                Reference::WebpackEntry { source: start.source, runtime: runtime@ },
            ) =~= start.references + seq![
                Reference::WebpackEntry { source: start.source, runtime: runtime@ },
            ]);
        } else if text_is(&path[1], "X") && args.len() == 3 && !args[1].spread {
            match &args[1].expr {
                Expr::Array(elems) => {
                    let mut i: usize = 0;
                    while i < elems.len()
                        invariant
                            i <= elems.len(),
                            self@ == start.with_references(
                                chunk_references(runtime@, elems@, i as nat),
                            ),
                        decreases elems.len() - i,
                    {
                        match &elems[i] {
                            Some(ExprOrSpread { spread: false, expr: Expr::Lit(chunk_id) }) => {
                                self.push(
                                    AssetReference::WebpackChunk {
                                        runtime: runtime.clone(),
                                        chunk_id: chunk_id.clone(),
                                    },
                                );
                            },
                            _ => {},
                        }
                        i += 1;
                    }
                },
                _ => {},
            }
        }
    }

    /// Visits an expression.
    pub fn visit_expr(&mut self, expr: &Expr)
        ensures
            final(self)@ == visited_expr(old(self)@, *expr),
        decreases expr, 1nat,
    {
        match expr {
            Expr::Lit(_) => {},
            Expr::Ident(_) => {},
            Expr::Member { obj, prop } => {
                self.visit_expr(obj);
                match prop {
                    MemberProp::Computed(key) => self.visit_expr(key),
                    _ => {},
                }
            },
            Expr::Call { callee, args, span } => self.visit_call_expr(expr),
            Expr::Array(elems) => self.visit_elems(elems),
            Expr::Add(left, right) => {
                self.visit_expr(left);
                self.visit_expr(right);
            },
            Expr::Tpl { quasis, exprs } => self.visit_exprs(exprs),
            Expr::Cond { test, cons, alt } => {
                self.visit_expr(test);
                self.visit_expr(cons);
                self.visit_expr(alt);
            },
            Expr::Assign { target, value } => self.visit_expr(value),
            Expr::Function(function) => self.visit_function(function),
            Expr::Other(children) => self.visit_exprs(children),
        }
    }

    /// Visits expressions, one after the other.
    fn visit_exprs(&mut self, exprs: &Vec<Expr>)
        ensures
            final(self)@ == visited_exprs(old(self)@, exprs@, exprs.len() as nat),
        decreases exprs, 0nat,
    {
        let mut i: usize = 0;
        while i < exprs.len()
            invariant
                i <= exprs.len(),
                self@ == visited_exprs(old(self)@, exprs@, i as nat),
            decreases exprs.len() - i,
        {
            self.visit_expr(&exprs[i]);
            i += 1;
        }
    }

    /// Visits the arguments of a call.
    fn visit_args(&mut self, args: &Vec<ExprOrSpread>)
        ensures
            final(self)@ == visited_args(old(self)@, args@, args.len() as nat),
        decreases args, 0nat,
    {
        let mut i: usize = 0;
        while i < args.len()
            invariant
                i <= args.len(),
                self@ == visited_args(old(self)@, args@, i as nat),
            decreases args.len() - i,
        {
            self.visit_expr(&args[i].expr);
            i += 1;
        }
    }

    /// Visits the elements of an array.
    fn visit_elems(&mut self, elems: &Vec<Option<ExprOrSpread>>)
        ensures
            final(self)@ == visited_elems(old(self)@, elems@, elems.len() as nat),
        decreases elems, 0nat,
    {
        let mut i: usize = 0;
        while i < elems.len()
            invariant
                i <= elems.len(),
                self@ == visited_elems(old(self)@, elems@, i as nat),
            decreases elems.len() - i,
        {
            match &elems[i] {
                Some(elem) => self.visit_expr(&elem.expr),
                None => {},
            }
            i += 1;
        }
    }

    /// Visits the body of a function.
    fn visit_function(&mut self, function: &Function)
        ensures
            final(self)@ == visited_function(old(self)@, *function),
        decreases function, 0nat,
    {
        self.visit_stmts(&function.body);
    }

    /// Visits the declarators of a variable declaration.
    fn visit_declarators(&mut self, declarators: &Vec<VarDeclarator>)
        ensures
            final(self)@ == visited_declarators(
                old(self)@,
                declarators@,
                declarators.len() as nat,
            ),
        decreases declarators, 0nat,
    {
        let mut i: usize = 0;
        while i < declarators.len()
            invariant
                i <= declarators.len(),
                self@ == visited_declarators(old(self)@, declarators@, i as nat),
            decreases declarators.len() - i,
        {
            self.visit_var_declarator(&declarators[i]);
            i += 1;
        }
    }

    /// Visits a statement.
    pub fn visit_stmt(&mut self, stmt: &Stmt)
        ensures
            final(self)@ == visited_stmt(old(self)@, *stmt),
        decreases stmt, 0nat,
    {
        match stmt {
            Stmt::Import(import) => self.visit_import_decl(import),
            Stmt::ExportAll { src } => self.visit_export_all(src),
            Stmt::NamedExport { src } => self.visit_named_export(src),
            Stmt::Var(declarators) => self.visit_declarators(declarators),
            Stmt::Expr(expr) => self.visit_expr(expr),
            Stmt::Function { ident, function } => self.visit_function(function),
            Stmt::Block(stmts) => self.visit_stmts(stmts),
        }
    }

    /// Visits statements, one after the other.
    fn visit_stmts(&mut self, stmts: &Vec<Stmt>)
        ensures
            final(self)@ == visited_stmts(old(self)@, stmts@, stmts.len() as nat),
        decreases stmts, 0nat,
    {
        let mut i: usize = 0;
        while i < stmts.len()
            invariant
                i <= stmts.len(),
                self@ == visited_stmts(old(self)@, stmts@, i as nat),
            decreases stmts.len() - i,
        {
            self.visit_stmt(&stmts[i]);
            i += 1;
        }
    }

    /// Visits a module.
    pub fn visit_module(&mut self, module: &Module)
        ensures
            final(self)@ == visited_module(old(self)@, *module),
    {
        self.visit_stmts(&module.body);
    }
}

} // verus!
