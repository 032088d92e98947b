//! The records of the references that a module makes, and what the analysis
//! of a module is given.

use swc_common::Span;
use vstd::prelude::*;
use vstd::string::StringExecFns;
use crate::analyzer::display::{print_function, print_values, printed_function, printed_list};
use crate::analyzer::graph::{create_graph, graph_of, Effect, EffectModel, VarGraph};
use crate::analyzer::linker::{link, link_all, linked, linked_each, LinkCache};
use crate::analyzer::pattern::{pattern_of, Pattern, PatternModel};
use crate::text::text_views;
use crate::analyzer::{
    Constant, ConstantValue, JsValue, Value, WellKnownFunction, WellKnownFunctionKind, models,
};
use crate::ast::Module;
use crate::ecmascript::visitor::{visited_module, AssetReferencesVisitor, VisitorModel};

verus! {

/// The handle of an asset: the path under which the bundler knows it.
#[derive(Debug, PartialEq, Eq, Hash)]
pub struct AssetRef {
    pub path: String,
}

impl View for AssetRef {
    type V = Seq<char>;

    open spec fn view(&self) -> Seq<char> {
        self.path@
    }
}

impl Clone for AssetRef {
    fn clone(&self) -> (copy: Self)
        ensures
            copy@ == self@,
    {
        AssetRef { path: self.path.clone() }
    }
}

/// The handle of a path of the file system.
#[derive(Debug, PartialEq, Eq, Hash)]
pub struct FileSystemPathRef {
    pub path: String,
}

impl View for FileSystemPathRef {
    type V = Seq<char>;

    open spec fn view(&self) -> Seq<char> {
        self.path@
    }
}

impl Clone for FileSystemPathRef {
    fn clone(&self) -> (copy: Self)
        ensures
            copy@ == self@,
    {
        FileSystemPathRef { path: self.path.clone() }
    }
}

/// The handle of a bundler runtime: what `request` resolves to from the
/// module `source`, which may turn out to be no runtime at all.
#[derive(Debug, PartialEq, Eq, Hash)]
pub struct WebpackRuntimeRef {
    pub source: AssetRef,
    pub request: String,
}

/// The mathematical model of the handle of a runtime.
pub ghost struct Runtime {
    pub source: Seq<char>,
    pub request: Seq<char>,
}

impl View for WebpackRuntimeRef {
    type V = Runtime;

    open spec fn view(&self) -> Runtime {
        Runtime { source: self.source@, request: self.request@ }
    }
}

impl Clone for WebpackRuntimeRef {
    fn clone(&self) -> (copy: Self)
        ensures
            copy@ == self@,
    {
        WebpackRuntimeRef { source: self.source.clone(), request: self.request.clone() }
    }
}

/// The mathematical model of a reference.
pub ghost enum Reference {
    PackageJson { package_json: Seq<char> },
    Esm { source: Seq<char>, request: Seq<char> },
    WebpackRuntimeCandidate { source: Seq<char>, request: Seq<char> },
    WebpackEntry { source: Seq<char>, runtime: Runtime },
    WebpackChunk { runtime: Runtime, chunk_id: Constant },
}

/// The reference of a module to the `package.json` that governs it.
#[derive(Debug, PartialEq, Eq, Hash)]
pub struct PackageJsonReference {
    pub package_json: FileSystemPathRef,
}

impl View for PackageJsonReference {
    type V = Reference;

    open spec fn view(&self) -> Reference {
        Reference::PackageJson { package_json: self.package_json@ }
    }
}

impl Clone for PackageJsonReference {
    fn clone(&self) -> (copy: Self)
        ensures
            copy@ == self@,
    {
        PackageJsonReference { package_json: self.package_json.clone() }
    }
}

/// The handle of a reference to a `package.json`.
#[derive(Debug, PartialEq, Eq, Hash)]
pub struct PackageJsonReferenceRef {
    pub reference: PackageJsonReference,
}

impl PackageJsonReferenceRef {
    /// The reference to the given `package.json`.
    pub fn new(package_json: FileSystemPathRef) -> (handle: Self)
        ensures
            handle.reference.package_json == package_json,
    {
        PackageJsonReferenceRef { reference: PackageJsonReference { package_json } }
    }
}

/// The reference of the module `source` to what `request` names: a module
/// that it imports or requires, or a file that it reads.
#[derive(Debug, PartialEq, Eq, Hash)]
pub struct EsmAssetReference {
    pub source: AssetRef,
    pub request: String,
}

impl View for EsmAssetReference {
    type V = Reference;

    open spec fn view(&self) -> Reference {
        Reference::Esm { source: self.source@, request: self.request@ }
    }
}

/// The handle of a reference to a module or a file.
#[derive(Debug, PartialEq, Eq, Hash)]
pub struct EsmAssetReferenceRef {
    pub reference: EsmAssetReference,
}

impl EsmAssetReferenceRef {
    /// The reference of `source` to what `request` names.
    pub fn new(source: AssetRef, request: String) -> (handle: Self)
        ensures
            handle.reference.source == source,
            handle.reference.request == request,
    {
        EsmAssetReferenceRef { reference: EsmAssetReference { source, request } }
    }
}

/// A reference that a module makes.
#[derive(Debug, PartialEq, Eq, Hash)]
pub enum AssetReference {
    /// To the `package.json` that governs the module.
    PackageJson(PackageJsonReference),
    /// To a module that it imports or requires, or to a file that it reads.
    Esm(EsmAssetReference),
    /// To what may be a bundler runtime: `source` requires `request` under
    /// the name that a runtime goes by.
    WebpackRuntimeCandidate { source: AssetRef, request: String },
    /// To the entry that `source` asks the runtime for.
    WebpackEntry { source: AssetRef, runtime: WebpackRuntimeRef },
    /// To a chunk of the runtime.
    WebpackChunk { runtime: WebpackRuntimeRef, chunk_id: ConstantValue },
}

impl View for AssetReference {
    type V = Reference;

    open spec fn view(&self) -> Reference {
        match self {
            AssetReference::PackageJson(reference) => reference@,
            AssetReference::Esm(reference) => reference@,
            AssetReference::WebpackRuntimeCandidate { source, request } => {
                Reference::WebpackRuntimeCandidate { source: source@, request: request@ }
            },
            AssetReference::WebpackEntry { source, runtime } => Reference::WebpackEntry {
                source: source@,
                runtime: runtime@,
            },
            AssetReference::WebpackChunk { runtime, chunk_id } => Reference::WebpackChunk {
                runtime: runtime@,
                chunk_id: chunk_id@,
            },
        }
    }
}

impl PackageJsonReferenceRef {
    /// The reference as one of those that a module makes.
    pub fn into_reference(self) -> (reference: AssetReference)
        ensures
            reference@ == self.reference@,
    {
        AssetReference::PackageJson(self.reference)
    }
}

impl EsmAssetReferenceRef {
    /// The reference as one of those that a module makes.
    pub fn into_reference(self) -> (reference: AssetReference)
        ensures
            reference@ == self.reference@,
    {
        AssetReference::Esm(self.reference)
    }
}

/// The models of a list of references.
pub open spec fn reference_models(references: Seq<AssetReference>) -> Seq<Reference> {
    Seq::new(references.len(), |i: int| references[i]@)
}

/// The references of a module, in the order in which they were found.
#[derive(Debug, PartialEq, Eq)]
pub struct AssetReferencesSet {
    pub references: Vec<AssetReference>,
}

impl View for AssetReferencesSet {
    type V = Seq<Reference>;

    open spec fn view(&self) -> Seq<Reference> {
        reference_models(self.references@)
    }
}

/// The identifier of the diagnostic for an `import(...)` that cannot be
/// analysed.
pub const DYNAMIC_IMPORT: &'static str = "failed-to-analyse/ecmascript/dynamic-import";

/// The identifier of the diagnostic for a `require(...)` or a
/// `require.resolve(...)` that cannot be analysed.
pub const REQUIRE: &'static str = "failed-to-analyse/ecmascript/require";

/// The identifier of the diagnostic for a call of a method of `fs` that
/// cannot be analysed.
pub const FS_METHOD: &'static str = "failed-to-analyse/ecmascript/fs-method";

/// A warning that the analysis gives: where, what, and the stable identifier
/// of its kind.
#[derive(Debug, PartialEq, Eq)]
pub struct Diagnostic {
    pub span: Span,
    pub message: String,
    pub id: String,
}

/// The mathematical model of a warning.
pub ghost struct DiagnosticModel {
    pub span: Span,
    pub message: Seq<char>,
    pub id: Seq<char>,
}

impl View for Diagnostic {
    type V = DiagnosticModel;

    open spec fn view(&self) -> DiagnosticModel {
        DiagnosticModel { span: self.span, message: self.message@, id: self.id@ }
    }
}

/// The models of a list of warnings.
pub open spec fn diagnostic_models(diagnostics: Seq<Diagnostic>) -> Seq<DiagnosticModel> {
    Seq::new(diagnostics.len(), |i: int| diagnostics[i]@)
}

/// What the resolver gave for a request.
#[derive(Debug, PartialEq, Eq)]
pub enum ResolveResult {
    /// The request names one asset.
    Single(AssetRef),
    /// The request names several assets.
    Many(Vec<AssetRef>),
    /// The request names nothing that was found.
    Unresolvable,
}

/// The asset that is to be examined as a bundler runtime: what the request
/// of a runtime candidate resolved to, where it resolved to one asset. Any
/// other outcome, a failure of the resolver too, means that the candidate is
/// no runtime.
pub fn resolve_as_webpack_runtime(resolved: &ResolveResult) -> (candidate: Option<&AssetRef>)
    ensures
        match *resolved {
            ResolveResult::Single(asset) => candidate == Some(&asset),
            _ => candidate is None,
        },
{
    match resolved {
        ResolveResult::Single(asset) => Some(asset),
        _ => None,
    }
}

/// What the search for the `package.json` of a module gave.
#[derive(Debug, PartialEq, Eq)]
pub enum FindPackageJsonResult {
    Found(FileSystemPathRef),
    NotFound,
}

/// What parsing a module gave.
#[derive(Debug, PartialEq, Eq)]
pub enum ParseResult {
    Parsed { module: Module },
    Unparseable,
    NotFound,
}

/// What the analysis gives: references and warnings, each in the order in
/// which they were found.
pub ghost struct Outcome {
    pub references: Seq<Reference>,
    pub diagnostics: Seq<DiagnosticModel>,
}

impl Outcome {
    /// Nothing.
    pub open spec fn empty() -> Outcome {
        Outcome { references: Seq::empty(), diagnostics: Seq::empty() }
    }

    /// This outcome with `later` after it.
    pub open spec fn followed_by(self, later: Outcome) -> Outcome {
        Outcome {
            references: self.references + later.references,
            diagnostics: self.diagnostics + later.diagnostics,
        }
    }
}

/// The warning that a call of `function` with `args` cannot be analysed.
pub open spec fn not_analysable(
    span: Span,
    function: WellKnownFunction,
    id: Seq<char>,
    args: Seq<Value>,
) -> Outcome {
    Outcome {
        references: Seq::empty(),
        diagnostics: seq![
            DiagnosticModel {
                span,
                message: printed_function(function) + "("@ + printed_list(args, args.len(), ", "@)
                    + ") is not statically analysable"@,
                id,
            },
        ],
    }
}

/// The references of `source` to each of the requests.
pub open spec fn esm_references(source: Seq<char>, requests: Seq<Seq<char>>) -> Seq<Reference> {
    Seq::new(requests.len(), |i: int| Reference::Esm { source, request: requests[i] })
}

/// What `import(args)` or `require(args)` gives: with one argument, a
/// reference to the module that it names, or one to each of the modules that
/// it may name; otherwise a warning.
pub open spec fn requested(
    source: Seq<char>,
    span: Span,
    function: WellKnownFunction,
    id: Seq<char>,
    args: Seq<Value>,
) -> Outcome {
    if args.len() == 1 {
        match pattern_of(args[0]) {
            PatternModel::Literal(request) => Outcome {
                references: seq![Reference::Esm { source, request }],
                diagnostics: Seq::empty(),
            },
            PatternModel::Alternatives(requests) => Outcome {
                references: esm_references(source, requests),
                diagnostics: Seq::empty(),
            },
            PatternModel::Dynamic => not_analysable(span, function, id, args),
        }
    } else {
        not_analysable(span, function, id, args)
    }
}

/// What a call of a reading method of `fs` gives: a reference to the file
/// that its first argument names, or a warning.
pub open spec fn read(source: Seq<char>, span: Span, name: Seq<char>, args: Seq<Value>) -> Outcome {
    if args.len() >= 1 && pattern_of(args[0]) is Literal {
        Outcome {
            references: seq![Reference::Esm { source, request: pattern_of(args[0])->Literal_0 }],
            diagnostics: Seq::empty(),
        }
    } else {
        not_analysable(span, WellKnownFunction::FsReadMethod(name), FS_METHOD@, args)
    }
}

/// What a call of the linked function `func` with the linked arguments
/// `args` gives. A call of alternatives is a call of each of them; a call of
/// `require.resolve` is never analysed; a call of any function that is not
/// known gives nothing.
pub open spec fn handled(source: Seq<char>, span: Span, func: Value, args: Seq<Value>) -> Outcome
    decreases func, 0nat,
{
    match func {
        Value::Alternatives(alts) => handled_any(source, span, alts, alts.len(), args),
        Value::WellKnownFunction(WellKnownFunction::Import) => requested(
            source,
            span,
            WellKnownFunction::Import,
            DYNAMIC_IMPORT@,
            args,
        ),
        Value::WellKnownFunction(WellKnownFunction::Require) => requested(
            source,
            span,
            WellKnownFunction::Require,
            REQUIRE@,
            args,
        ),
        Value::WellKnownFunction(WellKnownFunction::RequireResolve) => not_analysable(
            span,
            WellKnownFunction::RequireResolve,
            REQUIRE@,
            args,
        ),
        Value::WellKnownFunction(WellKnownFunction::FsReadMethod(name)) => read(
            source,
            span,
            name,
            args,
        ),
        _ => Outcome::empty(),
    }
}

/// What a call of each of the first `count` alternatives gives, in turn.
pub open spec fn handled_any(
    source: Seq<char>,
    span: Span,
    alts: Seq<Value>,
    count: nat,
    args: Seq<Value>,
) -> Outcome
    decreases alts, count,
{
    if count == 0 || count > alts.len() {
        Outcome::empty()
    } else {
        handled_any(source, span, alts, (count - 1) as nat, args).followed_by(
            handled(source, span, alts[count - 1], args),
        )
    }
}

/// What an effect gives: its function and its arguments are linked, and the
/// call is interpreted.
pub open spec fn interpreted_effect(
    bindings: Map<u64, Value>,
    directory: Seq<char>,
    source: Seq<char>,
    effect: EffectModel,
) -> Outcome {
    match effect {
        EffectModel::Call { func, this, args, span } => handled(
            source,
            span,
            linked(bindings, directory, func, Set::empty()),
            linked_each(bindings, directory, args, Set::empty()),
        ),
    }
}

/// What the first `count` of the effects give, in turn.
pub open spec fn interpreted(
    bindings: Map<u64, Value>,
    directory: Seq<char>,
    source: Seq<char>,
    effects: Seq<EffectModel>,
    count: nat,
) -> Outcome
    decreases count,
{
    if count == 0 || count > effects.len() {
        Outcome::empty()
    } else {
        interpreted(bindings, directory, source, effects, (count - 1) as nat).followed_by(
            interpreted_effect(bindings, directory, source, effects[count - 1]),
        )
    }
}

/// The references that a module was found to have before it is parsed: the
/// one to its `package.json`, where there is one.
pub open spec fn package_references(package_json: FindPackageJsonResult) -> Seq<Reference> {
    match package_json {
        FindPackageJsonResult::Found(path) => seq![Reference::PackageJson { package_json: path@ }],
        FindPackageJsonResult::NotFound => Seq::empty(),
    }
}

/// The references and warnings of the module `source` in `directory`: the
/// reference to its `package.json`, then those that its syntax shows, then
/// those that its effects give. A module that could not be parsed, or was
/// not found, has no reference and no warning.
pub open spec fn analysed(
    source: Seq<char>,
    directory: Seq<char>,
    package_json: FindPackageJsonResult,
    parsed: ParseResult,
) -> Outcome {
    match parsed {
        ParseResult::Parsed { module } => {
            let shown = visited_module(
                VisitorModel {
                    source,
                    imports: Map::empty(),
                    webpack_runtime: None,
                    references: package_references(package_json),
                },
                module,
            );
            let graph = graph_of(module);
            Outcome { references: shown.references, diagnostics: Seq::empty() }.followed_by(
                interpreted(
                    graph.values,
                    directory,
                    source,
                    graph.effects,
                    graph.effects.len(),
                ),
            )
        },
        _ => Outcome::empty(),
    }
}

/// What the analysis collects while it runs.
#[derive(Debug, PartialEq, Eq)]
pub struct ModuleReferences {
    /// The references, in the order in which they were found.
    pub references: AssetReferencesSet,
    /// The warnings, in the order in which they were given.
    pub diagnostics: Vec<Diagnostic>,
}

impl View for ModuleReferences {
    type V = Outcome;

    open spec fn view(&self) -> Outcome {
        Outcome {
            references: self.references@,
            diagnostics: diagnostic_models(self.diagnostics@),
        }
    }
}

impl ModuleReferences {
    /// Adds a reference.
    fn refer(&mut self, reference: AssetReference)
        ensures
            final(self)@ == old(self)@.followed_by(
                Outcome { references: seq![reference@], diagnostics: Seq::empty() },
            ),
    {
        self.references.references.push(reference);
        assert(self@.references =~= old(self)@.references + seq![reference@]);
    }

    /// Adds the reference of `source` to what `request` names.
    fn refer_esm(&mut self, source: &AssetRef, request: String)
        ensures
            final(self)@ == old(self)@.followed_by(
                Outcome {
                    references: seq![Reference::Esm { source: source@, request: request@ }],
                    diagnostics: Seq::empty(),
                },
            ),
    {
        self.refer(EsmAssetReferenceRef::new(source.clone(), request).into_reference());
    }

    /// Adds the warning that a call of `function` with `args` cannot be
    /// analysed.
    fn warn(&mut self, span: Span, function: &WellKnownFunctionKind, id: &str, args: &Vec<JsValue>)
        ensures
            final(self)@ == old(self)@.followed_by(
                not_analysable(span, function@, id@, models(args@)),
            ),
    {
        let mut message = String::new();
        print_function(&mut message, function);
        message.append("(");
        print_values(&mut message, args, ", ");
        message.append(") is not statically analysable");
        let diagnostic = Diagnostic { span, message, id: id.to_owned() };
        self.diagnostics.push(diagnostic);
        assert(self@.diagnostics =~= old(self)@.diagnostics + not_analysable(
            span,
            function@,
            id@,
            models(args@),
        ).diagnostics);
    }
}

/// Interprets `import(args)` or `require(args)`.
fn handle_request(
    source: &AssetRef,
    span: Span,
    function: &WellKnownFunctionKind,
    id: &str,
    args: &Vec<JsValue>,
    found: &mut ModuleReferences,
)
    ensures
        final(found)@ == old(found)@.followed_by(
            requested(source@, span, function@, id@, models(args@)),
        ),
{
    if args.len() == 1 {
        match Pattern::from(&args[0]) {
            Pattern::Literal(request) => {
                found.refer_esm(source, request);
                return ;
            },
            Pattern::Alternatives(requests) => {
                let ghost all = text_views(requests@);
                let mut i: usize = 0;
                while i < requests.len()
                    invariant
                        i <= requests.len(),
                        all == text_views(requests@),
                        found@ == old(found)@.followed_by(
                            Outcome {
                                references: esm_references(source@, all.subrange(0, i as int)),
                                diagnostics: Seq::empty(),
                            },
                        ),
                    decreases requests.len() - i,
                {
                    found.refer_esm(source, requests[i].clone());
                    i += 1;
                    proof {
                        let after = esm_references(source@, all.subrange(0, i as int));
                        assert(found@.references =~= old(found)@.references + after);
                    }
                }
                assert(all.subrange(0, i as int) =~= all);
                return ;
            },
            Pattern::Dynamic => {},
        }
    }
    found.warn(span, function, id, args);
}

/// Interprets a call of the linked function `func` with the linked
/// arguments `args`, at `span` in the module `source`.
pub fn handle_call(
    source: &AssetRef,
    span: Span,
    func: &JsValue,
    args: &Vec<JsValue>,
    found: &mut ModuleReferences,
)
    ensures
        final(found)@ == old(found)@.followed_by(handled(source@, span, func@, models(args@))),
    decreases func,
{
    match func {
        JsValue::Alternatives(alts) => {
            let ghost all = models(alts@);
            let mut i: usize = 0;
            while i < alts.len()
                invariant
                    i <= alts.len(),
                    all == models(alts@),
                    func is Alternatives,
                    *alts == func->Alternatives_0,
                    found@ == old(found)@.followed_by(
                        handled_any(source@, span, all, i as nat, models(args@)),
                    ),
                decreases alts.len() - i,
            {
                let ghost before = handled_any(source@, span, all, i as nat, models(args@));
                let ghost step = handled(source@, span, all[i as int], models(args@));
                handle_call(source, span, &alts[i], args, found);
                i += 1;
                proof {
                    assert(found@.references =~= old(found)@.references + before.followed_by(
                        step,
                    ).references);
                    assert(found@.diagnostics =~= old(found)@.diagnostics + before.followed_by(
                        step,
                    ).diagnostics);
                }
            }
        },
        JsValue::WellKnownFunction(WellKnownFunctionKind::Import) => {
            handle_request(
                source,
                span,
                &WellKnownFunctionKind::Import,
                DYNAMIC_IMPORT,
                args,
                found,
            );
        },
        JsValue::WellKnownFunction(WellKnownFunctionKind::Require) => {
            handle_request(source, span, &WellKnownFunctionKind::Require, REQUIRE, args, found);
        },
        JsValue::WellKnownFunction(WellKnownFunctionKind::RequireResolve) => {
            found.warn(span, &WellKnownFunctionKind::RequireResolve, REQUIRE, args);
        },
        JsValue::WellKnownFunction(WellKnownFunctionKind::FsReadMethod(name)) => {
            if args.len() >= 1 {
                match Pattern::from(&args[0]).into_string() {
                    Some(request) => {
                        found.refer_esm(source, request);
                        return ;
                    },
                    None => {},
                }
            }
            found.warn(
                span,
                &WellKnownFunctionKind::FsReadMethod(name.clone()),
                FS_METHOD,
                args,
            );
        },
        _ => {},
    }
}

/// Interprets the effects of a graph, one after the other.
fn interpret(source: &AssetRef, directory: &String, graph: &VarGraph, found: &mut ModuleReferences)
    ensures
        final(found)@ == old(found)@.followed_by(
            interpreted(
                graph@.values,
                directory@,
                source@,
                graph@.effects,
                graph@.effects.len(),
            ),
        ),
{
    let mut cache = LinkCache::new();
    let mut i: usize = 0;
    while i < graph.effects.len()
        invariant
            i <= graph.effects.len(),
            cache.holds(graph@.values, directory@),
            found@ == old(found)@.followed_by(
                interpreted(graph@.values, directory@, source@, graph@.effects, i as nat),
            ),
        decreases graph.effects.len() - i,
    {
        let ghost before = interpreted(
            graph@.values,
            directory@,
            source@,
            graph@.effects,
            i as nat,
        );
        let ghost step = interpreted_effect(
            graph@.values,
            directory@,
            source@,
            graph@.effects[i as int],
        );
        match &graph.effects[i] {
            Effect::Call { func, this, args, span } => {
                let func = link(graph, func.clone(), directory, &mut cache);
                let args = link_all(graph, args, directory, &mut cache);
                handle_call(source, *span, &func, &args, found);
            },
        }
        i += 1;
        proof {
            assert(found@.references =~= old(found)@.references + before.followed_by(
                step,
            ).references);
            assert(found@.diagnostics =~= old(found)@.diagnostics + before.followed_by(
                step,
            ).diagnostics);
        }
    }
}

/// Finds the references of the module `source`, which lies in `directory`.
/// Where the module could be parsed, these are the reference to its
/// `package.json`, where one was found, then the references that its syntax
/// shows, then those that its effects give once they are linked; a call that
/// cannot be analysed gives a warning and no reference. A module that could
/// not be parsed has no reference and no warning.
pub fn module_references(
    source: &AssetRef,
    directory: &String,
    package_json: &FindPackageJsonResult,
    parsed: &ParseResult,
) -> (found: ModuleReferences)
    ensures
        found@ == analysed(source@, directory@, *package_json, *parsed),
{
    let mut references: Vec<AssetReference> = Vec::new();
    match package_json {
        FindPackageJsonResult::Found(path) => {
            references.push(PackageJsonReferenceRef::new(path.clone()).into_reference());
        },
        FindPackageJsonResult::NotFound => {},
    }
    assert(reference_models(references@) =~= package_references(*package_json));
    match parsed {
        ParseResult::Parsed { module } => {
            let var_graph = create_graph(module);
            let mut visitor = AssetReferencesVisitor::new(source, references);
            visitor.visit_module(module);
            let mut found = ModuleReferences {
                references: AssetReferencesSet { references: visitor.into_references() },
                diagnostics: Vec::new(),
            };
            interpret(source, directory, &var_graph, &mut found);
            found
        },
        _ => {
            let found = ModuleReferences {
                references: AssetReferencesSet { references: Vec::new() },
                diagnostics: Vec::new(),
            };
            assert(found@.references =~= Seq::<Reference>::empty());
            assert(found@.diagnostics =~= Seq::<DiagnosticModel>::empty());
            found
        },
    }
}

} // verus!
