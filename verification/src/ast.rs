//! The syntax of a script module, as far as the analysis reads it.

use swc_common::Span;
use vstd::prelude::*;
use crate::analyzer::ConstantValue;
use crate::text::text_is;

verus! {

/// An identifier. `binding` names the declaration that it refers to, by an
/// identifier that is unique in the module; it is `None` where no declaration
/// of the module binds the name.
#[derive(Debug, PartialEq, Eq)]
pub struct Ident {
    pub sym: String,
    pub binding: Option<u64>,
}

impl Clone for Ident {
    fn clone(&self) -> (copy: Self)
        ensures
            copy == *self,
    {
        Ident { sym: self.sym.clone(), binding: self.binding }
    }
}

/// The property of a member expression.
#[derive(Debug, PartialEq, Eq)]
pub enum MemberProp {
    /// `.name`
    Ident(String),
    /// `.#name`
    PrivateName(String),
    /// `[expr]`
    Computed(Box<Expr>),
}

/// An argument of a call or an element of an array.
#[derive(Debug, PartialEq, Eq)]
pub struct ExprOrSpread {
    /// Whether the expression is spread (`...expr`).
    pub spread: bool,
    pub expr: Expr,
}

/// What is called.
#[derive(Debug, PartialEq, Eq)]
pub enum Callee {
    /// `super(...)`
    Super,
    /// `import(...)`
    Import,
    /// Any other expression.
    Expr(Box<Expr>),
}

/// One property of an object pattern. `key` is `None` where the key is not
/// known statically.
#[derive(Debug, PartialEq, Eq)]
pub struct ObjectPatProp {
    pub key: Option<String>,
    pub value: Pat,
}

/// The target of a declaration or of an assignment.
#[derive(Debug, PartialEq, Eq)]
pub enum Pat {
    /// A name.
    Ident(Ident),
    /// `{ key: target, ... }`
    Object(Vec<ObjectPatProp>),
    /// Any other target.
    Other,
}

/// The parameters and the body of a function.
#[derive(Debug, PartialEq, Eq)]
pub struct Function {
    pub params: Vec<Pat>,
    pub body: Vec<Stmt>,
}

/// An expression.
#[derive(Debug, PartialEq, Eq)]
pub enum Expr {
    /// A literal.
    Lit(ConstantValue),
    /// A name.
    Ident(Ident),
    /// `obj.prop` or `obj[prop]`
    Member { obj: Box<Expr>, prop: MemberProp },
    /// `callee(args)`
    Call { callee: Callee, args: Vec<ExprOrSpread>, span: Span },
    /// `[elems]`, with `None` for a hole.
    Array(Vec<Option<ExprOrSpread>>),
    /// `left + right`
    Add(Box<Expr>, Box<Expr>),
    /// A template: `quasis.len()` is `exprs.len() + 1`, and the parts
    /// alternate, a quasi first.
    Tpl { quasis: Vec<String>, exprs: Vec<Expr> },
    /// `test ? cons : alt`
    Cond { test: Box<Expr>, cons: Box<Expr>, alt: Box<Expr> },
    /// `target = value`
    Assign { target: Pat, value: Box<Expr> },
    /// A function or arrow expression.
    Function(Function),
    /// Any other expression, with the expressions directly below it, in the
    /// order of the source.
    Other(Vec<Expr>),
}

/// One declarator of a variable declaration.
#[derive(Debug, PartialEq, Eq)]
pub struct VarDeclarator {
    pub name: Pat,
    pub init: Option<Expr>,
}

/// One specifier of an import declaration.
#[derive(Debug, PartialEq, Eq)]
pub enum ImportSpecifier {
    /// `import { imported as local }`; `imported` is `None` for
    /// `import { local }`.
    Named { local: Ident, imported: Option<String>, is_type_only: bool },
    /// `import local`
    Default { local: Ident },
    /// `import * as local`
    Namespace { local: Ident },
}

/// `import specifiers from "src"`
#[derive(Debug, PartialEq, Eq)]
pub struct ImportDecl {
    pub src: String,
    pub type_only: bool,
    pub specifiers: Vec<ImportSpecifier>,
}

/// A statement or a module item.
#[derive(Debug, PartialEq, Eq)]
#[allow(inconsistent_fields)]
pub enum Stmt {
    /// An import declaration.
    Import(ImportDecl),
    /// `export * from "src"`
    ExportAll { src: String },
    /// `export { ... }`, with `src` where it is `export { ... } from "src"`.
    NamedExport { src: Option<String> },
    /// A variable declaration.
    Var(Vec<VarDeclarator>),
    /// An expression statement.
    Expr(Expr),
    /// A function declaration.
    Function { ident: Ident, function: Function },
    /// Any other statement, with the statements directly below it (an
    /// expression as an expression statement), in the order of the source.
    Block(Vec<Stmt>),
}

/// A parsed module.
#[derive(Debug, PartialEq, Eq)]
pub struct Module {
    pub body: Vec<Stmt>,
}

/// The request of a declarator of the form
/// `__webpack_require__ = require("request")`.
pub open spec fn runtime_request(declarator: VarDeclarator) -> Option<Seq<char>> {
    match (declarator.name, declarator.init) {
        (Pat::Ident(name), Some(Expr::Call { callee: Callee::Expr(function), args, span })) => {
            match *function {
                Expr::Ident(required) => if name.sym@ == "__webpack_require__"@ && required.sym@
                    == "require"@ && args.len() == 1 && !args[0].spread {
                    match args[0].expr {
                        Expr::Lit(ConstantValue::Str(request)) => Some(request@),
                        _ => None,
                    }
                } else {
                    None
                },
                _ => None,
            }
        },
        _ => None,
    }
}

/// The request of a declarator of the form
/// `__webpack_require__ = require("request")`.
pub fn requested_runtime(decl: &VarDeclarator) -> (request: Option<&String>)
    ensures
        match request {
            Some(request) => runtime_request(*decl) == Some(request@),
            None => runtime_request(*decl) is None,
        },
{
    let name = match &decl.name {
        Pat::Ident(name) => name,
        _ => {
            return None;
        },
    };
    let (function, args) = match &decl.init {
        Some(Expr::Call { callee: Callee::Expr(function), args, span }) => (function, args),
        _ => {
            return None;
        },
    };
    let required = match &**function {
        Expr::Ident(required) => required,
        _ => {
            return None;
        },
    };
    if text_is(&name.sym, "__webpack_require__") && text_is(&required.sym, "require")
        && args.len() == 1 && !args[0].spread {
        match &args[0].expr {
            Expr::Lit(ConstantValue::Str(request)) => Some(request),
            _ => None,
        }
    } else {
        None
    }
}

} // verus!
