//! The syntax model the pass works on: the statement, expression,
//! pattern and module-item shapes of a parsed JavaScript/TypeScript
//! module, reduced to what directive recognition, capture analysis and
//! hoisting read or build. Node kinds the pass never inspects are
//! carried as opaque variants with their traversable children.

use vstd::prelude::*;

verus! {

/// A source position, used only to attach diagnostics and keep the
/// positions of rewritten nodes; `DUMMY_SP` marks synthesised nodes.
pub type Span = u32;

pub const DUMMY_SP: Span = 0;

/// An identifier: its text and a hygiene context distinguishing two
/// identifiers that share a symbol.
#[derive(Debug, PartialEq, Eq)]
pub struct Ident {
    pub sym: String,
    pub span: Span,
    pub ctxt: u32,
}

impl Clone for Ident {
    fn clone(&self) -> (r: Self)
        ensures
            r == *self,
    {
        Ident { sym: self.sym.clone(), span: self.span, ctxt: self.ctxt }
    }
}

/// A string literal with its position.
#[derive(Debug, PartialEq, Eq)]
pub struct StrLit {
    pub value: String,
    pub span: Span,
}

impl Clone for StrLit {
    fn clone(&self) -> (r: Self)
        ensures
            r == *self,
    {
        StrLit { value: self.value.clone(), span: self.span }
    }
}

/// A literal expression: a string, or any other literal kind.
#[derive(Debug, PartialEq, Eq)]
pub enum Lit {
    Str(StrLit),
    Other { span: Span },
}

/// The property of a member access: a plain name, or a computed or
/// private one the pass refuses to canonicalise.
#[derive(Debug, PartialEq, Eq)]
pub enum MemberProp {
    Ident(String),
    Other,
}

/// `obj.prop` (or the member step of an optional chain).
#[derive(Debug, PartialEq, Eq)]
pub struct MemberExpr {
    pub span: Span,
    pub obj: Box<Expr>,
    pub prop: MemberProp,
}

/// The base of an optional chain: a member step or a call step.
#[derive(Debug, PartialEq, Eq)]
pub enum OptChainBase {
    Member(MemberExpr),
    Call { span: Span, callee: Box<Expr>, args: Vec<ExprOrSpread> },
}

/// `obj?.prop` and friends.
#[derive(Debug, PartialEq, Eq)]
pub struct OptChainExpr {
    pub span: Span,
    pub optional: bool,
    pub base: Box<OptChainBase>,
}

/// The callee slot of a call: an expression, or `super`/`import`.
#[derive(Debug, PartialEq, Eq)]
pub enum Callee {
    Expr(Box<Expr>),
    Other,
}

/// An argument, possibly spread.
#[derive(Debug, PartialEq, Eq)]
pub struct ExprOrSpread {
    pub spread: bool,
    pub expr: Expr,
}

/// `callee(args)`; `pure` marks a `#__PURE__` annotation on the call.
#[derive(Debug, PartialEq, Eq)]
pub struct CallExpr {
    pub span: Span,
    pub callee: Callee,
    pub args: Vec<ExprOrSpread>,
    pub pure: bool,
}

/// A property key: a plain name, or a computed/numeric one.
#[derive(Debug, PartialEq, Eq)]
pub enum PropName {
    Ident(String),
    Other,
}

/// An object-literal property.
#[derive(Debug, PartialEq, Eq)]
pub enum Prop {
    /// `{ x }`
    Shorthand(Ident),
    /// `{ key: value }`
    KeyValue { key: PropName, value: Expr },
    /// `{ key() { ... } }`
    Method { key: PropName, function: Function },
    /// Getters, setters, and the rest.
    Other,
}

/// An object-literal member: a property or a spread.
#[derive(Debug, PartialEq, Eq)]
pub enum PropOrSpread {
    Prop(Prop),
    Spread(Expr),
}

/// A function body or, for arrows, a bare expression.
#[derive(Debug, PartialEq, Eq)]
pub enum BlockStmtOrExpr {
    Block(BlockStmt),
    Expr(Expr),
}

/// A function (declaration body, expression body, or method body).
#[derive(Debug, PartialEq, Eq)]
pub struct Function {
    pub span: Span,
    pub params: Vec<Pat>,
    pub body: Option<BlockStmt>,
    pub is_async: bool,
}

/// A possibly named function expression.
#[derive(Debug, PartialEq, Eq)]
pub struct FnExpr {
    pub ident: Option<Ident>,
    pub function: Function,
}

/// An arrow function.
#[derive(Debug, PartialEq, Eq)]
pub struct ArrowExpr {
    pub span: Span,
    pub params: Vec<Pat>,
    pub body: Box<BlockStmtOrExpr>,
    pub is_async: bool,
}

/// An expression. `Other` carries any remaining kind abstractly,
/// keeping its traversable children.
#[derive(Debug, PartialEq, Eq)]
pub enum Expr {
    Id(Ident),
    Lit(Lit),
    Array { span: Span, elems: Vec<Option<ExprOrSpread>> },
    Object { span: Span, props: Vec<PropOrSpread> },
    Fn(FnExpr),
    Arrow(ArrowExpr),
    Member(MemberExpr),
    OptChain(OptChainExpr),
    Call(CallExpr),
    Paren { span: Span, expr: Box<Expr> },
    Await { span: Span, arg: Box<Expr> },
    Assign { span: Span, left: Ident, right: Box<Expr> },
    Null { span: Span },
    Undefined { span: Span },
    Other { span: Span, children: Vec<Expr> },
}

/// A binding pattern.
#[derive(Debug, PartialEq, Eq)]
pub enum Pat {
    Id(Ident),
    Array { elems: Vec<Option<Pat>> },
    Object { props: Vec<ObjectPatProp> },
    Assign { left: Box<Pat>, right: Box<Expr> },
    Rest { arg: Box<Pat> },
    Expr(Box<Expr>),
    Invalid,
}

/// A member of an object pattern.
#[derive(Debug, PartialEq, Eq)]
pub enum ObjectPatProp {
    KeyValue { key: PropName, value: Box<Pat> },
    Assign { key: Ident, value: Option<Box<Expr>> },
    Rest { arg: Box<Pat> },
}

/// `var`/`let`/`const`.
#[derive(Debug, PartialEq, Eq, Clone, Copy)]
pub enum VarDeclKind {
    Var,
    Let,
    Const,
}

/// One declarator of a variable declaration.
#[derive(Debug, PartialEq, Eq)]
pub struct VarDeclarator {
    pub span: Span,
    pub name: Pat,
    pub init: Option<Expr>,
}

/// A variable declaration.
#[derive(Debug, PartialEq, Eq)]
pub struct VarDecl {
    pub span: Span,
    pub kind: VarDeclKind,
    pub decls: Vec<VarDeclarator>,
}

/// A function declaration.
#[derive(Debug, PartialEq, Eq)]
pub struct FnDecl {
    pub ident: Ident,
    pub function: Function,
}

/// A member of a class body; only methods are traversed.
#[derive(Debug, PartialEq, Eq)]
pub enum ClassMember {
    Method { key: PropName, function: Function },
    Other,
}

/// A class declaration, reduced to its traversable methods.
#[derive(Debug, PartialEq, Eq)]
pub struct ClassDecl {
    pub span: Span,
    pub ident: Ident,
    pub members: Vec<ClassMember>,
}

/// A declaration.
#[derive(Debug, PartialEq, Eq)]
pub enum Decl {
    Fn(FnDecl),
    Var(VarDecl),
    Class(ClassDecl),
    Other { span: Span },
}

/// A block of statements.
#[derive(Debug, PartialEq, Eq)]
pub struct BlockStmt {
    pub span: Span,
    pub stmts: Vec<Stmt>,
}

/// A statement. `Other` carries any remaining kind abstractly, keeping
/// its traversable children.
#[derive(Debug, PartialEq, Eq)]
pub enum Stmt {
    Expr { span: Span, expr: Expr },
    Decl(Decl),
    Return { span: Span, arg: Option<Expr> },
    Block(BlockStmt),
    Other { span: Span, exprs: Vec<Expr>, stmts: Vec<Stmt> },
}

/// The name under which something is exported or imported.
#[derive(Debug, PartialEq, Eq)]
pub enum ModuleExportName {
    Ident(Ident),
    Str(StrLit),
}

/// One specifier of a named export.
#[derive(Debug, PartialEq, Eq)]
pub enum ExportSpecifier {
    Named { orig: ModuleExportName, exported: Option<ModuleExportName> },
    Other,
}

/// One specifier of an import declaration.
#[derive(Debug, PartialEq, Eq)]
pub enum ImportSpecifier {
    Named { local: Ident, imported: Option<ModuleExportName> },
    Other,
}

/// An import declaration.
#[derive(Debug, PartialEq, Eq)]
pub struct ImportDecl {
    pub span: Span,
    pub specifiers: Vec<ImportSpecifier>,
    pub src: StrLit,
}

/// The declaration of a default export.
#[derive(Debug, PartialEq, Eq)]
pub enum DefaultDecl {
    Fn(FnExpr),
    Other { span: Span },
}

/// A top-level item of a module.
#[derive(Debug, PartialEq, Eq)]
pub enum ModuleItem {
    Stmt(Stmt),
    Import(ImportDecl),
    ExportDecl { span: Span, decl: Decl },
    ExportNamed { span: Span, specifiers: Vec<ExportSpecifier>, src: Option<StrLit> },
    ExportDefaultDecl { span: Span, decl: DefaultDecl },
    ExportDefaultExpr { span: Span, expr: Expr },
    ExportAll { span: Span, src: StrLit },
}

/// A whole module: its starting position and its items.
#[derive(Debug, PartialEq, Eq)]
pub struct Module {
    pub span: Span,
    pub items: Vec<ModuleItem>,
}

impl Clone for MemberProp {
    fn clone(&self) -> (r: Self)
        ensures
            r == *self,
    {
        match self {
            MemberProp::Ident(s) => MemberProp::Ident(s.clone()),
            MemberProp::Other => MemberProp::Other,
        }
    }
}

impl Clone for PropName {
    fn clone(&self) -> (r: Self)
        ensures
            r == *self,
    {
        match self {
            PropName::Ident(s) => PropName::Ident(s.clone()),
            PropName::Other => PropName::Other,
        }
    }
}

impl Clone for Lit {
    fn clone(&self) -> (r: Self)
        ensures
            r == *self,
    {
        match self {
            Lit::Str(s) => Lit::Str(s.clone()),
            Lit::Other { span } => Lit::Other { span: *span },
        }
    }
}

/// Clones an optional identifier, keeping its value.
pub fn clone_opt_ident(o: &Option<Ident>) -> (r: Option<Ident>)
    ensures
        r == *o,
{
    match o {
        Some(i) => Some(i.clone()),
        None => None,
    }
}

} // verus!
