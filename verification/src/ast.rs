use vstd::prelude::*;

verus! {

/// The kinds of literal tokens the language has. The token text is kept
/// verbatim (floats included), so no numeric conversion happens here.
pub enum LitKind {
    Int,
    Float,
    Uri,
    Path,
    SearchPath,
}

/// Binary operators, each delegated to a named runtime primitive.
pub enum BinOpKind {
    Imply,
    Or,
    And,
    Equal,
    NotEqual,
    Less,
    Greater,
    LessEqual,
    GreaterEqual,
    Update,
    Concat,
    Add,
    Sub,
    Mul,
    Div,
}

/// Unary operators.
pub enum UnOpKind {
    Negate,
    Not,
}

/// One segment of a string, indented-string or interpolated-path literal:
/// either verbatim text or an interpolated expression.
pub enum StringPart {
    Lit(String),
    Interp(Box<Expr>),
}

/// One component of an attribute path: a static name, a string literal
/// (possibly interpolated), or a dynamic `${...}` expression.
pub enum Attr {
    Name(String),
    Str(Vec<StringPart>),
    Dynamic(Box<Expr>),
}

/// A binding inside an attribute set or a `let` block.
pub enum Binding {
    /// `path = value;` — the path has one or more components.
    AttrpathValue { path: Vec<Attr>, value: Box<Expr> },
    /// `inherit a b;` or `inherit (source) a b;`
    Inherit { from: Option<Box<Expr>>, attrs: Vec<Attr> },
}

/// One declared formal of an attribute-set pattern, with its optional
/// default expression.
pub struct PatField {
    pub name: String,
    pub default: Option<Box<Expr>>,
}

/// A lambda's parameter: one plain name, or an attribute-set pattern.
pub enum Param {
    Ident(String),
    /// `{ a, b ? d, ... } @ alias`
    Pattern { fields: Vec<PatField>, open: bool, alias: Option<String> },
}

/// An expression node. The variant set is closed; the dispatcher matches it
/// exhaustively, so a new variant is a compile-time-visible gap.
pub enum Expr {
    Apply { func: Box<Expr>, arg: Box<Expr> },
    Assert { cond: Box<Expr>, body: Box<Expr> },
    AttrSet { is_let: bool, is_rec: bool, bindings: Vec<Binding> },
    BinaryOp { op: BinOpKind, lhs: Box<Expr>, rhs: Box<Expr> },
    HasAttr { set: Box<Expr>, path: Vec<Attr> },
    IfThenElse { cond: Box<Expr>, then_body: Box<Expr>, else_body: Box<Expr> },
    IndentStr { parts: Vec<StringPart> },
    Lambda { param: Param, body: Box<Expr> },
    LetIn { bindings: Vec<Binding>, body: Box<Expr> },
    List { elements: Vec<Expr> },
    Literal { kind: LitKind, text: String },
    Paren { inner: Box<Expr> },
    PathInterp { parts: Vec<StringPart> },
    Ref { name: String },
    Select { set: Box<Expr>, path: Vec<Attr>, default: Option<Box<Expr>> },
    Str { parts: Vec<StringPart> },
    UnaryOp { op: UnOpKind, expr: Box<Expr> },
    With { env: Box<Expr>, body: Box<Expr> },
}

/// The fatal input errors: compilation aborts on these and hands back no
/// output at all, rather than emitting a best-effort approximation.
#[derive(Debug, PartialEq, Eq, Clone, Copy)]
pub enum Flaw {
    /// The legacy `let { ... }` attribute-set form is not supported.
    LetAttrSet,
    /// Only static names may stand inside `inherit`; a dynamic or string
    /// attribute there is rejected.
    InheritAttr,
    /// An attribute path at an assignment must have at least one component.
    EmptyAttrPath,
}

} // verus!
