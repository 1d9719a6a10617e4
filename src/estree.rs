//! The parts of the syntax tree that the middle end annotates: source
//! locations, identifiers and the variable locations bound to them.
use vstd::prelude::*;

verus! {

/// A line and column in the source.
#[derive(Clone, Copy, PartialEq, Eq, Structural, Debug)]
pub struct Position {
    pub line: usize,
    pub column: usize,
}

/// A span of source text, with the file it comes from when known.
#[derive(Clone, Debug)]
pub struct SourceLocation {
    pub source: Option<String>,
    pub start: Position,
    pub end: Position,
}

/// Where a variable lives: the function nesting depth of its scope (0 for
/// globals) and its index within that scope.
#[derive(Clone, Copy, PartialEq, Eq, Structural, Debug, Hash)]
pub struct VarLocId {
    pub depth: usize,
    pub index: usize,
}

impl VarLocId {
    /// The lexicographic order on (depth, index).
    pub open spec fn spec_lt(self, other: VarLocId) -> bool {
        self.depth < other.depth || (self.depth == other.depth && self.index < other.index)
    }

    pub fn lt(&self, other: &VarLocId) -> (r: bool)
        ensures
            r == self.spec_lt(*other),
    {
        self.depth < other.depth || (self.depth == other.depth && self.index < other.index)
    }
}

/// What resolution attaches to an identifier: the variable a use is bound
/// to, or `Direct` at a declaration site already understood.
#[derive(Clone, Copy, PartialEq, Eq, Structural, Debug, Hash)]
pub enum PreVar {
    Target(VarLocId),
    Direct,
}

/// An identifier with its resolution, if any yet.
#[derive(Clone, Debug)]
pub struct Identifier {
    pub name: String,
    pub prevar: Option<PreVar>,
}

/// A node of the tree: its location in the source, if known, and what it is.
pub struct Node {
    pub loc: Option<SourceLocation>,
    pub kind: NodeKind,
}

pub enum NodeKind {
    Identifier(Identifier),
    Literal(Literal),
    Program(Program),
    Directive(Directive),
    ExpressionStatement(ExpressionStatement),
    BlockStatement(BlockStatement),
    EmptyStatement(EmptyStatement),
    DebuggerStatement(DebuggerStatement),
    WithStatement(WithStatement),
    ReturnStatement(ReturnStatement),
    LabeledStatement(LabeledStatement),
    BreakStatement(BreakStatement),
    ContinueStatement(ContinueStatement),
    IfStatement(IfStatement),
    FunctionDeclaration(FunctionDeclaration),
    VariableDeclaration(VariableDeclaration),
    VariableDeclarator(VariableDeclarator),
    FunctionExpression(FunctionExpression),
    ArrowFunctionExpression(ArrowFunctionExpression),
    UnaryExpression(UnaryExpression),
    UpdateExpression(UpdateExpression),
    BinaryExpression(BinaryExpression),
    AssignmentExpression(AssignmentExpression),
    LogicalExpression(LogicalExpression),
    ConditionalExpression(ConditionalExpression),
    CallExpression(CallExpression),
    ImportDeclaration(ImportDeclaration),
    ImportSpecifier(ImportSpecifier),
    ImportDefaultSpecifier(ImportDefaultSpecifier),
    ImportNamespaceSpecifier(ImportNamespaceSpecifier),
}

pub struct Literal {
    pub value: LiteralValue,
}

/// The value of a literal; a number is held by the bits of its IEEE-754
/// double.
pub enum LiteralValue {
    String(String),
    Boolean(bool),
    Null,
    Number(u64),
    RegExp,
    Undefined,
}

pub struct Program {
    pub body: Vec<Node>,
}

pub struct Directive {
    pub expression: Box<Node>,
    pub directive: String,
}

pub struct ExpressionStatement {
    pub expression: Box<Node>,
}

/// A block, which is also the body of a function.
pub struct BlockStatement {
    pub body: Vec<Node>,
    /// Indices of the variables of this scope that nested functions use.
    pub address_taken_vars: Vec<usize>,
}

pub type FunctionBody = BlockStatement;

#[derive(Clone, Copy, PartialEq, Eq, Structural, Debug)]
pub struct EmptyStatement {}

#[derive(Clone, Copy, PartialEq, Eq, Structural, Debug)]
pub struct DebuggerStatement {}

pub struct WithStatement {
    pub object: Box<Node>,
    pub body: Box<Node>,
}

pub struct ReturnStatement {
    pub argument: Option<Box<Node>>,
}

pub struct LabeledStatement {
    pub label: Box<Node>,
    pub body: Box<Node>,
}

pub struct BreakStatement {
    pub label: Option<Box<Node>>,
}

pub struct ContinueStatement {
    pub label: Option<Box<Node>>,
}

pub struct IfStatement {
    pub test: Box<Node>,
    pub consequent: Box<Node>,
    pub alternate: Option<Box<Node>>,
}

pub struct FunctionDeclaration {
    pub id: Box<Node>,
    pub params: Vec<Node>,
    pub body: Box<Node>,
    pub address_taken_vars: Vec<usize>,
    pub captured_vars: Vec<VarLocId>,
}

pub struct VariableDeclaration {
    pub kind: String,
    pub declarations: Vec<Node>,
}

pub struct VariableDeclarator {
    pub id: Box<Node>,
    pub init: Option<Box<Node>>,
}

/// A classic function expression, treated as an arrow function with a
/// block body.
pub struct FunctionExpression {
    pub params: Vec<Node>,
    pub body: Box<Node>,
    pub address_taken_vars: Vec<usize>,
    pub captured_vars: Vec<VarLocId>,
}

pub struct ArrowFunctionExpression {
    pub params: Vec<Node>,
    pub body: Box<Node>,
    pub expression: bool,
    pub address_taken_vars: Vec<usize>,
    pub captured_vars: Vec<VarLocId>,
}

pub struct UnaryExpression {
    pub operator: String,
    pub prefix: bool,
    pub argument: Box<Node>,
}

pub struct UpdateExpression {
    pub operator: String,
    pub prefix: bool,
    pub argument: Box<Node>,
}

pub struct BinaryExpression {
    pub operator: String,
    pub left: Box<Node>,
    pub right: Box<Node>,
}

pub struct AssignmentExpression {
    pub operator: String,
    pub left: Box<Node>,
    pub right: Box<Node>,
}

pub struct LogicalExpression {
    pub operator: String,
    pub left: Box<Node>,
    pub right: Box<Node>,
}

pub struct ConditionalExpression {
    pub test: Box<Node>,
    pub consequent: Box<Node>,
    pub alternate: Box<Node>,
}

pub struct CallExpression {
    pub callee: Box<Node>,
    pub arguments: Vec<Node>,
}

pub struct ImportDeclaration {
    pub specifiers: Vec<Node>,
    pub source: Box<Node>,
}

pub struct ImportSpecifier {
    pub local: Box<Node>,
    pub source: Box<Node>,
}

pub struct ImportDefaultSpecifier {
    pub local: Box<Node>,
}

pub struct ImportNamespaceSpecifier {
    pub local: Box<Node>,
}

/// The bits of a number literal node.
pub open spec fn number_literal(n: Node) -> Option<u64> {
    match n.kind {
        NodeKind::Literal(l) => match l.value {
            LiteralValue::Number(b) => Some(b),
            _ => None,
        },
        _ => None,
    }
}

/// A statement of the constant fragment: a number literal as an expression
/// statement, or returned.
pub open spec fn const_stmt(n: Node) -> bool {
    match n.kind {
        NodeKind::ExpressionStatement(e) => number_literal(*e.expression) is Some,
        NodeKind::ReturnStatement(r) => match r.argument {
            Some(a) => number_literal(*a) is Some,
            None => false,
        },
        _ => false,
    }
}

/// Every statement of `s` is in the constant fragment.
pub open spec fn const_list(s: Seq<Node>) -> bool {
    forall|j: int| 0 <= j < s.len() ==> const_stmt(#[trigger] s[j])
}

/// A function-like node: it has parameters and a body, and captures
/// variables of enclosing functions.
pub trait Function: Sized {
    spec fn spec_params(&self) -> Seq<Node>;

    spec fn spec_captured(&self) -> Seq<VarLocId>;

    /// Takes the node apart into its parameters and its body.
    fn destructure_params_body(self) -> (r: (Vec<Node>, Box<Node>))
        ensures
            r.0@ == self.spec_params(),
    ;

    /// The parameters, and the body for update.
    fn params_body_mut(&mut self) -> (r: (&[Node], &mut Node))
        ensures
            r.0@ == old(self).spec_params(),
            final(self).spec_params() == old(self).spec_params(),
    ;

    /// The captured variables, except globals, for update.
    fn captured_vars_mut(&mut self) -> (r: &mut Vec<VarLocId>)
        ensures
            r@ == old(self).spec_captured(),
            final(self).spec_captured() == final(r)@,
            final(self).spec_params() == old(self).spec_params(),
    ;
}

impl Function for FunctionDeclaration {
    open spec fn spec_params(&self) -> Seq<Node> {
        self.params@
    }

    open spec fn spec_captured(&self) -> Seq<VarLocId> {
        self.captured_vars@
    }

    fn destructure_params_body(self) -> (r: (Vec<Node>, Box<Node>)) {
        (self.params, self.body)
    }

    fn params_body_mut(&mut self) -> (r: (&[Node], &mut Node)) {
        (self.params.as_slice(), &mut *self.body)
    }

    fn captured_vars_mut(&mut self) -> (r: &mut Vec<VarLocId>) {
        &mut self.captured_vars
    }
}

impl Function for ArrowFunctionExpression {
    open spec fn spec_params(&self) -> Seq<Node> {
        self.params@
    }

    open spec fn spec_captured(&self) -> Seq<VarLocId> {
        self.captured_vars@
    }

    fn destructure_params_body(self) -> (r: (Vec<Node>, Box<Node>)) {
        (self.params, self.body)
    }

    fn params_body_mut(&mut self) -> (r: (&[Node], &mut Node)) {
        (self.params.as_slice(), &mut *self.body)
    }

    fn captured_vars_mut(&mut self) -> (r: &mut Vec<VarLocId>) {
        &mut self.captured_vars
    }
}

impl Function for FunctionExpression {
    open spec fn spec_params(&self) -> Seq<Node> {
        self.params@
    }

    open spec fn spec_captured(&self) -> Seq<VarLocId> {
        self.captured_vars@
    }

    fn destructure_params_body(self) -> (r: (Vec<Node>, Box<Node>)) {
        (self.params, self.body)
    }

    fn params_body_mut(&mut self) -> (r: (&[Node], &mut Node)) {
        (self.params.as_slice(), &mut *self.body)
    }

    fn captured_vars_mut(&mut self) -> (r: &mut Vec<VarLocId>) {
        &mut self.captured_vars
    }
}

/// A scope-like node: it records which of its variables nested functions
/// use.
pub trait Scope {
    spec fn spec_address_taken(&self) -> Seq<usize>;

    fn address_taken_vars_mut(&mut self) -> (r: &mut Vec<usize>)
        ensures
            r@ == old(self).spec_address_taken(),
            final(self).spec_address_taken() == final(r)@,
    ;
}

impl Scope for BlockStatement {
    open spec fn spec_address_taken(&self) -> Seq<usize> {
        self.address_taken_vars@
    }

    fn address_taken_vars_mut(&mut self) -> (r: &mut Vec<usize>) {
        &mut self.address_taken_vars
    }
}

impl Scope for FunctionDeclaration {
    open spec fn spec_address_taken(&self) -> Seq<usize> {
        self.address_taken_vars@
    }

    fn address_taken_vars_mut(&mut self) -> (r: &mut Vec<usize>) {
        &mut self.address_taken_vars
    }
}

impl Scope for ArrowFunctionExpression {
    open spec fn spec_address_taken(&self) -> Seq<usize> {
        self.address_taken_vars@
    }

    fn address_taken_vars_mut(&mut self) -> (r: &mut Vec<usize>) {
        &mut self.address_taken_vars
    }
}

impl Scope for FunctionExpression {
    open spec fn spec_address_taken(&self) -> Seq<usize> {
        self.address_taken_vars@
    }

    fn address_taken_vars_mut(&mut self) -> (r: &mut Vec<usize>) {
        &mut self.address_taken_vars
    }
}

} // verus!
