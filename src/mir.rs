//! The body of an item as the dump sees it: blocks of statements, locals,
//! lexical scopes and debug-info records, each with its display text.
use vstd::prelude::*;
use crate::collect::ConstValue;

verus! {

/// Where a statement or declaration comes from: its lexical scope, and its
/// source location as text.
#[derive(Clone, Debug)]
pub struct SourceInfo {
    pub scope: usize,
    pub span: String,
}

/// Detail that the one-line form of a statement leaves out, found by walking
/// into it.
#[derive(Clone, Debug)]
pub enum Annotation {
    /// A constant operand: its span, its user type annotation, its literal.
    Constant { span: String, user_ty: Option<String>, literal: String },
    /// A type-level constant: its type and value.
    TyConst { ty: String, val: String },
    /// A closure being built: the closure item and its generic arguments.
    Closure { def_id: String, substs: String },
    /// A generator being built, with its movability.
    Generator { def_id: String, substs: String, movability: String },
    /// An ADT being built whose variant carries a user type annotation.
    Adt { user_ty: String },
}

/// A statement or terminator: its display text, its source, the detail found
/// inside it, and the constant values it mentions.
#[derive(Clone, Debug)]
pub struct Statement {
    pub text: String,
    pub source_info: SourceInfo,
    pub annotations: Vec<Annotation>,
    pub consts: Vec<ConstValue>,
}

#[derive(Clone, Debug)]
pub struct BasicBlockData {
    pub statements: Vec<Statement>,
    pub terminator: Statement,
    pub is_cleanup: bool,
}

#[derive(Clone, Debug)]
pub struct LocalDecl {
    pub mutable: bool,
    pub ty: String,
    pub source_info: SourceInfo,
    pub user_ty_projections: Vec<String>,
}

/// A user variable: its name, the place that holds it, and where it is declared.
#[derive(Clone, Debug)]
pub struct VarDebugInfo {
    pub name: String,
    pub place: String,
    pub source_info: SourceInfo,
}

/// The body of one item. Local 0 is the return place and locals `1..=arg_count`
/// are the arguments; `scope_parents[s]` is the parent of scope `s`.
#[derive(Clone, Debug)]
pub struct Body {
    pub basic_blocks: Vec<BasicBlockData>,
    pub local_decls: Vec<LocalDecl>,
    pub arg_count: usize,
    pub scope_parents: Vec<Option<usize>>,
    pub var_debug_info: Vec<VarDebugInfo>,
    pub yield_ty: Option<String>,
    pub user_type_annotations: Vec<UserTypeAnnotation>,
}

/// A user-written type annotation that the body refers to by index.
#[derive(Clone, Debug)]
pub struct UserTypeAnnotation {
    pub user_ty: String,
    pub span: String,
}

/// What kind of item a body belongs to, as far as its signature shows.
#[derive(Clone, Copy, Debug, PartialEq, Eq, Structural)]
pub enum ItemKind {
    /// A function, method, constructor or closure.
    Fn,
    Const,
    Static { mutable: bool },
    /// An anonymous constant, which is no item.
    AnonConst,
}

/// The item whose body is shown: its path, its kind, and the index of the
/// promoted constant shown instead of the item's own body, if any.
#[derive(Clone, Debug)]
pub struct MirSource {
    pub def_path: String,
    pub kind: ItemKind,
    pub promoted: Option<usize>,
}

impl Body {
    /// Scope 0 is the root and the only scope without a parent; every other
    /// scope's parent comes before it. There is a return place, and the
    /// arguments are locals.
    pub open spec fn wf(&self) -> bool {
        &&& self.scope_parents@.len() > 0
        &&& self.scope_parents@[0] is None
        &&& forall|s: int|
            0 < s < self.scope_parents@.len() ==> (#[trigger] self.scope_parents@[s] matches Some(
                p,
            ) && p < s)
        &&& self.local_decls@.len() > self.arg_count
        &&& self.basic_blocks@.len() < usize::MAX
        &&& forall|b: int|
            0 <= b < self.basic_blocks@.len() ==> (#[trigger] self.basic_blocks@[b]).statements@.len()
                < usize::MAX
    }
}

/// A point of the rendering where a caller may add text.
#[derive(Clone, Copy, Debug, PartialEq, Eq, Structural)]
pub enum PassWhere {
    BeforeCFG,
    AfterCFG,
    BeforeBlock(usize),
    /// Before the statement (or, at the statement count, the terminator) at
    /// (block, index).
    BeforeLocation(usize, usize),
    AfterLocation(usize, usize),
    AfterTerminator(usize),
}

/// Extra text that a pass adds to the dump at each point of the rendering,
/// such as the dataflow facts it computed.
pub trait PassHook {
    spec fn text_at(&self, at: PassWhere) -> Seq<char>;

    fn extra_text(&self, at: PassWhere) -> (r: String)
        ensures
            r@ == self.text_at(at),
    ;
}

/// A hook that adds nothing.
pub struct NoExtra;

impl PassHook for NoExtra {
    open spec fn text_at(&self, at: PassWhere) -> Seq<char> {
        seq![]
    }

    fn extra_text(&self, at: PassWhere) -> (r: String) {
        String::new()
    }
}

} // verus!
