//! The compiled form of a template body: segments, expressions and
//! conditions, and the static analysis over them.
pub mod analysis;
pub mod condition;

use vstd::prelude::*;

use crate::value::Value;

verus! {

// ---------------------------------------------------------------------------
// Sets of names (hashbrown)
// ---------------------------------------------------------------------------
/// A set of names, held in a `hashbrown::HashSet`.
#[verifier::external_body]
#[derive(Debug)]
pub struct NameSet {
    inner: hashbrown::HashSet<String>,
}

/// The names in a [`NameSet`].
pub uninterp spec fn name_set_contents(s: NameSet) -> Set<Seq<char>>;

impl View for NameSet {
    type V = Set<Seq<char>>;

    open spec fn view(&self) -> Set<Seq<char>> {
        name_set_contents(*self)
    }
}

/// The set without names.
pub open spec fn no_names() -> Set<Seq<char>> {
    Set::empty()
}

/// Each name occurs once in `names`, and the names are exactly those of `s`.
pub open spec fn lists_names(s: Set<Seq<char>>, names: Seq<&String>) -> bool {
    &&& s.finite()
    &&& names.len() == s.len()
    &&& forall|i: int| 0 <= i < names.len() ==> s.contains(#[trigger] names[i]@)
    &&& forall|i: int, j: int| 0 <= i < j < names.len() ==> #[trigger] names[i]@ != #[trigger] names[j]@
    &&& forall|k: Seq<char>| s.contains(k) ==> exists|i: int| 0 <= i < names.len() && #[trigger] names[i]@ == k
}

impl NameSet {
    /// An empty set (`hashbrown::HashSet::new`).
    #[verifier::external_body]
    pub fn new() -> (r: NameSet)
        ensures
            r@ == no_names(),
    {
        NameSet { inner: hashbrown::HashSet::new() }
    }

    /// Adds a name; true when it was not in the set before
    /// (`hashbrown::HashSet::insert`).
    #[verifier::external_body]
    pub fn insert(&mut self, name: String) -> (r: bool)
        ensures
            name_set_contents(*final(self)) == name_set_contents(*old(self)).insert(name@),
            r == !name_set_contents(*old(self)).contains(name@),
    {
        self.inner.insert(name)
    }

    /// Removes a name; true when it was in the set
    /// (`hashbrown::HashSet::remove`).
    #[verifier::external_body]
    pub fn remove(&mut self, name: &str) -> (r: bool)
        ensures
            name_set_contents(*final(self)) == name_set_contents(*old(self)).remove(name@),
            r == name_set_contents(*old(self)).contains(name@),
    {
        self.inner.remove(name)
    }

    /// Whether the set holds `name` (`hashbrown::HashSet::contains`).
    #[verifier::external_body]
    pub fn contains(&self, name: &str) -> (r: bool)
        ensures
            r == name_set_contents(*self).contains(name@),
    {
        self.inner.contains(name)
    }

    /// The number of names (`hashbrown::HashSet::len`).
    #[verifier::external_body]
    pub fn len(&self) -> (r: usize)
        ensures
            r == name_set_contents(*self).len(),
    {
        self.inner.len()
    }

    /// The names, in no particular order (`hashbrown::HashSet::iter`).
    #[verifier::external_body]
    pub fn names(&self) -> (r: Vec<&String>)
        ensures
            lists_names(name_set_contents(*self), r@),
    {
        self.inner.iter().collect()
    }

    /// A copy of the set (`hashbrown::HashSet::clone`).
    #[verifier::external_body]
    pub(crate) fn duplicate(&self) -> (r: NameSet)
        ensures
            name_set_contents(r) == name_set_contents(*self),
    {
        NameSet { inner: self.inner.clone() }
    }
}

// ---------------------------------------------------------------------------
// Expressions and conditions
// ---------------------------------------------------------------------------
/// A comparison operator of a condition.
#[derive(Debug, Clone, Copy, PartialEq, Eq)]
pub enum ComparisonOp {
    Eq,
    Ne,
    Le,
    Ge,
    Lt,
    Gt,
    In,
}

/// A dotted path `a.b.c`, split at the dots; it has at least one part.
#[derive(Debug)]
pub struct CompiledPath {
    parts: Vec<String>,
}

impl CompiledPath {
    #[verifier::type_invariant]
    spec fn has_parts(self) -> bool {
        self.parts@.len() > 0
    }

    /// The parts of the path.
    pub closed spec fn parts_view(self) -> Seq<Seq<char>> {
        self.parts@.map_values(|p: String| p@)
    }

    /// The path with the given parts.
    pub fn from_parts(parts: Vec<String>) -> (r: Option<CompiledPath>)
        ensures
            match r {
                Some(p) => p.parts_view() == parts@.map_values(|s: String| s@),
                None => parts@.len() == 0,
            },
    {
        if parts.len() == 0 {
            None
        } else {
            Some(CompiledPath { parts })
        }
    }

    /// The path with the given (at least one) parts.
    pub fn new(parts: Vec<String>) -> (r: CompiledPath)
        requires
            parts@.len() > 0,
        ensures
            r.parts_view() == parts@.map_values(|s: String| s@),
    {
        CompiledPath { parts }
    }

    /// The parts of the path.
    pub fn parts(&self) -> (r: &[String])
        ensures
            r@.map_values(|s: String| s@) == self.parts_view(),
            r@.len() > 0,
    {
        proof {
            use_type_invariant(self);
        }
        self.parts.as_slice()
    }
}

/// A compiled `{{ expr }}` expression.
#[derive(Debug)]
pub enum CompiledExpr {
    Path(CompiledPath),
    Len(CompiledPath),
    Kind(CompiledPath),
    Kinds(CompiledPath),
    Has(CompiledPath),
    /// `idx(binding)`: the position in a loop.
    Idx(String),
}

/// An operand of a condition.
#[derive(Debug)]
pub enum ConditionOperand {
    Literal(Value),
    Idx(String),
    /// A quoted string with `{{ expr }}` parts.
    InterpolatedStr(Vec<Segment>),
    Path { path: CompiledPath },
    Len(CompiledPath),
    Kind(CompiledPath),
    Kinds(CompiledPath),
    Has(CompiledPath),
}

/// A parsed condition.
#[derive(Debug)]
pub enum Condition {
    Truthy(ConditionOperand),
    Not(Box<Condition>),
    Comparison { left: ConditionOperand, op: ComparisonOp, right: ConditionOperand },
    And(Box<Condition>, Box<Condition>),
    Or(Box<Condition>, Box<Condition>),
    /// `match expr case A | B`.
    MatchVariant { expr: CompiledPath, variants: Vec<String>, is_option: bool },
}

// ---------------------------------------------------------------------------
// Segments
// ---------------------------------------------------------------------------
/// An `{% include %}` directive.
#[derive(Debug)]
pub struct IncludeDirective {
    /// The target: a file path, an inline template name, or text with
    /// `{{ expr }}` parts.
    pub path: String,
    /// `with name = value` pairs (values as written).
    pub with_vars: Vec<(String, String)>,
    /// `for binding in list` (binding and list expression as written).
    pub for_each: Option<(String, String)>,
}

/// One arm of a `{% match %}` block.
#[derive(Debug)]
pub struct MatchArm {
    /// The variant labels as written.
    pub variants: Vec<String>,
    /// An optional guard condition.
    pub guard: Option<Condition>,
    pub body: Vec<Segment>,
}

/// A piece of a compiled template body.
#[derive(Debug)]
pub enum Segment {
    Static(String),
    Raw(String),
    /// A comment, with the names it declares as referenced.
    Comment(Vec<String>),
    Expr { expr: CompiledExpr },
    ForLoop { binding: String, list_expr: CompiledExpr, body: Vec<Segment>, else_body: Vec<Segment> },
    If { branches: Vec<(Condition, Vec<Segment>)>, else_body: Vec<Segment> },
    Include(IncludeDirective),
    Match { expr: String, arms: Vec<MatchArm> },
    Panic(Vec<Segment>),
}

} // verus!
