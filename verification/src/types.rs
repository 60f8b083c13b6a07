//! Declared parameter types and declarations.
use vstd::prelude::*;

use crate::value::{Value, ValueMap};

verus! {

/// A declared variable type.
#[derive(Debug, PartialEq, Eq)]
pub enum VarType {
    /// `str`
    Str,
    /// `int`
    Int,
    /// `float`
    Float,
    /// `bool`
    Bool,
    /// `list(name = type, ...)`: a list of structs with these fields.
    List(Vec<FieldDecl>),
    /// `list(type)`: a list of values of one type.
    ListOf(Box<VarType>),
    /// `struct(name = type, ...)`
    Struct(Vec<FieldDecl>),
    /// `enum(Variant, Variant(name = type, ...), ...)`
    Enum(Vec<EnumVariant>),
    /// `option(type)`
    Optional(Box<VarType>),
}

/// A named field of a list or struct type.
#[derive(Debug, PartialEq, Eq)]
pub struct FieldDecl {
    pub name: String,
    pub var_type: VarType,
}

/// A variant of an enum type, with the fields it carries (none for a unit variant).
#[derive(Debug, PartialEq, Eq)]
pub struct EnumVariant {
    pub name: String,
    pub fields: Vec<FieldDecl>,
}

/// A declared variable: name, type and optional default value.
#[derive(Debug, PartialEq, Eq)]
pub struct VarDecl {
    pub name: String,
    pub var_type: VarType,
    pub default_value: Option<Value>,
}

impl VarDecl {
    /// The default value, if one was declared.
    pub fn default_value(&self) -> (r: Option<&Value>)
        ensures
            match self.default_value {
                Some(v) => r matches Some(w) && *w == v,
                None => r is None,
            },
    {
        match &self.default_value {
            Some(v) => Some(v),
            None => None,
        }
    }
}

// ---------------------------------------------------------------------------
// Mathematical views
// ---------------------------------------------------------------------------
/// The content of a [`VarType`], with names as character sequences.
pub enum TypeV {
    Str,
    Int,
    Float,
    Bool,
    List(Seq<FieldV>),
    ListOf(Box<TypeV>),
    Struct(Seq<FieldV>),
    Enum(Seq<VariantV>),
    Optional(Box<TypeV>),
}

/// The content of a [`FieldDecl`].
pub struct FieldV {
    pub name: Seq<char>,
    pub ty: TypeV,
}

/// The content of an [`EnumVariant`].
pub struct VariantV {
    pub name: Seq<char>,
    pub fields: Seq<FieldV>,
}

pub open spec fn type_view(t: VarType) -> TypeV
    decreases t,
{
    match t {
        VarType::Str => TypeV::Str,
        VarType::Int => TypeV::Int,
        VarType::Float => TypeV::Float,
        VarType::Bool => TypeV::Bool,
        VarType::List(fs) => TypeV::List(fields_view(fs@)),
        VarType::ListOf(e) => TypeV::ListOf(Box::new(type_view(*e))),
        VarType::Struct(fs) => TypeV::Struct(fields_view(fs@)),
        VarType::Enum(vs) => TypeV::Enum(variants_view(vs@)),
        VarType::Optional(e) => TypeV::Optional(Box::new(type_view(*e))),
    }
}

pub open spec fn fields_view(fs: Seq<FieldDecl>) -> Seq<FieldV>
    decreases fs,
{
    if fs.len() == 0 {
        Seq::empty()
    } else {
        fields_view(fs.drop_last()).push(
            FieldV { name: fs.last().name@, ty: type_view(fs.last().var_type) },
        )
    }
}

pub open spec fn variants_view(vs: Seq<EnumVariant>) -> Seq<VariantV>
    decreases vs,
{
    if vs.len() == 0 {
        Seq::empty()
    } else {
        variants_view(vs.drop_last()).push(
            VariantV { name: vs.last().name@, fields: fields_view(vs.last().fields@) },
        )
    }
}

impl View for VarType {
    type V = TypeV;

    open spec fn view(&self) -> TypeV {
        type_view(*self)
    }
}

/// The name a declaration error shows for a type.
pub open spec fn type_kind_label(t: TypeV) -> Seq<char> {
    match t {
        TypeV::Str => "str"@,
        TypeV::Int => "int"@,
        TypeV::Float => "float"@,
        TypeV::Bool => "bool"@,
        TypeV::List(_) => "list"@,
        TypeV::ListOf(_) => "list"@,
        TypeV::Struct(_) => "struct"@,
        TypeV::Enum(_) => "enum"@,
        TypeV::Optional(_) => "option"@,
    }
}

impl VarType {
    /// A copy of the type.
    pub fn duplicate(&self) -> (r: VarType)
        ensures
            r@ == self@,
        decreases self,
    {
        match self {
            VarType::Str => VarType::Str,
            VarType::Int => VarType::Int,
            VarType::Float => VarType::Float,
            VarType::Bool => VarType::Bool,
            VarType::List(fs) => VarType::List(duplicate_fields(fs)),
            VarType::ListOf(e) => VarType::ListOf(Box::new((**e).duplicate())),
            VarType::Struct(fs) => VarType::Struct(duplicate_fields(fs)),
            VarType::Enum(vs) => VarType::Enum(duplicate_variants(vs)),
            VarType::Optional(e) => VarType::Optional(Box::new((**e).duplicate())),
        }
    }

    /// The label that declaration errors show for this type.
    pub fn kind_label(&self) -> (r: &'static str)
        ensures
            r@ == type_kind_label(self@),
    {
        match self {
            VarType::Str => "str",
            VarType::Int => "int",
            VarType::Float => "float",
            VarType::Bool => "bool",
            VarType::List(_) => "list",
            VarType::ListOf(_) => "list",
            VarType::Struct(_) => "struct",
            VarType::Enum(_) => "enum",
            VarType::Optional(_) => "option",
        }
    }
}

/// A copy of a field list.
pub fn duplicate_fields(fs: &Vec<FieldDecl>) -> (r: Vec<FieldDecl>)
    ensures
        fields_view(r@) == fields_view(fs@),
    decreases fs,
{
    let mut r: Vec<FieldDecl> = Vec::new();
    let mut i: usize = 0;
    while i < fs.len()
        invariant
            i <= fs@.len(),
            fields_view(r@) == fields_view(fs@.take(i as int)),
        decreases fs@.len() - i,
    {
        let f = &fs[i];
        let d = FieldDecl { name: f.name.clone(), var_type: f.var_type.duplicate() };
        assert(fs@.take(i + 1).drop_last() =~= fs@.take(i as int));
        let ghost before = r@;
        r.push(d);
        assert(r@.drop_last() =~= before);
        i = i + 1;
    }
    assert(fs@.take(fs@.len() as int) =~= fs@);
    r
}

/// A copy of a variant list.
pub fn duplicate_variants(vs: &Vec<EnumVariant>) -> (r: Vec<EnumVariant>)
    ensures
        variants_view(r@) == variants_view(vs@),
    decreases vs,
{
    let mut r: Vec<EnumVariant> = Vec::new();
    let mut i: usize = 0;
    while i < vs.len()
        invariant
            i <= vs@.len(),
            variants_view(r@) == variants_view(vs@.take(i as int)),
        decreases vs@.len() - i,
    {
        let v = &vs[i];
        let d = EnumVariant { name: v.name.clone(), fields: duplicate_fields(&v.fields) };
        assert(vs@.take(i + 1).drop_last() =~= vs@.take(i as int));
        let ghost before = r@;
        r.push(d);
        assert(r@.drop_last() =~= before);
        i = i + 1;
    }
    assert(vs@.take(vs@.len() as int) =~= vs@);
    r
}

// ---------------------------------------------------------------------------
// String-keyed map of types (hashbrown)
// ---------------------------------------------------------------------------
/// A string-keyed map of types, held in a `hashbrown::HashMap`.
#[verifier::external_body]
#[derive(Debug, PartialEq, Eq)]
pub struct TypeMap {
    inner: hashbrown::HashMap<String, VarType>,
}

/// The entries of a [`TypeMap`].
pub uninterp spec fn type_map_contents(m: TypeMap) -> Map<Seq<char>, VarType>;

/// The map without entries.
pub open spec fn no_types() -> Map<Seq<char>, VarType> {
    Map::empty()
}

/// Every key occurs once in `entries`, and the entries are exactly those of `m`.
pub open spec fn lists_types(m: Map<Seq<char>, VarType>, entries: Seq<(&String, &VarType)>) -> bool {
    &&& m.dom().finite()
    &&& entries.len() == m.len()
    &&& forall|i: int|
        0 <= i < entries.len() ==> m.contains_key(#[trigger] entries[i].0@) && m[entries[i].0@]
            == *entries[i].1
    &&& forall|i: int, j: int|
        0 <= i < j < entries.len() ==> #[trigger] entries[i].0@ != #[trigger] entries[j].0@
    &&& forall|k: Seq<char>|
        m.contains_key(k) ==> exists|i: int| 0 <= i < entries.len() && #[trigger] entries[i].0@ == k
}

impl View for TypeMap {
    type V = Map<Seq<char>, VarType>;

    open spec fn view(&self) -> Map<Seq<char>, VarType> {
        type_map_contents(*self)
    }
}

/// The types of a map, by their views.
pub open spec fn type_views(m: Map<Seq<char>, VarType>) -> Map<Seq<char>, TypeV> {
    m.map_values(|t: VarType| t@)
}

impl TypeMap {
    /// An empty map (`hashbrown::HashMap::new`).
    #[verifier::external_body]
    pub fn new() -> (r: TypeMap)
        ensures
            r@ == no_types(),
    {
        TypeMap { inner: hashbrown::HashMap::new() }
    }

    /// Inserts or replaces the entry for `k` (`hashbrown::HashMap::insert`).
    #[verifier::external_body]
    pub fn insert(&mut self, k: String, v: VarType)
        ensures
            type_map_contents(*final(self)) == type_map_contents(*old(self)).insert(k@, v),
    {
        self.inner.insert(k, v);
    }

    /// The type stored under `k` (`hashbrown::HashMap::get`).
    #[verifier::external_body]
    pub fn get(&self, k: &str) -> (r: Option<&VarType>)
        ensures
            match r {
                Some(v) => type_map_contents(*self).contains_key(k@) && *v == type_map_contents(
                    *self,
                )[k@],
                None => !type_map_contents(*self).contains_key(k@),
            },
    {
        self.inner.get(k)
    }

    /// The number of entries (`hashbrown::HashMap::len`).
    #[verifier::external_body]
    pub fn len(&self) -> (r: usize)
        ensures
            r == type_map_contents(*self).len(),
    {
        self.inner.len()
    }

    /// The entries, in no particular order (`hashbrown::HashMap::iter`).
    #[verifier::external_body]
    pub fn entries(&self) -> (r: Vec<(&String, &VarType)>)
        ensures
            lists_types(type_map_contents(*self), r@),
    {
        self.inner.iter().collect()
    }

    /// Whether an entry for `k` exists.
    pub fn contains_key(&self, k: &str) -> (r: bool)
        ensures
            r == self@.contains_key(k@),
    {
        self.get(k).is_some()
    }

    /// A copy of the map with copied types.
    pub fn duplicate(&self) -> (r: TypeMap)
        ensures
            type_views(r@) == type_views(self@),
            r@.dom() == self@.dom(),
    {
        let es = self.entries();
        let mut r = TypeMap::new();
        let mut i: usize = 0;
        while i < es.len()
            invariant
                i <= es@.len(),
                lists_types(self@, es@),
                r@.dom() == Set::new(|k: Seq<char>| exists|j: int| 0 <= j < i && #[trigger] es@[j].0@ == k),
                forall|k: Seq<char>| #[trigger] r@.contains_key(k) ==> self@.contains_key(k) && r@[k]@ == self@[k]@,
            decreases es@.len() - i,
        {
            let (k, t) = (es[i].0.clone(), es[i].1.duplicate());
            r.insert(k, t);
            assert(r@.dom() =~= Set::new(|k: Seq<char>| exists|j: int| 0 <= j < i + 1 && #[trigger] es@[j].0@ == k)) by {
                assert forall|q: Seq<char>| (exists|j: int| 0 <= j < i + 1 && #[trigger] es@[j].0@ == q) implies r@.contains_key(q) by {
                    let j = choose|j: int| 0 <= j < i + 1 && #[trigger] es@[j].0@ == q;
                    if j < i {
                        assert(exists|jj: int| 0 <= jj < i && #[trigger] es@[jj].0@ == q);
                    }
                }
            }
            i = i + 1;
        }
        assert(r@.dom() =~= self@.dom());
        assert(type_views(r@) =~= type_views(self@));
        r
    }
}

} // verus!
