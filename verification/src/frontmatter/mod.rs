//! YAML-style frontmatter parsing for `.tmpl.md` files.
//!
//! Extracts template metadata (name, description, typed variable
//! declarations) from the `---`-delimited block at the start of a template
//! source string.
pub mod block;
pub mod decls;
pub mod imported;
pub mod lists;
pub mod params;
pub mod resolve;
pub mod sections;
pub mod validation;

use vstd::prelude::*;
use vstd::string::StrSliceExecFns;

use self::block::{extract_block, extract_yaml_logical_lines, has_opener, opens_with_delimiter, section_keys};
use self::decls::{declarations, decls_view, parse_declarations_chars, value_views, DeclV};
use self::imported::{distinct_plain_stems, imported_consts_of, inject_imported_consts, lists_enum_keys, string_views};
use self::params::import_types;
use self::resolve::{
    env_and_preliminary, env_view, interpolate_imports, opt_chars, requested_imports, resolution,
    resolve_fm_consts_and_imports, resolved_view, ResolvedV,
};
use self::sections::{imports_of, imports_view, parse_imports_value, parse_types_value, type_aliases_of};
use self::validation::{collision_rules, push_names, validate_collision_rules, UsageV};
use crate::error::{Fault, TemplateError};
use crate::literals::kw_true;
use crate::text::{chars_of, has_prefix, same_chars, slice_of, starts_with, string_of, trim, trimmed, views};
use crate::types::{type_views, TypeMap, TypeV, VarDecl};
use crate::value::{Value, ValueMap, ValueV};

verus! {

/// A template import declaration: `[stem](path.tmpl.md)`.
#[derive(Debug)]
pub struct Import {
    /// Short alias used as namespace prefix, e.g. `other`.
    pub stem: String,
    /// Relative path to the imported template file.
    pub path: String,
}

/// Resolved namespace from an imported template.
#[derive(Debug)]
pub struct ImportedNamespace {
    /// Type aliases exported by the imported template.
    pub type_aliases: TypeMap,
    /// Parameter types (for cross-template type references).
    pub param_types: TypeMap,
    /// Constants exported by the imported template.
    pub consts: ValueMap,
}

/// Parsed YAML frontmatter from a `.tmpl.md` file.
#[derive(Debug)]
pub struct Frontmatter {
    /// Template name.
    pub name: Option<String>,
    /// Description of the template's purpose.
    pub description: Option<String>,
    /// Declared parameters (name + type + optional default).
    pub declarations: Vec<VarDecl>,
    /// Parameter names only (derived from `declarations`).
    pub params: Vec<String>,
    /// Whether the `params:` block was present.
    pub has_params: bool,
    /// Allow declared parameters and type aliases that are never used.
    pub allow_unused: bool,
    /// Type aliases defined via `types:`.
    pub type_aliases: TypeMap,
    /// Import declarations defined via `imports:`.
    pub imports: Vec<Import>,
    /// Constants defined via `consts:`.
    pub consts: Vec<VarDecl>,
    /// Compile-time environment variable declarations.
    pub env: Vec<VarDecl>,
    /// Constants from imports, keyed by `stem.NAME`.
    pub imported_consts: ValueMap,
    /// Keys in `imported_consts` that are enum type namespaces.
    pub imported_enum_type_keys: Vec<String>,
}

// ---------------------------------------------------------------------------
// Mathematical content
// ---------------------------------------------------------------------------
/// The content of a [`Frontmatter`] apart from its derived fields.
pub struct FrontmatterV {
    pub name: Option<Seq<char>>,
    pub description: Option<Seq<char>>,
    pub declarations: Seq<DeclV>,
    pub has_params: bool,
    pub allow_unused: bool,
    pub type_aliases: Map<Seq<char>, TypeV>,
    pub imports: Seq<(Seq<char>, Seq<char>)>,
    pub consts: Seq<DeclV>,
    pub env: Seq<DeclV>,
}

pub open spec fn opt_string(o: Option<String>) -> Option<Seq<char>> {
    match o {
        Some(s) => Some(s@),
        None => None,
    }
}

pub open spec fn frontmatter_view(fm: Frontmatter) -> FrontmatterV {
    FrontmatterV {
        name: opt_string(fm.name),
        description: opt_string(fm.description),
        declarations: decls_view(fm.declarations@),
        has_params: fm.has_params,
        allow_unused: fm.allow_unused,
        type_aliases: type_views(fm.type_aliases@),
        imports: imports_view(fm.imports@),
        consts: decls_view(fm.consts@),
        env: decls_view(fm.env@),
    }
}

/// A frontmatter that declares nothing.
pub open spec fn empty_frontmatter() -> FrontmatterV {
    FrontmatterV {
        name: None,
        description: None,
        declarations: Seq::empty(),
        has_params: false,
        allow_unused: false,
        type_aliases: Map::empty(),
        imports: Seq::empty(),
        consts: Seq::empty(),
        env: Seq::empty(),
    }
}

/// The fields that other fields determine: `params` lists the declared
/// names, and the imported constants and enum keys are those of `rs`.
pub open spec fn derived_fields_hold(fm: Frontmatter, rs: Seq<(String, ImportedNamespace)>) -> bool {
    &&& string_views(fm.params@) == decls_view(fm.declarations@).map_values(|d: DeclV| d.name)
    &&& imported_consts_of(rs, value_views(fm.imported_consts@))
    &&& lists_enum_keys(rs, string_views(fm.imported_enum_type_keys@))
}

// ---------------------------------------------------------------------------
// Sections
// ---------------------------------------------------------------------------
/// What the section lines of a frontmatter say, before resolution.
pub struct SectionsV {
    pub name: Option<Seq<char>>,
    pub description: Option<Seq<char>>,
    pub types: Map<Seq<char>, TypeV>,
    pub types_raw: Option<Seq<char>>,
    pub imports: Seq<(Seq<char>, Seq<char>)>,
    pub params_raw: Option<Seq<char>>,
    pub consts_raw: Option<Seq<char>>,
    pub env_raw: Option<Seq<char>>,
    pub allow_unused: bool,
}

pub open spec fn no_sections() -> SectionsV {
    SectionsV {
        name: None,
        description: None,
        types: Map::empty(),
        types_raw: None,
        imports: Seq::empty(),
        params_raw: None,
        consts_raw: None,
        env_raw: None,
        allow_unused: false,
    }
}

/// The text after section key number `i` of a trimmed line.
pub open spec fn after_key(t: Seq<char>, i: int) -> Seq<char> {
    t.skip(section_keys()[i].len() as int)
}

/// One logical line read into the sections: the first section key that
/// starts the trimmed line decides; a later line for the same key replaces
/// an earlier one; other lines are ignored.
pub open spec fn section_step(acc: SectionsV, line: Seq<char>) -> Result<SectionsV, Fault> {
    let t = trim(line);
    let k = section_keys();
    if starts_with(t, k[0]) {
        Ok(SectionsV { name: Some(trim(after_key(t, 0))), ..acc })
    } else if starts_with(t, k[1]) {
        Ok(SectionsV { description: Some(trim(after_key(t, 1))), ..acc })
    } else if starts_with(t, k[2]) {
        match type_aliases_of(after_key(t, 2)) {
            Ok(m) => Ok(SectionsV { types: m, types_raw: Some(after_key(t, 2)), ..acc }),
            Err(e) => Err(e),
        }
    } else if starts_with(t, k[3]) {
        match imports_of(after_key(t, 3)) {
            Ok(is) => Ok(SectionsV { imports: is, ..acc }),
            Err(e) => Err(e),
        }
    } else if starts_with(t, k[4]) {
        Ok(SectionsV { params_raw: Some(after_key(t, 4)), ..acc })
    } else if starts_with(t, k[5]) {
        Ok(SectionsV { consts_raw: Some(after_key(t, 5)), ..acc })
    } else if starts_with(t, k[6]) {
        Ok(SectionsV { env_raw: Some(after_key(t, 6)), ..acc })
    } else if starts_with(t, k[7]) {
        Ok(SectionsV { allow_unused: trim(after_key(t, 7)) == kw_true(), ..acc })
    } else {
        Ok(acc)
    }
}

/// The sections that logical lines from `k` on give, starting from `acc`.
pub open spec fn sections_from(ls: Seq<Seq<char>>, k: int, acc: SectionsV) -> Result<SectionsV, Fault>
    decreases ls.len() - k,
{
    if k < 0 || k >= ls.len() {
        Ok(acc)
    } else {
        match section_step(acc, ls[k]) {
            Err(e) => Err(e),
            Ok(next) => sections_from(ls, k + 1, next),
        }
    }
}

/// The frontmatter that source `s` declares and the position where its body
/// starts. `allow_missing` accepts a source without frontmatter; `parent`
/// holds type aliases of an enclosing template; `env` the provided
/// environment values; `rs` the resolved imported namespaces and `imported`
/// the constants they export.
pub open spec fn frontmatter_of(
    s: Seq<char>,
    allow_missing: bool,
    parent: Option<Map<Seq<char>, TypeV>>,
    env: Seq<(Seq<char>, ValueV)>,
    rs: Seq<(String, ImportedNamespace)>,
    imported: Map<Seq<char>, ValueV>,
) -> Result<(FrontmatterV, int), Fault> {
    match extract_block(s, allow_missing) {
        Err(e) => Err(e),
        Ok((ls, b)) => if allow_missing && !has_opener(s) {
            Ok((empty_frontmatter(), b))
        } else {
            match sections_from(ls, 0, no_sections()) {
                Err(e) => Err(e),
                Ok(sec) => match resolution(
                    sec.types,
                    sec.imports,
                    sec.consts_raw,
                    sec.env_raw,
                    env,
                    parent,
                    rs,
                    imported,
                ) {
                    Err(e) => Err(e),
                    Ok(res) => {
                        let params_r: Result<Seq<DeclV>, Fault> = match sec.params_raw {
                            None => Ok(Seq::empty()),
                            Some(raw) => declarations(
                                raw,
                                false,
                                res.merged,
                                import_types(rs),
                                res.available,
                            ),
                        };
                        match params_r {
                            Err(e) => Err(e),
                            Ok(ps) => match collision_rules(
                                ps,
                                res.consts,
                                res.env,
                                sec.allow_unused,
                                sec.types_raw,
                                sec.types,
                                UsageV { params: sec.params_raw, consts: sec.consts_raw, env: sec.env_raw },
                            ) {
                                Err(e) => Err(e),
                                Ok(_) => Ok(
                                    (
                                        FrontmatterV {
                                            name: sec.name,
                                            description: sec.description,
                                            declarations: ps,
                                            has_params: sec.params_raw is Some,
                                            allow_unused: sec.allow_unused,
                                            type_aliases: sec.types,
                                            imports: res.imports,
                                            consts: res.consts,
                                            env: res.env,
                                        },
                                        b,
                                    ),
                                ),
                            },
                        }
                    },
                },
            }
        },
    }
}

// ---------------------------------------------------------------------------
// Reading the sections
// ---------------------------------------------------------------------------
/// What the section lines say, before resolution.
struct Sections {
    name: Option<String>,
    description: Option<String>,
    types: TypeMap,
    types_raw: Option<Vec<char>>,
    imports: Vec<Import>,
    params_raw: Option<Vec<char>>,
    consts_raw: Option<Vec<char>>,
    env_raw: Option<Vec<char>>,
    allow_unused: bool,
}

spec fn sections_view(x: Sections) -> SectionsV {
    SectionsV {
        name: opt_string(x.name),
        description: opt_string(x.description),
        types: type_views(x.types@),
        types_raw: opt_chars(x.types_raw),
        imports: imports_view(x.imports@),
        params_raw: opt_chars(x.params_raw),
        consts_raw: opt_chars(x.consts_raw),
        env_raw: opt_chars(x.env_raw),
        allow_unused: x.allow_unused,
    }
}

fn section_key_vecs() -> (r: Vec<Vec<char>>)
    ensures
        views(r@) == section_keys(),
{
    let keys: Vec<Vec<char>> = vec![
        vec!['n', 'a', 'm', 'e', ':'],
        vec!['d', 'e', 's', 'c', 'r', 'i', 'p', 't', 'i', 'o', 'n', ':'],
        vec!['t', 'y', 'p', 'e', 's', ':'],
        vec!['i', 'm', 'p', 'o', 'r', 't', 's', ':'],
        vec!['p', 'a', 'r', 'a', 'm', 's', ':'],
        vec!['c', 'o', 'n', 's', 't', 's', ':'],
        vec!['e', 'n', 'v', ':'],
        vec!['a', 'l', 'l', 'o', 'w', '_', 'u', 'n', 'u', 's', 'e', 'd', ':'],
    ];
    assert(views(keys@) =~= section_keys());
    keys
}

/// The first section key that starts `t`.
fn key_index(t: &[char], keys: &Vec<Vec<char>>) -> (r: Option<usize>)
    requires
        views(keys@) == section_keys(),
    ensures
        match r {
            Some(i) => i < 8 && starts_with(t@, section_keys()[i as int]) && forall|j: int|
                0 <= j < i ==> !starts_with(t@, #[trigger] section_keys()[j]),
            None => forall|j: int| 0 <= j < 8 ==> !starts_with(t@, #[trigger] section_keys()[j]),
        },
{
    assert(section_keys().len() == 8);
    assert(keys@.len() == 8);
    let mut i: usize = 0;
    while i < 8
        invariant
            i <= 8,
            keys@.len() == 8,
            views(keys@) == section_keys(),
            forall|j: int| 0 <= j < i ==> !starts_with(t@, #[trigger] section_keys()[j]),
        decreases 8 - i,
    {
        assert(keys@[i as int]@ == section_keys()[i as int]);
        if has_prefix(t, keys[i].as_slice()) {
            return Some(i);
        }
        i = i + 1;
    }
    None
}

/// Reads one logical line into the sections.
fn apply_section(sec: &mut Sections, line: &[char], keys: &Vec<Vec<char>>) -> (r: Result<
    (),
    TemplateError,
>)
    requires
        views(keys@) == section_keys(),
    ensures
        match r {
            Ok(()) => section_step(sections_view(*old(sec)), line@) == Ok::<SectionsV, Fault>(
                sections_view(*final(sec)),
            ),
            Err(e) => section_step(sections_view(*old(sec)), line@) == Err::<SectionsV, Fault>(e@),
        },
{
    let t = trimmed(line);
    let n = t.len();
    assert(section_keys().len() == 8);
    assert(keys@.len() == 8);
    match key_index(t.as_slice(), keys) {
        None => {},
        Some(i) => {
            assert(views(keys@)[i as int] == keys@[i as int]@);
            let kl = keys[i].len();
            let rest = slice_of(t.as_slice(), kl, n);
            assert(rest@ =~= after_key(t@, i as int));
            if i == 0 {
                sec.name = Some(string_of(trimmed(rest.as_slice()).as_slice()));
            } else if i == 1 {
                sec.description = Some(string_of(trimmed(rest.as_slice()).as_slice()));
            } else if i == 2 {
                match parse_types_value(rest.as_slice()) {
                    Ok(m) => {
                        sec.types = m;
                        sec.types_raw = Some(rest);
                    },
                    Err(e) => {
                        return Err(e);
                    },
                }
            } else if i == 3 {
                match parse_imports_value(rest.as_slice()) {
                    Ok(is) => {
                        sec.imports = is;
                    },
                    Err(e) => {
                        return Err(e);
                    },
                }
            } else if i == 4 {
                sec.params_raw = Some(rest);
            } else if i == 5 {
                sec.consts_raw = Some(rest);
            } else if i == 6 {
                sec.env_raw = Some(rest);
            } else {
                let tr = trimmed(rest.as_slice());
                let tv = vec!['t', 'r', 'u', 'e'];
                assert(tv@ =~= kw_true());
                sec.allow_unused = same_chars(tr.as_slice(), tv.as_slice());
            }
        },
    }
    Ok(())
}

/// Reads the sections of the logical lines `ls`.
fn read_sections(ls: &Vec<Vec<char>>) -> (r: Result<Sections, TemplateError>)
    ensures
        match r {
            Ok(x) => sections_from(views(ls@), 0, no_sections()) == Ok::<SectionsV, Fault>(
                sections_view(x),
            ),
            Err(e) => sections_from(views(ls@), 0, no_sections()) == Err::<SectionsV, Fault>(e@),
        },
{
    let ghost L = views(ls@);
    let keys = section_key_vecs();
    let mut sec = Sections {
        name: None,
        description: None,
        types: TypeMap::new(),
        types_raw: None,
        imports: Vec::new(),
        params_raw: None,
        consts_raw: None,
        env_raw: None,
        allow_unused: false,
    };
    assert(sections_view(sec) == no_sections()) by {
        assert(type_views(sec.types@) =~= Map::<Seq<char>, TypeV>::empty());
        assert(imports_view(sec.imports@) =~= Seq::<(Seq<char>, Seq<char>)>::empty());
    }
    let mut k: usize = 0;
    while k < ls.len()
        invariant
            k <= ls@.len(),
            L == views(ls@),
            views(keys@) == section_keys(),
            sections_from(L, 0, no_sections()) == sections_from(L, k as int, sections_view(sec)),
        decreases ls@.len() - k,
    {
        assert(L[k as int] == ls@[k as int]@);
        match apply_section(&mut sec, ls[k].as_slice(), &keys) {
            Ok(()) => {},
            Err(e) => {
                return Err(e);
            },
        }
        k = k + 1;
    }
    Ok(sec)
}

// ---------------------------------------------------------------------------
// Parsing
// ---------------------------------------------------------------------------
pub open spec fn parent_view(p: Option<&TypeMap>) -> Option<Map<Seq<char>, TypeV>> {
    match p {
        Some(m) => Some(type_views(m@)),
        None => None,
    }
}

/// `fm` and `body` are the frontmatter and body that `spec_r` describes for
/// `source`.
pub open spec fn describes(
    spec_r: Result<(FrontmatterV, int), Fault>,
    source: Seq<char>,
    fm: Frontmatter,
    body: Seq<char>,
) -> bool {
    spec_r matches Ok((v, b)) && v == frontmatter_view(fm) && 0 <= b <= source.len() && body
        == source.skip(b)
}

/// The frontmatter of `s` for a template without resolved imports.
pub open spec fn plain_frontmatter_of(
    s: Seq<char>,
    allow_missing: bool,
    parent: Option<Map<Seq<char>, TypeV>>,
    env: Seq<(Seq<char>, ValueV)>,
) -> Result<(FrontmatterV, int), Fault> {
    frontmatter_of(s, allow_missing, parent, env, Seq::empty(), Map::empty())
}

/// Without imports there are no imported constants.
pub proof fn lemma_no_imports(m: Map<Seq<char>, ValueV>)
    requires
        imported_consts_of(Seq::empty(), m),
    ensures
        m == Map::<Seq<char>, ValueV>::empty(),
{
    assert(m =~= Map::<Seq<char>, ValueV>::empty());
}

fn parse_frontmatter_impl<'a>(
    source: &'a str,
    parent: Option<&TypeMap>,
    allow_missing: bool,
    env_values: &[(&str, Value)],
    resolved: &Vec<(String, ImportedNamespace)>,
) -> (r: Result<(Frontmatter, &'a str), TemplateError>)
    requires
        distinct_plain_stems(resolved@),
        allow_missing ==> resolved@.len() == 0,
    ensures
        match r {
            Ok((fm, body)) => derived_fields_hold(fm, resolved@) && describes(
                frontmatter_of(
                    source@,
                    allow_missing,
                    parent_view(parent),
                    env_view(env_values@),
                    resolved@,
                    value_views(fm.imported_consts@),
                ),
                source@,
                fm,
                body@,
            ),
            Err(e) => exists|m: Map<Seq<char>, ValueV>|
                imported_consts_of(resolved@, m) && frontmatter_of(
                    source@,
                    allow_missing,
                    parent_view(parent),
                    env_view(env_values@),
                    resolved@,
                    m,
                ) == Err::<(FrontmatterV, int), Fault>(e@),
        },
{
    let chars = chars_of(source);
    let n = source.unicode_len();
    let mut imported_consts = ValueMap::new();
    let mut keys: Vec<String> = Vec::new();
    inject_imported_consts(&mut imported_consts, &mut keys, resolved);
    let ghost IC = value_views(imported_consts@);
    let ghost P = parent_view(parent);
    let ghost E = env_view(env_values@);
    let ghost R = resolved@;
    let (ls, b) = match extract_yaml_logical_lines(chars.as_slice(), allow_missing) {
        Ok(x) => x,
        Err(e) => {
            return Err(e);
        },
    };
    if allow_missing && !opens_with_delimiter(chars.as_slice()) {
        proof {
            lemma_no_imports(IC);
        }
        let fm = Frontmatter {
            name: None,
            description: None,
            declarations: Vec::new(),
            params: Vec::new(),
            has_params: false,
            allow_unused: false,
            type_aliases: TypeMap::new(),
            imports: Vec::new(),
            consts: Vec::new(),
            env: Vec::new(),
            imported_consts,
            imported_enum_type_keys: keys,
        };
        assert(frontmatter_view(fm) == empty_frontmatter()) by {
            assert(decls_view(fm.declarations@) =~= Seq::<DeclV>::empty());
            assert(decls_view(fm.consts@) =~= Seq::<DeclV>::empty());
            assert(decls_view(fm.env@) =~= Seq::<DeclV>::empty());
            assert(type_views(fm.type_aliases@) =~= Map::<Seq<char>, TypeV>::empty());
            assert(imports_view(fm.imports@) =~= Seq::<(Seq<char>, Seq<char>)>::empty());
        }
        assert(string_views(fm.params@) =~= decls_view(fm.declarations@).map_values(|d: DeclV| d.name));
        let body = source.substring_char(b, n);
        assert(body@ =~= source@.skip(b as int));
        return Ok((fm, body));
    }
    let sec = match read_sections(&ls) {
        Ok(x) => x,
        Err(e) => {
            return Err(e);
        },
    };
    let res = match resolve_fm_consts_and_imports(
        &sec.types,
        &sec.imports,
        &sec.consts_raw,
        &sec.env_raw,
        env_values,
        parent,
        resolved,
        &imported_consts,
    ) {
        Ok(x) => x,
        Err(e) => {
            return Err(e);
        },
    };
    let decls = match &sec.params_raw {
        None => Vec::new(),
        Some(raw) => match parse_declarations_chars(
            raw.as_slice(),
            &res.merged,
            resolved,
            false,
            &res.available,
        ) {
            Ok(ds) => ds,
            Err(e) => {
                return Err(e);
            },
        },
    };
    assert(decls_view(Seq::<VarDecl>::empty()) =~= Seq::<DeclV>::empty());
    match validate_collision_rules(
        &decls,
        &res.consts,
        &res.env,
        sec.allow_unused,
        &sec.types_raw,
        &sec.types,
        &sec.params_raw,
        &sec.consts_raw,
        &sec.env_raw,
    ) {
        Ok(()) => {},
        Err(e) => {
            return Err(e);
        },
    }
    let mut params: Vec<String> = Vec::new();
    push_names(&mut params, &decls);
    assert(string_views(Seq::<String>::empty()) =~= Seq::<Seq<char>>::empty());
    assert(string_views(params@) =~= decls_view(decls@).map_values(|d: DeclV| d.name));
    let has_params = sec.params_raw.is_some();
    let fm = Frontmatter {
        name: sec.name,
        description: sec.description,
        declarations: decls,
        params,
        has_params,
        allow_unused: sec.allow_unused,
        type_aliases: sec.types,
        imports: res.imports,
        consts: res.consts,
        env: res.env,
        imported_consts,
        imported_enum_type_keys: keys,
    };
    let body = source.substring_char(b, n);
    assert(body@ =~= source@.skip(b as int));
    Ok((fm, body))
}

// ---------------------------------------------------------------------------
// Public entry points
// ---------------------------------------------------------------------------
/// Strip the `---` frontmatter block and return only the body text.
pub fn strip_frontmatter(source: &str) -> (r: Result<&str, TemplateError>)
    ensures
        match r {
            Ok(body) => plain_frontmatter_of(source@, false, None, Seq::empty()) matches Ok((_, b))
                && 0 <= b <= source@.len() && body@ == source@.skip(b),
            Err(e) => plain_frontmatter_of(source@, false, None, Seq::empty()) == Err::<
                (FrontmatterV, int),
                Fault,
            >(e@),
        },
{
    match parse_frontmatter(source) {
        Ok((_, body)) => Ok(body),
        Err(e) => Err(e),
    }
}

/// Parse the frontmatter delimited by `---` lines: the parsed
/// [`Frontmatter`] and the template body after the closing `---`.
pub fn parse_frontmatter(source: &str) -> (r: Result<(Frontmatter, &str), TemplateError>)
    ensures
        match r {
            Ok((fm, body)) => derived_fields_hold(fm, Seq::empty()) && describes(
                plain_frontmatter_of(source@, false, None, Seq::empty()),
                source@,
                fm,
                body@,
            ),
            Err(e) => plain_frontmatter_of(source@, false, None, Seq::empty()) == Err::<
                (FrontmatterV, int),
                Fault,
            >(e@),
        },
{
    let env: Vec<(&str, Value)> = Vec::new();
    assert(env_view(env@) =~= Seq::<(Seq<char>, ValueV)>::empty());
    parse_frontmatter_with_env(source, env.as_slice())
}

/// Like [`parse_frontmatter`], resolving `env:` declarations against the
/// provided name-value pairs (the first pair with a name wins).
pub fn parse_frontmatter_with_env<'a>(source: &'a str, env_values: &[(&str, Value)]) -> (r: Result<
    (Frontmatter, &'a str),
    TemplateError,
>)
    ensures
        match r {
            Ok((fm, body)) => derived_fields_hold(fm, Seq::empty()) && describes(
                plain_frontmatter_of(source@, false, None, env_view(env_values@)),
                source@,
                fm,
                body@,
            ),
            Err(e) => plain_frontmatter_of(source@, false, None, env_view(env_values@)) == Err::<
                (FrontmatterV, int),
                Fault,
            >(e@),
        },
{
    let none: Vec<(String, ImportedNamespace)> = Vec::new();
    let r = parse_frontmatter_impl(source, None, false, env_values, &none);
    proof {
        assert(none@ =~= Seq::<(String, ImportedNamespace)>::empty());
        match &r {
            Ok((fm, _)) => {
                lemma_no_imports(value_views(fm.imported_consts@));
            },
            Err(e) => {
                let m = choose|m: Map<Seq<char>, ValueV>|
                    imported_consts_of(none@, m) && frontmatter_of(
                        source@,
                        false,
                        None,
                        env_view(env_values@),
                        none@,
                        m,
                    ) == Err::<(FrontmatterV, int), Fault>(e@);
                lemma_no_imports(m);
            },
        }
    }
    r
}

/// Like [`parse_frontmatter`], for an inline template: it may lack
/// frontmatter, and may use the type aliases of the enclosing template
/// (its own aliases win on a clash).
pub fn parse_frontmatter_with_parent_scope<'a>(
    source: &'a str,
    parent_type_aliases: &TypeMap,
) -> (r: Result<(Frontmatter, &'a str), TemplateError>)
    ensures
        match r {
            Ok((fm, body)) => derived_fields_hold(fm, Seq::empty()) && describes(
                plain_frontmatter_of(
                    source@,
                    true,
                    Some(type_views(parent_type_aliases@)),
                    Seq::empty(),
                ),
                source@,
                fm,
                body@,
            ),
            Err(e) => plain_frontmatter_of(
                source@,
                true,
                Some(type_views(parent_type_aliases@)),
                Seq::empty(),
            ) == Err::<(FrontmatterV, int), Fault>(e@),
        },
{
    let none: Vec<(String, ImportedNamespace)> = Vec::new();
    let env: Vec<(&str, Value)> = Vec::new();
    assert(env_view(env@) =~= Seq::<(Seq<char>, ValueV)>::empty());
    let r = parse_frontmatter_impl(source, Some(parent_type_aliases), true, env.as_slice(), &none);
    proof {
        assert(none@ =~= Seq::<(String, ImportedNamespace)>::empty());
        match &r {
            Ok((fm, _)) => {
                lemma_no_imports(value_views(fm.imported_consts@));
            },
            Err(e) => {
                let m = choose|m: Map<Seq<char>, ValueV>|
                    imported_consts_of(none@, m) && frontmatter_of(
                        source@,
                        true,
                        Some(type_views(parent_type_aliases@)),
                        env_view(env@),
                        none@,
                        m,
                    ) == Err::<(FrontmatterV, int), Fault>(e@);
                lemma_no_imports(m);
            },
        }
    }
    r
}

/// Like [`parse_frontmatter_with_env`], with the imported templates already
/// resolved: `resolved` pairs each import stem with the namespace that the
/// imported template exports. Params and consts may then use imported type
/// aliases (`stem.Type`), and the exported constants are available as
/// `stem.NAME`.
pub fn parse_frontmatter_with_imports<'a>(
    source: &'a str,
    resolved: &Vec<(String, ImportedNamespace)>,
    env_values: &[(&str, Value)],
) -> (r: Result<(Frontmatter, &'a str), TemplateError>)
    requires
        distinct_plain_stems(resolved@),
    ensures
        match r {
            Ok((fm, body)) => derived_fields_hold(fm, resolved@) && describes(
                frontmatter_of(
                    source@,
                    false,
                    None,
                    env_view(env_values@),
                    resolved@,
                    value_views(fm.imported_consts@),
                ),
                source@,
                fm,
                body@,
            ),
            Err(e) => exists|m: Map<Seq<char>, ValueV>|
                imported_consts_of(resolved@, m) && frontmatter_of(
                    source@,
                    false,
                    None,
                    env_view(env_values@),
                    resolved@,
                    m,
                ) == Err::<(FrontmatterV, int), Fault>(e@),
        },
{
    parse_frontmatter_impl(source, None, false, env_values, resolved)
}


/// The imports that source `s` declares, their paths interpolated with the
/// `env:` values and the constants known before imports are resolved.
pub open spec fn imports_requested(s: Seq<char>, env: Seq<(Seq<char>, ValueV)>) -> Result<
    Seq<(Seq<char>, Seq<char>)>,
    Fault,
> {
    match extract_block(s, false) {
        Err(e) => Err(e),
        Ok((ls, _b)) => match sections_from(ls, 0, no_sections()) {
            Err(e) => Err(e),
            Ok(sec) => requested_imports(sec.types, sec.imports, sec.consts_raw, sec.env_raw, env),
        },
    }
}

/// The imports that `source` declares, with their paths interpolated: the
/// templates a caller reads and resolves before
/// [`parse_frontmatter_with_imports`].
pub fn requested_imports_of(source: &str, env_values: &[(&str, Value)]) -> (r: Result<
    Vec<Import>,
    TemplateError,
>)
    ensures
        match r {
            Ok(is) => imports_requested(source@, env_view(env_values@)) == Ok::<
                Seq<(Seq<char>, Seq<char>)>,
                Fault,
            >(imports_view(is@)),
            Err(e) => imports_requested(source@, env_view(env_values@)) == Err::<
                Seq<(Seq<char>, Seq<char>)>,
                Fault,
            >(e@),
        },
{
    let chars = chars_of(source);
    let (ls, _b) = match extract_yaml_logical_lines(chars.as_slice(), false) {
        Ok(x) => x,
        Err(e) => {
            return Err(e);
        },
    };
    let sec = match read_sections(&ls) {
        Ok(x) => x,
        Err(e) => {
            return Err(e);
        },
    };
    let mut merged = TypeMap::new();
    assert(type_views(crate::types::no_types()) =~= Map::<Seq<char>, TypeV>::empty());
    self::resolve::merge_types(&mut merged, &sec.types);
    assert(type_views(merged@) =~= self::resolve::merged_aliases(None, type_views(sec.types@)));
    let (_env, prelim) = match env_and_preliminary(&merged, &sec.consts_raw, &sec.env_raw, env_values) {
        Ok(x) => x,
        Err(e) => {
            return Err(e);
        },
    };
    interpolate_imports(&sec.imports, &prelim)
}

} // verus!
