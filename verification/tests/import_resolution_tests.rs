use md_tmpl_core::cache::include_consts;
use md_tmpl_core::frontmatter::imported::{exported_namespace, has_distinct_plain_stems};
use md_tmpl_core::frontmatter::{parse_frontmatter, parse_frontmatter_with_imports, requested_imports_of, ImportedNamespace};
use md_tmpl_core::types::{TypeMap, VarType};
use md_tmpl_core::value::{Value, ValueMap};

fn empty_namespace() -> ImportedNamespace {
    ImportedNamespace { type_aliases: TypeMap::new(), param_types: TypeMap::new(), consts: ValueMap::new() }
}

#[test]
fn requested_imports_interpolate_env_and_consts() {
    let src = "---\nenv: [ROOT = str := \"./shared\"]\n\nconsts: [SUB = str := \"parts\"]\n\nimports: [\"[lib]({{ ROOT }}/{{ SUB }}/lib.tmpl.md)\", \"[other](other.tmpl.md)\"]\n\nparams: [s = lib.Severity]\n---\nbody";
    let is = requested_imports_of(src, &[]).unwrap();
    assert_eq!(is.len(), 2);
    assert_eq!(is[0].stem, "lib");
    assert_eq!(is[0].path, "./shared/parts/lib.tmpl.md");
    assert_eq!(is[1].stem, "other");
    assert_eq!(is[1].path, "other.tmpl.md");
    let env = [("ROOT", Value::Str("/abs".into()))];
    let is = requested_imports_of(src, &env).unwrap();
    assert_eq!(is[0].path, "/abs/parts/lib.tmpl.md");
}

#[test]
fn requested_imports_errors() {
    assert_eq!(requested_imports_of("no frontmatter", &[]).unwrap_err().message(), parse_frontmatter("no frontmatter").unwrap_err().message());
    let src = "---\nimports: [\"[lib]({{ MISSING }}/lib.tmpl.md)\"]\n---\nbody";
    assert_eq!(requested_imports_of(src, &[]).unwrap_err().message(), "unresolvable expression 'MISSING' in import path");
    assert!(requested_imports_of("---\nname: x\n---\nbody", &[]).unwrap().is_empty());
}

#[test]
fn parsed_imports_are_the_requested_ones() {
    let src = "---\nconsts: [DIR = str := \"lib\"]\n\nimports: [\"[a]({{ DIR }}/a.tmpl.md)\"]\n---\nbody";
    let requested = requested_imports_of(src, &[]).unwrap();
    let resolved = vec![("a".to_string(), empty_namespace())];
    let (fm, _) = parse_frontmatter_with_imports(src, &resolved, &[]).unwrap();
    assert_eq!(fm.imports.len(), requested.len());
    assert_eq!(fm.imports[0].stem, requested[0].stem);
    assert_eq!(fm.imports[0].path, requested[0].path);
    assert_eq!(fm.imports[0].path, "lib/a.tmpl.md");
}

#[test]
fn exported_namespace_of_a_template() {
    let src = "---\ntypes:\n  - Level = enum(Low, High)\n\nparams: [n = int, lvl = Level]\n\nconsts: [MAX = int := 9, NAME = str := \"x\"]\n---\n{{ n }}{{ lvl }}{{ MAX }}{{ NAME }}";
    let (fm, _) = parse_frontmatter(src).unwrap();
    let ns = exported_namespace(&fm);
    assert!(matches!(ns.type_aliases.get("Level"), Some(VarType::Enum(_))));
    assert_eq!(ns.type_aliases.len(), 1);
    assert_eq!(ns.param_types.get("n"), Some(&VarType::Int));
    assert!(matches!(ns.param_types.get("lvl"), Some(VarType::Enum(_))));
    assert_eq!(ns.param_types.len(), 2);
    assert_eq!(ns.consts.get("MAX"), Some(&Value::Int(9)));
    assert_eq!(ns.consts.get("NAME"), Some(&Value::Str("x".into())));
    assert_eq!(ns.consts.len(), 2);
    // A template importing it sees the exported type and constant.
    let user = "---\nimports: [\"[lib](lib.tmpl.md)\"]\n\nparams: [l = lib.Level := High, m = int := lib.MAX]\n---\n{{ l }}{{ m }}";
    let (ufm, _) = parse_frontmatter_with_imports(user, &vec![("lib".to_string(), ns)], &[]).unwrap();
    assert_eq!(ufm.declarations[0].default_value, Some(Value::Str("High".into())));
    assert_eq!(ufm.declarations[1].default_value, Some(Value::Int(9)));
}

#[test]
fn stems_must_be_plain_and_distinct() {
    assert!(has_distinct_plain_stems(&vec![]));
    assert!(has_distinct_plain_stems(&vec![("a".to_string(), empty_namespace()), ("b".to_string(), empty_namespace())]));
    assert!(!has_distinct_plain_stems(&vec![("a".to_string(), empty_namespace()), ("a".to_string(), empty_namespace())]));
    assert!(!has_distinct_plain_stems(&vec![("a.b".to_string(), empty_namespace())]));
}

#[test]
fn include_constants_prefer_consts_over_env() {
    let src = "---\nenv: [MODE = str := \"dev\", LEVEL = int := 1]\n\nconsts: [LIMIT = int := 3]\n---\n{{ MODE }}{{ LEVEL }}{{ LIMIT }}";
    let (fm, _) = parse_frontmatter(src).unwrap();
    let m = include_consts(&fm);
    assert_eq!(m.len(), 3);
    assert_eq!(m.get("MODE"), Some(&Value::Str("dev".into())));
    assert_eq!(m.get("LEVEL"), Some(&Value::Int(1)));
    assert_eq!(m.get("LIMIT"), Some(&Value::Int(3)));
}
