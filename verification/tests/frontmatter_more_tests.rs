use md_tmpl_core::frontmatter::resolve::validate_env_value;
use md_tmpl_core::frontmatter::{
    parse_frontmatter, parse_frontmatter_with_env, parse_frontmatter_with_imports, parse_frontmatter_with_parent_scope,
    strip_frontmatter, ImportedNamespace,
};
use md_tmpl_core::types::{EnumVariant, FieldDecl, TypeMap, VarType};
use md_tmpl_core::value::{Value, ValueMap};

#[test]
fn strip_returns_the_parsed_body() {
    let src = "---\nname: x\n---\r\nBody text\n";
    assert_eq!(strip_frontmatter(src).unwrap(), "Body text\n");
    assert_eq!(parse_frontmatter(src).unwrap().1, "Body text\n");
    assert_eq!(strip_frontmatter("no frontmatter").unwrap_err().message(), parse_frontmatter("no frontmatter").unwrap_err().message());
}

#[test]
fn env_values_override_defaults() {
    let src = "---\nenv:\n  - MODE = str := \"dev\"\n  - LEVEL = int := 1\n  - ON = bool\n  - RATIO = float := 0.5\n\nparams: [m = str := MODE]\n---\n{{ m }}";
    let env = [("LEVEL", Value::Str("7".into())), ("ON", Value::Str("true".into())), ("LEVEL", Value::Int(9))];
    let (fm, _) = parse_frontmatter_with_env(src, &env).unwrap();
    assert_eq!(fm.env.len(), 4);
    assert_eq!(fm.env[0].default_value, Some(Value::Str("dev".into())));
    assert_eq!(fm.env[1].default_value, Some(Value::Int(7)));
    assert_eq!(fm.env[2].default_value, Some(Value::Bool(true)));
    assert_eq!(fm.declarations[0].default_value, Some(Value::Str("dev".into())));
}

#[test]
fn env_without_value_is_an_error() {
    let src = "---\nenv: [TOKEN = str]\n---\nbody";
    let err = parse_frontmatter(src).unwrap_err();
    assert_eq!(err.message(), "env 'TOKEN': no value provided and no default");
}

#[test]
fn env_value_validation() {
    assert_eq!(validate_env_value("n", &Value::Str("-12".into()), &VarType::Int).unwrap(), Value::Int(-12));
    assert_eq!(
        validate_env_value("n", &Value::Str("twelve".into()), &VarType::Int).unwrap_err().message(),
        "env 'n': expected int, got 'twelve'"
    );
    assert_eq!(validate_env_value("b", &Value::Str("false".into()), &VarType::Bool).unwrap(), Value::Bool(false));
    assert_eq!(
        validate_env_value("b", &Value::Str("yes".into()), &VarType::Bool).unwrap_err().message(),
        "env 'b': expected bool, got 'yes'"
    );
    assert_eq!(validate_env_value("f", &Value::Str("2.5".into()), &VarType::Float).unwrap(), Value::FloatText("2.5".into()));
    assert!(validate_env_value("f", &Value::Str("2.5.1".into()), &VarType::Float).is_err());
    assert_eq!(validate_env_value("s", &Value::Int(3), &VarType::Str).unwrap(), Value::Int(3));
}

#[test]
fn duplicate_names_are_rejected() {
    let src = "---\nconsts: [N = int := 1]\n\nparams: [N = str]\n---\n{{ N }}";
    assert_eq!(parse_frontmatter(src).unwrap_err().message(), "name 'N' is declared more than once");
}

#[test]
fn used_struct_alias_is_accepted() {
    let src = "---\ntypes:\n  - Config = struct(host = str)\n\nparams: [cfg = Config]\n---\n{{ cfg.host }}";
    let (fm, _) = parse_frontmatter(src).unwrap();
    match &fm.declarations[0].var_type {
        VarType::Struct(fields) => assert_eq!(fields[0].name, "host"),
        other => panic!("Expected Struct, got {other:?}"),
    }
}

#[test]
fn enum_defaults_name_a_variant() {
    let src = "---\ntypes:\n  - Level = enum(Low, High)\n\nparams: [lvl = Level := High]\n---\n{{ lvl }}";
    let (fm, _) = parse_frontmatter(src).unwrap();
    assert_eq!(fm.declarations[0].default_value, Some(Value::Str("High".into())));
    let bad = "---\ntypes:\n  - Level = enum(Low, High)\n\nparams: [lvl = Level := Mid]\n---\n{{ lvl }}";
    assert_eq!(parse_frontmatter(bad).unwrap_err().message(), "default for 'lvl': cannot read 'Mid'");
}

#[test]
fn const_needs_a_value() {
    let src = "---\nconsts: [X = int]\n---\nbody";
    assert_eq!(parse_frontmatter(src).unwrap_err().message(), "const 'X' has no value (write 'NAME = type := value')");
}

#[test]
fn unresolvable_import_path() {
    let src = "---\nimports: [\"[lib]({{ consts.MISSING }}/lib.tmpl.md)\"]\n---\nbody";
    assert_eq!(parse_frontmatter(src).unwrap_err().message(), "unresolvable expression 'consts.MISSING' in import path");
}

#[test]
fn invalid_import_entry() {
    let src = "---\nimports: [lib.tmpl.md]\n---\nbody";
    assert_eq!(parse_frontmatter(src).unwrap_err().message(), "invalid import 'lib.tmpl.md' (expected '[stem](path)')");
}

#[test]
fn parent_scope_aliases_and_missing_frontmatter() {
    let mut parent = TypeMap::new();
    parent.insert("Point".to_string(), VarType::Struct(vec![FieldDecl { name: "x".into(), var_type: VarType::Int }]));
    let (fm, body) = parse_frontmatter_with_parent_scope("---\nparams: [p = Point]\n---\n{{ p.x }}", &parent).unwrap();
    assert!(matches!(fm.declarations[0].var_type, VarType::Struct(_)));
    assert_eq!(body, "{{ p.x }}");
    let (fm, body) = parse_frontmatter_with_parent_scope("just a body", &parent).unwrap();
    assert!(fm.declarations.is_empty());
    assert!(!fm.has_params);
    assert_eq!(body, "just a body");
}

fn library_namespace() -> ImportedNamespace {
    let mut type_aliases = TypeMap::new();
    type_aliases.insert(
        "Severity".to_string(),
        VarType::Enum(vec![
            EnumVariant { name: "Low".into(), fields: vec![] },
            EnumVariant { name: "Known".into(), fields: vec![FieldDecl { name: "label".into(), var_type: VarType::Str }] },
        ]),
    );
    type_aliases.insert("Row".to_string(), VarType::Struct(vec![FieldDecl { name: "id".into(), var_type: VarType::Int }]));
    let mut consts = ValueMap::new();
    consts.insert("LIMIT".to_string(), Value::Int(5));
    ImportedNamespace { type_aliases, param_types: TypeMap::new(), consts }
}

#[test]
fn imports_provide_types_and_constants() {
    let src = "---\nimports: [\"[lib](./lib.tmpl.md)\"]\n\nparams: [s = lib.Severity := Low, n = int := lib.LIMIT, r = lib.Row]\n---\n{{ s }}{{ n }}{{ r }}";
    let resolved = vec![("lib".to_string(), library_namespace())];
    let (fm, _) = parse_frontmatter_with_imports(src, &resolved, &[]).unwrap();
    assert_eq!(fm.imports[0].path, "./lib.tmpl.md");
    assert_eq!(fm.declarations[0].default_value, Some(Value::Str("Low".into())));
    assert_eq!(fm.declarations[1].default_value, Some(Value::Int(5)));
    assert_eq!(fm.imported_consts.get("lib.LIMIT"), Some(&Value::Int(5)));
    assert_eq!(fm.imported_enum_type_keys, vec!["lib.Severity".to_string()]);
    let ns = fm.imported_consts.get("lib.Severity").unwrap();
    assert_eq!(ns.get_field("Low"), Some(&Value::Str("Low".into())));
    let known = ns.get_field("Known").unwrap();
    assert_eq!(known.get_field_unchecked("__kind__"), Some(&Value::Str("Known".into())));
    match ns.get_field("__variants__").unwrap() {
        Value::List(names) => assert_eq!(names.as_slice(), &[Value::Str("Low".into()), Value::Str("Known".into())]),
        other => panic!("Expected List, got {other:?}"),
    }
    assert!(fm.imported_consts.get("lib.Row").is_none());
}

#[test]
fn unknown_imported_type() {
    let src = "---\nparams: [s = lib.Nope]\n---\nbody";
    let resolved = vec![("lib".to_string(), library_namespace())];
    assert_eq!(parse_frontmatter_with_imports(src, &resolved, &[]).unwrap_err().message(), "unknown type 'lib.Nope'");
}
