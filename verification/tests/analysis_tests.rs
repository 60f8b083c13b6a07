use md_tmpl_core::compiled::analysis::{collect_referenced_params, extract_interpolation_refs, extract_root_variable, is_literal};
use md_tmpl_core::compiled::condition::{find_top_level_op, parse_condition, split_top_level, strip_balanced_parens};
use md_tmpl_core::compiled::{
    ComparisonOp, CompiledExpr, CompiledPath, Condition, ConditionOperand, IncludeDirective, MatchArm,
    NameSet, Segment,
};
use md_tmpl_core::value::Value;

fn path(parts: &[&str]) -> CompiledPath {
    CompiledPath::new(parts.iter().map(|p| p.to_string()).collect())
}

fn expr(parts: &[&str]) -> Segment {
    Segment::Expr { expr: CompiledExpr::Path(path(parts)) }
}

fn sorted(s: &NameSet) -> Vec<String> {
    let mut v: Vec<String> = s.names().into_iter().cloned().collect();
    v.sort();
    v
}

fn chars(s: &str) -> Vec<char> {
    s.chars().collect()
}

fn bindings(names: &[&str]) -> NameSet {
    let mut b = NameSet::new();
    for n in names {
        b.insert(n.to_string());
    }
    b
}

#[test]
fn root_variable_examples() {
    let none = NameSet::new();
    assert_eq!(extract_root_variable("name", &none), Some("name".to_string()));
    assert_eq!(extract_root_variable("item.label", &none), Some("item".to_string()));
    assert_eq!(extract_root_variable("item.label", &bindings(&["item"])), None);
    assert_eq!(extract_root_variable("idx(item)", &none), Some("item".to_string()));
    assert_eq!(extract_root_variable("idx(item)", &bindings(&["item"])), None);
    assert_eq!(extract_root_variable("'literal'", &none), None);
    assert_eq!(extract_root_variable("42", &none), None);
    assert_eq!(extract_root_variable("\"web/about.tmpl.md\"", &none), None);
    assert_eq!(extract_root_variable("consts.MAX", &none), Some("MAX".to_string()));
    assert_eq!(extract_root_variable("  name | upper ", &none), Some("name".to_string()));
    assert_eq!(extract_root_variable("len(params.items)", &none), Some("items".to_string()));
    assert_eq!(extract_root_variable("\"a.b\" | upper", &none), None);
    assert_eq!(extract_root_variable("   ", &none), None);
    assert_eq!(extract_root_variable("true", &none), None);
}

#[test]
fn literal_tokens() {
    assert!(is_literal(&chars("'x'")));
    assert!(is_literal(&chars("false")));
    assert!(is_literal(&chars("-12")));
    assert!(is_literal(&chars("1.5e3")));
    assert!(is_literal(&chars("inf")));
    assert!(!is_literal(&chars("name")));
    assert!(!is_literal(&chars("")));
}

#[test]
fn interpolation_refs() {
    let mut vars = NameSet::new();
    extract_interpolation_refs("Hi {{ name }}, {{ item.x }} and {{ 'lit' }} {{ open", &mut vars, &bindings(&["item"]));
    assert_eq!(sorted(&vars), vec!["name".to_string()]);
}

#[test]
fn refs_skip_loop_bindings_in_body_only() {
    let segs = vec![
        Segment::Static("Hi ".to_string()),
        expr(&["name"]),
        Segment::ForLoop {
            binding: "t".to_string(),
            list_expr: CompiledExpr::Path(path(&["tasks"])),
            body: vec![expr(&["t", "title"]), expr(&["other"])],
            else_body: vec![expr(&["t"])],
        },
        Segment::Comment(vec!["noted".to_string()]),
    ];
    let refs = collect_referenced_params(&segs);
    assert_eq!(
        sorted(&refs),
        vec!["name".to_string(), "noted".to_string(), "other".to_string(), "t".to_string(), "tasks".to_string()]
    );
}

#[test]
fn refs_of_conditions_includes_and_matches() {
    let cond = parse_condition("count > 0 && !(params.flag) || kind(status) == 'x'").unwrap();
    let segs = vec![
        Segment::If { branches: vec![(cond, vec![expr(&["consts", "LIMIT"])])], else_body: vec![expr(&["opts"])] },
        Segment::Include(IncludeDirective {
            path: "./{{ dir }}/part.tmpl.md".to_string(),
            with_vars: vec![("title".to_string(), "\"Hi {{ who }}\"".to_string()), ("n".to_string(), "num".to_string())],
            for_each: Some(("row".to_string(), "rows".to_string())),
        }),
        Segment::Include(IncludeDirective { path: "header".to_string(), with_vars: vec![], for_each: None }),
        Segment::Match {
            expr: "kind(result)".to_string(),
            arms: vec![MatchArm {
                variants: vec!["\"{{ label }}\"".to_string(), "Plain".to_string()],
                guard: Some(parse_condition("ready").unwrap()),
                body: vec![Segment::Panic(vec![expr(&["why"])])],
            }],
        },
    ];
    let refs = collect_referenced_params(&segs);
    let expected: Vec<String> = [
        "LIMIT", "count", "dir", "flag", "header", "label", "num", "ready", "result", "rows", "status", "who", "why",
    ]
    .iter()
    .map(|s| s.to_string())
    .collect();
    assert_eq!(sorted(&refs), expected);
}

#[test]
fn shadowed_binding_is_removed_after_inner_loop() {
    let inner = Segment::ForLoop {
        binding: "x".to_string(),
        list_expr: CompiledExpr::Path(path(&["b"])),
        body: vec![],
        else_body: vec![],
    };
    let outer = Segment::ForLoop {
        binding: "x".to_string(),
        list_expr: CompiledExpr::Path(path(&["a"])),
        body: vec![inner, expr(&["x", "y"])],
        else_body: vec![],
    };
    let refs = collect_referenced_params(&[outer]);
    assert_eq!(sorted(&refs), vec!["a".to_string(), "b".to_string(), "x".to_string()]);
}

#[test]
fn condition_precedence() {
    match parse_condition("a && b || c").unwrap() {
        Condition::Or(l, r) => {
            assert!(matches!(*l, Condition::And(_, _)));
            assert!(matches!(*r, Condition::Truthy(ConditionOperand::Path { .. })));
        }
        other => panic!("Expected Or, got {other:?}"),
    }
}

#[test]
fn condition_comparisons() {
    match parse_condition("count >= 10").unwrap() {
        Condition::Comparison { left, op, right } => {
            assert_eq!(op, ComparisonOp::Ge);
            match left {
                ConditionOperand::Path { path } => assert_eq!(path.parts(), &["count".to_string()]),
                other => panic!("Expected path, got {other:?}"),
            }
            assert!(matches!(right, ConditionOperand::Literal(Value::Int(10))));
        }
        other => panic!("Expected Comparison, got {other:?}"),
    }
    assert!(matches!(parse_condition("x in items").unwrap(), Condition::Comparison { op: ComparisonOp::In, .. }));
    assert!(matches!(parse_condition("a != 'b'").unwrap(), Condition::Comparison { op: ComparisonOp::Ne, .. }));
    assert!(matches!(parse_condition("a < b").unwrap(), Condition::Comparison { op: ComparisonOp::Lt, .. }));
    assert!(matches!(parse_condition("len(xs) > 0").unwrap(), Condition::Comparison { left: ConditionOperand::Len(_), op: ComparisonOp::Gt, .. }));
}

#[test]
fn condition_not_and_parens() {
    match parse_condition("!(x > 1)").unwrap() {
        Condition::Not(inner) => assert!(matches!(*inner, Condition::Comparison { op: ComparisonOp::Gt, .. })),
        other => panic!("Expected Not, got {other:?}"),
    }
    assert!(matches!(parse_condition("((flag))").unwrap(), Condition::Truthy(_)));
}

#[test]
fn condition_match_as_condition() {
    match parse_condition("match status case Approved | Rejected").unwrap() {
        Condition::MatchVariant { expr, variants, is_option } => {
            assert_eq!(expr.parts(), &["status".to_string()]);
            assert_eq!(variants, vec!["Approved".to_string(), "Rejected".to_string()]);
            assert!(!is_option);
        }
        other => panic!("Expected MatchVariant, got {other:?}"),
    }
    assert!(matches!(parse_condition("match x case Some").unwrap(), Condition::MatchVariant { is_option: true, .. }));
    assert_eq!(
        parse_condition("match x").unwrap_err().message(),
        "match-as-condition: expected 'case' keyword after expression"
    );
}

#[test]
fn condition_interpolated_operand() {
    match parse_condition("\"{{ name }}!\" == greeting").unwrap() {
        Condition::Comparison { left: ConditionOperand::InterpolatedStr(segs), .. } => {
            assert_eq!(segs.len(), 3);
            assert!(matches!(&segs[0], Segment::Static(s) if s.is_empty()));
            assert!(matches!(&segs[2], Segment::Static(s) if s == "!"));
        }
        other => panic!("Expected interpolated comparison, got {other:?}"),
    }
}

#[test]
fn condition_errors() {
    assert_eq!(parse_condition("  ").unwrap_err().message(), "empty condition");
    assert_eq!(
        parse_condition("a &&").unwrap_err().message(),
        "dangling '&&' operator: missing right-hand expression"
    );
    assert_eq!(
        parse_condition("(a && b").unwrap_err().message(),
        "unclosed '(' in condition: '(a && b' \u{2014} missing matching ')'"
    );
    assert_eq!(parse_condition("a || || b").unwrap_err().message(), "empty expression in condition");
}

#[test]
fn top_level_helpers() {
    let parts = split_top_level(&chars("a || (b || c) || 'x || y'"), &chars("||")).unwrap();
    let parts: Vec<String> = parts.iter().map(|p| p.iter().collect()).collect();
    assert_eq!(parts, vec!["a", "(b || c)", "'x || y'"]);
    assert_eq!(strip_balanced_parens(&chars("(a (b))")).map(|v| v.iter().collect::<String>()), Some("a (b)".to_string()));
    assert_eq!(strip_balanced_parens(&chars("(a) (b)")), None);
    assert_eq!(find_top_level_op(&chars("(x == 1) == y"), &chars("==")), Some(9));
    assert_eq!(find_top_level_op(&chars("'a == b'"), &chars("==")), None);
}

#[test]
fn path_from_parts_needs_a_part() {
    assert!(CompiledPath::from_parts(vec![]).is_none());
    let p = CompiledPath::from_parts(vec!["a".to_string(), "b".to_string()]).unwrap();
    assert_eq!(p.parts(), &["a".to_string(), "b".to_string()]);
}
