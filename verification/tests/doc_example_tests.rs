use md_tmpl_core::doc_examples::{extract_template_blocks, has_empty_body, inject_allow_unused, is_expected_standalone_failure};

#[test]
fn extract_finds_template_blocks() {
    let md = r"Some text

```yaml
---
params:
  - name = str
---
Hello {{ name }}
```

More text
";
    let blocks = extract_template_blocks(md, "test.md");
    assert_eq!(blocks.len(), 1);
    assert!(blocks[0].content.starts_with("---"));
    assert!(blocks[0].content.contains("name = str"));
}

#[test]
fn extract_reports_fence_lines_and_skips_non_templates() {
    let md = "intro\n```\nnot a template\n```\n\n```md\n---\nname: a\n---\nA\n```\ntext\n```\n---\n<frontmatter>\n---\n<body>\n```\n```\n---\nparams: []\n---\nB\n```\n";
    let blocks = extract_template_blocks(md, "doc.md");
    assert_eq!(blocks.len(), 2);
    assert_eq!(blocks[0].line, 6);
    assert_eq!(blocks[0].content, "---\nname: a\n---\nA");
    assert_eq!(blocks[1].line, 19);
    assert_eq!(blocks[1].file, "doc.md");
}

#[test]
fn has_empty_body_detects_frontmatter_only() {
    assert!(has_empty_body("---\nparams:\n  - x = str\n---\n"));
    assert!(has_empty_body("---\nparams:\n  - x = str\n---"));
    assert!(!has_empty_body("---\nparams:\n  - x = str\n---\nHello {{ x }}"));
}

#[test]
fn has_empty_body_without_frontmatter() {
    assert!(!has_empty_body("Hello"));
    assert!(has_empty_body("---\nname: x"));
}

#[test]
fn inject_allow_unused_inserts_correctly() {
    let src = "---\nparams:\n  - x = str\n---\n";
    let injected = inject_allow_unused(src);
    assert!(injected.contains("allow_unused: true"));
    assert!(injected.contains("params:"));
}

#[test]
fn inject_allow_unused_exact_text() {
    let src = "  ---\nparams: []\n---\n  ";
    assert_eq!(inject_allow_unused(src), "---\nparams: []\n\nallow_unused: true\n---");
    assert_eq!(inject_allow_unused("---\nno close"), "---\nno close");
}

#[test]
fn standalone_failures() {
    assert!(is_expected_standalone_failure("env 'X': no value provided and no default"));
    assert!(is_expected_standalone_failure("unknown type 'lib.T'"));
    assert!(is_expected_standalone_failure("unresolvable expression 'X' in import path"));
    assert!(!is_expected_standalone_failure("unclosed YAML frontmatter block"));
}
