//! Errors reported while parsing template frontmatter and conditions.
use vstd::prelude::*;

verus! {

/// An error found in template source.
#[derive(Debug, Clone, PartialEq, Eq)]
pub enum TemplateError {
    /// The source does not start with a `---` frontmatter block.
    MissingFrontmatter,
    /// The frontmatter block has no closing `---` line.
    UnclosedFrontmatter,
    /// A section key follows a block list without a blank line between them
    /// (the payload is the trimmed section line).
    BlankLineRequired(String),
    /// A list value is neither `[a, b]` nor a block of `- item` lines.
    MalformedList(String),
    /// A declaration has no `= type` part (the payload is the declaration).
    MissingTypeAnnotation(String),
    /// A declared name is not an identifier.
    InvalidName(String),
    /// A type annotation names no known type.
    UnknownType(String),
    /// A default value does not have the declared type.
    DefaultTypeMismatch { name: String, expected: String, actual: String },
    /// A default value cannot be read.
    InvalidDefault { name: String, text: String },
    /// A constant is declared without a value.
    ConstWithoutValue(String),
    /// A name is declared twice across `params:`, `consts:` and `env:`.
    DuplicateName(String),
    /// A struct or list type alias is used by no declaration.
    UnusedTypeAlias(String),
    /// An `env:` entry has neither a provided value nor a default.
    EnvMissing(String),
    /// A provided `env:` string does not parse as the declared scalar type.
    EnvInvalid { name: String, expected: String, raw: String },
    /// An `imports:` entry is not `[stem](path)`.
    InvalidImport(String),
    /// A `{{ expr }}` in an import path names no string constant.
    UnresolvableExpression(String),
    /// Any other syntax error, with its message.
    Syntax(String),
}

/// The mathematical content of a [`TemplateError`].
pub enum Fault {
    MissingFrontmatter,
    UnclosedFrontmatter,
    BlankLineRequired(Seq<char>),
    MalformedList(Seq<char>),
    MissingTypeAnnotation(Seq<char>),
    InvalidName(Seq<char>),
    UnknownType(Seq<char>),
    DefaultTypeMismatch { name: Seq<char>, expected: Seq<char>, actual: Seq<char> },
    InvalidDefault { name: Seq<char>, text: Seq<char> },
    ConstWithoutValue(Seq<char>),
    DuplicateName(Seq<char>),
    UnusedTypeAlias(Seq<char>),
    EnvMissing(Seq<char>),
    EnvInvalid { name: Seq<char>, expected: Seq<char>, raw: Seq<char> },
    InvalidImport(Seq<char>),
    UnresolvableExpression(Seq<char>),
    Syntax(Seq<char>),
}

impl View for TemplateError {
    type V = Fault;

    open spec fn view(&self) -> Fault {
        match self {
            TemplateError::MissingFrontmatter => Fault::MissingFrontmatter,
            TemplateError::UnclosedFrontmatter => Fault::UnclosedFrontmatter,
            TemplateError::BlankLineRequired(t) => Fault::BlankLineRequired(t@),
            TemplateError::MalformedList(t) => Fault::MalformedList(t@),
            TemplateError::MissingTypeAnnotation(t) => Fault::MissingTypeAnnotation(t@),
            TemplateError::InvalidName(t) => Fault::InvalidName(t@),
            TemplateError::UnknownType(t) => Fault::UnknownType(t@),
            TemplateError::DefaultTypeMismatch { name, expected, actual } =>
                Fault::DefaultTypeMismatch { name: name@, expected: expected@, actual: actual@ },
            TemplateError::InvalidDefault { name, text } => Fault::InvalidDefault {
                name: name@,
                text: text@,
            },
            TemplateError::ConstWithoutValue(t) => Fault::ConstWithoutValue(t@),
            TemplateError::DuplicateName(t) => Fault::DuplicateName(t@),
            TemplateError::UnusedTypeAlias(t) => Fault::UnusedTypeAlias(t@),
            TemplateError::EnvMissing(t) => Fault::EnvMissing(t@),
            TemplateError::EnvInvalid { name, expected, raw } => Fault::EnvInvalid {
                name: name@,
                expected: expected@,
                raw: raw@,
            },
            TemplateError::InvalidImport(t) => Fault::InvalidImport(t@),
            TemplateError::UnresolvableExpression(t) => Fault::UnresolvableExpression(t@),
            TemplateError::Syntax(t) => Fault::Syntax(t@),
        }
    }
}

/// The text of an error as users see it.
pub open spec fn fault_message(f: Fault) -> Seq<char> {
    match f {
        Fault::MissingFrontmatter => "missing mandatory YAML frontmatter block (the template must start with '---')"@,
        Fault::UnclosedFrontmatter => "unclosed YAML frontmatter block (no closing '---' line)"@,
        Fault::BlankLineRequired(t) => "A blank line is required after a block list before '"@ + t
            + "' so raw markdown renders correctly"@,
        Fault::MalformedList(t) => "expected a '[...]' list or '- item' lines, got '"@ + t + "'"@,
        Fault::MissingTypeAnnotation(t) => "declaration '"@ + t
            + "' is missing a type annotation (write 'name = type')"@,
        Fault::InvalidName(t) => "invalid name '"@ + t + "'"@,
        Fault::UnknownType(t) => "unknown type '"@ + t + "'"@,
        Fault::DefaultTypeMismatch { name, expected, actual } => "default for '"@ + name
            + "': value has type "@ + actual + ", expected "@ + expected,
        Fault::InvalidDefault { name, text } => "default for '"@ + name + "': cannot read '"@
            + text + "'"@,
        Fault::ConstWithoutValue(t) => "const '"@ + t + "' has no value (write 'NAME = type := value')"@,
        Fault::DuplicateName(t) => "name '"@ + t + "' is declared more than once"@,
        Fault::UnusedTypeAlias(t) => "unused type alias '"@ + t
            + "' (set 'allow_unused: true' to keep it)"@,
        Fault::EnvMissing(t) => "env '"@ + t + "': no value provided and no default"@,
        Fault::EnvInvalid { name, expected, raw } => "env '"@ + name + "': expected "@ + expected
            + ", got '"@ + raw + "'"@,
        Fault::InvalidImport(t) => "invalid import '"@ + t + "' (expected '[stem](path)')"@,
        Fault::UnresolvableExpression(t) => "unresolvable expression '"@ + t
            + "' in import path"@,
        Fault::Syntax(t) => t,
    }
}

impl TemplateError {
    /// The error message.
    pub fn message(&self) -> (r: String)
        ensures
            r@ == fault_message(self@),
    {
        match self {
            TemplateError::MissingFrontmatter => String::from_str(
                "missing mandatory YAML frontmatter block (the template must start with '---')",
            ),
            TemplateError::UnclosedFrontmatter => String::from_str(
                "unclosed YAML frontmatter block (no closing '---' line)",
            ),
            TemplateError::BlankLineRequired(t) => {
                let mut r = String::from_str(
                    "A blank line is required after a block list before '",
                );
                r.append(t.as_str());
                r.append("' so raw markdown renders correctly");
                r
            },
            TemplateError::MalformedList(t) => {
                let mut r = String::from_str("expected a '[...]' list or '- item' lines, got '");
                r.append(t.as_str());
                r.append("'");
                r
            },
            TemplateError::MissingTypeAnnotation(t) => {
                let mut r = String::from_str("declaration '");
                r.append(t.as_str());
                r.append("' is missing a type annotation (write 'name = type')");
                r
            },
            TemplateError::InvalidName(t) => {
                let mut r = String::from_str("invalid name '");
                r.append(t.as_str());
                r.append("'");
                r
            },
            TemplateError::UnknownType(t) => {
                let mut r = String::from_str("unknown type '");
                r.append(t.as_str());
                r.append("'");
                r
            },
            TemplateError::DefaultTypeMismatch { name, expected, actual } => {
                let mut r = String::from_str("default for '");
                r.append(name.as_str());
                r.append("': value has type ");
                r.append(actual.as_str());
                r.append(", expected ");
                r.append(expected.as_str());
                r
            },
            TemplateError::InvalidDefault { name, text } => {
                let mut r = String::from_str("default for '");
                r.append(name.as_str());
                r.append("': cannot read '");
                r.append(text.as_str());
                r.append("'");
                r
            },
            TemplateError::ConstWithoutValue(t) => {
                let mut r = String::from_str("const '");
                r.append(t.as_str());
                r.append("' has no value (write 'NAME = type := value')");
                r
            },
            TemplateError::DuplicateName(t) => {
                let mut r = String::from_str("name '");
                r.append(t.as_str());
                r.append("' is declared more than once");
                r
            },
            TemplateError::UnusedTypeAlias(t) => {
                let mut r = String::from_str("unused type alias '");
                r.append(t.as_str());
                r.append("' (set 'allow_unused: true' to keep it)");
                r
            },
            TemplateError::EnvMissing(t) => {
                let mut r = String::from_str("env '");
                r.append(t.as_str());
                r.append("': no value provided and no default");
                r
            },
            TemplateError::EnvInvalid { name, expected, raw } => {
                let mut r = String::from_str("env '");
                r.append(name.as_str());
                r.append("': expected ");
                r.append(expected.as_str());
                r.append(", got '");
                r.append(raw.as_str());
                r.append("'");
                r
            },
            TemplateError::InvalidImport(t) => {
                let mut r = String::from_str("invalid import '");
                r.append(t.as_str());
                r.append("' (expected '[stem](path)')");
                r
            },
            TemplateError::UnresolvableExpression(t) => {
                let mut r = String::from_str("unresolvable expression '");
                r.append(t.as_str());
                r.append("' in import path");
                r
            },
            TemplateError::Syntax(t) => t.clone(),
        }
    }
}

} // verus!
