use cargo_licenses::cli::{Command, ManifestOptions, OutputFormat};
use cargo_licenses::fetch::LicenseReport;
use cargo_licenses::parse::{
    extract_dependencies, parse_deps_table, parse_manifest, unique_deps, Dep, ManifestError, Node,
};
use cargo_licenses::report::render_markdown;

fn dep(name: &str, version_req: &str) -> Dep {
    Dep { name: name.to_string(), version_req: version_req.to_string() }
}

fn text(s: &str) -> Node {
    Node::Text(s.to_string())
}

fn table(entries: Vec<(&str, Node)>) -> Node {
    Node::Table(entries.into_iter().map(|(k, v)| (k.to_string(), v)).collect())
}

const MANIFEST: &str = r#"
[package]
name = "demo"
version = "0.1.0"

[dependencies]
serde = "1.0"
reqwest = { version = "0.12", optional = true }
local = { path = "../local" }
tokio = { version = "1", features = ["rt"], optional = false }
odd = ["1", "2"]

[dev-dependencies]
serde = "1.0"
tempfile = "3"

[build-dependencies]
cc = "1.0"
serde = "2.0"
"#;

#[test]
fn reads_the_dependencies_section() {
    assert_eq!(
        parse_manifest(MANIFEST, false, false, false),
        Ok(vec![
            dep("local", "unspecified"),
            dep("odd", "unspecified"),
            dep("reqwest", "0.12"),
            dep("serde", "1.0"),
            dep("tokio", "1"),
        ])
    );
}

#[test]
fn skips_optional_dependencies_on_request() {
    assert_eq!(
        parse_manifest(MANIFEST, false, false, true),
        Ok(vec![
            dep("local", "unspecified"),
            dep("odd", "unspecified"),
            dep("serde", "1.0"),
            dep("tokio", "1"),
        ])
    );
}

#[test]
fn adds_dev_and_build_dependencies_on_request() {
    assert_eq!(
        parse_manifest(MANIFEST, true, false, true),
        Ok(vec![
            dep("local", "unspecified"),
            dep("odd", "unspecified"),
            dep("serde", "1.0"),
            dep("tokio", "1"),
            dep("tempfile", "3"),
        ])
    );
    assert_eq!(
        parse_manifest(MANIFEST, false, true, true),
        Ok(vec![
            dep("local", "unspecified"),
            dep("odd", "unspecified"),
            dep("serde", "1.0"),
            dep("tokio", "1"),
            dep("cc", "1.0"),
            dep("serde", "2.0"),
        ])
    );
    assert_eq!(
        parse_manifest(MANIFEST, true, true, true),
        Ok(vec![
            dep("local", "unspecified"),
            dep("odd", "unspecified"),
            dep("serde", "1.0"),
            dep("tokio", "1"),
            dep("tempfile", "3"),
            dep("cc", "1.0"),
            dep("serde", "2.0"),
        ])
    );
}

#[test]
fn a_manifest_without_dependencies_declares_none() {
    assert_eq!(parse_manifest("[package]\nname = \"x\"\n", true, true, false), Ok(Vec::new()));
    assert_eq!(parse_manifest("", true, true, false), Ok(Vec::new()));
    assert_eq!(parse_manifest("dependencies = 3\n", true, true, false), Ok(Vec::new()));
}

#[test]
fn text_that_is_no_toml_is_refused_with_the_parser_s_words() {
    let source = "[dependencies\nserde = ";
    let said = toml::from_str::<toml::Value>(source).unwrap_err().to_string();
    assert!(!said.is_empty());
    assert_eq!(
        parse_manifest(source, false, false, false),
        Err(ManifestError::Syntax { message: said })
    );
}

#[test]
fn a_version_that_is_no_string_counts_as_none() {
    let source = "[dependencies]\na = { version = 1 }\nb = { optional = \"true\" }\nc = 7\n";
    assert_eq!(
        parse_manifest(source, false, false, true),
        Ok(vec![dep("a", "unspecified"), dep("b", "unspecified"), dep("c", "unspecified")])
    );
}

#[test]
fn a_document_is_walked_in_the_order_given() {
    let doc = table(vec![
        ("package", table(vec![("name", text("demo"))])),
        (
            "dependencies",
            table(vec![
                ("zeta", text("1")),
                ("alpha", table(vec![("version", text("2")), ("optional", Node::Flag(true))])),
                ("mid", table(vec![("optional", Node::Flag(false))])),
                ("flag", Node::Flag(true)),
                ("other", Node::Other),
            ]),
        ),
        ("dev-dependencies", table(vec![("zeta", text("1")), ("zeta2", text("1"))])),
        ("build-dependencies", text("not a table")),
    ]);
    assert_eq!(
        extract_dependencies(&doc, true, true, false),
        vec![
            dep("zeta", "1"),
            dep("alpha", "2"),
            dep("mid", "unspecified"),
            dep("flag", "unspecified"),
            dep("other", "unspecified"),
            dep("zeta2", "1"),
        ]
    );
    assert_eq!(
        extract_dependencies(&doc, false, true, true),
        vec![
            dep("zeta", "1"),
            dep("mid", "unspecified"),
            dep("flag", "unspecified"),
            dep("other", "unspecified"),
        ]
    );
}

#[test]
fn a_document_that_is_no_table_declares_nothing() {
    assert_eq!(extract_dependencies(&text("x"), true, true, true), Vec::new());
    assert_eq!(extract_dependencies(&Node::Other, true, true, true), Vec::new());
    assert_eq!(extract_dependencies(&table(Vec::new()), true, true, true), Vec::new());
}

#[test]
fn of_entries_with_the_same_name_the_first_is_looked_up() {
    let doc = table(vec![
        ("dependencies", table(vec![("a", text("1"))])),
        ("dependencies", table(vec![("b", text("2"))])),
    ]);
    assert_eq!(extract_dependencies(&doc, false, false, false), vec![dep("a", "1")]);
}

#[test]
fn a_table_is_read_entry_by_entry() {
    let entries = vec![
        ("a".to_string(), text("1.0")),
        ("b".to_string(), table(vec![("optional", Node::Flag(true)), ("version", text("2"))])),
        ("c".to_string(), table(Vec::new())),
    ];
    assert_eq!(
        parse_deps_table(&entries, false),
        vec![dep("a", "1.0"), dep("b", "2"), dep("c", "unspecified")]
    );
    assert_eq!(parse_deps_table(&entries, true), vec![dep("a", "1.0"), dep("c", "unspecified")]);
    assert_eq!(parse_deps_table(&Vec::new(), true), Vec::new());
}

#[test]
fn repeats_are_dropped_and_first_occurrences_stay() {
    let deps = vec![
        dep("a", "1"),
        dep("b", "1"),
        dep("a", "1"),
        dep("a", "2"),
        dep("b", "1"),
        dep("c", "1"),
        dep("a", "2"),
    ];
    assert_eq!(
        unique_deps(deps),
        vec![dep("a", "1"), dep("b", "1"), dep("a", "2"), dep("c", "1")]
    );
    assert_eq!(unique_deps(Vec::new()), Vec::new());
}

#[test]
fn markdown_has_a_heading_and_a_line_for_each_report() {
    let reports = vec![
        LicenseReport {
            crate_name: "serde".to_string(),
            matched_version: "1.0.0".to_string(),
            license: "MIT OR Apache-2.0".to_string(),
        },
        LicenseReport {
            crate_name: "gone".to_string(),
            matched_version: "unknown".to_string(),
            license: "Failed: crates.io returned status 404 Not Found".to_string(),
        },
    ];
    assert_eq!(
        render_markdown(&reports),
        "# License Report\n\
         This report lists direct dependencies (async) and their matched licenses.\n\n\
         - **serde** (version: `1.0.0`) → *MIT OR Apache-2.0*\n\
         - **gone** (version: `unknown`) → *Failed: crates.io returned status 404 Not Found*\n"
    );
}

#[test]
fn markdown_of_no_reports_is_the_heading() {
    assert_eq!(
        render_markdown(&[]),
        "# License Report\nThis report lists direct dependencies (async) and their matched licenses.\n\n"
    );
}

#[test]
fn report_paths() {
    assert_eq!(OutputFormat::Md.report_path(), ".license_report.md");
    assert_eq!(OutputFormat::Json.report_path(), ".license_report.json");
}

#[test]
fn commands_say_which_dependencies_they_want() {
    let generate =
        Command::Generate { format: OutputFormat::Md, dev: true, build: false, skip_optional: true };
    assert_eq!(
        generate.manifest_options(),
        Some(ManifestOptions { include_dev: true, include_build: false, skip_optional: true })
    );
    let list = Command::List { dev: false, build: true, skip_optional: false };
    assert_eq!(
        list.manifest_options(),
        Some(ManifestOptions { include_dev: false, include_build: true, skip_optional: false })
    );
    let check = Command::Check {
        deny: vec!["GPL-3.0".to_string()],
        allow: Vec::new(),
        dev: true,
        build: true,
        skip_optional: false,
    };
    assert_eq!(
        check.manifest_options(),
        Some(ManifestOptions { include_dev: true, include_build: true, skip_optional: false })
    );
    assert_eq!(Command::Version.manifest_options(), None);
}
