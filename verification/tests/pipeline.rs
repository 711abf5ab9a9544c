use mimic_token_orchestrator::emit::build_artifacts;
use mimic_token_orchestrator::governance::validate;
use mimic_token_orchestrator::ingest::{load_tokens_from_value, RawValue};
use mimic_token_orchestrator::{run, OrchestratorError, RunConfig};

fn text(v: &str) -> RawValue {
    RawValue::Text(v.to_string())
}

fn number(v: &str) -> RawValue {
    RawValue::Number(v.to_string())
}

fn obj(entries: Vec<(&str, RawValue)>) -> RawValue {
    RawValue::Object(entries.into_iter().map(|(k, v)| (k.to_string(), v)).collect())
}

fn token_leaf(token_type: &str, value: RawValue) -> RawValue {
    obj(vec![("$value", value), ("$type", text(token_type))])
}

fn fixture_document() -> RawValue {
    obj(vec![(
        "collections",
        obj(vec![(
            "core",
            obj(vec![
                (
                    "color",
                    obj(vec![
                        ("brand", token_leaf("color", text("#3366FF"))),
                        ("accent", token_leaf("color", text("#FF6F61"))),
                    ]),
                ),
                (
                    "size",
                    obj(vec![(
                        "spacing",
                        obj(vec![("md", token_leaf("dimension", number("16")))]),
                    )]),
                ),
                (
                    "opacity",
                    obj(vec![("disabled", token_leaf("opacity", number("0.4")))]),
                ),
            ]),
        )]),
    )])
}

fn config_for(dir: &str, validate_only: bool) -> RunConfig {
    RunConfig {
        input: "tokens.json".to_string(),
        output_dir: dir.to_string(),
        validate_only,
        enable_telemetry: true,
        airgap: true,
    }
}

#[test]
fn orchestrator_generates_outputs() {
    let summary = run(config_for("out", false), fixture_document()).expect("run should succeed");
    assert_eq!(summary.token_count, 4);
    let plan = summary.outputs.expect("emission was requested");

    assert_eq!(plan.paths.css, "out/css/tokens.css");
    assert_eq!(plan.paths.module, "out/ts/tokens.ts");
    assert_eq!(plan.paths.compose, "out/compose/Tokens.kt");
    assert_eq!(plan.paths.dart, "out/dart/tokens.dart");

    let css = &plan.bundle.css;
    assert!(css.contains("--core-color-brand: #3366FF;"));
    assert!(css.contains("--core-size-spacing-md: 16;"));

    let module = &plan.bundle.module;
    assert!(module.contains("export const tokens"));
    assert!(module.contains("\"core.color.accent\": \"#FF6F61\""));

    let compose = &plan.bundle.compose;
    assert!(compose.contains("object Tokens"));
    assert!(compose.contains("val CoreColorBrand"));

    let dart = &plan.bundle.dart;
    assert!(dart.contains("class Tokens"));
    assert!(dart.contains("static const coreColorBrand"));
}

#[test]
fn validate_only_skips_emission() {
    let summary = run(config_for("out", true), fixture_document()).expect("run should succeed");
    assert_eq!(summary.token_count, 4);
    assert!(summary.outputs.is_none());
}

#[test]
fn missing_type_fails_governance() {
    let document = obj(vec![(
        "collections",
        obj(vec![(
            "core",
            obj(vec![("broken", obj(vec![("$value", text("#000000"))]))]),
        )]),
    )]);
    let err = run(config_for("out", false), document).expect_err("governance rejects this export");
    match err {
        OrchestratorError::Governance(report) => {
            assert!(report.contains("core.broken"));
            assert!(report.contains("no recognised type"));
        }
        other => panic!("expected a governance error, got {:?}", other),
    }
}

#[test]
fn governance_reports_all_violations_in_one_pass() {
    let document = obj(vec![(
        "collections",
        obj(vec![(
            "core",
            obj(vec![
                ("first", obj(vec![("$value", text("a"))])),
                ("second", obj(vec![("$value", RawValue::Null), ("$type", text("color"))])),
            ]),
        )]),
    )]);
    let tokens = load_tokens_from_value(document).expect("the shape is fine");
    let err = validate(&tokens).expect_err("two tokens violate");
    match err {
        OrchestratorError::Governance(report) => {
            assert_eq!(report.lines().count(), 2);
            assert!(report.contains("- core.first has no recognised type\n"));
            assert!(report.contains("- core.second has a null value\n"));
        }
        other => panic!("expected a governance error, got {:?}", other),
    }
}

#[test]
fn empty_segment_and_null_are_reported() {
    let document = obj(vec![(
        "collections",
        obj(vec![(
            "core",
            obj(vec![("  ", token_leaf("color", RawValue::Null))]),
        )]),
    )]);
    let tokens = load_tokens_from_value(document).expect("the shape is fine");
    let err = validate(&tokens).expect_err("two rules are violated");
    match err {
        OrchestratorError::Governance(report) => {
            assert!(report.contains("contains an empty path segment"));
            assert!(report.contains("has a null value"));
            assert_eq!(report.lines().count(), 2);
        }
        other => panic!("expected a governance error, got {:?}", other),
    }
}

#[test]
fn zero_tokens_render_bare_wrappers() {
    let document = obj(vec![("collections", obj(vec![]))]);
    let summary = run(config_for("out", false), document).expect("an empty export is valid");
    assert_eq!(summary.token_count, 0);
    let plan = summary.outputs.expect("emission was requested");
    assert_eq!(plan.bundle.css, ":root {\n}\n");
    assert_eq!(plan.bundle.module, "export const tokens = {\n};\n");
    assert_eq!(plan.bundle.compose, "object Tokens {\n}\n");
    assert_eq!(plan.bundle.dart, "class Tokens {\n}\n");
}

#[test]
fn missing_collections_entry_is_an_empty_export() {
    let summary = run(config_for("out", false), obj(vec![])).expect("an absent mapping is empty");
    assert_eq!(summary.token_count, 0);
}

#[test]
fn identical_documents_give_identical_bundles() {
    let a = run(config_for("out", false), fixture_document()).expect("run should succeed");
    let b = run(config_for("out", false), fixture_document()).expect("run should succeed");
    let pa = a.outputs.expect("emitted");
    let pb = b.outputs.expect("emitted");
    assert_eq!(pa.bundle.css, pb.bundle.css);
    assert_eq!(pa.bundle.module, pb.bundle.module);
    assert_eq!(pa.bundle.compose, pb.bundle.compose);
    assert_eq!(pa.bundle.dart, pb.bundle.dart);
    assert_eq!(pa.paths.css, pb.paths.css);
}

#[test]
fn artifacts_are_idempotent_per_token_list() {
    let tokens = load_tokens_from_value(fixture_document()).expect("the shape is fine");
    let first = build_artifacts(&tokens);
    let second = build_artifacts(&tokens);
    assert_eq!(first.css, second.css);
    assert_eq!(first.module, second.module);
    assert_eq!(first.compose, second.compose);
    assert_eq!(first.dart, second.dart);
}

#[test]
fn tokens_come_out_sorted_by_path() {
    let document = obj(vec![(
        "collections",
        obj(vec![(
            "zeta",
            obj(vec![
                ("b", token_leaf("color", text("#02"))),
                ("a", token_leaf("color", text("#01"))),
            ]),
        ), (
            "alpha",
            obj(vec![("x", token_leaf("color", text("#03")))]),
        )]),
    )]);
    let tokens = load_tokens_from_value(document).expect("the shape is fine");
    let dotted: Vec<String> = tokens.iter().map(|t| t.path.join(".")).collect();
    assert_eq!(dotted, vec!["alpha.x", "zeta.a", "zeta.b"]);
}

#[test]
fn string_values_are_escaped_in_quoted_literals() {
    let document = obj(vec![(
        "collections",
        obj(vec![(
            "core",
            obj(vec![("tricky", token_leaf("content", text("a\"b\\c\nd")))]),
        )]),
    )]);
    let tokens = load_tokens_from_value(document).expect("the shape is fine");
    let bundle = build_artifacts(&tokens);
    assert!(bundle.module.contains("\"a\\\"b\\\\c\\nd\""));
    assert!(bundle.dart.contains("static const coreTricky = \"a\\\"b\\\\c\\nd\";"));
}

#[test]
fn structured_values_render_as_json() {
    let document = obj(vec![(
        "collections",
        obj(vec![(
            "core",
            obj(vec![(
                "shadow",
                token_leaf(
                    "shadow",
                    obj(vec![("x", number("1")), ("y", number("2"))]),
                ),
            )]),
        )]),
    )]);
    let tokens = load_tokens_from_value(document).expect("the shape is fine");
    let bundle = build_artifacts(&tokens);
    assert!(bundle.module.contains("\"core.shadow\": {\"x\":1,\"y\":2},"));
    assert!(bundle.compose.contains("val CoreShadow = \"{\\\"x\\\":1,\\\"y\\\":2}\""));
}

#[test]
fn non_object_document_is_a_parse_error() {
    let err = run(config_for("out", false), text("nope")).expect_err("not an export");
    match err {
        OrchestratorError::Parse(m) => assert_eq!(m, "document root is not an object"),
        other => panic!("expected a parse error, got {:?}", other),
    }
}

#[test]
fn non_object_collections_is_a_parse_error() {
    let document = obj(vec![("collections", text("nope"))]);
    let err = run(config_for("out", false), document).expect_err("not an export");
    match err {
        OrchestratorError::Parse(m) => assert_eq!(m, "collections is not an object"),
        other => panic!("expected a parse error, got {:?}", other),
    }
}

#[test]
fn non_object_entry_is_a_parse_error() {
    let document = obj(vec![(
        "collections",
        obj(vec![("core", obj(vec![("oops", text("leaf without a wrapper"))]))]),
    )]);
    let err = run(config_for("out", false), document).expect_err("not an export");
    match err {
        OrchestratorError::Parse(m) => assert_eq!(m, "core.oops is not an object"),
        other => panic!("expected a parse error, got {:?}", other),
    }
}

#[test]
fn non_string_type_is_a_parse_error() {
    let document = obj(vec![(
        "collections",
        obj(vec![(
            "core",
            obj(vec![(
                "bad",
                obj(vec![("$value", text("#fff")), ("$type", number("3"))]),
            )]),
        )]),
    )]);
    let err = run(config_for("out", false), document).expect_err("not an export");
    match err {
        OrchestratorError::Parse(m) => assert_eq!(m, "core.bad has a non-string $type"),
        other => panic!("expected a parse error, got {:?}", other),
    }
}

#[test]
fn non_string_description_is_a_parse_error() {
    let document = obj(vec![(
        "collections",
        obj(vec![(
            "core",
            obj(vec![(
                "bad",
                obj(vec![
                    ("$value", text("#fff")),
                    ("$type", text("color")),
                    ("$description", RawValue::Bool(true)),
                ]),
            )]),
        )]),
    )]);
    let err = run(config_for("out", false), document).expect_err("not an export");
    match err {
        OrchestratorError::Parse(m) => assert_eq!(m, "core.bad has a non-string $description"),
        other => panic!("expected a parse error, got {:?}", other),
    }
}

#[test]
fn value_key_wins_over_nested_groups() {
    // An object that carries both a $value and unrelated nested keys is a
    // token, by the documented precedence choice.
    let document = obj(vec![(
        "collections",
        obj(vec![(
            "core",
            obj(vec![(
                "ambiguous",
                obj(vec![
                    ("$value", text("#abc")),
                    ("$type", text("color")),
                    ("extra", obj(vec![("$value", text("#def"))])),
                ]),
            )]),
        )]),
    )]);
    let tokens = load_tokens_from_value(document).expect("the shape is fine");
    assert_eq!(tokens.len(), 1);
    assert_eq!(tokens[0].path.join("."), "core.ambiguous");
}

#[test]
fn absent_type_defaults_to_the_sentinel() {
    let document = obj(vec![(
        "collections",
        obj(vec![(
            "core",
            obj(vec![("untyped", obj(vec![("$value", text("x"))]))]),
        )]),
    )]);
    let tokens = load_tokens_from_value(document).expect("the shape is fine");
    assert_eq!(tokens.len(), 1);
    assert_eq!(tokens[0].token_type, "unknown");
}

#[test]
fn with_defaults_names_the_stock_paths() {
    let config = RunConfig::with_defaults();
    assert_eq!(config.input, "tokens.json");
    assert_eq!(config.output_dir, "packages/tokens-outputs");
    assert!(!config.validate_only);
    assert!(config.enable_telemetry);
    assert!(!config.airgap);
}

#[test]
fn error_descriptions_name_their_kind() {
    assert_eq!(
        OrchestratorError::Io("gone".to_string()).describe(),
        "failed to read or write: gone"
    );
    assert_eq!(
        OrchestratorError::Parse("bad".to_string()).describe(),
        "failed to parse the export document: bad"
    );
    assert_eq!(
        OrchestratorError::Governance("rule".to_string()).describe(),
        "governance violation: rule"
    );
    assert_eq!(
        OrchestratorError::Telemetry("down".to_string()).describe(),
        "telemetry error: down"
    );
}

#[test]
fn casing_transforms_follow_each_target() {
    let document = obj(vec![(
        "collections",
        obj(vec![(
            "Core",
            obj(vec![(
                "BrandColor",
                obj(vec![("Main", token_leaf("color", text("#123456")))]),
            )]),
        )]),
    )]);
    let tokens = load_tokens_from_value(document).expect("the shape is fine");
    let bundle = build_artifacts(&tokens);
    assert!(bundle.css.contains("--core-brandcolor-main: #123456;"));
    assert!(bundle.module.contains("\"Core.BrandColor.Main\": \"#123456\""));
    assert!(bundle.compose.contains("val CoreBrandColorMain = \"#123456\""));
    assert!(bundle.dart.contains("static const coreBrandColorMain = \"#123456\";"));
}

#[test]
fn unicode_whitespace_type_is_unrecognised() {
    // U+00A0 (no-break space) has the Unicode White_Space property, so a
    // type tag made of it alone counts as blank.
    let document = obj(vec![(
        "collections",
        obj(vec![(
            "core",
            obj(vec![(
                "nbsp",
                obj(vec![("$value", text("#fff")), ("$type", text("\u{00A0}"))]),
            )]),
        )]),
    )]);
    let tokens = load_tokens_from_value(document).expect("the shape is fine");
    let err = validate(&tokens).expect_err("a blank type violates rule 1");
    match err {
        OrchestratorError::Governance(report) => {
            assert!(report.contains("- core.nbsp has no recognised type\n"));
            assert_eq!(report.lines().count(), 1);
        }
        other => panic!("expected a governance error, got {:?}", other),
    }
}

#[test]
fn unicode_whitespace_segment_is_empty() {
    // U+2003 (em space) is White_Space too, so a segment of it alone is
    // reported as empty.
    let document = obj(vec![(
        "collections",
        obj(vec![(
            "core",
            obj(vec![("\u{2003}", token_leaf("color", text("#fff")))]),
        )]),
    )]);
    let tokens = load_tokens_from_value(document).expect("the shape is fine");
    let err = validate(&tokens).expect_err("a blank segment violates rule 2");
    match err {
        OrchestratorError::Governance(report) => {
            assert!(report.contains("contains an empty path segment"));
            assert_eq!(report.lines().count(), 1);
        }
        other => panic!("expected a governance error, got {:?}", other),
    }
}
