use yaswitch::engine::result::ReasonCode;
use yaswitch::engine::template_engine::{inject_managed_block, render_template};

fn context(pairs: &[(&str, &str)]) -> Vec<(String, String)> {
    pairs
        .iter()
        .map(|(k, v)| (k.to_string(), v.to_string()))
        .collect()
}

#[test]
fn template_renders_expected_values() {
    let template = "background={{base00}}\nforeground={{base05}}";

    let context = context(&[("base00", "#000000"), ("base05", "#f5f5f5")]);

    let rendered = render_template(template, &context).expect("expected template to render");

    assert_eq!(rendered, "background=#000000\nforeground=#f5f5f5");
}

#[test]
fn marker_injection_replaces_only_managed_block() {
    let original = "user_setting=yes\n# yaswitch:begin\nold=1\n# yaswitch:end\ncustom_tail=true\n";
    let updated =
        inject_managed_block(original, "new=2", false).expect("expected managed block replacement");

    assert!(updated.contains("user_setting=yes"));
    assert!(updated.contains("custom_tail=true"));
    assert!(updated.contains("new=2"));
    assert!(!updated.contains("old=1"));
}

#[test]
fn marker_injection_appends_block_when_allowed() {
    let original = "existing=value\n";
    let updated = inject_managed_block(original, "generated=true", true)
        .expect("expected managed block append");

    assert!(updated.contains("existing=value"));
    assert!(updated.contains("# yaswitch:begin"));
    assert!(updated.contains("generated=true"));
    assert!(updated.contains("# yaswitch:end"));
}

#[test]
fn marker_injection_rejects_when_append_disallowed() {
    let original = "existing=value\n";
    let error = inject_managed_block(original, "generated=true", false)
        .expect_err("expected append-disabled injection to fail");

    assert_eq!(error.code(), ReasonCode::MarkerNotFoundAppendDisabled);
}

#[test]
fn template_render_rejects_missing_values() {
    let template = "fg={{base05}}\nbg={{base00}}\naccent={{base08}}";
    let context = context(&[("base05", "#f5f5f5"), ("base00", "#101010")]);

    let error = render_template(template, &context)
        .expect_err("expected rendering to fail for missing key");

    assert_eq!(error.code(), ReasonCode::TemplateKeyMissing);
}

#[test]
fn missing_keys_are_listed_sorted_and_once() {
    let template = "{{ zeta }} {{alpha}} {{zeta}} {{}} {{ }} {{beta";
    let error = render_template(template, &Vec::new()).expect_err("expected missing keys");
    assert_eq!(error.code(), ReasonCode::TemplateKeyMissing);
    assert_eq!(error.message(), "missing template keys: alpha, zeta");
}

#[test]
fn blank_and_unclosed_placeholders_are_not_missing_keys() {
    let rendered = render_template("a {{}} b {{  }} c {{open", &Vec::new())
        .expect("expected blank placeholders to pass");
    assert_eq!(rendered, "a {{}} b {{  }} c {{open");
}

#[test]
fn replacement_applies_every_occurrence() {
    let context = context(&[("x", "1")]);
    let rendered = render_template("{{x}}{{x}}-{{x}}", &context).expect("expected render");
    assert_eq!(rendered, "11-1");
}

#[test]
fn injection_replaces_exact_block_text() {
    let original = "head\n# yaswitch:begin\nold\n# yaswitch:end\ntail";
    let updated = inject_managed_block(original, "new  \n\n", false).expect("expected splice");
    assert_eq!(updated, "head\n# yaswitch:begin\nnew\n# yaswitch:end\ntail");
}

#[test]
fn injection_into_blank_file_writes_block_only() {
    let updated = inject_managed_block("  \n", "c=1", true).expect("expected append");
    assert_eq!(updated, "# yaswitch:begin\nc=1\n# yaswitch:end\n");
}

#[test]
fn injection_appends_after_blank_line() {
    let updated = inject_managed_block("a=1\n\n", "c=1", true).expect("expected append");
    assert_eq!(updated, "a=1\n\n# yaswitch:begin\nc=1\n# yaswitch:end\n");
}

#[test]
fn injection_is_idempotent_on_a_managed_file() {
    let once = inject_managed_block("a=1\n", "c=1", true).expect("expected append");
    let twice = inject_managed_block(&once, "c=1", true).expect("expected splice");
    assert_eq!(once, twice);
}

#[test]
fn context_order_does_not_change_the_rendering() {
    let template = "bg={{base00}} fg={{base05}} again={{base00}} {{base05}}{{base00}}";
    let forward = render_template(template, &context(&[("base00", "#000000"), ("base05", "#555555")]))
        .expect("render");
    let backward = render_template(template, &context(&[("base05", "#555555"), ("base00", "#000000")]))
        .expect("render");
    assert_eq!(forward, backward);
    assert_eq!(forward, "bg=#000000 fg=#555555 again=#000000 #555555#000000");
}

#[test]
fn any_permutation_of_the_context_renders_alike() {
    let template = "{{a}}-{{b}}-{{c}}|{{c}}{{a}}{{b}}|{ x }|}}";
    let pairs = [("a", "1"), ("b", "22"), ("c", "")];
    let orders = [[0, 1, 2], [0, 2, 1], [1, 0, 2], [1, 2, 0], [2, 0, 1], [2, 1, 0]];
    let mut results = Vec::new();
    for order in orders {
        let ctx: Vec<(&str, &str)> = order.iter().map(|&i| pairs[i]).collect();
        results.push(render_template(template, &context(&ctx)).expect("render"));
    }
    for r in &results {
        assert_eq!(r, "1-22-|122|{ x }|}}");
    }
}
