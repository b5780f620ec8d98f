use lightignore::config::{build_options_list, build_previous_selection, check_invalid_templates,
    check_shadowed_templates, load_or_default_config, update_and_save_config,
    validate_all_custom_templates, validate_config, validate_custom_template, ConfigError,
    CustomTemplate, LignoreConfig, TemplateValidationError, MAX_CUSTOM_TEMPLATE_LINES};

fn s(x: &str) -> String {
    x.to_string()
}

fn config_with(templates: Vec<&str>, custom: Vec<(&str, Vec<&str>)>) -> LignoreConfig {
    let mut cfg = LignoreConfig::empty();
    cfg.templates = templates.into_iter().map(s).collect();
    cfg.custom = custom
        .into_iter()
        .map(|(name, lines)| CustomTemplate {
            name: s(name),
            lines: lines.into_iter().map(s).collect(),
        })
        .collect();
    cfg
}

#[test]
fn custom_template_within_limits_is_accepted() {
    let r = validate_custom_template(&s("mine"), &vec![s("target/"), s("*.log")]);
    assert_eq!(r, Ok(()));
}

#[test]
fn custom_template_with_too_many_lines_is_rejected() {
    let lines: Vec<String> = (0..MAX_CUSTOM_TEMPLATE_LINES + 1).map(|_| s("x")).collect();
    let r = validate_custom_template(&s("mine"), &lines);
    assert_eq!(r, Err(TemplateValidationError::TooManyLines { count: 10001 }));
}

#[test]
fn custom_template_too_large_reports_its_size() {
    let lines = vec!["y".repeat(60000), "z".repeat(60000)];
    let r = validate_custom_template(&s("mine"), &lines);
    assert_eq!(r, Err(TemplateValidationError::TooLarge { size: 120000 }));
}

#[test]
fn custom_template_size_counts_bytes_not_characters() {
    // 51300 two-byte characters exceed the 102400-byte budget even though
    // the character count stays well under it.
    let lines = vec!["é".repeat(51300)];
    let r = validate_custom_template(&s("mine"), &lines);
    assert_eq!(r, Err(TemplateValidationError::TooLarge { size: 102600 }));
}

#[test]
fn custom_template_null_byte_reports_the_first_line() {
    let lines = vec![s("fine"), s("bad\0line"), s("also\0bad")];
    let r = validate_custom_template(&s("mine"), &lines);
    assert_eq!(r, Err(TemplateValidationError::NullByte { line: 2 }));
}

#[test]
fn all_custom_templates_are_validated_in_order() {
    let cfg = config_with(vec![], vec![("good", vec!["a"]), ("bad", vec!["x\0y"])]);
    let r = validate_all_custom_templates(&cfg);
    assert_eq!(r, Err(TemplateValidationError::NullByte { line: 1 }));
    let cfg = config_with(vec![], vec![("good", vec!["a"])]);
    assert_eq!(validate_all_custom_templates(&cfg), Ok(()));
}

#[test]
fn dangling_remembered_names_are_reported() {
    let options = vec![s("Rust"), s("Go")];
    let cfg = config_with(vec!["Rust", "Zig", "Nim"], vec![("mine", vec!["x"])]);
    let r = check_invalid_templates(&options, &cfg);
    assert_eq!(r, Err(ConfigError::InvalidTemplates(vec![s("Zig"), s("Nim")])));
}

#[test]
fn remembered_custom_names_are_not_dangling() {
    let options = vec![s("Rust")];
    let cfg = config_with(vec!["mine"], vec![("mine", vec!["x"])]);
    assert_eq!(check_invalid_templates(&options, &cfg), Ok(()));
}

#[test]
fn shadowing_is_case_insensitive_and_reports_the_official_name() {
    let options = vec![s("Rust"), s("Go")];
    let cfg = config_with(vec![], vec![("rUsT", vec!["x"])]);
    let r = check_shadowed_templates(&options, &cfg);
    assert_eq!(r, Err(ConfigError::ShadowedTemplates(vec![(s("rUsT"), s("Rust"))])));
}

#[test]
fn exact_shadowing_reports_the_custom_name_itself() {
    let options = vec![s("RUST"), s("Rust")];
    let cfg = config_with(vec![], vec![("Rust", vec!["x"])]);
    let r = check_shadowed_templates(&options, &cfg);
    assert_eq!(r, Err(ConfigError::ShadowedTemplates(vec![(s("Rust"), s("Rust"))])));
}

#[test]
fn distinct_custom_names_do_not_shadow() {
    let options = vec![s("Rust")];
    let cfg = config_with(vec![], vec![("mine", vec!["x"])]);
    assert_eq!(check_shadowed_templates(&options, &cfg), Ok(()));
}

#[test]
fn validate_config_reports_dangling_names_first() {
    let options = vec![s("Rust")];
    let cfg = config_with(vec!["Zig"], vec![("rust", vec!["x"])]);
    let r = validate_config(&options, &cfg);
    assert_eq!(r, Err(ConfigError::InvalidTemplates(vec![s("Zig")])));
    let cfg = config_with(vec![], vec![("rust", vec!["x"])]);
    let r = validate_config(&options, &cfg);
    assert_eq!(r, Err(ConfigError::ShadowedTemplates(vec![(s("rust"), s("Rust"))])));
    let cfg = config_with(vec!["Rust"], vec![("mine", vec!["x"])]);
    assert_eq!(validate_config(&options, &cfg), Ok(()));
}

#[test]
fn options_list_puts_custom_then_remembered_then_official() {
    let options = vec![s("Go"), s("Rust"), s("Zig")];
    let cfg = config_with(vec!["Rust", "Gone"], vec![("mine", vec!["x"])]);
    let all = build_options_list(&options, &cfg);
    assert_eq!(all, vec![s("mine"), s("Rust"), s("Go"), s("Zig")]);
}

#[test]
fn options_list_never_repeats_a_name() {
    let options = vec![s("Go"), s("Go")];
    let cfg = config_with(vec!["Go"], vec![("Go", vec!["x"])]);
    let all = build_options_list(&options, &cfg);
    assert_eq!(all, vec![s("Go")]);
}

#[test]
fn previous_selection_keeps_official_names_and_all_custom_names() {
    let options = vec![s("Rust"), s("Go")];
    let cfg = config_with(vec!["Rust", "Gone"], vec![("mine", vec!["x"])]);
    let previous = build_previous_selection(&options, &cfg);
    assert_eq!(previous, vec![s("Rust"), s("mine")]);
}

#[test]
fn update_and_save_config_drops_custom_names_from_the_memory() {
    let mut cfg = config_with(vec!["Old"], vec![("mine", vec!["x"])]);
    update_and_save_config(&mut cfg, &vec![s("Rust"), s("mine"), s("Go")]);
    assert_eq!(cfg.templates, vec![s("Rust"), s("Go")]);
    assert_eq!(cfg.custom.len(), 1);
    assert_eq!(cfg.custom[0].name, s("mine"));
}

#[test]
fn load_or_default_config_falls_back_on_bad_customs() {
    let r = load_or_default_config(None);
    assert!(r.templates.is_empty() && r.custom.is_empty());

    let bad = config_with(vec!["Rust"], vec![("mine", vec!["a\0b"])]);
    let r = load_or_default_config(Some(bad));
    assert!(r.templates.is_empty() && r.custom.is_empty());

    let good = config_with(vec!["Rust"], vec![("mine", vec!["a"])]);
    let r = load_or_default_config(Some(good));
    assert_eq!(r.templates, vec![s("Rust")]);
    assert_eq!(r.custom.len(), 1);
}
