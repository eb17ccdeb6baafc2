use linty::config::{
    config_format, config_path, default_config_path, example_config, format_for_extension,
    init_action, init_message, ConfigFormat, InitAction, Severity,
};
use linty::rules::generate_rules_from_config;

#[test]
fn default_path_is_the_dot_file() {
    assert_eq!(default_config_path(), ".lintyconfig.json");
    assert_eq!(config_path(None), ".lintyconfig.json");
}

#[test]
fn explicit_path_overrides_the_default() {
    assert_eq!(config_path(Some("conf/rules.toml")), "conf/rules.toml");
    assert_eq!(config_path(Some("")), "");
}

#[test]
fn toml_is_chosen_by_extension_alone() {
    assert_eq!(format_for_extension(Some("toml")), ConfigFormat::Toml);
    assert_eq!(format_for_extension(Some("json")), ConfigFormat::Json);
    assert_eq!(format_for_extension(Some("TOML")), ConfigFormat::Json);
    assert_eq!(format_for_extension(Some("yaml")), ConfigFormat::Json);
    assert_eq!(format_for_extension(Some("")), ConfigFormat::Json);
    assert_eq!(format_for_extension(None), ConfigFormat::Json);
}

#[test]
fn format_follows_the_path() {
    assert_eq!(config_format(".lintyconfig.json"), ConfigFormat::Json);
    assert_eq!(config_format("rules.toml"), ConfigFormat::Toml);
    assert_eq!(config_format("dir.toml/rules"), ConfigFormat::Json);
    assert_eq!(config_format("a/b/.lintyconfig.toml"), ConfigFormat::Toml);
    assert_eq!(config_format(".toml"), ConfigFormat::Json);
    assert_eq!(config_format("rules"), ConfigFormat::Json);
    assert_eq!(config_format("rules.toml.bak"), ConfigFormat::Json);
}

#[test]
fn example_config_warns_on_todos() {
    let config = example_config();
    assert_eq!(config.rules.len(), 1);
    let rule = &config.rules[0];
    assert_eq!(rule.id, "WarnOnTodos");
    assert_eq!(rule.message, "Are you sure you meant to leave a TODO?");
    assert_eq!(rule.regex, "(TODO|todo)");
    assert_eq!(rule.severity, Severity::Warning);
    assert!(rule.includes.is_none());
    assert!(rule.excludes.is_none());
}

#[test]
fn example_config_compiles_and_matches_both_spellings() {
    let rules = generate_rules_from_config(&example_config()).unwrap();
    assert_eq!(rules.len(), 1);
    let found = rules[0].check("f", "todo\nTodo\nTODO\n").unwrap();
    assert_eq!(found.lines, vec![1, 3]);
}

#[test]
fn init_twice_writes_once() {
    let mut stored: Option<String> = None;
    let first = init_action(stored.is_some());
    assert_eq!(first, InitAction::WriteExample);
    assert_eq!(init_message(first), "Initialized example config at .lintyconfig");
    stored = Some(format!("{:?}", example_config()));
    let before = stored.clone();
    let second = init_action(stored.is_some());
    assert_eq!(second, InitAction::KeepExisting);
    assert_eq!(init_message(second), "Config already exists!");
    assert_eq!(stored, before);
}
