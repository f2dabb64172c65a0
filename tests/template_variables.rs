use swissarmyhammer::entries::Entry;
use swissarmyhammer::template::{extract_template_variables, merge_captured_names, render_bindings};

#[test]
fn test_extract_template_variables() {
    let template = "Hello {{ name }}, you have {{ count }} messages in {{ language | default: 'English' }}";
    let vars = extract_template_variables(template);

    assert!(vars.contains(&"name".to_string()));
    assert!(vars.contains(&"count".to_string()));
    assert!(vars.contains(&"language".to_string()));
    assert_eq!(vars.len(), 3);
}

#[test]
fn test_extract_template_variables_with_conditionals() {
    let template =
        "{% if premium %}Premium user{% endif %} {% unless disabled %}Active{% endunless %}";
    let vars = extract_template_variables(template);

    assert!(vars.contains(&"premium".to_string()));
    assert!(vars.contains(&"disabled".to_string()));
    assert_eq!(vars.len(), 2);
}

#[test]
fn test_extract_template_variables_whitespace_variations() {
    let templates = vec![
        "{{name}}",
        "{{ name }}",
        "{{  name  }}",
        "{{\tname\t}}",
        "{{ name}}",
        "{{name }}",
    ];

    for template in templates {
        let vars = extract_template_variables(template);
        assert!(
            vars.contains(&"name".to_string()),
            "Failed for template: {template}"
        );
        assert_eq!(vars.len(), 1, "Failed for template: {template}");
    }
}

#[test]
fn test_extract_template_variables_unicode() {
    let template = "Hello {{ café }}, {{ 用户名 }}, {{ user_name }}";
    let vars = extract_template_variables(template);

    assert!(vars.contains(&"café".to_string()));
    assert!(vars.contains(&"用户名".to_string()));
    assert!(vars.contains(&"user_name".to_string()));
    assert_eq!(vars.len(), 3);
}

#[test]
fn test_extract_template_variables_long_names() {
    let long_var_name = "a".repeat(100);
    let template = format!("Hello {{{{ {long_var_name} }}}}");
    let vars = extract_template_variables(&template);

    assert!(vars.contains(&long_var_name));
    assert_eq!(vars.len(), 1);
}

#[test]
fn test_extract_template_variables_no_recursive_parsing() {
    let template = "{{ {{ inner }} }} and {{ var_{{ suffix }} }}";
    let vars = extract_template_variables(template);

    assert!(vars.contains(&"inner".to_string()));
    assert!(vars.contains(&"suffix".to_string()));
    assert_eq!(vars.len(), 2);
}

#[test]
fn test_extract_template_variables_duplicates() {
    let template = "{{ name }} says hello to {{ name }} and {{ name }}";
    let vars = extract_template_variables(template);

    assert!(vars.contains(&"name".to_string()));
    assert_eq!(vars.len(), 1);
}

#[test]
fn test_extract_template_variables_for_loops() {
    let template = "{% for item in items %}{{ item.name }}{% endfor %} {% for product in products %}{{ product }}{% endfor %}";
    let vars = extract_template_variables(template);

    assert!(vars.contains(&"items".to_string()));
    assert!(vars.contains(&"item".to_string()));
    assert!(vars.contains(&"products".to_string()));
    assert!(vars.contains(&"product".to_string()));
    assert_eq!(vars.len(), 4);
}

#[test]
fn extraction_keeps_order_of_first_appearance() {
    let vars = extract_template_variables("{{ b }} {{ a }} {% if c %}{% endif %} {{ b }}");
    assert_eq!(vars, vec!["b".to_string(), "a".to_string(), "c".to_string()]);
}

#[test]
fn extraction_of_plain_text_is_empty() {
    assert!(extract_template_variables("").is_empty());
    assert!(extract_template_variables("no tags here").is_empty());
}

#[test]
fn merged_names_drop_repeats_across_both_lists() {
    let out = merge_captured_names(
        &vec!["x".to_string(), "y".to_string(), "x".to_string()],
        &vec!["y".to_string(), "z".to_string()],
    );
    assert_eq!(out, vec!["x".to_string(), "y".to_string(), "z".to_string()]);
}

fn entry(k: &str, v: &str) -> Entry<String> {
    Entry { key: k.to_string(), value: v.to_string() }
}

fn lookup(bindings: &[Entry<Option<String>>], key: &str) -> Option<Option<String>> {
    bindings.iter().rev().find(|e| e.key == key).map(|e| e.value.clone())
}

#[test]
fn bindings_follow_precedence_args_over_env_over_config_over_nil() {
    let vars = vec!["project_name".to_string(), "TEST_VAR".to_string(), "missing".to_string()];
    let config = vec![entry("project_name", "demo"), entry("TEST_VAR", "config_value")];
    let env = vec![entry("TEST_VAR", "env_value")];
    let args = vec![entry("custom_arg", "arg_value"), entry("TEST_VAR", "arg_override")];
    let b = render_bindings(&vars, &config, &env, &args);
    assert_eq!(lookup(&b, "project_name"), Some(Some("demo".to_string())));
    assert_eq!(lookup(&b, "TEST_VAR"), Some(Some("arg_override".to_string())));
    assert_eq!(lookup(&b, "custom_arg"), Some(Some("arg_value".to_string())));
    assert_eq!(lookup(&b, "missing"), Some(None));
    assert_eq!(lookup(&b, "absent"), None);
}
