use std::sync::Arc;
use swissarmyhammer::cli::{cli_error_for, CommandFailure, EXIT_ERROR};
use swissarmyhammer::prompts::{candidate_names, PartialTag, Prompt, PromptLibrary, PromptPartialSource};

fn library(names: &[(&str, &str)]) -> Arc<PromptLibrary> {
    let mut lib = PromptLibrary::new();
    for (n, t) in names {
        lib.add(Prompt::new(n, t));
    }
    Arc::new(lib)
}

#[test]
fn partial_found_without_its_extension() {
    let src = PromptPartialSource::new(library(&[("principals.md.liquid", "{% partial %}\n\n## Principals")]));
    assert!(src.contains("principals"));
    assert!(src.contains("principals.md"));
    assert_eq!(src.try_get("principals").unwrap(), "{% partial %}\n\n## Principals");
    assert!(!src.contains("other"));
    assert!(src.try_get("other").is_none());
}

#[test]
fn partial_found_by_exact_name_first() {
    let src = PromptPartialSource::new(library(&[("principals", "exact"), ("principals.md", "md")]));
    assert_eq!(src.try_get("principals").unwrap(), "exact");
    assert_eq!(src.try_get("principals.liquid").unwrap(), "exact");
}

#[test]
fn partial_names_include_stripped_names() {
    let src = PromptPartialSource::new(library(&[("a.md.liquid", ""), ("b", "")]));
    assert_eq!(src.names(), vec!["a.md.liquid", "a.md", "a", "b"]);
}

#[test]
fn candidates_are_tried_in_order() {
    assert_eq!(
        candidate_names("p.md"),
        vec!["p.md", "p.md.md", "p.md.markdown", "p.md.liquid", "p.md.md.liquid", "p", "p.markdown", "p.liquid", "p.md.liquid"]
    );
}

#[test]
fn partial_tag_is_named_partial() {
    assert_eq!(PartialTag::new().tag(), "partial");
}

#[test]
fn aborted_prompt_command_uses_error_exit_code() {
    let e = cli_error_for(&CommandFailure::Aborted("stop".to_string()));
    assert_eq!(e.message, "Prompt execution aborted: stop");
    assert_eq!(e.exit_code, EXIT_ERROR);
    let e = cli_error_for(&CommandFailure::Other("boom".to_string()));
    assert_eq!(e.message, "boom");
    assert_eq!(e.exit_code, 1);
}
