use route_core::matcher::{path_pattern_to_regex, pattern_matches, PatternError};
use route_core::pattern::{extract_param_names, regex_source_of};

#[test]
fn names_in_pattern_order() {
    assert_eq!(
        extract_param_names("/users/{id}/posts/{post}"),
        vec!["id".to_string(), "post".to_string()]
    );
}

#[test]
fn names_of_literal_pattern_are_empty() {
    assert!(extract_param_names("/health").is_empty());
    assert!(extract_param_names("").is_empty());
}

#[test]
fn names_ignore_text_outside_braces() {
    assert_eq!(extract_param_names("a{x}b{y}c"), vec!["x".to_string(), "y".to_string()]);
}

#[test]
fn source_of_placeholder_pattern() {
    assert_eq!(regex_source_of("/users/{id}"), Some("^/users/(?P<id>[^/]+)$".to_string()));
}

#[test]
fn source_escapes_special_characters() {
    assert_eq!(regex_source_of("/a.b"), Some("^/a\\.b$".to_string()));
    assert_eq!(
        regex_source_of(".+*?^$()[]|\\"),
        Some("^\\.\\+\\*\\?\\^\\$\\(\\)\\[\\]\\|\\\\$".to_string())
    );
}

#[test]
fn source_of_empty_pattern() {
    assert_eq!(regex_source_of(""), Some("^$".to_string()));
}

#[test]
fn unclosed_placeholder_has_no_source() {
    assert_eq!(regex_source_of("/x/{id"), None);
}

#[test]
fn unclosed_placeholder_is_refused() {
    assert_eq!(path_pattern_to_regex("/x/{id").err(), Some(PatternError::UnclosedPlaceholder));
}

#[test]
fn empty_placeholder_is_refused() {
    assert_eq!(path_pattern_to_regex("/x/{}").err(), Some(PatternError::MissingName));
}

#[test]
fn stray_closing_brace_is_refused() {
    assert_eq!(path_pattern_to_regex("/x}").err(), Some(PatternError::MissingName));
    assert_eq!(path_pattern_to_regex("/{a}/}").err(), Some(PatternError::MissingName));
}

#[test]
fn repeated_name_is_refused() {
    assert_eq!(path_pattern_to_regex("/{a}/{a}").err(), Some(PatternError::RepeatedName));
}

#[test]
fn literal_pattern_accepts_exactly_its_text() {
    let m = path_pattern_to_regex("/health").unwrap();
    assert!(m.accepts("/health"));
    assert!(!m.accepts("/health/"));
    assert!(!m.accepts("/healthz"));
    assert!(!m.accepts("x/health"));
    assert!(!m.accepts(""));
}

#[test]
fn literal_pattern_with_specials_accepts_exactly_its_text() {
    let m = path_pattern_to_regex("/a+(b)|[c]$^\\").unwrap();
    assert!(m.accepts("/a+(b)|[c]$^\\"));
    assert!(!m.accepts("/aa(b)|[c]$^\\"));
    assert!(!m.accepts("/a+b"));
}

#[test]
fn empty_pattern_accepts_only_empty_path() {
    let m = path_pattern_to_regex("").unwrap();
    assert!(m.accepts(""));
    assert!(!m.accepts("/"));
}

#[test]
fn dot_is_literal() {
    let m = path_pattern_to_regex("/a.b").unwrap();
    assert!(m.accepts("/a.b"));
    assert!(!m.accepts("/axb"));
}

#[test]
fn placeholder_needs_one_character_and_no_slash() {
    let m = path_pattern_to_regex("/users/{id}").unwrap();
    assert!(m.accepts("/users/42"));
    assert!(!m.accepts("/users/"));
    assert!(!m.accepts("/users/42/extra"));
}

#[test]
fn pattern_matches_literal_exactly() {
    assert_eq!(pattern_matches("/about/us", "/about/us"), Some(true));
    assert_eq!(pattern_matches("/about/us", "/about/usa"), Some(false));
    assert_eq!(pattern_matches("/about/us", "/about"), Some(false));
    assert_eq!(pattern_matches("/a.b", "/axb"), Some(false));
    assert_eq!(pattern_matches("/a.b", "/a.b"), Some(true));
    assert_eq!(pattern_matches("/users/{id}", "/users/42"), Some(true));
    assert_eq!(pattern_matches("/users/{id", "/users/42"), None);
}

#[test]
fn invalid_group_name_is_refused() {
    assert_eq!(path_pattern_to_regex("/u/{user-id}").err(), Some(PatternError::InvalidRegex));
    assert_eq!(pattern_matches("/u/{user-id}", "/u/1"), None);
}

#[test]
fn unclosed_placeholder_wins_over_other_faults() {
    assert_eq!(path_pattern_to_regex("/{a}/{a}/{").err(), Some(PatternError::UnclosedPlaceholder));
    assert_eq!(path_pattern_to_regex("/{}/{a}/{a}").err(), Some(PatternError::MissingName));
}
