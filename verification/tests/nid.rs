use nid::config::{parse_config, NidConfig};
use nid::ids::{append_id, contains_id, join_ids, read_saved_ids};
use nid::paths::{check_env_dir, resolve_path, PathError};
use nid::random::{generate_random_id, generate_range_chars, generate_unique_id};

#[test]
fn generated_id_matches_pattern() {
    for _ in 0..200 {
        let id = generate_random_id();
        let chars: Vec<char> = id.chars().collect();
        assert_eq!(chars.len(), 5);
        assert!(chars[0].is_ascii_alphabetic());
        assert!(chars[1].is_ascii_alphabetic());
        assert!(chars[2].is_ascii_alphabetic());
        assert!(chars[3].is_ascii_digit());
        assert!(chars[4].is_ascii_digit());
        let number: u32 = id[3..].parse().unwrap();
        assert!((10..=99).contains(&number));
    }
}

#[test]
fn letter_codes_are_letters() {
    for _ in 0..200 {
        let b = generate_range_chars();
        assert!((65..=90).contains(&b) || (97..=122).contains(&b));
    }
}

#[test]
fn unique_id_avoids_saved_set() {
    let existing = vec!["Abc12".to_string(), "xYz99".to_string()];
    let id = generate_unique_id(&existing, 100).unwrap();
    assert!(!existing.contains(&id));
}

#[test]
fn fresh_id_owed_when_no_valid_id_saved() {
    // No saved entry is a well-formed identifier, so nothing can collide and
    // a single attempt is promised to succeed.
    let empty: Vec<String> = Vec::new();
    assert!(generate_unique_id(&empty, 1).is_some());
    let no_ids = vec!["".to_string(), "Abc1".to_string(), "not an id".to_string()];
    assert!(generate_unique_id(&no_ids, 1).is_some());
}

#[test]
fn round_trip_keeps_non_identifier_entries() {
    let mut ids = read_saved_ids("entry-one\nxYz99");
    append_id(&mut ids, "Qwe42".to_string());
    let written = join_ids(&ids);
    let reloaded = read_saved_ids(&written);
    assert_eq!(
        reloaded,
        vec!["entry-one".to_string(), "xYz99".to_string(), "Qwe42".to_string()]
    );
}

#[test]
fn exhausted_attempts_give_nothing() {
    let existing: Vec<String> = Vec::new();
    assert!(generate_unique_id(&existing, 0).is_none());
}

#[test]
fn restricted_space_leaves_the_unsaved_candidate() {
    // The retry loop accepts exactly the candidates that are not saved: in a
    // generation space narrowed to two identifiers with one of them saved,
    // the one remaining unique value is the deterministic survivor.
    let saved = vec!["Aa10".to_string()];
    let space = ["Aa10", "Bb11"];
    let mut accepted = Vec::new();
    for candidate in space {
        if !contains_id(&saved, candidate) {
            accepted.push(candidate);
        }
    }
    assert_eq!(accepted, vec!["Bb11"]);
}

#[test]
fn round_trip_append_and_reload() {
    let content = "Abc12\nxYz99";
    let mut ids = read_saved_ids(content);
    assert_eq!(ids, vec!["Abc12".to_string(), "xYz99".to_string()]);
    append_id(&mut ids, "Qwe42".to_string());
    let written = join_ids(&ids);
    assert_eq!(written, "Abc12\nxYz99\nQwe42");
    let reloaded = read_saved_ids(&written);
    assert_eq!(reloaded.last().unwrap(), "Qwe42");
    assert_eq!(reloaded[..reloaded.len() - 1], ids[..ids.len() - 1]);
}

#[test]
fn end_to_end_save_appends_exactly_one_line() {
    let file = String::new();
    let mut ids = read_saved_ids(&file);
    assert_eq!(ids, vec!["".to_string()]);
    let id = generate_unique_id(&ids, 100).unwrap();
    append_id(&mut ids, id.clone());
    let written = join_ids(&ids);
    let reloaded = read_saved_ids(&written);
    assert_eq!(reloaded, vec![id]);
}

#[test]
fn resolve_with_home_marker() {
    let r = resolve_path("~/.nid", Some("/home/u"));
    assert_eq!(r, Ok("/home/u/.nid".to_string()));
}

#[test]
fn resolve_absolute_path_unchanged() {
    let r = resolve_path("/abs/path", Some("/home/u"));
    assert_eq!(r, Ok("/abs/path".to_string()));
}

#[test]
fn resolve_bare_marker() {
    let r = resolve_path("~", Some("/home/u"));
    assert_eq!(r, Ok("/home/u".to_string()));
}

#[test]
fn resolve_without_home_fails() {
    assert_eq!(resolve_path("~/.nid", None), Err(PathError::MissingHomeDirectory));
    assert_eq!(resolve_path("/abs/path", None), Err(PathError::MissingHomeDirectory));
}

#[test]
fn config_with_save_path() {
    let c = parse_config("save_path = /tmp/x");
    assert!(!c.failed);
    assert_eq!(c.save_path, "/tmp/x");
}

#[test]
fn config_garbage_line_fails() {
    let c = parse_config("garbage_no_equals");
    assert!(c.failed);
    assert_eq!(c.save_path, "");
}

#[test]
fn config_empty_input_is_valid_and_empty() {
    let c = parse_config("");
    assert!(!c.failed);
    assert_eq!(c.save_path, "");
}

#[test]
fn config_unknown_keys_ignored_and_last_save_path_wins() {
    let c = parse_config("other = 1\nsave_path = /a\n\nsave_path = /b\n");
    assert!(!c.failed);
    assert_eq!(c.save_path, "/b");
}

#[test]
fn config_value_keeps_a_second_equals_sign() {
    let c = parse_config("save_path = /tmp/x=y");
    assert!(!c.failed);
    assert_eq!(c.save_path, "/tmp/x=y");
}

#[test]
fn config_constructors() {
    let c = NidConfig::failed();
    assert!(c.failed);
    assert_eq!(c.save_path, "");
    let c = NidConfig::success("/p".to_string());
    assert!(!c.failed);
    assert_eq!(c.save_path, "/p");
}

#[test]
fn empty_file_yields_one_empty_entry() {
    assert_eq!(read_saved_ids(""), vec!["".to_string()]);
}

#[test]
fn saved_ids_trimmed_and_split() {
    assert_eq!(read_saved_ids("a\nb\n"), vec!["a".to_string(), "b".to_string()]);
    assert_eq!(read_saved_ids("  \n a \n"), vec!["a".to_string()]);
}

#[test]
fn contains_id_is_exact_membership() {
    let ids = vec!["Aa10".to_string(), "Bb11".to_string()];
    assert!(contains_id(&ids, "Aa10"));
    assert!(contains_id(&ids, "Bb11"));
    assert!(!contains_id(&ids, "Cc12"));
    assert!(!contains_id(&ids, "Aa1"));
}

#[test]
fn join_ids_uses_newline_separators() {
    let ids = vec!["a".to_string(), "b".to_string(), "c".to_string()];
    assert_eq!(join_ids(&ids), "a\nb\nc");
    let none: Vec<String> = Vec::new();
    assert_eq!(join_ids(&none), "");
}

#[test]
fn check_env_dir_distinguishes_directories() {
    assert!(check_env_dir("."));
    assert!(!check_env_dir(""));
    assert!(!check_env_dir("Cargo.toml"));
}
