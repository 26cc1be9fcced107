use file_surfer::config::{
    add_recent_path, add_to_clipboard_history, clear_clipboard_history, get_clipboard_history_path,
    get_config_path, get_workspace_path, AppConfig, ClipboardHistory,
};
use file_surfer::file_ops::{
    default_ignore_patterns, get_relative_path, is_binary_content, should_ignore,
};

#[test]
fn ignore_rules_match_tokens_and_extensions() {
    let none: Vec<String> = Vec::new();
    assert!(should_ignore("/home/u/project/node_modules/x.js", &none));
    assert!(should_ignore("cache/module.pyc", &none));
    assert!(should_ignore("repo/.git/config", &none));
    assert!(!should_ignore("src/main.c", &none));

    let custom = vec!["*.log".to_string()];
    assert!(should_ignore("var/app.log", &custom));
    assert!(!should_ignore("var/app.txt", &custom));

    let custom = vec!["secret".to_string()];
    assert!(should_ignore("src/secret/notes.md", &custom));
}

#[test]
fn default_ignore_pattern_table_is_fixed() {
    let pats = default_ignore_patterns();
    assert_eq!(pats.len(), 15);
    assert_eq!(pats[0], "node_modules");
    assert_eq!(pats[12], "*.pyc");
}

#[test]
fn binary_detection_looks_for_zero_bytes() {
    assert!(is_binary_content(&vec![1u8, 2, 0, 3]));
    assert!(!is_binary_content(&vec![1u8, 2, 3]));
    assert!(!is_binary_content(&Vec::new()));
}

#[test]
fn relative_paths_strip_the_base() {
    assert_eq!(get_relative_path("base/sub/f.txt", "base"), "sub/f.txt");
    assert_eq!(get_relative_path("base", "base"), "");
    assert_eq!(get_relative_path("other/dir/f.txt", "base"), "f.txt");
    assert_eq!(get_relative_path("f.txt", ""), "f.txt");
}

#[test]
fn config_paths_live_under_the_directory() {
    assert_eq!(get_config_path("/home/u/.config/app"), "/home/u/.config/app/config.json");
    assert_eq!(
        get_clipboard_history_path("/home/u/.config/app"),
        "/home/u/.config/app/clipboard_history.json"
    );
    assert_eq!(
        get_workspace_path("/cfg", "/a/b:c"),
        "/cfg/workspace__a_b_c.json"
    );
}

#[test]
fn recent_paths_move_to_front_and_stay_bounded() {
    let mut config = AppConfig::default();
    add_recent_path(&mut config, "a".to_string());
    add_recent_path(&mut config, "b".to_string());
    add_recent_path(&mut config, "a".to_string());
    assert_eq!(config.recent_paths, vec!["a", "b"]);

    for i in 0..12 {
        add_recent_path(&mut config, format!("p{}", i));
    }
    assert_eq!(config.recent_paths.len(), 10);
    assert_eq!(config.recent_paths[0], "p11");
}

#[test]
fn default_config_values() {
    let config = AppConfig::default();
    assert_eq!(config.theme, "dark");
    assert_eq!(config.output_format, "markdown");
    assert_eq!(config.max_file_size_mb, 10);
    assert!(config.keep_comments);
    assert!(!config.git_only_mode);
    assert!(config.recent_paths.is_empty());
}

#[test]
fn clipboard_history_is_bounded_and_newest_first() {
    let mut history = ClipboardHistory::default();
    for i in 0..12u64 {
        add_to_clipboard_history(&mut history, format!("c{}", i), i, 1, "markdown".to_string());
    }
    assert_eq!(history.items.len(), 10);
    assert_eq!(history.items[0].content, "c11");
    assert_eq!(history.items[9].content, "c2");
    assert_eq!(history.items[0].file_count, 1);

    clear_clipboard_history(&mut history);
    assert!(history.items.is_empty());
    assert_eq!(history.max_items, 10);
}
