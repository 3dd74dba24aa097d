use std::path::PathBuf;
use zenvi::window::{
    decode_percent, fallback_cwd, is_usable_current_dir, join_path, keeps_drawing, parse_cli_args,
    resize_step, url_to_path, ResizeStep,
};

fn args(list: &[&str]) -> Vec<String> {
    list.iter().map(|a| a.to_string()).collect()
}

#[test]
fn test_parse_cli_args_files_and_directories() {
    let cwd = PathBuf::from("/Users/test/workspace");
    let config = parse_cli_args(&args(&["src/main.rs", "README.md"]), Some("/Users/test/workspace".to_string()));

    assert_eq!(config.cwd.as_ref().map(PathBuf::from), Some(cwd.clone()));
    assert_eq!(config.targets.len(), 2);
    assert_eq!(PathBuf::from(&config.targets[0]), cwd.join("src/main.rs"));
    assert_eq!(PathBuf::from(&config.targets[1]), cwd.join("README.md"));
}

#[test]
fn test_parse_cli_args_dot_and_psn() {
    let cwd = PathBuf::from("/Users/test/workspace");
    let config = parse_cli_args(&args(&["-psn_0_123456", "."]), Some("/Users/test/workspace".to_string()));

    assert_eq!(config.cwd.as_ref().map(PathBuf::from), Some(cwd.clone()));
    assert_eq!(config.targets.len(), 1);
    assert_eq!(PathBuf::from(&config.targets[0]), cwd.join("."));
    assert!(!config.borderless);
}

#[test]
fn test_parse_cli_args_borderless_flags() {
    let cwd = Some("/Users/test/workspace".to_string());
    let config1 = parse_cli_args(&args(&["--no-titlebar", "main.rs"]), cwd.clone());
    assert!(config1.borderless);
    assert_eq!(config1.targets.len(), 1);

    let config2 = parse_cli_args(&args(&["-B", "src/lib.rs"]), cwd.clone());
    assert!(config2.borderless);
    assert_eq!(config2.targets.len(), 1);
}

#[test]
fn test_url_to_path_decoding() {
    let u1 = "file:///Users/harry/project/src/main.rs";
    assert_eq!(url_to_path(u1).map(PathBuf::from), Some(PathBuf::from("/Users/harry/project/src/main.rs")));

    let u2 = "file:///Users/harry/my%20folder/my%20file.txt";
    assert_eq!(
        url_to_path(u2).map(PathBuf::from),
        Some(PathBuf::from("/Users/harry/my folder/my file.txt"))
    );

    let u3 = "file:///Users/harry/%E4%B8%AD%E6%96%87%E7%9B%AE%E5%BD%95";
    assert_eq!(url_to_path(u3).map(PathBuf::from), Some(PathBuf::from("/Users/harry/中文目录")));
}

#[test]
fn empty_url_gives_no_path() {
    assert_eq!(url_to_path("file://"), None);
    assert_eq!(url_to_path(""), None);
}

#[test]
fn percent_decoding_keeps_incomplete_escapes() {
    assert_eq!(decode_percent("a%2"), "a%2");
    assert_eq!(decode_percent("100%zz"), "100%zz");
    assert_eq!(decode_percent("%41%42"), "AB");
    assert_eq!(decode_percent("%ff"), "\u{fffd}");
}

#[test]
fn absolute_targets_and_no_current_dir() {
    let config = parse_cli_args(&args(&["/etc/hosts", "", "notes.txt"]), None);
    assert_eq!(config.cwd, None);
    assert_eq!(config.targets, vec!["/etc/hosts".to_string(), "notes.txt".to_string()]);
    let config2 = parse_cli_args(&args(&["/etc/hosts"]), Some("/home/u".to_string()));
    assert_eq!(config2.targets, vec!["/etc/hosts".to_string()]);
}

#[test]
fn joining_paths() {
    assert_eq!(join_path("/a/", "b"), "/a/b");
    assert_eq!(join_path("/a", "b"), "/a/b");
    assert_eq!(join_path("", "b"), "b");
    assert_eq!(join_path("/a", "/b"), "/b");
}

#[test]
fn working_directory_fallbacks() {
    let safe = Some("/home/u/.local/state/zenvi".to_string());
    assert_eq!(fallback_cwd(Some("/p"), true, Some("/"), true, safe.clone()), Some("/p".to_string()));
    assert_eq!(
        fallback_cwd(Some("/p/f.rs"), false, Some("/p"), true, safe.clone()),
        Some("/p".to_string())
    );
    assert_eq!(fallback_cwd(Some("f.rs"), false, Some(""), true, safe.clone()), safe.clone());
    assert_eq!(fallback_cwd(Some("/x/f.rs"), false, Some("/x"), false, safe.clone()), safe.clone());
    assert_eq!(fallback_cwd(None, false, None, false, safe.clone()), safe);
}

#[test]
fn usable_current_directories() {
    assert!(is_usable_current_dir("/home/u/project"));
    assert!(!is_usable_current_dir("/"));
    assert!(!is_usable_current_dir("/Applications/Zenvi.app/Contents/MacOS"));
}

#[test]
fn text_without_escapes_is_unchanged() {
    assert_eq!(decode_percent("/home/u/中文 dir"), "/home/u/中文 dir");
}

#[test]
fn resize_requests_are_throttled() {
    assert_eq!(resize_step(80, 24, 80, 24, 0), ResizeStep::Unchanged);
    assert_eq!(resize_step(81, 24, 80, 24, 30), ResizeStep::SendNow);
    assert_eq!(resize_step(80, 25, 80, 24, 25), ResizeStep::SendNow);
    assert_eq!(resize_step(81, 24, 80, 24, 10), ResizeStep::SendLater { wait_ms: 15 });
}

#[test]
fn frames_stop_after_a_quiet_moment() {
    assert!(keeps_drawing(Some(0)));
    assert!(keeps_drawing(Some(299)));
    assert!(!keeps_drawing(Some(300)));
    assert!(!keeps_drawing(None));
}
