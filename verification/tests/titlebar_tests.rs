use zenvi::titlebar::format_title;

#[test]
fn test_format_title_empty_and_default() {
    assert_eq!(format_title(""), "Zenvi");
    assert_eq!(format_title("Nvim"), "Zenvi");
    assert_eq!(format_title("nvim"), "Zenvi");
    assert_eq!(format_title("NVIM"), "Zenvi");
}

#[test]
fn test_format_title_with_filepath() {
    assert_eq!(format_title("Cargo.toml (/home/user/dev) - NVIM"), "Cargo.toml (/home/user/dev) - Zenvi");
    assert_eq!(format_title("src/main.rs [+] - Nvim"), "src/main.rs [+] - Zenvi");
    assert_eq!(format_title("/etc/hosts"), "/etc/hosts");
}

#[test]
fn lower_case_suffix_is_replaced_too() {
    assert_eq!(format_title("a.txt - nvim"), "a.txt - Zenvi");
}
