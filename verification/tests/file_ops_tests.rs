use crosschat::commands::file_ops::{
    bytes_size_error, deleted_message, dir_target_error, file_target_error, is_text_extension,
    preview_info, preview_plan, sort_listing, text_size_error, visible_entries, FileEntry, PreviewPlan,
};

fn entry(name: &str, is_dir: bool) -> FileEntry {
    FileEntry { name: name.to_string(), path: format!("/w/{}", name), is_dir, size: 1 }
}

#[test]
fn file_and_dir_target_errors() {
    assert_eq!(file_target_error("/a", false, false), Some("文件不存在: /a".to_string()));
    assert_eq!(file_target_error("/a", true, true), Some("路径是目录，不是文件: /a".to_string()));
    assert_eq!(file_target_error("/a", true, false), None);
    assert_eq!(dir_target_error("/d", false, false), Some("路径不存在: /d".to_string()));
    assert_eq!(dir_target_error("/d", true, false), Some("不是目录: /d".to_string()));
    assert_eq!(dir_target_error("/d", true, true), None);
}

#[test]
fn size_limits() {
    assert_eq!(text_size_error(10_485_760), None);
    assert_eq!(text_size_error(10_485_761), Some("文件过大（超过 10MB），无法预览".to_string()));
    assert_eq!(bytes_size_error(52_428_800), None);
    assert_eq!(bytes_size_error(52_428_801), Some("文件过大（超过 50MB）".to_string()));
}

#[test]
fn preview_plans() {
    assert!(is_text_extension("md"));
    assert!(!is_text_extension("png"));
    assert!(matches!(preview_plan("a.md", 10, "md"), PreviewPlan::ReadText));
    assert!(matches!(preview_plan("a.md", 20_000_000, "md"), PreviewPlan::Skip));
    match preview_plan("pic.png", 2048, "png") {
        PreviewPlan::Describe(d) => assert_eq!(d, "文件: pic.png\n大小: 2048 字节\n类型: png"),
        _ => panic!("expected a description"),
    }
    let info = preview_info("a.md".into(), "/w/a.md".into(), 3, Some("abc".into()));
    assert!(!info.is_executable);
    assert_eq!(info.file_type, "unknown");
    assert_eq!(info.preview_content, Some("abc".to_string()));
}

#[test]
fn listing_hides_dot_files_and_orders_folders_first() {
    let raw = vec![entry("b.txt", false), entry(".git", true), entry("Zeta", true), entry("A.md", false), entry("alpha", true)];
    let visible = visible_entries(&raw);
    assert_eq!(visible.len(), 4);
    let sorted = sort_listing(&visible);
    let names: Vec<&str> = sorted.iter().map(|e| e.name.as_str()).collect();
    assert_eq!(names, vec!["alpha", "Zeta", "A.md", "b.txt"]);
}

#[test]
fn listing_sort_is_stable_for_equal_keys() {
    let raw = vec![entry("Readme", false), entry("readme", false)];
    let sorted = sort_listing(&raw);
    assert_eq!(sorted[0].name, "Readme");
    assert_eq!(sorted[1].name, "readme");
}

#[test]
fn deletion_message() {
    assert_eq!(deleted_message("x.txt"), "已删除: x.txt");
}
