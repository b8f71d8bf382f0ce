use std::path::PathBuf;
use wechat_pc_auto::avatar::{sender_hash, AvatarCache};
use wechat_pc_auto::debug_text::{escape, escape_inline, escape_title, truncate_str};

#[test]
fn sender_hash_is_md5_hex() {
    assert_eq!(sender_hash("张三"), "615db57aa314529aaa0fbe95b3e95bd3");
}

#[test]
fn cache_knows_png_files_and_recorded_senders() {
    let files = vec![
        "615db57aa314529aaa0fbe95b3e95bd3.png".to_string(),
        "notes.txt".to_string(),
    ];
    let mut cache = AvatarCache::from_files(PathBuf::from("/tmp/avatars"), &files);
    assert!(cache.has_avatar("张三"));
    assert_eq!(
        cache.get_avatar_path("张三"),
        Some("615db57aa314529aaa0fbe95b3e95bd3.png".to_string())
    );
    assert!(!cache.has_avatar("李四"));
    assert_eq!(cache.get_avatar_path("李四"), None);
    let name = cache.record_avatar("李四");
    assert_eq!(name, format!("{}.png", sender_hash("李四")));
    assert!(cache.has_avatar("李四"));
    assert_eq!(cache.cache_dir(), &PathBuf::from("/tmp/avatars"));
}

#[test]
fn control_characters_are_escaped() {
    assert_eq!(escape("a\nb\rc\td"), "a\\nb\\rc\\td");
    assert_eq!(escape_inline("x\n"), "x\\n");
    assert_eq!(escape_title("\t"), "\\t");
}

#[test]
fn long_values_are_cut_with_two_dots() {
    assert_eq!(truncate_str("你好世界", 2), "你好..");
    assert_eq!(truncate_str("ab", 2), "ab");
}

#[test]
fn escaped_text_fits_on_one_line() {
    let e = escape("line1\nline2\r\n\tend");
    assert!(!e.contains('\n') && !e.contains('\r') && !e.contains('\t'));
}
