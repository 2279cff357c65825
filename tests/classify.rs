use todo_finder::utils::{is_supported_file, FileExtension};

#[test]
fn recognized_extensions() {
    assert_eq!(FileExtension::from_str("rs"), Some(FileExtension::Rust));
    assert_eq!(FileExtension::from_str("py"), Some(FileExtension::Python));
    assert_eq!(FileExtension::from_str("java"), Some(FileExtension::Java));
    assert_eq!(FileExtension::from_str("ts"), Some(FileExtension::TypeScript));
    assert_eq!(FileExtension::from_str("js"), Some(FileExtension::JavaScript));
}

#[test]
fn other_extensions_are_not_recognized() {
    assert_eq!(FileExtension::from_str("RS"), None);
    assert_eq!(FileExtension::from_str("txt"), None);
    assert_eq!(FileExtension::from_str(""), None);
    assert_eq!(FileExtension::from_str("rss"), None);
}

#[test]
fn supported_files_by_extension() {
    assert!(is_supported_file("a.rs", true));
    assert!(is_supported_file("./src/lib.rs", true));
    assert!(is_supported_file("pkg/mod.py", true));
    assert!(is_supported_file("Main.java", true));
    assert!(is_supported_file("web/app.ts", true));
    assert!(is_supported_file("archive.tar.js", true));
    assert!(is_supported_file(".rs", true));
    assert!(is_supported_file("dir/.py", true));
}

#[test]
fn unsupported_files() {
    assert!(!is_supported_file("a.txt", true));
    assert!(!is_supported_file("Makefile", true));
    assert!(!is_supported_file("dir.rs/readme", true));
    assert!(!is_supported_file("a.Rs", true));
    assert!(!is_supported_file("a.rs.bak", true));
}

#[test]
fn directories_are_not_supported() {
    assert!(!is_supported_file("src.rs", false));
    assert!(!is_supported_file("a.py", false));
}

#[test]
fn empty_extension_is_not_supported() {
    assert!(!is_supported_file("a.", true));
    assert!(!is_supported_file("dir.rs/", true));
}
