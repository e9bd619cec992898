use qatest::qa::api::{encode_path_segment, split_method_queries};
use qatest::qa::artifacts::{
    looks_like_directory_path, resolve_save_path, sanitize_local_file_name,
};

#[test]
fn split_method_queries_uses_pipe_separator() {
    assert_eq!(
        split_method_queries("Method1| Method2 || Method3 "),
        vec!["Method1", "Method2", "Method3"]
    );
}

#[test]
fn resolves_save_path_directory_with_trailing_separator() {
    let path = resolve_save_path("target/qamcp-artifacts/", "screen.png", false).unwrap();

    assert!(path.ends_with("screen.png"));
}

#[test]
fn resolves_save_path_file_when_extension_is_present() {
    let path =
        resolve_save_path("target/qamcp-artifacts/screen.png", "fallback.png", false).unwrap();

    assert!(path.ends_with("screen.png"));
}

#[test]
fn save_path_under_existing_directory_and_blank_path() {
    assert_eq!(
        resolve_save_path(" shots ", "a/b/c.png", true),
        Ok("shots/c.png".to_string())
    );
    assert_eq!(
        resolve_save_path("shots/", "  ", false),
        Ok("shots/artifact.bin".to_string())
    );
    assert_eq!(
        resolve_save_path("   ", "x.png", false),
        Err("savePath is required.".to_string())
    );
}

#[test]
fn local_file_name_takes_last_component() {
    assert_eq!(sanitize_local_file_name("dir/sub/shot.png"), "shot.png");
    assert_eq!(sanitize_local_file_name("dir/sub/"), "sub");
    assert_eq!(sanitize_local_file_name("dir/.."), "artifact.bin");
    assert_eq!(sanitize_local_file_name("/"), "artifact.bin");
    assert_eq!(sanitize_local_file_name("a/./"), "a");
}

#[test]
fn directory_paths_end_with_a_separator() {
    assert!(looks_like_directory_path("a/"));
    assert!(looks_like_directory_path("a\\"));
    assert!(!looks_like_directory_path("a"));
    assert!(!looks_like_directory_path(""));
}

#[test]
fn path_segments_are_percent_encoded() {
    assert_eq!(encode_path_segment("a b/c"), "a%20b%2Fc");
    assert_eq!(encode_path_segment("Az09-._~"), "Az09-._~");
    assert_eq!(encode_path_segment("é"), "%C3%A9");
}
