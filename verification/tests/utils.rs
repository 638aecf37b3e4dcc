use vop_download::text::{blank, concat_text, join_path, same_text};
use vop_download::types::movie_path;
use vop_download::utils::{get_path_name, is_first_run, path_mapper, strip_hyphens, uuid};

#[test]
fn a_path_is_shown_as_it_is_off_windows() {
    assert_eq!(get_path_name("/data/a b/c.txt", "linux"), "/data/a b/c.txt");
    assert_eq!(get_path_name("\\\\?\\C:\\x", "macos"), "\\\\?\\C:\\x");
    assert_eq!(get_path_name("", "linux"), "");
}

#[test]
fn a_path_is_shown_with_slashes_on_windows() {
    assert_eq!(get_path_name("\\\\?\\C:\\data\\ep1.txt", "windows"), "C:/data/ep1.txt");
    assert_eq!(get_path_name("C:\\data\\ep1.txt", "windows"), "C:/data/ep1.txt");
    assert_eq!(get_path_name("C:/data/ep1.txt", "windows"), "C:/data/ep1.txt");
    assert_eq!(get_path_name("\\\\?\\", "windows"), "");
    assert_eq!(get_path_name("\\\\?", "windows"), "//?");
    assert_eq!(get_path_name("", "windows"), "");
}

#[test]
fn a_connection_string_names_a_file_under_the_directory() {
    assert_eq!(path_mapper("/home/u/.local/share/vop".to_string(), "sqlite:vop.db"), "/home/u/.local/share/vop/vop.db");
    assert_eq!(path_mapper("/d/".to_string(), "sqlite:a:b.db"), "/d/a:b.db");
    assert_eq!(path_mapper("/d".to_string(), "sqlite:/abs.db"), "/abs.db");
    assert_eq!(path_mapper("/d".to_string(), ":"), "/d/");
    assert_eq!(path_mapper("".to_string(), "x:y"), "y");
}

#[test]
fn the_first_run_has_an_empty_store() {
    assert!(is_first_run(0));
    assert!(!is_first_run(1));
    assert!(!is_first_run(usize::MAX));
}

#[test]
fn hyphens_are_dropped() {
    assert_eq!(strip_hyphens("a-b--c-"), "abc");
    assert_eq!(strip_hyphens("---"), "");
    assert_eq!(strip_hyphens(""), "");
    assert_eq!(
        strip_hyphens("67e55044-10b1-426f-9247-bb680e5fe0c8"),
        "67e5504410b1426f9247bb680e5fe0c8"
    );
}

#[test]
fn an_identifier_has_no_hyphen() {
    let a = uuid();
    let b = uuid();
    assert_eq!(a.len(), 32);
    assert_eq!(b.len(), 32);
    assert!(a.chars().all(|c| matches!(c, '0'..='9' | 'a'..='f')));
    assert!(b.chars().all(|c| matches!(c, '0'..='9' | 'a'..='f')));
    assert_ne!(a, b);
    for id in [a, b] {
        assert_eq!(id.chars().nth(12), Some('4'));
        assert!(matches!(id.chars().nth(16), Some('8' | '9' | 'a' | 'b')));
    }
}

#[test]
fn paths_are_joined_with_one_slash() {
    assert_eq!(join_path("/a", "b"), "/a/b");
    assert_eq!(join_path("/a/", "b"), "/a/b");
    assert_eq!(join_path("/a", "/b"), "/b");
    assert_eq!(join_path("", "b"), "b");
    assert_eq!(join_path("/a", ""), "/a/");
    assert_eq!(join_path("", ""), "");
    assert_eq!(movie_path("/data", "movie", "ep1"), "/data/movie/ep1");
}

#[test]
fn texts_are_compared_and_joined() {
    assert!(same_text("abc", "abc"));
    assert!(!same_text("abc", "abd"));
    assert!(!same_text("abc", "ab"));
    assert!(same_text("", ""));
    assert!(same_text("片名", "片名"));
    assert_eq!(concat_text("第一集", ".txt"), "第一集.txt");
    assert_eq!(concat_text("", ""), "");
}

#[test]
fn blank_characters_are_the_white_space_of_unicode() {
    for code in 0..=0x10ffffu32 {
        if let Some(c) = char::from_u32(code) {
            assert_eq!(blank(c), c.is_whitespace(), "U+{:04X}", code);
        }
    }
}
