use cargo_c::paths::canonicalize;

#[test]
fn test_absolute_path() {
    let path = "/home/user/docs";
    let result = canonicalize(path);
    assert_eq!(result, "/home/user/docs");
}

#[test]
fn test_relative_path() {
    let path = "home/user/docs";
    let result = canonicalize(path);
    assert_eq!(result, "home/user/docs");
}

#[test]
fn test_current_directory() {
    let path = "/home/user/./docs";
    let result = canonicalize(path);
    assert_eq!(result, "/home/user/docs");
}

#[test]
fn test_parent_directory() {
    let path = "/home/user/../docs";
    let result = canonicalize(path);
    assert_eq!(result, "/home/docs");
}

#[test]
fn test_mixed_dots_and_parent_dirs() {
    let path = "/home/./user/../docs/./files";
    let result = canonicalize(path);
    assert_eq!(result, "/home/docs/files");
}

#[test]
fn test_multiple_consecutive_slashes() {
    let path = "/home//user///docs";
    let result = canonicalize(path);
    assert_eq!(result, "/home/user/docs");
}

#[test]
fn test_empty_path() {
    let path = "";
    let result = canonicalize(path);
    assert_eq!(result, "/");
}

#[test]
fn test_single_dot() {
    let path = ".";
    let result = canonicalize(path);
    assert_eq!(result, ".");
}

#[test]
fn test_single_dot_in_absolute_path() {
    let path = "/.";
    let result = canonicalize(path);
    assert_eq!(result, "/");
}

#[test]
fn test_trailing_slash() {
    let path = "/home/user/docs/";
    let result = canonicalize(path);
    assert_eq!(result, "/home/user/docs");
}

#[test]
fn test_dots_complex_case() {
    let path = "/a/b/./c/../d//e/./../f";
    let result = canonicalize(path);
    assert_eq!(result, "/a/b/d/f");
}

#[test]
fn test_canonicalize_basic_windows_path() {
    let input = r"C:\Users\test\..\Documents";
    let expected = r"C:/Users/Documents";
    let result = canonicalize(input);
    assert_eq!(result, expected);
}

#[test]
fn test_canonicalize_with_current_dir() {
    let input = r"C:\Users\.\Documents";
    let expected = r"C:/Users/Documents";
    let result = canonicalize(input);
    assert_eq!(result, expected);
}

#[test]
fn test_canonicalize_with_double_parent_dir() {
    let input = r"C:\Users\test\..\..\Documents";
    let expected = r"C:/Documents";
    let result = canonicalize(input);
    assert_eq!(result, expected);
}

#[test]
fn test_canonicalize_with_trailing_slash() {
    let input = r"C:\Users\test\..\Documents\";
    let expected = r"C:/Users/Documents";
    let result = canonicalize(input);
    assert_eq!(result, expected);
}

#[test]
fn test_canonicalize_relative_path() {
    let input = r"Users\test\..\Documents";
    let expected = r"Users/Documents";
    let result = canonicalize(input);
    assert_eq!(result, expected);
}

#[test]
fn test_canonicalize_current_dir_only() {
    let input = r".\";
    let expected = r".";
    let result = canonicalize(input);
    assert_eq!(result, expected);
}

#[test]
fn join_inserts_single_separator() {
    assert_eq!(cargo_c::paths::join("/foo/bar", "libx.a"), "/foo/bar/libx.a");
    assert_eq!(cargo_c::paths::join("", "libx.a"), "libx.a");
    assert_eq!(cargo_c::paths::join("/", "x"), "/x");
    assert_eq!(cargo_c::paths::join("/usr", "/abs"), "/abs");
}

#[test]
fn parent_and_file_name() {
    assert_eq!(cargo_c::paths::parent_dir("/a/b/c"), "/a/b");
    assert_eq!(cargo_c::paths::parent_dir("a"), "");
    assert_eq!(cargo_c::paths::file_name("/a/b/c.so"), Some(String::from("c.so")));
    assert_eq!(cargo_c::paths::file_name("/"), None);
}

#[test]
fn ancestor_strips_trailing_components() {
    assert_eq!(cargo_c::paths::ancestor("a/b/c", 1), "a/b");
    assert_eq!(cargo_c::paths::ancestor("a/b/c", 3), "");
    assert_eq!(cargo_c::paths::ancestor("a/b/c", 4), "");
}
