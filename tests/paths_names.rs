use srcmake::envpath::profile_line;
use srcmake::name::{as_valid_name, is_valid_file_name, is_valid_file_path, is_valid_name, path_to_name};
use srcmake::paths::{
    directory_path, get_directory, get_extention, get_file_name, has_extention, languages_dir,
    scripts_dir, set_extention, templates_dir, unify_separators,
};

#[test]
fn separators_are_unified() {
    assert_eq!(unify_separators("a\\b\\c/d"), "a/b/c/d");
}

#[test]
fn extensions() {
    assert!(has_extention("file.txt"));
    assert!(!has_extention("file"));
    assert_eq!(get_extention("dir/file.tar.gz"), "gz");
    assert_eq!(get_extention("file"), "");
    assert_eq!(get_extention("file."), "");
    assert_eq!(set_extention("file.txt", "rs"), "file.rs");
    assert_eq!(set_extention("file", "rs"), "file");
}

#[test]
fn file_names() {
    assert_eq!(get_file_name("dir\\sub/file.txt", true), "file.txt");
    assert_eq!(get_file_name("dir\\sub/file.txt", false), "file");
    assert_eq!(get_file_name("dir/", true), "");
    assert_eq!(get_file_name("", true), "");
    assert_eq!(get_file_name("a.b.c", false), "a.b");
}

#[test]
fn directories() {
    assert_eq!(get_directory("dir\\sub/file.txt"), "dir/sub/");
    assert_eq!(get_directory("file.txt"), "file.txt");
    assert_eq!(get_directory(""), "");
    assert_eq!(directory_path("C:\\bin"), "C:/bin/");
    assert_eq!(directory_path("/usr/bin/"), "/usr/bin/");
    assert_eq!(directory_path(""), "/");
    assert_eq!(languages_dir("/opt/sm/"), "/opt/sm/languages/");
    assert_eq!(templates_dir("/opt/sm/"), "/opt/sm/templates/");
    assert_eq!(scripts_dir("/opt/sm/"), "/opt/sm/languages/scripts/");
}

#[test]
fn file_name_validity() {
    assert!(is_valid_file_name("main.rs"));
    assert!(!is_valid_file_name(""));
    assert!(!is_valid_file_name("a:b"));
    assert!(!is_valid_file_name("a$b"));
    assert!(!is_valid_file_name("tab\tx"));
    assert!(!is_valid_file_name("a/b"));
}

#[test]
fn file_path_validity() {
    assert!(is_valid_file_path("src/main.rs"));
    assert!(is_valid_file_path("/src/main.rs"));
    assert!(is_valid_file_path("/"));
    assert!(is_valid_file_path("C:"));
    assert!(is_valid_file_path("C:/"));
    assert!(is_valid_file_path("c:\\"));
    assert!(is_valid_file_path("C:/src/a.rs"));
    assert!(!is_valid_file_path(""));
    assert!(!is_valid_file_path("1:/x"));
    assert!(!is_valid_file_path("ab:c"));
    assert!(!is_valid_file_path("a//b"));
    assert!(!is_valid_file_path("a/"));
    assert!(is_valid_file_path("dir\\file"));
    assert!(is_valid_file_path("//?/C:/x"));
    assert!(!is_valid_file_path("//?/a//b"));
}

#[test]
fn identifiers() {
    assert!(is_valid_name("my_name1"));
    assert!(is_valid_name("_x"));
    assert!(is_valid_name("Name"));
    assert!(!is_valid_name("1abc"));
    assert!(!is_valid_name("a-b"));
    assert!(!is_valid_name(""));
}

#[test]
fn identifier_forms() {
    assert_eq!(as_valid_name("my-widget", '_'), "my_widget");
    assert_eq!(as_valid_name("1abc", '_'), "_abc");
    assert_eq!(as_valid_name("a1 b", 'x'), "a1xb");
    assert_eq!(as_valid_name("", 'x'), "x");
    assert_eq!(path_to_name("", '_'), "_");
    assert_eq!(path_to_name("Widget", '_'), "Widget");
    assert_eq!(path_to_name("src/my-widget.rs", 'x'), "my_widget");
    assert_eq!(path_to_name("dir/", '_'), "_");
}

#[test]
fn path_profile() {
    assert_eq!(profile_line("/opt/sm/", false), "export PATH=\"$PATH:/opt/sm\"");
    assert_eq!(profile_line("/opt/sm/", true), "/opt/sm");
}
