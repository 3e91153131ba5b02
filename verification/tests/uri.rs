use codetrackr::uri::{extract_project, infer_language_from_uri, strip_file_scheme};

#[test]
fn strip_file_scheme_removes_one_prefix() {
    assert_eq!(strip_file_scheme("file:///home/a.rs"), "/home/a.rs");
    assert_eq!(strip_file_scheme("/home/a.rs"), "/home/a.rs");
    assert_eq!(strip_file_scheme("file://file:///x"), "file:///x");
    assert_eq!(strip_file_scheme("untitled:1"), "untitled:1");
}

#[test]
fn extract_project_takes_the_parent_directory() {
    assert_eq!(extract_project("/home/user/proj/src/main.rs"), "src");
    assert_eq!(extract_project("/home/user/proj/main.rs"), "proj");
    assert_eq!(extract_project("/proj/main.rs"), "main.rs");
}

#[test]
fn extract_project_with_two_components_takes_the_second() {
    assert_eq!(extract_project("/a/b"), "b");
    assert_eq!(extract_project("a/b"), "b");
}

#[test]
fn extract_project_with_fewer_components_is_unknown() {
    assert_eq!(extract_project("/a"), "Unknown");
    assert_eq!(extract_project(""), "Unknown");
    assert_eq!(extract_project("///"), "Unknown");
}

#[test]
fn extract_project_ignores_empty_components() {
    assert_eq!(extract_project("//home//user///proj//x.rs//"), "proj");
    assert_eq!(extract_project("/x/y/z"), extract_project("x/y/z"));
    assert_eq!(extract_project("/ü/ñ/é.rs"), "ñ");
}

#[test]
fn infer_language_from_known_extensions() {
    assert_eq!(infer_language_from_uri("file:///p/main.rs"), "Rust");
    assert_eq!(infer_language_from_uri("file:///p/app.tsx"), "TypeScript");
    assert_eq!(infer_language_from_uri("/p/x.cxx"), "C++");
    assert_eq!(infer_language_from_uri("/p/x.cs"), "C#");
    assert_eq!(infer_language_from_uri("/p/x.R"), "R");
    assert_eq!(infer_language_from_uri("/p/x.r"), "R");
    assert_eq!(infer_language_from_uri("/p/archive.tar.py"), "Python");
    assert_eq!(infer_language_from_uri("/p/x.zsh"), "Shell");
    assert_eq!(infer_language_from_uri("/p/x.cljc"), "Clojure");
    assert_eq!(infer_language_from_uri("/p/x.gleam"), "Gleam");
}

#[test]
fn infer_language_unknown_extension_names_itself() {
    assert_eq!(infer_language_from_uri("file:///p/x.TSX"), "TSX");
    assert_eq!(infer_language_from_uri("/p/notes.txt"), "txt");
    assert_eq!(infer_language_from_uri("/p/dir.d/"), "d/");
    assert_eq!(infer_language_from_uri("/p/file."), "");
}

#[test]
fn infer_language_without_dot_is_the_whole_path() {
    assert_eq!(infer_language_from_uri("file:///p/Makefile"), "/p/Makefile");
    assert_eq!(infer_language_from_uri(""), "");
}

#[test]
fn file_uri_and_bare_path_agree() {
    for path in ["/home/u/proj/src/lib.rs", "/a/b.py", "x", "/p/Makefile"] {
        let uri = format!("file://{path}");
        assert_eq!(extract_project(strip_file_scheme(&uri)), extract_project(path));
        assert_eq!(infer_language_from_uri(&uri), infer_language_from_uri(path));
    }
}

#[test]
fn extract_project_ignores_repeated_leading_and_trailing_slashes() {
    assert_eq!(extract_project("//home//user///proj//main.rs"), "proj");
    for p in ["home/user/proj/main.rs", "/a/b", "a", "", "/x//y/", "p/q/r/s"] {
        let padded = format!("/{}/", p.replace('/', "//"));
        assert_eq!(extract_project(&padded), extract_project(p), "{p}");
        assert_eq!(extract_project(&format!("{p}/")), extract_project(p), "{p}");
        assert_eq!(extract_project(&format!("/{p}")), extract_project(p), "{p}");
    }
}
