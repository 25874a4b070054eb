use create_file::path::file_name;
use create_file::path::tokenise_path;
use create_file::path::SEPARATOR;

fn strings(items: &[&str]) -> Vec<String> {
    items.iter().map(|item| item.to_string()).collect()
}

#[test]
fn separator_is_a_slash() {
    assert_eq!(SEPARATOR, '/');
}

#[test]
fn directory_segments_leave_out_the_file_name() {
    assert_eq!(tokenise_path("docs/readme.txt", false), strings(&["docs"]));
    assert_eq!(file_name("docs/readme.txt"), "readme.txt");
}

#[test]
fn all_segments_are_kept_on_request() {
    assert_eq!(tokenise_path("docs/readme.txt", true), strings(&["docs", "readme.txt"]));
    assert_eq!(tokenise_path("a/b/c", true), strings(&["a", "b", "c"]));
}

#[test]
fn a_bare_file_name_has_no_directory_segments() {
    assert_eq!(tokenise_path("report.pdf", false), Vec::<String>::new());
    assert_eq!(tokenise_path("report.pdf", true), strings(&["report.pdf"]));
    assert_eq!(file_name("report.pdf"), "report.pdf");
}

#[test]
fn empty_pieces_are_discarded() {
    assert_eq!(tokenise_path("/a//b/c", false), strings(&["a", "b"]));
    assert_eq!(tokenise_path("/a//b/c", true), strings(&["a", "b", "c"]));
    assert_eq!(tokenise_path("//", true), Vec::<String>::new());
    assert_eq!(tokenise_path("//", false), Vec::<String>::new());
}

#[test]
fn a_trailing_separator_leaves_the_file_name_empty() {
    assert_eq!(file_name("a/"), "");
    assert_eq!(tokenise_path("a/", false), strings(&["a"]));
    assert_eq!(tokenise_path("a/", true), strings(&["a"]));
    assert_eq!(file_name("a/b/"), "");
    assert_eq!(tokenise_path("a/b/", false), strings(&["a", "b"]));
}

#[test]
fn the_empty_path_has_nothing() {
    assert_eq!(file_name(""), "");
    assert_eq!(tokenise_path("", false), Vec::<String>::new());
    assert_eq!(tokenise_path("", true), Vec::<String>::new());
}

#[test]
fn the_file_name_follows_the_last_separator() {
    for path in ["a/b/c.txt", "/x", "x/y//z", "shared/report.pdf", "a/b/", "no-separator"] {
        let name = file_name(path);
        match path.rfind('/') {
            Some(last) => {
                assert_eq!(name, &path[last + 1..]);
                assert_eq!(tokenise_path(path, false), tokenise_path(&path[..last], true));
            }
            None => {
                assert_eq!(name, path);
                assert!(tokenise_path(path, false).is_empty());
            }
        }
    }
}

#[test]
fn segments_are_names() {
    for path in ["a/b/c.txt", "//a///b/", "/", "docs/readme.txt"] {
        for keep_last in [false, true] {
            for segment in tokenise_path(path, keep_last) {
                assert!(!segment.is_empty());
                assert!(!segment.contains('/'));
            }
        }
    }
}

#[test]
fn joining_the_pieces_gives_the_path_back() {
    let path = "docs/2024/readme.txt";
    let mut joined = tokenise_path(path, false).join("/");
    joined.push('/');
    joined.push_str(&file_name(path));
    assert_eq!(joined, path);
}

#[test]
fn characters_outside_ascii_are_kept_whole() {
    assert_eq!(tokenise_path("día/año/ñ.txt", false), strings(&["día", "año"]));
    assert_eq!(file_name("día/año/ñ.txt"), "ñ.txt");
    assert_eq!(tokenise_path("文件/夹/名", true), strings(&["文件", "夹", "名"]));
}

#[test]
fn names_are_matched_as_written() {
    assert_eq!(tokenise_path("Docs/ docs /x", false), strings(&["Docs", " docs "]));
}
