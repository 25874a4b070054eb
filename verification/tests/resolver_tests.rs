use create_file::resolver::resolve;
use create_file::resolver::NotFound;
use create_file::resolver::Resolution;
use std::collections::HashMap;

struct Tree {
    children: HashMap<(u32, String), u32>,
    asked: Vec<(u32, String)>,
}

fn tree(entries: &[(u32, &str, u32)]) -> Tree {
    let mut children = HashMap::new();
    for (parent, name, child) in entries {
        children.insert((*parent, name.to_string()), *child);
    }
    Tree { children, asked: Vec::new() }
}

fn walk(tree: &mut Tree, start: u32, segments: &[&str]) -> Result<u32, NotFound> {
    let segments: Vec<String> = segments.iter().map(|s| s.to_string()).collect();
    let mut state = resolve(start, segments);
    loop {
        match state {
            Resolution::Resolved(directory) => return Ok(directory),
            Resolution::Failed(missing) => return Err(missing),
            Resolution::Lookup(waiting) => {
                let key = (*waiting.directory(), waiting.name().to_string());
                tree.asked.push(key.clone());
                let child = tree.children.get(&key).copied();
                state = waiting.advance(child);
            }
        }
    }
}

#[test]
fn no_segments_resolve_to_the_start() {
    let mut t = tree(&[(0, "a", 1)]);
    assert_eq!(walk(&mut t, 7, &[]), Ok(7));
    assert!(t.asked.is_empty());
}

#[test]
fn segments_are_followed_in_order() {
    let mut t = tree(&[(0, "a", 1), (1, "b", 2), (2, "c", 3), (0, "b", 9)]);
    assert_eq!(walk(&mut t, 0, &["a", "b", "c"]), Ok(3));
    assert_eq!(
        t.asked,
        vec![(0, "a".to_string()), (1, "b".to_string()), (2, "c".to_string())]
    );
}

#[test]
fn the_first_missing_segment_is_named() {
    let mut t = tree(&[(0, "x", 1)]);
    assert_eq!(walk(&mut t, 0, &["a", "b"]), Err(NotFound { segment: "a".to_string() }));
    assert_eq!(t.asked, vec![(0, "a".to_string())]);
}

#[test]
fn nothing_is_looked_up_after_a_failure() {
    let mut t = tree(&[(0, "a", 1), (2, "c", 3)]);
    assert_eq!(walk(&mut t, 0, &["a", "b", "c"]), Err(NotFound { segment: "b".to_string() }));
    assert_eq!(t.asked, vec![(0, "a".to_string()), (1, "b".to_string())]);
}

#[test]
fn names_are_matched_exactly() {
    let mut t = tree(&[(0, "Docs", 1)]);
    assert_eq!(walk(&mut t, 0, &["docs"]), Err(NotFound { segment: "docs".to_string() }));
    assert_eq!(walk(&mut t, 0, &["Docs"]), Ok(1));
}

#[test]
fn a_walk_names_what_it_waits_for() {
    let state = resolve(5u32, vec!["a".to_string(), "b".to_string()]);
    match state {
        Resolution::Lookup(waiting) => {
            assert_eq!(*waiting.directory(), 5);
            assert_eq!(waiting.name(), "a");
            match waiting.advance(Some(6)) {
                Resolution::Lookup(next) => {
                    assert_eq!(*next.directory(), 6);
                    assert_eq!(next.name(), "b");
                    assert!(matches!(next.advance(Some(8)), Resolution::Resolved(8)));
                }
                _ => panic!("the walk has one more segment"),
            }
        }
        _ => panic!("the walk has segments"),
    }
}
