use game_launcher::paths::{push_name, safe_join};
use std::path::{Component, Path, PathBuf};

fn joined(root: &str, rel: &str) -> Option<String> {
    safe_join(root, rel)
}

fn by_the_standard_library(root: &str, rel: &str) -> Option<PathBuf> {
    let mut out = Path::new(root).to_path_buf();
    for comp in Path::new(rel).components() {
        match comp {
            Component::Normal(p) => out.push(p),
            Component::CurDir => {}
            _ => return None,
        }
    }
    Some(out)
}

#[test]
fn joins_names_below_the_root() {
    assert_eq!(joined("/srv/game", "index.html"), Some("/srv/game/index.html".to_string()));
    assert_eq!(joined("/srv/game", "Build/game.wasm.br"), Some("/srv/game/Build/game.wasm.br".to_string()));
    assert_eq!(joined("/srv/game/", "a"), Some("/srv/game/a".to_string()));
    assert_eq!(joined("", "a/b"), Some("a/b".to_string()));
    assert_eq!(joined("/", "a"), Some("/a".to_string()));
}

#[test]
fn skips_empty_and_current_directory_segments() {
    assert_eq!(joined("/srv", ""), Some("/srv".to_string()));
    assert_eq!(joined("/srv", "."), Some("/srv".to_string()));
    assert_eq!(joined("/srv", "./a"), Some("/srv/a".to_string()));
    assert_eq!(joined("/srv", "a/./b"), Some("/srv/a/b".to_string()));
    assert_eq!(joined("/srv", "a//b"), Some("/srv/a/b".to_string()));
    assert_eq!(joined("/srv", "a/b/"), Some("/srv/a/b".to_string()));
    assert_eq!(joined("/srv", "a/."), Some("/srv/a".to_string()));
}

#[test]
fn refuses_parent_directory_segments() {
    assert_eq!(joined("/srv", ".."), None);
    assert_eq!(joined("/srv", "../etc/passwd"), None);
    assert_eq!(joined("/srv", "a/../b"), None);
    assert_eq!(joined("/srv", "a/.."), None);
    assert_eq!(joined("/srv", "a/b/../../../etc"), None);
    assert_eq!(joined("/srv", "./.."), None);
    assert_eq!(joined("/srv", "a//.."), None);
    assert_eq!(joined("/srv", "../"), None);
}

#[test]
fn refuses_absolute_paths() {
    assert_eq!(joined("/srv", "/etc/passwd"), None);
    assert_eq!(joined("/srv", "/"), None);
    assert_eq!(joined("/srv", "//a"), None);
    assert_eq!(joined("", "/a"), None);
}

#[test]
fn takes_names_that_only_look_like_traversal() {
    assert_eq!(joined("/srv", "..."), Some("/srv/...".to_string()));
    assert_eq!(joined("/srv", "..a"), Some("/srv/..a".to_string()));
    assert_eq!(joined("/srv", "a.."), Some("/srv/a..".to_string()));
    assert_eq!(joined("/srv", ".hidden"), Some("/srv/.hidden".to_string()));
    assert_eq!(joined("/srv", "a/.b/c"), Some("/srv/a/.b/c".to_string()));
}

#[test]
fn keeps_the_root_as_it_is_written() {
    assert_eq!(joined("/srv/../x", "a"), Some("/srv/../x/a".to_string()));
    assert_eq!(joined("rel/root", "a"), Some("rel/root/a".to_string()));
    assert_eq!(joined("/srv//", "a"), Some("/srv//a".to_string()));
}

#[test]
fn adds_a_separator_only_where_one_is_missing() {
    let mut out: Vec<char> = "/srv".chars().collect();
    let name: Vec<char> = "a".chars().collect();
    push_name(&mut out, &name);
    assert_eq!(out.iter().collect::<String>(), "/srv/a");
    let mut out: Vec<char> = "/srv/".chars().collect();
    push_name(&mut out, &name);
    assert_eq!(out.iter().collect::<String>(), "/srv/a");
    let mut out: Vec<char> = Vec::new();
    push_name(&mut out, &name);
    assert_eq!(out.iter().collect::<String>(), "a");
}

#[test]
fn agrees_with_the_standard_library_on_this_platform() {
    let roots = ["", "/", "/srv", "/srv/", "srv/game", "/srv/../x"];
    let pieces = ["", ".", "..", "a", "b.js", "...", "..a", ".a", "a b", "\u{e9}"];
    let seps = ["", "/", "//"];
    let mut rels: Vec<String> = Vec::new();
    for lead in seps.iter() {
        for first in pieces.iter() {
            for mid in seps.iter() {
                for second in pieces.iter() {
                    for trail in seps.iter() {
                        rels.push(format!("{}{}{}{}{}", lead, first, mid, second, trail));
                    }
                }
            }
        }
    }
    for root in roots.iter() {
        for rel in rels.iter() {
            let ours = safe_join(root, rel).map(PathBuf::from);
            assert_eq!(ours, by_the_standard_library(root, rel), "root {:?}, rel {:?}", root, rel);
        }
    }
}

#[test]
fn never_leaves_the_root() {
    let rels = ["a", "a/b", "./a", "a/./b/", "x/y/z.png", "", ".", "a//b"];
    for rel in rels.iter() {
        let path = safe_join("/srv/game", rel).unwrap();
        assert!(path.starts_with("/srv/game"));
        assert!(path["/srv/game".len()..].split('/').all(|segment| segment != ".."));
    }
}
