use ccgui::paths::parent;
use std::path::Path;

fn std_parent(path: &str) -> Option<String> {
    Path::new(path).parent().map(|p| p.to_string_lossy().to_string())
}

#[test]
fn parent_agrees_with_std_on_short_paths() {
    let alphabet = ['/', '.', 'a'];
    let mut level = vec![String::new()];
    for _ in 0..9 {
        let mut next = Vec::new();
        for text in &level {
            assert_eq!(parent(text), std_parent(text), "{:?}", text);
            for c in alphabet {
                let mut longer = text.clone();
                longer.push(c);
                next.push(longer);
            }
        }
        level = next;
    }
}

#[test]
fn parents_of_some_files() {
    assert_eq!(parent("/etc/hosts").as_deref(), Some("/etc"));
    assert_eq!(parent("/hosts").as_deref(), Some("/"));
    assert_eq!(parent("src/main.rs").as_deref(), Some("src"));
    assert_eq!(parent("main.rs").as_deref(), Some(""));
    assert_eq!(parent("/a//b/./").as_deref(), Some("/a"));
    assert_eq!(parent("../x").as_deref(), Some(".."));
    assert_eq!(parent("/"), None);
    assert_eq!(parent(""), None);
}

#[test]
fn a_parent_is_a_shorter_beginning() {
    for path in ["/a/b/c", "a/./b", "./x", "//x//y//", "日本/語.txt"] {
        let folder = parent(path).unwrap();
        assert!(path.starts_with(&folder), "{:?}", path);
        assert!(folder.len() < path.len(), "{:?}", path);
    }
}

#[test]
fn a_file_lies_in_its_folder() {
    for folder in ["/a", "a", "/a//b", "./a", "..", "/x/./y", "~"] {
        for name in ["f", "..", ".hidden", "a b"] {
            let path = format!("{}/{}", folder, name);
            assert_eq!(parent(&path).as_deref(), Some(folder));
            assert_eq!(parent(&format!("/{}", name)).as_deref(), Some("/"));
            assert_eq!(parent(name).as_deref(), Some(""));
        }
    }
}
