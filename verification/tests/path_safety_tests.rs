use std::path::{Path, PathBuf};
use system_bridge::path_safety::{is_within, target_path, validate_path, PathProbe, Reach};
use tempfile::TempDir;

fn text(p: &Path) -> String {
    p.to_str().unwrap().to_string()
}

fn resolve(p: &Path) -> Result<String, String> {
    p.canonicalize().map(|c| text(&c)).map_err(|e| e.to_string())
}

fn probe(path: &Path, root: &Path) -> PathProbe {
    let target = PathBuf::from(target_path(&text(path), &text(root)));
    let (reach, existing) = if target.exists() {
        (Reach::Target, target.clone())
    } else {
        match target.parent() {
            None => (Reach::NoParent, target.clone()),
            Some(parent) if parent.exists() => (
                Reach::Parent {
                    file_name: target.file_name().map(|n| n.to_str().unwrap().to_string()),
                },
                parent.to_path_buf(),
            ),
            Some(_) => {
                let mut current = target.clone();
                let mut missing = Vec::new();
                while !current.exists() {
                    match (current.file_name(), current.parent()) {
                        (Some(name), Some(parent)) => {
                            missing.push(name.to_str().unwrap().to_string());
                            current = parent.to_path_buf();
                        }
                        _ => break,
                    }
                }
                missing.reverse();
                (Reach::Ancestor { missing }, current)
            }
        }
    };
    PathProbe {
        canonical_root: resolve(root),
        reach,
        existing: text(&existing),
        canonical_existing: resolve(&existing),
    }
}

fn make_file(dir: &Path, name: &str) -> tempfile::NamedTempFile {
    tempfile::Builder::new().prefix(name).rand_bytes(0).tempfile_in(dir).unwrap()
}

#[test]
fn test_validate_path_safe() {
    let temp = TempDir::new().unwrap();
    let root = temp.path().canonicalize().unwrap();
    let file_path = root.join("safe.txt");
    let _file = make_file(&root, "safe.txt");

    let result = validate_path(&text(&file_path), &probe(&file_path, &root));
    assert!(result.is_ok());
    assert_eq!(PathBuf::from(result.unwrap()), file_path);
}

#[test]
fn test_validate_path_escape() {
    let temp = TempDir::new().unwrap();
    let root = temp.path().canonicalize().unwrap();
    let parent = root.parent().unwrap();

    let result = validate_path(&text(parent), &probe(parent, &root));
    assert!(result.is_err());
}

#[test]
fn test_validate_path_traversal() {
    let temp = TempDir::new().unwrap();
    let root = temp.path().canonicalize().unwrap();
    let file_path = root.join("safe.txt");
    let _file = make_file(&root, "safe.txt");

    let subdir = root.join("subdir");
    let _dir = tempfile::Builder::new().prefix("subdir").rand_bytes(0).tempdir_in(&root).unwrap();
    let traversal = subdir.join("..").join("safe.txt");

    let result = validate_path(&text(&traversal), &probe(&traversal, &root));
    assert!(result.is_ok());
    assert_eq!(PathBuf::from(result.unwrap()), file_path);
}

#[test]
fn new_file_in_an_existing_directory() {
    let temp = TempDir::new().unwrap();
    let root = temp.path().canonicalize().unwrap();
    let file_path = root.join("new.bin");
    let p = probe(&file_path, &root);
    assert_eq!(p.reach, Reach::Parent { file_name: Some("new.bin".to_string()) });
    assert_eq!(validate_path(&text(&file_path), &p), Ok(text(&file_path)));
}

#[test]
fn new_file_in_new_directories() {
    let temp = TempDir::new().unwrap();
    let root = temp.path().canonicalize().unwrap();
    let file_path = root.join("a").join("b").join("c.txt");
    let p = probe(&file_path, &root);
    assert_eq!(
        p.reach,
        Reach::Ancestor { missing: vec!["a".to_string(), "b".to_string(), "c.txt".to_string()] }
    );
    assert_eq!(validate_path(&text(&file_path), &p), Ok(text(&file_path)));
}

#[test]
fn missing_names_are_appended_to_the_resolved_part() {
    let p = PathProbe {
        canonical_root: Ok("/data/root".to_string()),
        reach: Reach::Ancestor { missing: vec!["b".to_string(), "c.txt".to_string()] },
        existing: "/data/root/a".to_string(),
        canonical_existing: Ok("/data/root/a".to_string()),
    };
    assert_eq!(validate_path("a/b/c.txt", &p), Ok("/data/root/a/b/c.txt".to_string()));
    let q = PathProbe {
        canonical_root: Ok("/data/root".to_string()),
        reach: Reach::Parent { file_name: Some("c.txt".to_string()) },
        existing: "/data/root/a".to_string(),
        canonical_existing: Ok("/data/root/a".to_string()),
    };
    assert_eq!(validate_path("a/c.txt", &q), Ok("/data/root/a/c.txt".to_string()));
    let t = PathProbe {
        canonical_root: Ok("/data/root".to_string()),
        reach: Reach::Target,
        existing: "/data/root/link".to_string(),
        canonical_existing: Ok("/data/root/a".to_string()),
    };
    assert_eq!(validate_path("link", &t), Ok("/data/root/a".to_string()));
}

fn escaping(reach: Reach) -> PathProbe {
    PathProbe {
        canonical_root: Ok("/data/root".to_string()),
        reach,
        existing: "/data/root/link".to_string(),
        canonical_existing: Ok("/etc".to_string()),
    }
}

#[test]
fn escape_messages_name_the_part() {
    assert_eq!(
        validate_path("link", &escaping(Reach::Target)),
        Err("Path escape detected: \"link\"".to_string())
    );
    assert_eq!(
        validate_path("link/x", &escaping(Reach::Parent { file_name: Some("x".to_string()) })),
        Err("Path escape detected in parent: \"/data/root/link\"".to_string())
    );
    assert_eq!(
        validate_path("link/x", &escaping(Reach::Parent { file_name: None })),
        Err("Path escape detected in parent: \"/data/root/link\"".to_string())
    );
    assert_eq!(
        validate_path(
            "link/x/y",
            &escaping(Reach::Ancestor { missing: vec!["x".to_string(), "y".to_string()] })
        ),
        Err("Path escape detected in base: \"/data/root/link\"".to_string())
    );
}

fn unresolved(root: Result<String, String>, reach: Reach) -> PathProbe {
    PathProbe {
        canonical_root: root,
        reach,
        existing: "/x".to_string(),
        canonical_existing: Err("denied".to_string()),
    }
}

#[test]
fn unresolvable_paths_are_refused() {
    let gone = Err("No such file or directory".to_string());
    assert_eq!(
        validate_path("x", &unresolved(gone.clone(), Reach::Target)),
        Err("Invalid root path: No such file or directory".to_string())
    );
    assert_eq!(
        validate_path("x", &unresolved(gone, Reach::NoParent)),
        Err("Invalid root path: No such file or directory".to_string())
    );
    let root = Ok("/".to_string());
    assert_eq!(
        validate_path("x", &unresolved(root.clone(), Reach::Target)),
        Err("Failed to resolve path: denied".to_string())
    );
    assert_eq!(
        validate_path("x", &unresolved(root.clone(), Reach::Parent { file_name: None })),
        Err("Failed to resolve parent path: denied".to_string())
    );
    assert_eq!(
        validate_path("x", &unresolved(root, Reach::Ancestor { missing: vec![] })),
        Err("Failed to resolve base path: denied".to_string())
    );
}

#[test]
fn a_missing_target_needs_a_parent_and_a_name() {
    let no_parent = PathProbe {
        canonical_root: Ok("/data/root".to_string()),
        reach: Reach::NoParent,
        existing: "".to_string(),
        canonical_existing: Err("No such file or directory".to_string()),
    };
    assert_eq!(validate_path("", &no_parent), Err("Path has no parent".to_string()));
    let no_name = PathProbe {
        canonical_root: Ok("/data/root".to_string()),
        reach: Reach::Parent { file_name: None },
        existing: "/data/root/file".to_string(),
        canonical_existing: Ok("/data/root/file".to_string()),
    };
    assert_eq!(validate_path("file/..", &no_name), Err("Invalid filename".to_string()));
}

#[test]
fn within_is_by_component() {
    assert!(is_within("/a/b", "/a"));
    assert!(is_within("/a", "/a"));
    assert!(is_within("/a/b", "/"));
    assert!(!is_within("/ab", "/a"));
    assert!(!is_within("/", "/a"));
    assert!(!is_within("/b/a", "/a"));
    for (t, r) in [("/a/b", "/a"), ("/ab", "/a"), ("/a", "/a"), ("/", "/a"), ("/a/b/c", "/a/b")] {
        assert_eq!(is_within(t, r), Path::new(t).starts_with(r), "{} {}", t, r);
    }
}

#[test]
fn target_is_the_path_or_the_path_beneath_the_root() {
    assert_eq!(target_path("/abs/file", "/root"), "/abs/file");
    assert_eq!(target_path("rel/file", "/root"), "/root/rel/file");
    assert_eq!(target_path("rel", "/root/"), "/root/rel");
}
