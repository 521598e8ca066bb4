use sasta::fileserver::{FileServer, check_dir_path, check_file_path, split_path};

#[test]
fn traverse() {}

#[test]
fn path_grammar() {
    assert!(check_file_path("/docs/readme.txt"));
    assert!(check_file_path("/a b/c-d.e_f"));
    assert!(!check_file_path("docs/readme.txt"));
    assert!(!check_file_path("/docs/readme."));
    assert!(!check_file_path("/docs/read\tme"));
    assert!(!check_file_path("/a"));

    assert!(check_dir_path("/docs/sub"));
    assert!(!check_dir_path("/docs/sub."));
    assert!(!check_dir_path("/docs/sub/"));
}

#[test]
fn split_path_drops_empty_segments() {
    let segs = split_path("/a//b/c/");
    assert_eq!(segs, vec!["a".to_string(), "b".to_string(), "c".to_string()]);
    let segs = split_path("");
    assert_eq!(segs.len(), 0);
}

#[test]
fn add_get_delete_file() {
    let mut fs = FileServer::new_empty();
    let f = fs
        .add_file(
            "/media/pics/cat.png".to_string(),
            1234,
            "c0ffee.png".to_string(),
            "2023-04-18T10:00:00+00:00".to_string(),
        )
        .unwrap();
    assert_eq!(f.name, "cat.png");
    assert_eq!(f.file_server, "c0ffee.png");
    assert_eq!(f.path, "/media/pics/cat.png");
    assert_eq!(f.size, 1234);

    assert_eq!(
        fs.get_file(&"/media/pics/cat.png".to_string()),
        Some("c0ffee.png".to_string())
    );
    assert_eq!(fs.get_file(&"/media/pics/dog.png".to_string()), None);

    // A second add of the same path is refused.
    assert!(fs
        .add_file(
            "/media/pics/cat.png".to_string(),
            1,
            "other.png".to_string(),
            "2023-04-18T10:00:00+00:00".to_string(),
        )
        .is_err());

    let removed = fs.delete_file("/media/pics/cat.png".to_string()).unwrap();
    assert_eq!(removed.file_server, "c0ffee.png");
    assert_eq!(fs.get_file(&"/media/pics/cat.png".to_string()), None);
    assert!(fs.delete_file("/media/pics/cat.png".to_string()).is_err());
}

#[test]
fn add_file_rejects_illegal_names() {
    let mut fs = FileServer::new_empty();
    assert!(fs
        .add_file(
            "no-leading-slash.txt".to_string(),
            1,
            "x".to_string(),
            "d".to_string(),
        )
        .is_err());
    assert!(fs
        .add_file("/ends-with-dot.".to_string(), 1, "x".to_string(), "d".to_string())
        .is_err());
}

#[test]
fn add_and_delete_dir() {
    let mut fs = FileServer::new_empty();
    fs.add_dir(&"/media/pics".to_string()).unwrap();
    assert!(fs.add_dir(&"/media/pics/".to_string()).is_err());

    fs.add_file(
        "/media/pics/cat.png".to_string(),
        1,
        "c.png".to_string(),
        "d".to_string(),
    )
    .unwrap();

    let removed = fs.delete_dir("/media/pics".to_string()).unwrap();
    assert_eq!(removed.files.len(), 1);
    assert_eq!(removed.files[0].file_server, "c.png");
    assert_eq!(fs.get_file(&"/media/pics/cat.png".to_string()), None);
    assert!(fs.delete_dir("/media/pics".to_string()).is_err());
}

#[test]
fn listing_covers_all_entries() {
    let mut fs = FileServer::new_empty();
    fs.add_file("/a/one.txt".to_string(), 1, "1".to_string(), "d".to_string()).unwrap();
    fs.add_file("/a/b/two.txt".to_string(), 2, "2".to_string(), "d".to_string()).unwrap();
    let list = fs.get_paths_list();
    let ids: Vec<String> = list.entries.iter().map(|e| e.id.clone()).collect();
    assert!(ids.contains(&"/a/one.txt".to_string()));
    assert!(ids.contains(&"/a/b/two.txt".to_string()));

    let tree = fs.get_paths_tree();
    assert!(tree.children.is_some());
}
