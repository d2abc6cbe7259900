use imhumane::{build_collections, Error, FileEntry, RootEntry};

fn file(path: &str) -> FileEntry {
    FileEntry { path: path.as_bytes().to_vec(), is_file: true }
}

fn dir(path: &str, name: Option<&str>, files: Vec<FileEntry>) -> RootEntry {
    RootEntry {
        path: path.as_bytes().to_vec(),
        name: name.map(|n| n.to_string()),
        is_dir: true,
        files,
    }
}

#[test]
fn scan_groups_images_by_directory() {
    let entries = vec![
        dir("root/cats", Some("cats"), vec![file("root/cats/a.jpg"), file("root/cats/b.png")]),
        dir("root/dogs", Some("dogs"), vec![file("root/dogs/c.jpg")]),
    ];
    let cs = build_collections(&entries).unwrap();
    assert_eq!(cs.len(), 2);
    assert_eq!(cs[0].name, "cats");
    assert_eq!(cs[0].images, vec![b"root/cats/a.jpg".to_vec(), b"root/cats/b.png".to_vec()]);
    assert_eq!(cs[1].name, "dogs");
    assert_eq!(cs[1].images, vec![b"root/dogs/c.jpg".to_vec()]);
}

#[test]
fn scan_excludes_thumbnails() {
    let entries = vec![dir(
        "root/cats",
        Some("cats"),
        vec![
            file("root/cats/.thumbnail.a.webp"),
            file("root/cats/a.jpg"),
            file("root/cats/.thumbnail.b.webp"),
        ],
    )];
    let cs = build_collections(&entries).unwrap();
    assert_eq!(cs.len(), 1);
    assert_eq!(cs[0].images, vec![b"root/cats/a.jpg".to_vec()]);
}

#[test]
fn scan_skips_empty_directories_and_plain_files() {
    let mut subdir = file("root/cats/nested");
    subdir.is_file = false;
    let entries = vec![
        dir("root/empty", Some("empty"), vec![]),
        dir("root/thumbs", Some("thumbs"), vec![file("root/thumbs/.thumbnail.x.webp")]),
        dir("root/cats", Some("cats"), vec![subdir, file("root/cats/a.jpg")]),
        RootEntry {
            path: b"root/readme.txt".to_vec(),
            name: Some("readme.txt".to_string()),
            is_dir: false,
            files: vec![],
        },
    ];
    let cs = build_collections(&entries).unwrap();
    assert_eq!(cs.len(), 1);
    assert_eq!(cs[0].name, "cats");
    assert_eq!(cs[0].images, vec![b"root/cats/a.jpg".to_vec()]);
}

#[test]
fn scan_rejects_unnamed_directory_with_images() {
    let entries = vec![
        dir("root/cats", Some("cats"), vec![file("root/cats/a.jpg")]),
        dir("root/\u{fffd}", None, vec![file("root/x/b.jpg")]),
    ];
    match build_collections(&entries) {
        Err(Error::CollectionName { path }) => assert_eq!(path, "root/\u{fffd}".as_bytes().to_vec()),
        other => panic!("unexpected {:?}", other),
    }
}

#[test]
fn scan_ignores_unnamed_directory_without_images() {
    let entries = vec![
        dir("root/odd", None, vec![]),
        dir("root/cats", Some("cats"), vec![file("root/cats/a.jpg")]),
    ];
    let cs = build_collections(&entries).unwrap();
    assert_eq!(cs.len(), 1);
}

#[test]
fn scan_of_empty_root_is_empty() {
    assert!(build_collections(&vec![]).unwrap().is_empty());
}
