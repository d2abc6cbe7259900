use imhumane::{is_thumbnail_name, thumbnail_path};

fn thumb(p: &str) -> String {
    String::from_utf8(thumbnail_path(&p.as_bytes().to_vec())).unwrap()
}

#[test]
fn thumbnail_path_replaces_extension() {
    assert_eq!(thumb("images/cats/tabby.jpg"), "images/cats/.thumbnail.tabby.webp");
}

#[test]
fn thumbnail_path_keeps_inner_dots() {
    assert_eq!(thumb("/srv/dogs/a.b.png"), "/srv/dogs/.thumbnail.a.b.webp");
}

#[test]
fn thumbnail_path_of_hidden_file_keeps_name() {
    assert_eq!(thumb("dir/.hidden"), "dir/.thumbnail..hidden.webp");
}

#[test]
fn thumbnail_path_without_extension_or_directory() {
    assert_eq!(thumb("plain"), ".thumbnail.plain.webp");
}

#[test]
fn thumbnail_names_are_recognised() {
    assert!(is_thumbnail_name(b".thumbnail.tabby.webp"));
    assert!(is_thumbnail_name(b".thumbnail."));
    assert!(!is_thumbnail_name(b".thumbnail"));
    assert!(!is_thumbnail_name(b"thumbnail.tabby.webp"));
    assert!(!is_thumbnail_name(b"tabby.jpg"));
}
