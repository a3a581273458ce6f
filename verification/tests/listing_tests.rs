use servedir::listing::{listing_base, render_listing_html, DirEntry};

#[test]
fn listing_base_joins_prefix_and_segments() {
    assert_eq!(listing_base("/", &Vec::new()), "/");
    assert_eq!(listing_base("/", &vec!["a".to_string()]), "/a/");
    assert_eq!(
        listing_base("/files", &vec!["a".to_string(), "b".to_string()]),
        "/files/a/b/"
    );
    assert_eq!(listing_base("/files/", &Vec::new()), "/files/");
}

#[test]
fn renders_two_entries_with_anchors() {
    let entries = vec![
        DirEntry::new("b.txt".to_string(), false),
        DirEntry::new("c".to_string(), true),
    ];
    let html = render_listing_html("/a/", &entries);
    assert_eq!(
        html,
        "<ul><li><a href=\"/a/b.txt\">b.txt</a></li><li><a href=\"/a/c/\">c</a></li></ul>"
    );
}

#[test]
fn renders_empty_directory_as_empty_list() {
    let html = render_listing_html("/", &Vec::new());
    assert_eq!(html, "<ul></ul>");
}

#[test]
fn rendering_is_deterministic() {
    let entries = vec![DirEntry::new("x".to_string(), false)];
    let first = render_listing_html("/d/", &entries);
    let second = render_listing_html("/d/", &entries);
    assert_eq!(first, second);
}

#[test]
fn entries_keep_enumeration_order() {
    let entries = vec![
        DirEntry::new("z".to_string(), false),
        DirEntry::new("a".to_string(), false),
    ];
    let html = render_listing_html("/", &entries);
    assert_eq!(
        html,
        "<ul><li><a href=\"/z\">z</a></li><li><a href=\"/a\">a</a></li></ul>"
    );
}
