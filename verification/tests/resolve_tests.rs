use servedir::resolve::{
    apply_segments, join_under_root, normalize_root, path_within_root, segments_of,
    strip_mount_prefix,
};
use servedir::ServeDir;

fn sd(prefix: &str, dir: &str) -> ServeDir {
    ServeDir::new(prefix.to_string(), dir.to_string())
}

#[test]
fn normalize_root_trims_trailing_separators() {
    assert_eq!(normalize_root("/srv/www/"), "/srv/www");
    assert_eq!(normalize_root("/srv/www"), "/srv/www");
    assert_eq!(normalize_root("/"), "");
    assert_eq!(normalize_root("."), ".");
    assert_eq!(normalize_root(""), "");
}

#[test]
fn strip_mount_prefix_removes_prefix_and_leading_separators() {
    assert_eq!(strip_mount_prefix("/a/b.txt", "/"), "a/b.txt");
    assert_eq!(strip_mount_prefix("/files/a", "/files"), "a");
    assert_eq!(strip_mount_prefix("/files", "/files"), "");
    assert_eq!(strip_mount_prefix("///a", "/"), "a");
    // the prefix is absent: only the leading separators go
    assert_eq!(strip_mount_prefix("/a", "/files"), "a");
}

#[test]
fn segments_drop_empty_pieces() {
    assert_eq!(segments_of("a/b.txt"), vec!["a".to_string(), "b.txt".to_string()]);
    assert_eq!(segments_of("a//b/"), vec!["a".to_string(), "b".to_string()]);
    assert_eq!(segments_of(""), Vec::<String>::new());
    assert_eq!(segments_of("///"), Vec::<String>::new());
}

#[test]
fn apply_segments_handles_dot_and_dotdot() {
    let segs: Vec<String> = vec!["a".into(), ".".into(), "b".into()];
    assert_eq!(apply_segments(&segs), vec!["a".to_string(), "b".to_string()]);

    let segs: Vec<String> = vec!["a".into(), "..".into(), "b".into()];
    assert_eq!(apply_segments(&segs), vec!["b".to_string()]);

    // `..` at the root stays at the root instead of climbing above it
    let segs: Vec<String> = vec!["..".into(), "..".into(), "etc".into()];
    assert_eq!(apply_segments(&segs), vec!["etc".to_string()]);
}

#[test]
fn join_under_root_builds_candidate_paths() {
    let segs: Vec<String> = vec!["a".into(), "b.txt".into()];
    assert_eq!(join_under_root("/srv/www", &segs), "/srv/www/a/b.txt");
    assert_eq!(join_under_root("/srv/www", &Vec::new()), "/srv/www");
    // the empty normal form stands for the filesystem root
    assert_eq!(join_under_root("", &Vec::new()), "/");
    assert_eq!(join_under_root("", &vec!["etc".to_string()]), "/etc");
}

#[test]
fn resolves_simple_file_request() {
    let s = sd("/", "/srv/www");
    let (rel, cand) = s.resolve_candidate("/a/b.txt");
    assert_eq!(rel, vec!["a".to_string(), "b.txt".to_string()]);
    assert_eq!(cand, "/srv/www/a/b.txt");
}

#[test]
fn traversal_request_stays_under_root() {
    let s = sd("/", "/srv/www");
    let (rel, cand) = s.resolve_candidate("/a/../../../../etc/passwd");
    assert_eq!(rel, vec!["etc".to_string(), "passwd".to_string()]);
    assert_eq!(cand, "/srv/www/etc/passwd");
    assert!(cand.starts_with("/srv/www/"));
}

#[test]
fn dot_segments_resolve_identically() {
    let s = sd("/", "/srv/www");
    let (rel_dotted, cand_dotted) = s.resolve_candidate("/a/./b.txt");
    let (rel_plain, cand_plain) = s.resolve_candidate("/a/b.txt");
    assert_eq!(rel_dotted, rel_plain);
    assert_eq!(cand_dotted, cand_plain);
}

#[test]
fn resolution_is_deterministic() {
    let s = sd("/", "/srv/www");
    let (rel1, cand1) = s.resolve_candidate("/a/b.txt");
    let (rel2, cand2) = s.resolve_candidate("/a/b.txt");
    assert_eq!(rel1, rel2);
    assert_eq!(cand1, cand2);
}

#[test]
fn boundary_check_accepts_root_and_descendants() {
    assert!(path_within_root("/srv/www", "/srv/www"));
    assert!(path_within_root("/srv/www", "/srv/www/a"));
    assert!(path_within_root("/srv/www", "/srv/www/a/b.txt"));
    assert!(path_within_root("", "/"));
    assert!(path_within_root("", "/etc"));
}

#[test]
fn boundary_check_rejects_escapes_and_siblings() {
    assert!(!path_within_root("/srv/www", "/etc/passwd"));
    assert!(!path_within_root("/srv/www", "/srv"));
    // a sibling whose name merely extends the root's is outside
    assert!(!path_within_root("/srv/www", "/srv/www-evil/x"));
    assert!(!path_within_root("/srv/www", "/srv/wwwx"));
}

#[test]
fn new_normalizes_the_root() {
    let s = sd("/", "/srv/www/");
    assert_eq!(s.dir, "/srv/www");
    let (_, cand) = s.resolve_candidate("/a");
    assert_eq!(cand, "/srv/www/a");
}

#[test]
fn mount_prefix_other_than_root_is_stripped() {
    let s = sd("/files", "/srv/www");
    let (rel, cand) = s.resolve_candidate("/files/a/b.txt");
    assert_eq!(rel, vec!["a".to_string(), "b.txt".to_string()]);
    assert_eq!(cand, "/srv/www/a/b.txt");
}
