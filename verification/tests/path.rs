use aero_kernel::fs::Path;

fn comps(text: &str) -> Vec<String> {
    Path::new(text).components()
}

#[test]
fn components_basic() {
    assert_eq!(comps("/a/b/c"), vec!["a", "b", "c"]);
    assert_eq!(comps("a/b"), vec!["a", "b"]);
}

#[test]
fn components_absorb_redundant_separators() {
    assert_eq!(comps("//a///b/"), vec!["a", "b"]);
    assert_eq!(comps("/"), Vec::<String>::new());
    assert_eq!(comps(""), Vec::<String>::new());
}

#[test]
fn components_discard_dot() {
    assert_eq!(comps("/a/./b/."), vec!["a", "b"]);
    assert_eq!(comps("."), Vec::<String>::new());
    assert_eq!(comps("./a"), vec!["a"]);
}

#[test]
fn components_keep_dotdot() {
    assert_eq!(comps("../a"), vec!["..", "a"]);
    assert_eq!(comps("/a/../b"), vec!["a", "..", "b"]);
}

#[test]
fn is_absolute() {
    assert!(Path::new("/a/b").is_absolute());
    assert!(Path::new("/").is_absolute());
    assert!(!Path::new("a/b").is_absolute());
    assert!(!Path::new("").is_absolute());
}

#[test]
fn as_str_returns_the_text() {
    assert_eq!(Path::new("/a/b").as_str(), "/a/b");
    assert_eq!(Path::new("").as_str(), "");
}

#[test]
fn parent_and_basename_inner_slash() {
    let (parent, base) = Path::new("/a/b").parent_and_basename();
    assert_eq!(parent.as_str(), "/a");
    assert_eq!(base, "b");
    let (parent, base) = Path::new("a/b/c").parent_and_basename();
    assert_eq!(parent.as_str(), "a/b");
    assert_eq!(base, "c");
}

#[test]
fn parent_and_basename_leading_slash() {
    let (parent, base) = Path::new("/a").parent_and_basename();
    assert_eq!(parent.as_str(), "/");
    assert_eq!(base, "a");
}

#[test]
fn parent_and_basename_no_slash() {
    let (parent, base) = Path::new("ab").parent_and_basename();
    assert_eq!(parent.as_str(), "");
    assert_eq!(base, "ab");
}
