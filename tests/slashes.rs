use openjudge_cli::strip_slashes;

#[test]
fn prefix() {
    assert_eq!(strip_slashes("/123"), "123");
}

#[test]
fn suffix() {
    assert_eq!(strip_slashes("123/"), "123");
}

#[test]
fn both() {
    assert_eq!(strip_slashes("/123/"), "123");
}

#[test]
fn none() {
    assert_eq!(strip_slashes("123"), "123");
}

#[test]
fn lone_slash_becomes_empty() {
    assert_eq!(strip_slashes("/"), "");
    assert_eq!(strip_slashes("//"), "");
    assert_eq!(strip_slashes(""), "");
}

#[test]
fn only_one_slash_each_side() {
    assert_eq!(strip_slashes("//a//"), "/a/");
}
