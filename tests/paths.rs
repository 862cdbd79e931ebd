use cmvn::paths::{
    default_root, expand_tilde, expand_tilde_with, get_repository_path, repository_path_with,
    Platform,
};

#[test]
fn default_root_per_platform() {
    assert_eq!(default_root(Platform::MacOs), "~/.m2");
    assert_eq!(default_root(Platform::Unix), "~/.m2");
    assert_eq!(default_root(Platform::Windows), "C:\\Users\\.m2");
}

#[test]
fn tilde_expands_into_home() {
    let r = expand_tilde_with("~/.m2", Some(String::from("/home/dev")));
    assert_eq!(r, "/home/dev/.m2");
}

#[test]
fn tilde_drops_every_leading_separator() {
    let r = expand_tilde_with("~///cache/m2", Some(String::from("/home/dev")));
    assert_eq!(r, "/home/dev/cache/m2");
}

#[test]
fn tilde_without_home_stays_literal() {
    assert_eq!(expand_tilde_with("~/.m2", None), "~/.m2");
}

#[test]
fn path_without_tilde_is_kept() {
    let r = expand_tilde_with("/opt/m2", Some(String::from("/home/dev")));
    assert_eq!(r, "/opt/m2");
    assert_eq!(expand_tilde_with("", Some(String::from("/home/dev"))), "");
    assert_eq!(expand_tilde_with("a~b", Some(String::from("/home/dev"))), "a~b");
}

#[test]
fn expand_tilde_keeps_absolute_path() {
    assert_eq!(expand_tilde("/srv/maven"), "/srv/maven");
}

#[test]
fn repository_under_expanded_root() {
    let r = repository_path_with("~/.m2", Some(String::from("/home/dev")));
    assert_eq!(r, "/home/dev/.m2/repository");
    assert_eq!(repository_path_with("/srv/m2/", None), "/srv/m2/repository");
}

#[test]
fn repository_path_of_absolute_root() {
    assert_eq!(get_repository_path("/srv/m2"), "/srv/m2/repository");
}
