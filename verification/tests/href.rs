use map_reduce::href::format_href;

#[test]
fn href_of_a_plain_path() {
    assert_eq!(format_href("index.html"), "/index.html");
    assert_eq!(format_href("a/b/c.txt"), "/a/b/c.txt");
}

#[test]
fn href_drops_the_leading_dot_slash() {
    assert_eq!(format_href("./www/index.html"), "/www/index.html");
    assert_eq!(format_href("./"), "/");
}

#[test]
fn href_drops_every_dot_slash() {
    assert_eq!(format_href("./a/./b"), "/a/b");
    assert_eq!(format_href("a/./b/./c"), "/a/b/c");
    assert_eq!(format_href("././x"), "/x");
}

#[test]
fn href_of_parent_directories() {
    assert_eq!(format_href("../x"), "/.x");
    assert_eq!(format_href(".."), "/..");
    assert_eq!(format_href("a../b"), "/a.b");
}

#[test]
fn href_of_short_paths() {
    assert_eq!(format_href(""), "/");
    assert_eq!(format_href("."), "/.");
    assert_eq!(format_href("/"), "//");
    assert_eq!(format_href("x"), "/x");
}

#[test]
fn href_does_not_look_again_at_what_it_joined() {
    assert_eq!(format_href("../"), "/.");
    assert_eq!(format_href("..//"), "/./");
    assert_eq!(format_href(".//"), "//");
}

#[test]
fn href_keeps_other_characters() {
    assert_eq!(format_href("./données/é.txt"), "/données/é.txt");
    assert_eq!(format_href("a b/.c"), "/a b/.c");
}

#[test]
fn href_agrees_with_replace() {
    for path in ["./a", "a/./b", "...//./", "./.././x", "/./", ".", "./.", "a.b/c./d"] {
        assert_eq!(format_href(path), format!("/{}", path.replace("./", "")));
    }
}
