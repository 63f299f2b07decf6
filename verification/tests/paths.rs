use simple_http::http::path::{
    contains_parent_segment, extension_of, parent_of, path_depth, prevent_backtracking, resolve,
    without_leading_slashes,
};
use simple_http::http::request::request_target;

#[test]
fn parent_segments_are_found() {
    let with = ["..", "/..", "../", "/../", "a/..", "../a", "a/../b", "/a/b/..", "//..//", "./.."];
    for path in with {
        assert!(contains_parent_segment(path), "{}", path);
    }
    for path in ["", "/", ".", "...", "..a", "a..", "a/..b", "a../b", "/a/.../b", "a.b", "/. ./"] {
        assert!(!contains_parent_segment(path), "{}", path);
    }
}

#[test]
fn depth_counts_components_and_the_root() {
    assert_eq!(path_depth(""), 0);
    assert_eq!(path_depth("/"), 1);
    assert_eq!(path_depth("//"), 1);
    assert_eq!(path_depth("a"), 1);
    assert_eq!(path_depth("a/b"), 2);
    assert_eq!(path_depth("/srv"), 2);
    assert_eq!(path_depth("/srv/www"), 3);
    assert_eq!(path_depth("/srv/www/"), 3);
    assert_eq!(path_depth("//srv///www//a.txt"), 4);
    assert_eq!(path_depth("/srv/www/r\u{e9}sum\u{e9}/x"), 5);
}

#[test]
fn leading_slashes_are_trimmed() {
    assert_eq!(without_leading_slashes(""), "");
    assert_eq!(without_leading_slashes("/"), "");
    assert_eq!(without_leading_slashes("///"), "");
    assert_eq!(without_leading_slashes("a/b"), "a/b");
    assert_eq!(without_leading_slashes("/a/b"), "a/b");
    assert_eq!(without_leading_slashes("///a//b/"), "a//b/");
    assert_eq!(without_leading_slashes("/\u{e9}/"), "\u{e9}/");
}

#[test]
fn parent_drops_the_last_component() {
    assert_eq!(parent_of(""), "");
    assert_eq!(parent_of("/"), "");
    assert_eq!(parent_of("photos"), "");
    assert_eq!(parent_of("/photos"), "");
    assert_eq!(parent_of("/photos/"), "");
    assert_eq!(parent_of("/photos/2024"), "/photos");
    assert_eq!(parent_of("/photos/2024/"), "/photos");
    assert_eq!(parent_of("/photos//2024"), "/photos");
    assert_eq!(parent_of("photos/2024/cat.png"), "photos/2024");
    assert_eq!(parent_of("/a/b/c///"), "/a/b");
    assert_eq!(parent_of("/\u{e9}t\u{e9}/plage"), "/\u{e9}t\u{e9}");
}

#[test]
fn extension_follows_the_last_dot_of_the_file_name() {
    assert_eq!(extension_of("/srv/www/index.html"), "html");
    assert_eq!(extension_of("a.tar.gz"), "gz");
    assert_eq!(extension_of("/srv/www/Cargo.lock"), "lock");
    assert_eq!(extension_of("/srv/www/README"), "");
    assert_eq!(extension_of("/srv/www/.bashrc"), "");
    assert_eq!(extension_of("/srv/www/.config.toml"), "toml");
    assert_eq!(extension_of("/srv/www/file."), "");
    assert_eq!(extension_of("/srv/www.d/file"), "");
    assert_eq!(extension_of("/srv/www/"), "");
    assert_eq!(extension_of(""), "");
    assert_eq!(extension_of("/srv/www/..x"), "x");
    assert_eq!(extension_of("/srv/www/photo.PNG"), "PNG");
    assert_eq!(extension_of("/srv/www/r\u{e9}sum\u{e9}.t\u{e9}xt"), "t\u{e9}xt");
}

#[test]
fn request_path_is_joined_below_the_root() {
    let resolved = resolve("/srv/www", "/docs/file.txt");
    assert_eq!(resolved.decoded, "/docs/file.txt");
    assert_eq!(resolved.candidate, "/srv/www/docs/file.txt");

    let resolved = resolve("/srv/www/", "/docs/file.txt");
    assert_eq!(resolved.candidate, "/srv/www/docs/file.txt");

    let resolved = resolve("/srv/www", "docs/file.txt");
    assert_eq!(resolved.candidate, "/srv/www/docs/file.txt");

    let resolved = resolve("/srv/www", "///etc/passwd");
    assert_eq!(resolved.decoded, "///etc/passwd");
    assert_eq!(resolved.candidate, "/srv/www/etc/passwd");

    let resolved = resolve("/srv/www", "/");
    assert_eq!(resolved.candidate, "/srv/www/");

    let resolved = resolve("/srv/www", "");
    assert_eq!(resolved.candidate, "/srv/www/");

    let resolved = resolve("/", "/a");
    assert_eq!(resolved.candidate, "/a");

    let resolved = resolve("", "/a/b");
    assert_eq!(resolved.candidate, "a/b");

    let resolved = resolve(".", "/a/b");
    assert_eq!(resolved.candidate, "./a/b");
}

#[test]
fn request_path_is_percent_decoded() {
    assert_eq!(resolve("/r", "/a%20b").decoded, "/a b");
    assert_eq!(resolve("/r", "/a%2Fb").decoded, "/a/b");
    assert_eq!(resolve("/r", "/a%2fb").candidate, "/r/a/b");
    assert_eq!(resolve("/r", "/%E4%B8%AD%E6%96%87").decoded, "/\u{4e2d}\u{6587}");
    assert_eq!(resolve("/r", "/%41%42%43").decoded, "/ABC");
    assert_eq!(resolve("/r", "/a+b").decoded, "/a+b");
    assert_eq!(resolve("/r", "/%ff").decoded, "/\u{fffd}");
    assert_eq!(resolve("/r", "/100%").decoded, "/100%");
    assert_eq!(resolve("/r", "/%zz%41").decoded, "/%zzA");
    assert_eq!(resolve("/r", "/%2541").decoded, "/%41");
}

#[test]
fn guard_denies_parent_segments_whatever_the_canonical_paths() {
    assert!(!prevent_backtracking("/srv/www/../x", "/srv/www", Some("/srv/x")));
    assert!(!prevent_backtracking("/srv/www/../www/x", "/srv/www", Some("/srv/www/x")));
    assert!(!prevent_backtracking("/srv/www/a/..", "/srv/www", Some("/srv/www")));
    assert!(!prevent_backtracking("..", "/", Some("/a/b/c/d")));
    assert!(!prevent_backtracking("/srv/www/..", "/srv/www", None));
}

#[test]
fn guard_compares_canonical_depths() {
    assert!(prevent_backtracking("/srv/www/a", "/srv/www", Some("/srv/www/a")));
    assert!(prevent_backtracking("/srv/www/", "/srv/www", Some("/srv/www")));
    assert!(prevent_backtracking("/srv/www/a/b/c", "/srv/www", Some("/srv/www/a/b/c")));
    assert!(prevent_backtracking("/srv/www/link", "/srv/www", Some("/var/data/x")));
    assert!(!prevent_backtracking("/srv/www/link", "/srv/www", Some("/etc")));
    assert!(!prevent_backtracking("/srv/www/link", "/srv/www", Some("/")));
    assert!(!prevent_backtracking("/srv/www/link", "/srv/www/deep/root", Some("/srv/www/x")));
}

#[test]
fn guard_denies_what_cannot_be_canonicalized() {
    assert!(!prevent_backtracking("/srv/www/a", "/srv/www", None));
    assert!(!prevent_backtracking("/srv/www/", "/", None));
}

#[test]
fn request_target_is_the_second_word_of_the_request_line() {
    assert_eq!(
        request_target("GET /docs/file.txt HTTP/1.1\r\nHost: x\r\n\r\n"),
        Some("/docs/file.txt")
    );
    assert_eq!(request_target("GET / HTTP/1.1\r\n\r\n"), Some("/"));
    assert_eq!(request_target("GET /a%20b HTTP/2\r\n"), Some("/a%20b"));
    assert_eq!(request_target("GET /a\r\nHost: x y\r\n"), Some("/a"));
    assert_eq!(request_target("GET /a\nHost: x y\n"), Some("/a"));
    assert_eq!(request_target("GET /a"), Some("/a"));
    assert_eq!(request_target("HEAD /r\u{e9}sum\u{e9} HTTP/1.1"), Some("/r\u{e9}sum\u{e9}"));
    assert_eq!(request_target(" /a HTTP/1.1"), Some("/a"));
    assert_eq!(request_target(""), None);
    assert_eq!(request_target("GET"), None);
    assert_eq!(request_target("GET "), None);
    assert_eq!(request_target("GET\r\n/a HTTP/1.1"), None);
    assert_eq!(request_target("GET  /a HTTP/1.1"), None);
    assert_eq!(request_target("GET \r\n"), None);
    assert_eq!(request_target("\r\nGET /a HTTP/1.1"), None);
}
