use simple_http::http::escape::escapes_well_formed;
use simple_http::http::listing::{render_listing, DirEntry};
use simple_http::http::path::ResolvedPath;
use simple_http::http::response::{HttpResponse, Resource, ResponseStatus};
use simple_http::http::text::{chars_of, decimal_string, str_eq};

const OPEN: &str = "<html><body><h1>Directory Listing</h1><ul>";
const CLOSE: &str = "</ul></body></html>";

fn file(name: &str) -> DirEntry {
    DirEntry { name: name.to_string(), is_dir: false }
}

fn dir(name: &str) -> DirEntry {
    DirEntry { name: name.to_string(), is_dir: true }
}

fn items(body: &str) -> Vec<&str> {
    let inner = body.strip_prefix(OPEN).unwrap().strip_suffix(CLOSE).unwrap();
    inner.split_inclusive("</li>").collect()
}

#[test]
fn empty_directory_has_only_the_up_link() {
    assert_eq!(
        render_listing("/photos", &Vec::new()),
        "<html><body><h1>Directory Listing</h1><ul>\
         <li><a href=\"/\">up</a></li></ul></body></html>"
    );
}

#[test]
fn up_link_is_rendered_at_the_root() {
    let up = "<li><a href=\"/\">up</a></li>";
    for path in ["", "/", "//", "photos", "/photos", "/photos/"] {
        assert_eq!(items(&render_listing(path, &Vec::new())), vec![up], "{}", path);
    }
}

#[test]
fn up_link_points_to_the_parent() {
    assert_eq!(
        items(&render_listing("/photos/2024", &Vec::new())),
        vec!["<li><a href=\"/photos\">up</a></li>"]
    );
    assert_eq!(
        items(&render_listing("/photos/2024/", &Vec::new())),
        vec!["<li><a href=\"/photos\">up</a></li>"]
    );
    assert_eq!(
        items(&render_listing("photos/2024/may", &Vec::new())),
        vec!["<li><a href=\"/photos/2024\">up</a></li>"]
    );
    assert_eq!(
        items(&render_listing("//photos//2024", &Vec::new())),
        vec!["<li><a href=\"/photos\">up</a></li>"]
    );
}

#[test]
fn every_entry_has_one_item_in_order() {
    let entries = vec![file("b.txt"), dir("a"), file("c"), file("b.txt")];
    let body = render_listing("/docs", &entries);
    assert_eq!(
        items(&body),
        vec![
            "<li><a href=\"/\">up</a></li>",
            "<li><a href=\"/docs/b.txt\">b.txt</a></li>",
            "<li><a href=\"/docs/a\">a/</a></li>",
            "<li><a href=\"/docs/c\">c</a></li>",
            "<li><a href=\"/docs/b.txt\">b.txt</a></li>",
        ]
    );
    assert_eq!(body.matches("<li>").count(), entries.len() + 1);
    assert_eq!(body.matches(">up</a>").count(), 1);
}

#[test]
fn reserved_characters_are_escaped_in_links_only() {
    let entries = vec![file("a b#c.txt"), dir("100% sure?"), file("x/y&z=1"), file("\"q\"<r>")];
    assert_eq!(
        items(&render_listing("/docs", &entries)),
        vec![
            "<li><a href=\"/\">up</a></li>",
            "<li><a href=\"/docs/a%20b%23c.txt\">a b#c.txt</a></li>",
            "<li><a href=\"/docs/100%25%20sure%3F\">100% sure?/</a></li>",
            "<li><a href=\"/docs/x%2Fy%26z%3D1\">x/y&z=1</a></li>",
            "<li><a href=\"/docs/%22q%22%3Cr%3E\">\"q\"<r></a></li>",
        ]
    );
}

#[test]
fn unreserved_characters_are_left_as_they_are() {
    let name = "AZaz09-_.!~*'()";
    assert_eq!(
        items(&render_listing("/d", &vec![file(name)]))[1],
        "<li><a href=\"/d/AZaz09-_.!~*'()\">AZaz09-_.!~*'()</a></li>"
    );
}

#[test]
fn every_other_ascii_character_is_escaped_in_upper_case_hex() {
    let unreserved = "-_.!~*'()";
    for code in 0u8..=0x7f {
        let c = code as char;
        let name = c.to_string();
        let body = render_listing("/d", &vec![file(&name)]);
        let expected = if c.is_ascii_alphanumeric() || unreserved.contains(c) {
            format!("<li><a href=\"/d/{}\">{}</a></li>", c, c)
        } else {
            format!("<li><a href=\"/d/%{:02X}\">{}</a></li>", code, c)
        };
        assert_eq!(body, format!("{}<li><a href=\"/\">up</a></li>{}{}", OPEN, expected, CLOSE));
    }
}

#[test]
fn characters_beyond_ascii_are_escaped_byte_by_byte() {
    let entries = vec![file("r\u{e9}sum\u{e9}.pdf"), dir("\u{4e2d}\u{6587}"), file("\u{1f600}")];
    assert_eq!(
        items(&render_listing("/d", &entries)),
        vec![
            "<li><a href=\"/\">up</a></li>",
            "<li><a href=\"/d/r%C3%A9sum%C3%A9.pdf\">r\u{e9}sum\u{e9}.pdf</a></li>",
            "<li><a href=\"/d/%E4%B8%AD%E6%96%87\">\u{4e2d}\u{6587}/</a></li>",
            "<li><a href=\"/d/%F0%9F%98%80\">\u{1f600}</a></li>",
        ]
    );
}

#[test]
fn leading_slashes_are_not_doubled_in_links() {
    assert_eq!(
        items(&render_listing("", &vec![file("a")]))[1],
        "<li><a href=\"/a\">a</a></li>"
    );
    assert_eq!(
        items(&render_listing("/", &vec![file("a")]))[1],
        "<li><a href=\"/a\">a</a></li>"
    );
    assert_eq!(
        items(&render_listing("///docs", &vec![file("a")]))[1],
        "<li><a href=\"/docs/a\">a</a></li>"
    );
    assert_eq!(
        items(&render_listing("docs", &vec![file("a")]))[1],
        "<li><a href=\"/docs/a\">a</a></li>"
    );
    assert_eq!(
        items(&render_listing("/docs/", &vec![file("a")]))[1],
        "<li><a href=\"/docs//a\">a</a></li>"
    );
}

#[test]
fn listed_path_is_linked_as_it_was_decoded() {
    assert_eq!(
        items(&render_listing("/my docs", &vec![file("a b")]))[1],
        "<li><a href=\"/my docs/a%20b\">a b</a></li>"
    );
}

#[test]
fn listing_is_framed_as_html() {
    let path = ResolvedPath { decoded: "/d".to_string(), candidate: "/srv/www/d".to_string() };
    let entries = vec![dir("\u{e9}t\u{e9}"), file("a b")];
    let body = render_listing("/d", &vec![dir("\u{e9}t\u{e9}"), file("a b")]);
    let response = HttpResponse::new(&path, Resource::Directory { entries });
    assert_eq!(response.status(), ResponseStatus::OK);
    assert_eq!(response.content_type(), "text/html");
    assert_eq!(response.content_length(), body.len());
    assert_eq!(response.binary_content, None);
    assert_eq!(
        response.response_body,
        format!(
            "HTTP/2 200 OK\r\nContent-Type: text/html\r\nContent-Length: {}\r\n\r\n{}",
            body.len(),
            body
        )
    );
    assert!(body.len() > body.chars().count());
}

#[test]
fn escapes_need_two_hex_digits() {
    for text in ["", "abc", "%41", "%4a%4B%00%ff", "a%20b", "%25", "/%E4%B8%AD", "100%2525"] {
        assert!(escapes_well_formed(text), "{}", text);
    }
    for text in ["%", "%4", "a%", "a%4", "%zz", "%4g", "%g4", "%%41", "%41%", "100%", "%\u{e9}41"] {
        assert!(!escapes_well_formed(text), "{}", text);
    }
}

#[test]
fn numbers_are_rendered_in_decimal() {
    assert_eq!(decimal_string(0), "0");
    assert_eq!(decimal_string(7), "7");
    assert_eq!(decimal_string(9), "9");
    assert_eq!(decimal_string(10), "10");
    assert_eq!(decimal_string(48), "48");
    assert_eq!(decimal_string(305), "305");
    assert_eq!(decimal_string(1_000_000), "1000000");
    assert_eq!(decimal_string(1234567890), "1234567890");
    assert_eq!(decimal_string(usize::MAX), usize::MAX.to_string());
}

#[test]
fn texts_are_compared_and_split_by_character() {
    assert!(str_eq("", ""));
    assert!(str_eq("html", "html"));
    assert!(str_eq("\u{e9}t\u{e9}", "\u{e9}t\u{e9}"));
    assert!(!str_eq("html", "htm"));
    assert!(!str_eq("html", "htmk"));
    assert!(!str_eq("", "a"));
    assert!(!str_eq("e", "\u{e9}"));
    assert_eq!(chars_of(""), Vec::<char>::new());
    assert_eq!(chars_of("a/\u{e9}"), vec!['a', '/', '\u{e9}']);
}
