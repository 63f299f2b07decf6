use std::path::{Component, Path};

use simple_http::http::path::{contains_parent_segment, extension_of, parent_of, path_depth};

fn paths(segments: &[&str]) -> Vec<String> {
    let mut state: u64 = 0x9e37_79b9_7f4a_7c15;
    let mut next = move || {
        state = state.wrapping_mul(6364136223846793005).wrapping_add(1442695040888963407);
        (state >> 33) as usize
    };
    let mut out = vec![String::new(), "/".to_string()];
    for _ in 0..3000 {
        let mut path = String::new();
        if next() % 2 == 0 {
            path.push('/');
        }
        let count = next() % 5;
        for i in 0..count {
            if i > 0 {
                path.push_str(if next() % 7 == 0 { "//" } else { "/" });
            }
            path.push_str(segments[next() % segments.len()]);
        }
        if next() % 4 == 0 {
            path.push('/');
        }
        out.push(path);
    }
    out
}

const NAMES: [&str; 10] =
    ["a", "b.c", "x.tar.gz", ".hidden", "..x", "y..", "...", "r\u{e9}sum\u{e9}.txt", "d.", "e f"];

#[test]
fn parent_segment_is_what_std_takes_for_a_parent_component() {
    let mut segments = NAMES.to_vec();
    segments.extend_from_slice(&["..", ".", ".."]);
    for path in paths(&segments) {
        let expected = Path::new(&path).components().any(|c| c == Component::ParentDir);
        assert_eq!(contains_parent_segment(&path), expected, "{:?}", path);
    }
}

#[test]
fn depth_is_what_std_counts_as_components() {
    for path in paths(&NAMES) {
        assert_eq!(path_depth(&path), Path::new(&path).components().count(), "{:?}", path);
    }
}

#[test]
fn parent_is_what_std_takes_for_the_parent() {
    for path in paths(&NAMES) {
        let expected = Path::new(&path).parent().and_then(|p| p.to_str()).unwrap_or("");
        assert_eq!(
            parent_of(&path).trim_start_matches('/'),
            expected.trim_start_matches('/'),
            "{:?}",
            path
        );
    }
}

#[test]
fn extension_is_what_std_takes_for_the_extension() {
    for path in paths(&NAMES) {
        if path.ends_with('/') {
            continue;
        }
        let expected = Path::new(&path).extension().and_then(|e| e.to_str()).unwrap_or("");
        assert_eq!(extension_of(&path), expected, "{:?}", path);
    }
}
