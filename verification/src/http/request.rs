//! The request line, as far as the response depends on it: the request
//! target that stands between its method and its version.

use crate::http::text::chars_of;
use vstd::prelude::*;
use vstd::string::*;

verus! {

/// Whether `c` ends a word of the request line: a space or a line break.
pub open spec fn ends_word(c: char) -> bool {
    c == ' ' || c == '\r' || c == '\n'
}

/// The length of the word that `text` begins with: the number of characters
/// before the first space or line break.
pub open spec fn word_len(text: Seq<char>) -> nat
    decreases text.len(),
{
    if text.len() == 0 || ends_word(text[0]) {
        0
    } else {
        1 + word_len(text.drop_first())
    }
}

/// The request target of a request: the second word of its first line, where
/// a single space parts the words. There is none where the line ends with its
/// first word or the second word is empty.
pub open spec fn target_of(request: Seq<char>) -> Option<Seq<char>> {
    let method = word_len(request) as int;
    if method < request.len() && request[method] == ' ' {
        let rest = request.skip(method + 1);
        if word_len(rest) > 0 {
            Some(rest.take(word_len(rest) as int))
        } else {
            None
        }
    } else {
        None
    }
}

fn word_end(chars: &Vec<char>, from: usize) -> (end: usize)
    requires
        from <= chars@.len(),
    ensures
        from <= end <= chars@.len(),
        end - from == word_len(chars@.skip(from as int)),
{
    let n = chars.len();
    let mut end = from;
    while end < n && !(chars[end] == ' ' || chars[end] == '\r' || chars[end] == '\n')
        invariant
            from <= end <= n,
            n == chars@.len(),
            word_len(chars@.skip(from as int)) == (end - from) + word_len(chars@.skip(end as int)),
        decreases n - end,
    {
        assert(chars@.skip(end as int).drop_first() =~= chars@.skip(end + 1));
        end = end + 1;
    }
    end
}

/// The request target of `request`.
pub fn request_target(request: &str) -> (target: Option<&str>)
    ensures
        target.deep_view() == target_of(request@),
{
    let chars = chars_of(request);
    let n = chars.len();
    assert(chars@.skip(0) =~= chars@);
    let method = word_end(&chars, 0);
    if method < n && chars[method] == ' ' {
        let start = method + 1;
        let end = word_end(&chars, start);
        if end > start {
            assert(request@.subrange(start as int, end as int) =~= request@.skip(start as int).take(
                end - start,
            ));
            Some(request.substring_char(start, end))
        } else {
            None
        }
    } else {
        None
    }
}

} // verus!
