//! The listing renderer: an HTML index of a directory's entries.

use crate::http::escape::{
    component_encoded, encode_component, is_component_char, lemma_bytes_without_percent,
    lemma_encoded_is_unreserved, lemma_escaped_is_well_formed, lemma_unescape_escaped,
    lemma_unescaped_after_prefix, lemma_well_formed_after_prefix, percent_decoded,
    well_formed_escapes,
};
use crate::http::path::{
    lemma_trim_leading_before, lemma_trim_leading_holds_less, parent, parent_of,
    trim_leading_slashes, without_leading_slashes,
};
use crate::http::text::lemma_encode_utf8_concat;
use vstd::prelude::*;
use vstd::string::*;
use vstd::utf8::*;

verus! {

/// One entry of a directory.
#[derive(Debug, PartialEq, Eq)]
pub struct DirEntry {
    /// The entry's name, as it is shown.
    pub name: String,
    /// Whether the entry is itself a directory.
    pub is_dir: bool,
}

/// A list item that links to `/` followed by `target`, labelled `label`.
pub open spec fn link(target: Seq<char>, label: Seq<char>) -> Seq<char> {
    "<li><a href=\"/"@ + target + "\">"@ + label + "</a></li>"@
}

/// The "up" link of the listing of `decoded`: a link to its parent, which is
/// `/` for a path of one component or none.
pub open spec fn up_link(decoded: Seq<char>) -> Seq<char> {
    link(trim_leading_slashes(parent(decoded)), "up"@)
}

/// Where the link of an entry points: the listed path, a separator and the
/// percent-encoded name, without leading separators.
pub open spec fn entry_target(decoded: Seq<char>, name: Seq<char>) -> Seq<char> {
    trim_leading_slashes(decoded + "/"@ + component_encoded(name))
}

/// How an entry is shown: by its name as it is, followed by a separator where
/// the entry is a directory.
pub open spec fn display_name(entry: DirEntry) -> Seq<char> {
    if entry.is_dir {
        entry.name@ + "/"@
    } else {
        entry.name@
    }
}

/// The list item of an entry.
pub open spec fn entry_link(decoded: Seq<char>, entry: DirEntry) -> Seq<char> {
    link(entry_target(decoded, entry.name@), display_name(entry))
}

/// The list items of a listing: the "up" link, then one item for each entry,
/// in the entries' order.
pub open spec fn listing_items(decoded: Seq<char>, entries: Seq<DirEntry>) -> Seq<Seq<char>> {
    seq![up_link(decoded)] + Seq::new(entries.len(), |i: int| entry_link(decoded, entries[i]))
}

/// The texts of `parts`, one after the other.
pub open spec fn concat(parts: Seq<Seq<char>>) -> Seq<char>
    decreases parts.len(),
{
    if parts.len() == 0 {
        Seq::empty()
    } else {
        concat(parts.drop_last()) + parts.last()
    }
}

/// The HTML listing of the directory at `decoded` with the given entries.
pub open spec fn listing(decoded: Seq<char>, entries: Seq<DirEntry>) -> Seq<char> {
    "<html><body><h1>Directory Listing</h1><ul>"@ + concat(listing_items(decoded, entries))
        + "</ul></body></html>"@
}

/// A listing holds exactly one "up" link, which comes first, and after it
/// exactly one item for each entry. An entry's item shows the entry's name as
/// it is and links to its encoded form, which holds nothing but unreserved
/// characters and `%`.
pub proof fn lemma_listing_items(decoded: Seq<char>, entries: Seq<DirEntry>)
    ensures
        listing_items(decoded, entries).len() == entries.len() + 1,
        listing_items(decoded, entries)[0] == up_link(decoded),
        forall|i: int|
            0 <= i < entries.len() ==> #[trigger] listing_items(decoded, entries)[i + 1] == link(
                trim_leading_slashes(decoded + "/"@ + component_encoded(entries[i].name@)),
                display_name(entries[i]),
            ),
        forall|i: int, j: int|
            0 <= i < entries.len() && 0 <= j < component_encoded(entries[i].name@).len()
                ==> is_component_char(#[trigger] component_encoded(entries[i].name@)[j]),
{
    assert forall|i: int, j: int|
        0 <= i < entries.len() && 0 <= j < component_encoded(
            entries[i].name@,
        ).len() implies is_component_char(#[trigger] component_encoded(entries[i].name@)[j]) by {
        lemma_encoded_is_unreserved(entries[i].name@);
    }
}

/// In a directory whose path holds no `%`, the link of an entry is a request
/// path with well-formed escapes, and it decodes to the directory's path, a
/// separator and the entry's name: the link leads to the entry.
pub proof fn lemma_entry_link_decodes(decoded: Seq<char>, name: Seq<char>)
    requires
        !decoded.contains('%'),
    ensures
        well_formed_escapes(encode_utf8(entry_target(decoded, name))),
        percent_decoded(entry_target(decoded, name)) == trim_leading_slashes(decoded + "/"@)
            + name,
{
    reveal_strlit("/");
    let encoded = component_encoded(name);
    let before = trim_leading_slashes(decoded + "/"@);
    lemma_encoded_is_unreserved(name);
    assert(encoded.len() == 0 || encoded[0] != '/') by {
        if encoded.len() > 0 {
            assert(is_component_char(encoded[0]));
        }
    }
    lemma_trim_leading_before(decoded + "/"@, encoded);
    assert(entry_target(decoded, name) == before + encoded);
    assert(!(decoded + "/"@).contains('%')) by {
        if (decoded + "/"@).contains('%') {
            let j = choose|j: int| 0 <= j < (decoded + "/"@).len() && (decoded + "/"@)[j] == '%';
            if j < decoded.len() {
                assert(decoded[j] == '%');
            }
        }
    }
    lemma_trim_leading_holds_less(decoded + "/"@, '%');
    lemma_bytes_without_percent(before);
    lemma_encode_utf8_concat(before, encoded);
    lemma_encode_utf8_concat(before, name);
    lemma_escaped_is_well_formed(encode_utf8(name));
    lemma_well_formed_after_prefix(encode_utf8(before), encode_utf8(encoded));
    lemma_unescaped_after_prefix(encode_utf8(before), encode_utf8(encoded));
    lemma_unescape_escaped(encode_utf8(name));
    encode_utf8_valid_utf8(before + name);
    encode_utf8_decode_utf8(before + name);
}

fn append_link(body: &mut String, target: &str, label: &str)
    ensures
        final(body)@ == old(body)@ + link(target@, label@),
{
    let ghost before = body@;
    body.append("<li><a href=\"/");
    body.append(target);
    body.append("\">");
    body.append(label);
    body.append("</a></li>");
    assert(body@ =~= before + link(target@, label@));
}

/// Renders the listing of the directory that was requested as `decoded`.
pub fn render_listing(decoded: &str, entries: &Vec<DirEntry>) -> (body: String)
    ensures
        body@ == listing(decoded@, entries@),
{
    let ghost items = listing_items(decoded@, entries@);
    let ghost open = "<html><body><h1>Directory Listing</h1><ul>"@;
    let mut body = String::from_str("<html><body><h1>Directory Listing</h1><ul>");
    append_link(&mut body, without_leading_slashes(parent_of(decoded)), "up");
    proof {
        assert(items.take(1).drop_last() =~= Seq::<Seq<char>>::empty());
        assert(concat(items.take(1).drop_last()) =~= Seq::<char>::empty());
        assert(items.take(1).last() == items[0]);
        assert(concat(items.take(1)) =~= items[0]);
    }
    let n = entries.len();
    let mut i: usize = 0;
    while i < n
        invariant
            i <= n,
            n == entries@.len(),
            items == listing_items(decoded@, entries@),
            open == "<html><body><h1>Directory Listing</h1><ul>"@,
            body@ == open + concat(items.take(i + 1)),
        decreases n - i,
    {
        let entry = &entries[i];
        let encoded = encode_component(entry.name.as_str());
        let mut target = String::from_str(decoded);
        target.append("/");
        target.append(encoded.as_str());
        let mut label = entry.name.clone();
        if entry.is_dir {
            label.append("/");
        }
        append_link(&mut body, without_leading_slashes(target.as_str()), label.as_str());
        proof {
            assert(items.take(i + 2).drop_last() =~= items.take(i + 1));
            assert(items.take(i + 2).last() == entry_link(decoded@, entries@[i as int]));
            assert(body@ =~= open + concat(items.take(i + 2)));
        }
        i = i + 1;
    }
    proof {
        assert(items.take(n + 1) =~= items);
    }
    body.append("</ul></body></html>");
    body
}

} // verus!
