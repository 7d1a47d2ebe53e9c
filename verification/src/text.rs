//! Small helpers for building texts.

use vstd::prelude::*;

verus! {

/// The texts of a sequence of strings.
pub open spec fn texts(strings: Seq<String>) -> Seq<Seq<char>> {
    strings.map_values(|s: String| s@)
}

/// Calls `String::push`: the character is added at the end.
#[verifier::external_body]
pub(crate) fn push_char(text: &mut String, c: char)
    ensures
        final(text)@ == old(text)@.push(c),
{
    text.push(c)
}

/// The texts of `lines` one after the other, each between `before` and
/// `after`.
pub open spec fn framed(lines: Seq<Seq<char>>, before: Seq<char>, after: Seq<char>) -> Seq<char>
    decreases lines.len(),
{
    if lines.len() == 0 {
        Seq::empty()
    } else {
        framed(lines.drop_last(), before, after) + before + lines.last() + after
    }
}

/// Whether `needle` stands in `haystack` at `offset`.
pub open spec fn occurs_at(haystack: Seq<u8>, needle: Seq<u8>, offset: int) -> bool {
    0 <= offset && offset + needle.len() <= haystack.len() && haystack.subrange(
        offset,
        offset + needle.len(),
    ) == needle
}

/// Whether `needle` stands somewhere in `haystack`.
pub open spec fn occurs_in(haystack: Seq<u8>, needle: Seq<u8>) -> bool {
    exists|offset: int| occurs_at(haystack, needle, offset)
}

fn matches_at(haystack: &[u8], needle: &[u8], offset: usize) -> (found: bool)
    requires
        offset + needle@.len() <= haystack@.len(),
    ensures
        found == occurs_at(haystack@, needle@, offset as int),
{
    let length: usize = haystack.len();
    let mut i: usize = 0;
    while i < needle.len()
        invariant
            i <= needle@.len(),
            length == haystack@.len(),
            offset + needle@.len() <= haystack@.len(),
            forall|k: int| 0 <= k < i ==> haystack@[offset + k] == needle@[k],
        decreases needle@.len() - i,
    {
        if haystack[offset + i] != needle[i] {
            proof {
                let part = haystack@.subrange(offset as int, offset + needle@.len());
                assert(part[i as int] != needle@[i as int]);
            }
            return false;
        }
        i += 1;
    }
    assert(haystack@.subrange(offset as int, offset + needle@.len()) =~= needle@);
    true
}

/// Searches `haystack` for `needle`, byte by byte. The empty needle is found
/// in every haystack.
pub fn contains_bytes(haystack: &[u8], needle: &[u8]) -> (found: bool)
    ensures
        found == occurs_in(haystack@, needle@),
{
    if needle.len() > haystack.len() {
        return false;
    }
    let last: usize = haystack.len() - needle.len();
    let mut offset: usize = 0;
    while offset < last
        invariant
            offset <= last,
            last == haystack@.len() - needle@.len(),
            forall|k: int| 0 <= k < offset ==> !occurs_at(haystack@, needle@, k),
        decreases last - offset,
    {
        if matches_at(haystack, needle, offset) {
            return true;
        }
        offset += 1;
    }
    matches_at(haystack, needle, last)
}

/// The notes for a page, as HTML: each note in italics in a paragraph of its
/// own, followed by a line break.
pub open spec fn notes_html(notes: Seq<Seq<char>>) -> Seq<char> {
    framed(notes, "<p><i>"@, "</i></p>\n"@)
}

/// Writes the notes that a page shows above its form.
pub fn flash_html(notes: &Vec<String>) -> (html: String)
    ensures
        html@ == notes_html(texts(notes@)),
{
    let mut html = String::new();
    let mut i: usize = 0;
    proof {
        assert(texts(notes@).take(0) =~= Seq::empty());
    }
    while i < notes.len()
        invariant
            i <= notes@.len(),
            html@ == notes_html(texts(notes@).take(i as int)),
        decreases notes@.len() - i,
    {
        proof {
            let longer = texts(notes@).take(i + 1);
            assert(longer.drop_last() =~= texts(notes@).take(i as int));
            assert(longer.last() == notes@[i as int]@);
        }
        let ghost before = html@;
        html.append("<p><i>");
        html.append(notes[i].as_str());
        html.append("</i></p>\n");
        i += 1;
        proof {
            assert(html@ =~= before + "<p><i>"@ + notes@[i - 1]@ + "</i></p>\n"@);
        }
    }
    proof {
        assert(texts(notes@).take(notes@.len() as int) =~= texts(notes@));
    }
    html
}

/// The failure named `context` together with the `cause` that brought it
/// about, outermost first.
pub open spec fn failure_chain(context: Seq<char>, cause: Seq<char>) -> Seq<Seq<char>> {
    seq![context, cause]
}

/// Puts a failure and its cause in a chain, outermost first.
pub fn chain_of(context: &str, cause: String) -> (chain: Vec<String>)
    ensures
        texts(chain@) == failure_chain(context@, cause@),
{
    let mut chain: Vec<String> = Vec::new();
    chain.push(String::from_str(context));
    chain.push(cause);
    assert(texts(chain@) =~= failure_chain(context@, cause@));
    chain
}

} // verus!
