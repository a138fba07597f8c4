//! Turning markdown with file references into parts.
use super::files::MatchedFiles;
use super::refs::{files_at_refs, law_placed_refs_cut, refs_well_placed, FileRef};
use crate::text::lemma_encode_utf8_concat;
use super::types::request::{joined_text, texts_before, InlineData, Part, PartType};
use vstd::prelude::*;
use vstd::string::*;
use vstd::utf8::{
    encode_utf8, encode_utf8_decode_utf8, encode_utf8_valid_utf8, is_char_boundary_iff_not_is_continuation_byte,
    is_char_boundary_start_end_of_seq, is_continuation_byte,
};

verus! {

/// Whether the file was fetched: it has both a MIME type and a content.
pub open spec fn fetched(f: MatchedFiles) -> bool {
    f.mime_type is Some && f.base64 is Some
}

/// Whether byte offset `cut` of `b` falls between characters.
pub open spec fn between_chars(b: Seq<u8>, cut: int) -> bool {
    cut == b.len() || (0 <= cut < b.len() && !is_continuation_byte(b[cut]))
}

/// Whether `process` can cut the markdown `b` after each fetched file of
/// `files`, the text before `removed` being already cut off: each cut, the end
/// of a file reference, lies in order after the previous one, within `b`, and
/// between characters.
pub open spec fn cuts_ok(b: Seq<u8>, files: Seq<MatchedFiles>, removed: int) -> bool
    decreases files.len(),
{
    if files.len() == 0 {
        true
    } else {
        let f = files[0];
        if fetched(f) {
            let cut = f.index + f.length;
            &&& cut <= usize::MAX
            &&& removed <= cut <= b.len()
            &&& between_chars(b, cut)
            &&& cuts_ok(b, files.drop_first(), cut)
        } else {
            cuts_ok(b, files.drop_first(), removed)
        }
    }
}

/// Whether `process` can cut `markdown` after each fetched file of `files`
/// (see `cuts_ok`).
pub fn cuts_fit(markdown: &str, files: &Vec<MatchedFiles>) -> (r: bool)
    ensures
        r == cuts_ok(encode_utf8(markdown@), files@, 0),
{
    let bytes = markdown.as_bytes();
    let ghost b = encode_utf8(markdown@);
    let mut removed: usize = 0;
    let mut i: usize = 0;
    assert(files@.skip(0) =~= files@);
    while i < files.len()
        invariant
            bytes@ == b,
            b == encode_utf8(markdown@),
            i <= files@.len(),
            removed <= b.len(),
            cuts_ok(b, files@, 0) == cuts_ok(b, files@.skip(i as int), removed as int),
        decreases files@.len() - i,
    {
        let ghost rest = files@.skip(i as int);
        assert(rest.drop_first() =~= files@.skip(i + 1));
        assert(rest[0] == files@[i as int]);
        assert(cuts_ok(b, rest, removed as int) == if fetched(rest[0]) {
            let cut = rest[0].index + rest[0].length;
            &&& cut <= usize::MAX
            &&& removed <= cut <= b.len()
            &&& between_chars(b, cut)
            &&& cuts_ok(b, rest.drop_first(), cut)
        } else {
            cuts_ok(b, rest.drop_first(), removed as int)
        });
        let f = &files[i];
        if f.mime_type.is_some() && f.base64.is_some() {
            if f.index > usize::MAX - f.length {
                return false;
            }
            let cut = f.index + f.length;
            if cut < removed || cut > bytes.len() {
                return false;
            }
            if cut < bytes.len() && 0x80 <= bytes[cut] && bytes[cut] <= 0xbf {
                return false;
            }
            removed = cut;
        }
        i = i + 1;
    }
    assert(files@.skip(i as int) =~= Seq::<MatchedFiles>::empty());
    true
}

/// Whether `p` is a text part whose UTF-8 bytes are `bytes`.
pub open spec fn text_part_with_bytes(p: Part, bytes: Seq<u8>) -> bool {
    p.data matches PartType::Text(t) && encode_utf8(t@) == bytes
}

/// The parts that `process` makes of markdown `b` from offset `removed` on:
/// for each fetched file, the text up to the end of its reference and then the
/// file inline; after the last one, the rest of the text if it is not empty.
pub open spec fn parts_of(parts: Seq<Part>, b: Seq<u8>, files: Seq<MatchedFiles>, removed: int) -> bool
    decreases files.len(),
{
    if files.len() == 0 {
        if removed < b.len() {
            parts.len() == 1 && text_part_with_bytes(parts[0], b.subrange(removed, b.len() as int))
        } else {
            parts.len() == 0
        }
    } else {
        let f = files[0];
        if fetched(f) {
            let cut = f.index + f.length;
            &&& parts.len() >= 2
            &&& text_part_with_bytes(parts[0], b.subrange(removed, cut))
            &&& parts[1].data == PartType::InlineData(
                InlineData { mime_type: f.mime_type.unwrap(), data: f.base64.unwrap() },
            )
            &&& parts_of(parts.skip(2), b, files.drop_first(), cut)
        } else {
            parts_of(parts, b, files.drop_first(), removed)
        }
    }
}

/// Converts markdown to parts, so that with `![image](link)` Gemini sees the
/// image too; `link` can be a URL or a file path.
#[derive(Clone)]
pub struct MarkdownToParts<'a> {
    markdown: &'a str,
    base64s: Vec<MatchedFiles>,
}

impl<'a> MarkdownToParts<'a> {
    pub closed spec fn markdown_of(&self) -> Seq<char> {
        self.markdown@
    }

    pub closed spec fn files_of(&self) -> Seq<MatchedFiles> {
        self.base64s@
    }

    /// The converter of `markdown` with `files`, when `process` can cut the
    /// markdown after each fetched file (`cuts_ok`); `None` otherwise.
    pub fn checked(markdown: &'a str, base64s: Vec<MatchedFiles>) -> (r: Option<MarkdownToParts<'a>>)
        ensures
            r is Some <==> cuts_ok(encode_utf8(markdown@), base64s@, 0),
            r matches Some(m) ==> m.markdown_of() == markdown@ && m.files_of() == base64s@,
    {
        if cuts_fit(markdown, &base64s) {
            Some(MarkdownToParts { markdown, base64s })
        } else {
            None
        }
    }

    /// The converter of `markdown` with the files fetched at `refs`, the file
    /// references found in it; `None` when the files do not stand where the
    /// references stand. The result can always be processed (`cuts_ok`).
    pub fn at_refs(markdown: &'a str, refs: &Vec<FileRef>, base64s: Vec<MatchedFiles>) -> (r:
        Option<MarkdownToParts<'a>>)
        requires
            refs_well_placed(encode_utf8(markdown@), refs@),
        ensures
            r is Some <==> files_at_refs(base64s@, refs@),
            r matches Some(m) ==> {
                &&& m.markdown_of() == markdown@
                &&& m.files_of() == base64s@
                &&& cuts_ok(encode_utf8(m.markdown_of()), m.files_of(), 0)
            },
    {
        let bytes = markdown.as_bytes();
        let total = bytes.len();
        assert(bytes@.len() == total);
        if base64s.len() != refs.len() {
            return None;
        }
        let mut i: usize = 0;
        while i < refs.len()
            invariant
                base64s@.len() == refs@.len(),
                i <= refs@.len(),
                forall|k: int|
                    0 <= k < i ==> (#[trigger] base64s@[k]).index == refs@[k].index
                        && base64s@[k].length == refs@[k].length,
            decreases refs@.len() - i,
        {
            if base64s[i].index != refs[i].index || base64s[i].length != refs[i].length {
                return None;
            }
            i = i + 1;
        }
        proof {
            law_placed_refs_cut(bytes@, refs@, base64s@);
        }
        Some(MarkdownToParts { markdown, base64s })
    }

    pub fn base64s(&self) -> (r: &Vec<MatchedFiles>)
        ensures
            r@ == self.files_of(),
    {
        &self.base64s
    }

    /// The parts: the text up to the end of each fetched file's reference, then
    /// that file inline, and finally the rest of the text, if any. Files that
    /// were not fetched are left in the text.
    pub fn process(self) -> (r: Vec<Part>)
        requires
            cuts_ok(encode_utf8(self.markdown_of()), self.files_of(), 0),
        ensures
            parts_of(r@, encode_utf8(self.markdown_of()), self.files_of(), 0),
    {
        let ghost b = encode_utf8(self.markdown@);
        let ghost files = self.base64s@;
        let mut parts: Vec<Part> = Vec::new();
        let mut removed_length: usize = 0;
        let mut markdown: &str = self.markdown;
        let n = self.base64s.len();
        let mut i: usize = 0;
        proof {
            assert(files.skip(0) =~= files);
            assert forall|rest: Seq<Part>| parts_of(rest, b, files.skip(0), 0) implies parts_of(
                parts@ + rest,
                b,
                files,
                0,
            ) by {
                assert(parts@ + rest =~= rest);
            }
        }
        while i < n
            invariant
                n == files.len(),
                files == self.base64s@,
                b == encode_utf8(self.markdown@),
                i <= n,
                removed_length <= b.len(),
                markdown.spec_bytes() == b.subrange(removed_length as int, b.len() as int),
                cuts_ok(b, files.skip(i as int), removed_length as int),
                forall|rest: Seq<Part>|
                    parts_of(rest, b, files.skip(i as int), removed_length as int) ==> parts_of(
                        parts@ + rest,
                        b,
                        files,
                        0,
                    ),
            decreases n - i,
        {
            let ghost tail = files.skip(i as int);
            assert(tail.drop_first() =~= files.skip(i + 1));
            assert(tail[0] == files[i as int]);
            let file = &self.base64s[i];
            match (&file.mime_type, &file.base64) {
                (Some(mime_type), Some(base64)) => {
                    let end = file.index + file.length - removed_length;
                    let ghost cut = file.index + file.length;
                    proof {
                        let m = markdown.spec_bytes();
                        encode_utf8_valid_utf8(markdown@);
                        is_char_boundary_start_end_of_seq(m);
                        if 0 < end < m.len() {
                            is_char_boundary_iff_not_is_continuation_byte(m, end as int);
                            assert(m[end as int] == b[cut]);
                        }
                    }
                    let (text, rest) = markdown.split_at(end);
                    let text_part = Part::from_text(text);
                    let file_part = Part::new(
                        PartType::InlineData(InlineData::new(mime_type.clone(), base64.clone())),
                    );
                    let ghost before = parts@;
                    parts.push(text_part);
                    parts.push(file_part);
                    proof {
                        assert(text_part_with_bytes(text_part, b.subrange(removed_length as int, cut)))
                            by {
                            assert(text.spec_bytes() =~= b.subrange(removed_length as int, cut));
                        }
                        assert forall|more: Seq<Part>|
                            parts_of(more, b, files.skip(i + 1), cut) implies parts_of(
                                parts@ + more,
                                b,
                                files,
                                0,
                            ) by {
                            let whole = seq![text_part, file_part] + more;
                            assert(whole.skip(2) =~= more);
                            assert(parts_of(whole, b, tail, removed_length as int));
                            assert(parts@ + more =~= before + whole);
                        }
                        assert(rest.spec_bytes() =~= b.subrange(cut, b.len() as int));
                    }
                    markdown = rest;
                    removed_length = removed_length + end;
                },
                _ => {
                    proof {
                        assert(!fetched(tail[0]));
                        assert forall|more: Seq<Part>|
                            parts_of(more, b, files.skip(i + 1), removed_length as int) implies parts_of(
                                parts@ + more,
                                b,
                                files,
                                0,
                            ) by {
                            assert(parts_of(more, b, tail, removed_length as int));
                        }
                    }
                },
            }
            i = i + 1;
        }
        assert(files.skip(n as int) =~= Seq::<MatchedFiles>::empty());
        if !markdown.is_empty() {
            let ghost before = parts@;
            let last = Part::from_text(markdown);
            parts.push(last);
            proof {
                assert(text_part_with_bytes(last, b.subrange(removed_length as int, b.len() as int)));
                assert(parts_of(seq![last], b, files.skip(n as int), removed_length as int));
                assert(parts@ =~= before + seq![last]);
            }
        } else {
            assert(markdown.spec_bytes() =~= Seq::<u8>::empty());
            assert(removed_length == b.len());
            assert(parts_of(Seq::<Part>::empty(), b, files.skip(n as int), removed_length as int));
            assert(parts@ + Seq::<Part>::empty() =~= parts@);
        }
        parts
    }
}

/// The UTF-8 bytes of the text parts of `parts`, one after the other.
pub open spec fn text_bytes(parts: Seq<Part>) -> Seq<u8>
    decreases parts.len(),
{
    if parts.len() == 0 {
        Seq::empty()
    } else {
        let head = text_bytes(parts.drop_last());
        match parts.last().data {
            PartType::Text(t) => head + encode_utf8(t@),
            _ => head,
        }
    }
}

/// The text bytes of one part.
pub open spec fn part_bytes(p: Part) -> Seq<u8> {
    match p.data {
        PartType::Text(t) => encode_utf8(t@),
        _ => Seq::<u8>::empty(),
    }
}

proof fn lemma_text_bytes_last(parts: Seq<Part>)
    requires
        parts.len() > 0,
    ensures
        text_bytes(parts) == text_bytes(parts.drop_last()) + part_bytes(parts.last()),
{
    match parts.last().data {
        PartType::Text(t) => {},
        _ => {
            assert(text_bytes(parts.drop_last()) + Seq::<u8>::empty() =~= text_bytes(parts.drop_last()));
        },
    }
}

proof fn lemma_text_bytes_prepend(p: Part, rest: Seq<Part>)
    ensures
        text_bytes(seq![p] + rest) == part_bytes(p) + text_bytes(rest),
    decreases rest.len(),
{
    let whole = seq![p] + rest;
    lemma_text_bytes_last(whole);
    if rest.len() == 0 {
        assert(whole.drop_last() =~= Seq::<Part>::empty());
        assert(whole.last() == p);
        assert(Seq::<u8>::empty() + part_bytes(p) =~= part_bytes(p) + Seq::<u8>::empty());
    } else {
        lemma_text_bytes_prepend(p, rest.drop_last());
        lemma_text_bytes_last(rest);
        assert(whole.drop_last() =~= seq![p] + rest.drop_last());
        assert(whole.last() == rest.last());
        assert(part_bytes(p) + text_bytes(rest.drop_last()) + part_bytes(rest.last()) =~= part_bytes(p)
            + (text_bytes(rest.drop_last()) + part_bytes(rest.last())));
    }
}

/// Joined without a separator, the texts of parts are their text bytes decoded.
proof fn lemma_joined_text_bytes(parts: Seq<Part>)
    ensures
        encode_utf8(joined_text(parts, Seq::empty())) == text_bytes(parts),
    decreases parts.len(),
{
    if parts.len() > 0 {
        lemma_joined_text_bytes(parts.drop_last());
        let head = joined_text(parts.drop_last(), Seq::empty());
        match parts.last().data {
            PartType::Text(t) => {
                assert(head + Seq::<char>::empty() =~= head);
                lemma_encode_utf8_concat(head, t@);
                if !texts_before(parts.drop_last()) {
                    lemma_no_texts_no_bytes(parts.drop_last());
                    assert(text_bytes(parts.drop_last()) + encode_utf8(t@) =~= encode_utf8(t@));
                }
            },
            _ => {},
        }
    }
}

proof fn lemma_no_texts_no_bytes(parts: Seq<Part>)
    requires
        !texts_before(parts),
    ensures
        text_bytes(parts) == Seq::<u8>::empty(),
        joined_text(parts, Seq::empty()) == Seq::<char>::empty(),
    decreases parts.len(),
{
    if parts.len() > 0 {
        let init = parts.drop_last();
        assert forall|j: int| 0 <= j < init.len() implies (#[trigger] init[j]).data !is Text by {
            assert(init[j] == parts[j]);
        }
        lemma_no_texts_no_bytes(init);
        assert(parts[parts.len() - 1].data !is Text);
    }
}

proof fn lemma_parts_of_text_bytes(parts: Seq<Part>, b: Seq<u8>, files: Seq<MatchedFiles>, removed: int)
    requires
        parts_of(parts, b, files, removed),
        cuts_ok(b, files, removed),
        0 <= removed <= b.len(),
    ensures
        text_bytes(parts) == b.subrange(removed, b.len() as int),
    decreases files.len(),
{
    if files.len() == 0 {
        if removed < b.len() {
            assert(parts =~= seq![parts[0]] + Seq::<Part>::empty());
            lemma_text_bytes_prepend(parts[0], Seq::empty());
            assert(text_bytes(Seq::<Part>::empty()) == Seq::<u8>::empty());
            assert(b.subrange(removed, b.len() as int) + Seq::<u8>::empty() =~= b.subrange(
                removed,
                b.len() as int,
            ));
        } else {
            assert(parts =~= Seq::<Part>::empty());
            assert(b.subrange(removed, b.len() as int) =~= Seq::<u8>::empty());
        }
    } else {
        let f = files[0];
        if fetched(f) {
            let cut = f.index + f.length;
            let rest = parts.skip(2);
            lemma_parts_of_text_bytes(rest, b, files.drop_first(), cut);
            assert(parts =~= seq![parts[0]] + (seq![parts[1]] + rest));
            lemma_text_bytes_prepend(parts[1], rest);
            lemma_text_bytes_prepend(parts[0], seq![parts[1]] + rest);
            assert(Seq::<u8>::empty() + text_bytes(rest) =~= text_bytes(rest));
            assert(b.subrange(removed, cut) + b.subrange(cut, b.len() as int) =~= b.subrange(
                removed,
                b.len() as int,
            ));
        } else {
            lemma_parts_of_text_bytes(parts, b, files.drop_first(), removed);
        }
    }
}

/// `process` keeps the whole markdown: the texts of the parts, joined, are the
/// markdown again; fetched files are added between them, not cut out.
pub proof fn law_process_keeps_markdown(parts: Seq<Part>, markdown: Seq<char>, files: Seq<MatchedFiles>)
    requires
        cuts_ok(encode_utf8(markdown), files, 0),
        parts_of(parts, encode_utf8(markdown), files, 0),
    ensures
        joined_text(parts, Seq::empty()) == markdown,
{
    let b = encode_utf8(markdown);
    lemma_parts_of_text_bytes(parts, b, files, 0);
    assert(b.subrange(0, b.len() as int) =~= b);
    lemma_joined_text_bytes(parts);
    encode_utf8_decode_utf8(joined_text(parts, Seq::empty()));
    encode_utf8_decode_utf8(markdown);
}

/// How many of `files` were fetched.
pub open spec fn fetched_count(files: Seq<MatchedFiles>) -> nat
    decreases files.len(),
{
    if files.len() == 0 {
        0
    } else {
        (if fetched(files[0]) { 1nat } else { 0nat }) + fetched_count(files.drop_first())
    }
}

/// Where the last cut falls: the end of the last fetched file's reference, or
/// `removed` when none of `files` was fetched.
pub open spec fn last_cut(files: Seq<MatchedFiles>, removed: int) -> int
    decreases files.len(),
{
    if files.len() == 0 {
        removed
    } else if fetched(files[0]) {
        last_cut(files.drop_first(), files[0].index + files[0].length)
    } else {
        last_cut(files.drop_first(), removed)
    }
}

/// `process` makes two parts for each fetched file (the text before it and the
/// file), and one more for the rest of the text when it is not empty.
pub proof fn law_process_part_count(parts: Seq<Part>, b: Seq<u8>, files: Seq<MatchedFiles>, removed: int)
    requires
        parts_of(parts, b, files, removed),
    ensures
        parts.len() == 2 * fetched_count(files) + if last_cut(files, removed) < b.len() {
            1int
        } else {
            0int
        },
    decreases files.len(),
{
    if files.len() > 0 {
        let f = files[0];
        if fetched(f) {
            law_process_part_count(parts.skip(2), b, files.drop_first(), f.index + f.length);
        } else {
            law_process_part_count(parts, b, files.drop_first(), removed);
        }
    }
}

} // verus!
