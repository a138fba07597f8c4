//! Finding the file references in markdown: with a regular expression of the
//! caller's, or with the default image grammar `![alt](url)`.
use super::utils::between_chars;
use crate::text::{decode_lossy, lemma_encode_utf8_concat, string_from_chars};
use vstd::prelude::*;
use vstd::slice::slice_subrange;
use super::files::MatchedFiles;
use super::utils::{cuts_ok, fetched};
use vstd::utf8::{
    char_is_scalar, encode_scalar, encode_utf8, encode_utf8_decode_utf8, encode_utf8_first_scalar,
    encode_utf8_valid_utf8,
};

verus! {

/// A compiled regular expression of the `regex` crate; the library passes it to
/// the search and looks at nothing inside.
#[verifier::external_type_specification]
#[verifier::external_body]
pub struct ExRegex(regex::Regex);

/// A file reference found in markdown: where the whole reference stands (byte
/// offset and byte length) and the URL or path it names.
#[derive(Clone, Debug)]
pub struct FileRef {
    pub index: usize,
    pub length: usize,
    pub url: String,
}

/// A reference as `(byte offset, byte length, URL)`.
pub open spec fn ref_view(r: FileRef) -> (nat, nat, Seq<char>) {
    (r.index as nat, r.length as nat, r.url@)
}

/// The references as `(byte offset, byte length, URL)`.
pub open spec fn refs_view(refs: Seq<FileRef>) -> Seq<(nat, nat, Seq<char>)> {
    refs.map_values(|r: FileRef| ref_view(r))
}

/// What `Regex::captures_iter` finds in `text`, as references: when capture
/// group 1 takes part in every match, `Some` of one reference per match, in
/// match order (its byte offset, its byte length and the text of group 1);
/// `None` when some match has no group 1 (a pattern without that group, or
/// with the group optional), where indexing the group panics.
pub uninterp spec fn regex_file_refs(regex: regex::Regex, text: Seq<char>) -> Option<Seq<(nat, nat, Seq<char>)>>;

/// Optional references as `(byte offset, byte length, URL)`.
pub open spec fn opt_refs_view(refs: Option<Vec<FileRef>>) -> Option<Seq<(nat, nat, Seq<char>)>> {
    match refs {
        Some(v) => Some(refs_view(v@)),
        None => None,
    }
}

/// The references lie inside the text `b` (its UTF-8 bytes), start and end
/// between characters, and come in order without overlapping.
pub open spec fn refs_well_placed(b: Seq<u8>, refs: Seq<FileRef>) -> bool {
    &&& forall|i: int|
        0 <= i < refs.len() ==> {
            &&& (#[trigger] refs[i]).index + refs[i].length <= b.len()
            &&& between_chars(b, refs[i].index as int)
            &&& between_chars(b, refs[i].index + refs[i].length)
        }
    &&& forall|i: int, j: int|
        0 <= i < j < refs.len() ==> #[trigger] refs[i].index + refs[i].length
            <= #[trigger] refs[j].index
}

/// `Regex::captures_iter` over `markdown`: for each match, its byte offset and
/// length and the text of capture group 1; `None` when a match has no group 1,
/// where indexing the group would panic. The whole result is named
/// `regex_file_refs`. The `regex` documentation gives that the matches come in
/// order without overlapping and that their offsets fall on character
/// boundaries of the haystack.
#[verifier::external_body]
pub(crate) fn find_file_refs(regex: &regex::Regex, markdown: &str) -> (r: Option<Vec<FileRef>>)
    ensures
        opt_refs_view(r) == regex_file_refs(*regex, markdown@),
        r matches Some(v) ==> refs_well_placed(encode_utf8(markdown@), v@),
{
    let mut refs = Vec::new();
    for caps in regex.captures_iter(markdown) {
        let whole = caps.get(0)?;
        let url = caps.get(1)?;
        refs.push(FileRef { index: whole.start(), length: whole.len(), url: url.as_str().to_string() });
    }
    Some(refs)
}

/// Each file stands where its reference stands.
pub open spec fn files_at_refs(files: Seq<MatchedFiles>, refs: Seq<FileRef>) -> bool {
    &&& files.len() == refs.len()
    &&& forall|i: int|
        0 <= i < refs.len() ==> (#[trigger] files[i]).index == refs[i].index && files[i].length
            == refs[i].length
}

proof fn lemma_placed_refs_cut_from(
    b: Seq<u8>,
    refs: Seq<FileRef>,
    files: Seq<MatchedFiles>,
    k: int,
    removed: int,
)
    requires
        refs_well_placed(b, refs),
        files_at_refs(files, refs),
        b.len() <= usize::MAX,
        0 <= k <= files.len(),
        0 <= removed <= b.len(),
        k < files.len() ==> removed <= refs[k].index,
    ensures
        cuts_ok(b, files.skip(k), removed),
    decreases files.len() - k,
{
    let rest = files.skip(k);
    if k < files.len() {
        assert(rest[0] == files[k]);
        assert(rest.drop_first() =~= files.skip(k + 1));
        let f = files[k];
        assert(f.index == refs[k].index && f.length == refs[k].length);
        let cut = f.index + f.length;
        if k + 1 < files.len() {
            assert(refs[k].index + refs[k].length <= refs[k + 1].index);
        }
        if fetched(f) {
            lemma_placed_refs_cut_from(b, refs, files, k + 1, cut);
        } else {
            lemma_placed_refs_cut_from(b, refs, files, k + 1, removed);
        }
    } else {
        assert(rest =~= Seq::<MatchedFiles>::empty());
    }
}

/// Files fetched at well-placed references (as `find_file_refs` and
/// `image_refs` give them) can always be cut by `process`: `cuts_ok` holds.
pub proof fn law_placed_refs_cut(b: Seq<u8>, refs: Seq<FileRef>, files: Seq<MatchedFiles>)
    requires
        refs_well_placed(b, refs),
        files_at_refs(files, refs),
        b.len() <= usize::MAX,
    ensures
        cuts_ok(b, files, 0),
{
    assert(files.skip(0) =~= files);
    lemma_placed_refs_cut_from(b, refs, files, 0, 0);
}

/// The first index at or after `from` where `t` holds `c`.
pub open spec fn next_char(t: Seq<char>, c: char, from: int) -> Option<int>
    decreases t.len() - from,
{
    if from < 0 || from >= t.len() {
        None
    } else if t[from] == c {
        Some(from)
    } else {
        next_char(t, c, from + 1)
    }
}

/// `next_char` finds the first `c` at or after `from`, or there is none.
pub proof fn lemma_next_char(t: Seq<char>, c: char, from: int)
    ensures
        next_char(t, c, from) matches Some(j) ==> 0 <= from <= j < t.len() && t[j] == c
            && forall|k: int| from <= k < j ==> t[k] != c,
        next_char(t, c, from) is None ==> forall|k: int| 0 <= from <= k < t.len() ==> t[k] != c,
    decreases t.len() - from,
{
    if 0 <= from < t.len() && t[from] != c {
        lemma_next_char(t, c, from + 1);
    }
}

/// The link of an image reference whose alt text starts at `from`, as the
/// default pattern `(?s)!\[.*?].?\((.*?)\)` takes it: the alt text ends at the
/// first `]` that works; after it one character, else none, comes before `(`;
/// the URL runs from there to the next `)`. Gives where the URL starts and
/// where it ends (at that `)`).
pub open spec fn link_after(t: Seq<char>, from: int) -> Option<(int, int)>
    decreases t.len() - from,
{
    match next_char(t, ']', from) {
        None => None,
        Some(j) => {
            if j + 2 < t.len() && t[j + 2] == '(' && next_char(t, ')', j + 3) is Some {
                Some((j + 3, next_char(t, ')', j + 3)->0))
            } else if j + 1 < t.len() && t[j + 1] == '(' && next_char(t, ')', j + 2) is Some {
                Some((j + 2, next_char(t, ')', j + 2)->0))
            } else {
                proof {
                    lemma_next_char(t, ']', from);
                }
                link_after(t, j + 1)
            }
        },
    }
}

/// A link found after `from` lies after it, inside the text, and ends at a `)`.
pub proof fn lemma_link_after(t: Seq<char>, from: int)
    ensures
        link_after(t, from) matches Some((a, b)) ==> 0 <= from < a <= b < t.len() && t[b] == ')',
    decreases t.len() - from,
{
    lemma_next_char(t, ']', from);
    if let Some(j) = next_char(t, ']', from) {
        lemma_next_char(t, ')', j + 3);
        lemma_next_char(t, ')', j + 2);
        if !(j + 2 < t.len() && t[j + 2] == '(' && next_char(t, ')', j + 3) is Some) && !(j + 1
            < t.len() && t[j + 1] == '(' && next_char(t, ')', j + 2) is Some) {
            lemma_link_after(t, j + 1);
        }
    }
}

/// The first image reference at or after `from`: where its `!` stands, and
/// where its URL starts and ends. The search tries each position in turn, and
/// takes the first one where a whole reference begins.
pub open spec fn next_image_ref(t: Seq<char>, from: int) -> Option<(int, int, int)>
    decreases t.len() - from,
{
    if from < 0 || from + 1 >= t.len() {
        None
    } else if t[from] == '!' && t[from + 1] == '[' {
        match link_after(t, from + 2) {
            Some((a, b)) => Some((from, a, b)),
            None => next_image_ref(t, from + 1),
        }
    } else {
        next_image_ref(t, from + 1)
    }
}

/// An image reference found from `from` starts there or later and ends inside
/// the text, at a `)`.
pub proof fn lemma_next_image_ref(t: Seq<char>, from: int)
    ensures
        next_image_ref(t, from) matches Some((s, a, b)) ==> 0 <= from <= s && s + 2 < a <= b
            < t.len() && t[b] == ')',
    decreases t.len() - from,
{
    if 0 <= from && from + 1 < t.len() {
        lemma_link_after(t, from + 2);
        if !(t[from] == '!' && t[from + 1] == '[' && link_after(t, from + 2) is Some) {
            lemma_next_image_ref(t, from + 1);
        }
    }
}

/// All image references from `from` on, in order: each search resumes after
/// the `)` that closed the previous reference.
pub open spec fn image_refs_from(t: Seq<char>, from: int) -> Seq<(int, int, int)>
    decreases t.len() - from,
{
    match next_image_ref(t, from) {
        None => Seq::empty(),
        Some((s, a, b)) => {
            proof {
                lemma_next_image_ref(t, from);
            }
            seq![(s, a, b)] + image_refs_from(t, b + 1)
        },
    }
}

/// The number of bytes that the characters of `t` before `i` take in UTF-8.
pub open spec fn byte_offset(t: Seq<char>, i: int) -> int {
    encode_utf8(t.take(i)).len() as int
}

/// An image reference `(start, url start, url end)` of `t` as a reference of
/// bytes: the byte offset of its `!`, the byte length up to and with its `)`, and
/// its URL.
pub open spec fn image_ref_view(t: Seq<char>, m: (int, int, int)) -> (nat, nat, Seq<char>) {
    (
        byte_offset(t, m.0) as nat,
        (byte_offset(t, m.2 + 1) - byte_offset(t, m.0)) as nat,
        t.subrange(m.1, m.2),
    )
}

/// The bytes of a prefix are the first bytes of the bytes of a longer prefix.
pub proof fn lemma_byte_offset_prefix(t: Seq<char>, i: int, j: int)
    requires
        0 <= i <= j <= t.len(),
    ensures
        encode_utf8(t.take(j)) == encode_utf8(t.take(i)) + encode_utf8(t.subrange(i, j)),
        byte_offset(t, i) <= byte_offset(t, j),
{
    assert(t.take(j) =~= t.take(i) + t.subrange(i, j));
    lemma_encode_utf8_concat(t.take(i), t.subrange(i, j));
}

/// The byte offset of a character, or of the end, lies inside the text and
/// between characters.
pub proof fn lemma_offset_between_chars(t: Seq<char>, i: int)
    requires
        0 <= i <= t.len(),
    ensures
        byte_offset(t, i) <= encode_utf8(t).len(),
        between_chars(encode_utf8(t), byte_offset(t, i)),
{
    lemma_byte_offset_prefix(t, i, t.len() as int);
    assert(t.take(t.len() as int) =~= t);
    if i < t.len() {
        let rest = t.subrange(i, t.len() as int);
        encode_utf8_first_scalar(rest);
        assert(encode_utf8(t)[byte_offset(t, i)] == encode_utf8(rest)[0]);
    }
}

/// How many bytes `c` takes in UTF-8.
fn utf8_width(c: char) -> (r: usize)
    ensures
        r == encode_scalar(c as u32).len(),
{
    proof {
        char_is_scalar(c);
    }
    let u = c as u32;
    if u <= 0x7f {
        1
    } else if u <= 0x7ff {
        2
    } else if u <= 0xffff {
        3
    } else {
        4
    }
}

/// The byte offset of each character of `t`, and of its end.
fn byte_offsets(t: &Vec<char>, total: usize) -> (r: Vec<usize>)
    requires
        encode_utf8(t@).len() == total,
    ensures
        r@.len() == t@.len() + 1,
        forall|i: int| 0 <= i <= t@.len() ==> r@[i] == byte_offset(t@, i),
{
    let mut r: Vec<usize> = Vec::new();
    let mut acc: usize = 0;
    assert(t@.take(0) =~= Seq::<char>::empty());
    r.push(0);
    let mut i: usize = 0;
    while i < t.len()
        invariant
            i <= t@.len(),
            encode_utf8(t@).len() == total,
            r@.len() == i + 1,
            acc == byte_offset(t@, i as int),
            forall|k: int| 0 <= k <= i ==> r@[k] == byte_offset(t@, k),
        decreases t@.len() - i,
    {
        proof {
            lemma_byte_offset_prefix(t@, i as int, i + 1);
            lemma_byte_offset_prefix(t@, i + 1, t@.len() as int);
            assert(t@.take(t@.len() as int) =~= t@);
            assert(t@.subrange(i as int, i + 1) =~= seq![t@[i as int]]);
            let one = seq![t@[i as int]];
            assert(one.drop_first() =~= Seq::<char>::empty());
            assert(encode_utf8(one) == encode_scalar(one[0] as u32) + encode_utf8(one.drop_first()));
            assert(encode_utf8(one).len() == encode_scalar(t@[i as int] as u32).len());
        }
        acc = acc + utf8_width(t[i]);
        r.push(acc);
        i = i + 1;
    }
    r
}

/// `next_char`, computed.
fn find_char(t: &Vec<char>, c: char, from: usize) -> (r: Option<usize>)
    ensures
        r matches Some(j) ==> next_char(t@, c, from as int) == Some(j as int),
        r is None ==> next_char(t@, c, from as int) is None,
{
    let mut i = from;
    while i < t.len()
        invariant
            from <= i,
            next_char(t@, c, from as int) == next_char(t@, c, i as int),
        decreases t@.len() - i,
    {
        if t[i] == c {
            return Some(i);
        }
        i = i + 1;
    }
    None
}

/// `link_after`, computed.
fn find_link(t: &Vec<char>, from: usize) -> (r: Option<(usize, usize)>)
    ensures
        r matches Some((a, b)) ==> link_after(t@, from as int) == Some((a as int, b as int)),
        r is None ==> link_after(t@, from as int) is None,
{
    let n = t.len();
    let mut k = from;
    loop
        invariant
            n == t@.len(),
            from <= k,
            link_after(t@, from as int) == link_after(t@, k as int),
        decreases n - k,
    {
        proof {
            lemma_next_char(t@, ']', k as int);
        }
        match find_char(t, ']', k) {
            None => {
                return None;
            },
            Some(j) => {
                if n >= 2 && j < n - 2 && t[j + 2] == '(' {
                    if let Some(q) = find_char(t, ')', j + 3) {
                        return Some((j + 3, q));
                    }
                }
                if j < n - 1 && t[j + 1] == '(' {
                    if let Some(q) = find_char(t, ')', j + 2) {
                        return Some((j + 2, q));
                    }
                }
                k = j + 1;
            },
        }
    }
}

/// The image references `![alt](url)` of `markdown`, as the default pattern
/// `(?s)!\[.*?].?\((.*?)\)` finds them (see `image_refs_from`), with byte
/// offsets and lengths.
pub fn image_refs(markdown: &str) -> (r: Vec<FileRef>)
    ensures
        refs_view(r@) == image_refs_from(markdown@, 0).map_values(
            |m: (int, int, int)| image_ref_view(markdown@, m),
        ),
        refs_well_placed(encode_utf8(markdown@), r@),
{
    let ghost t = markdown@;
    let bytes = markdown.as_bytes();
    proof {
        encode_utf8_valid_utf8(t);
        encode_utf8_decode_utf8(t);
    }
    let chars = decode_lossy(bytes);
    assert(chars@ == t);
    let offsets = byte_offsets(&chars, bytes.len());
    let n = chars.len();
    let mut out: Vec<FileRef> = Vec::new();
    let ghost mut found: Seq<(int, int, int)> = Seq::empty();
    let mut p: usize = 0;
    while n > 0 && p < n - 1
        invariant
            chars@ == t,
            n == t.len(),
            p <= n,
            offsets@.len() == n + 1,
            forall|i: int| 0 <= i <= n ==> offsets@[i] == byte_offset(t, i),
            found + image_refs_from(t, p as int) == image_refs_from(t, 0),
            refs_view(out@) == found.map_values(|m: (int, int, int)| image_ref_view(t, m)),
            refs_well_placed(encode_utf8(t), out@),
            forall|k: int|
                0 <= k < out@.len() ==> #[trigger] out@[k].index + out@[k].length <= byte_offset(
                    t,
                    p as int,
                ),
        decreases n - p,
    {
        let mut next = p + 1;
        if chars[p] == '!' && chars[p + 1] == '[' {
            proof {
                lemma_link_after(t, p + 2);
            }
            if let Some((a, b)) = find_link(&chars, p + 2) {
                let url = string_from_chars(slice_subrange(chars.as_slice(), a, b));
                proof {
                    lemma_byte_offset_prefix(t, p as int, b + 1);
                    assert(next_image_ref(t, p as int) == Some((p as int, a as int, b as int)));
                    assert(image_refs_from(t, p as int) == seq![(p as int, a as int, b as int)]
                        + image_refs_from(t, b + 1));
                }
                let r = FileRef { index: offsets[p], length: offsets[b + 1] - offsets[p], url };
                proof {
                    lemma_offset_between_chars(t, p as int);
                    lemma_offset_between_chars(t, b + 1);
                    let o = out@.push(r);
                    assert forall|k: int| 0 <= k < o.len() implies {
                        &&& (#[trigger] o[k]).index + o[k].length <= encode_utf8(t).len()
                        &&& between_chars(encode_utf8(t), o[k].index as int)
                        &&& between_chars(encode_utf8(t), o[k].index + o[k].length)
                    } by {
                        if k < out@.len() {
                            assert(o[k] == out@[k]);
                        }
                    }
                    assert forall|i: int, j: int| 0 <= i < j < o.len() implies #[trigger] o[i].index
                        + o[i].length <= #[trigger] o[j].index by {
                        assert(o[i] == out@[i]);
                        if j < out@.len() {
                            assert(o[j] == out@[j]);
                        }
                    }
                    let m = (p as int, a as int, b as int);
                    assert(ref_view(r) == image_ref_view(t, m));
                    assert(found.push(m) + image_refs_from(t, b + 1) =~= found + image_refs_from(t, p as int));
                    assert(refs_view(out@.push(r)) =~= refs_view(out@).push(ref_view(r)));
                    assert(found.push(m).map_values(|m: (int, int, int)| image_ref_view(t, m))
                        =~= found.map_values(|m: (int, int, int)| image_ref_view(t, m)).push(
                        image_ref_view(t, m),
                    ));
                    found = found.push(m);
                }
                out.push(r);
                next = b + 1;
            }
        }
        proof {
            lemma_byte_offset_prefix(t, p as int, next as int);
            if next == p + 1 {
                assert(next_image_ref(t, p as int) == next_image_ref(t, p + 1));
                assert(image_refs_from(t, p as int) == image_refs_from(t, p + 1));
            }
        }
        p = next;
    }
    proof {
        assert(image_refs_from(t, p as int) =~= Seq::<(int, int, int)>::empty());
        assert(found =~= found + image_refs_from(t, p as int));
    }
    out
}

/// The file references of `markdown`: those that `regex` finds (its group 1
/// being the URL), or, without a regular expression, the image references of
/// the default grammar. With a regular expression the whole result, `None`
/// included, is what `regex_file_refs` names: `None` exactly when a match has
/// no group 1.
pub fn file_refs(markdown: &str, regex: Option<&regex::Regex>) -> (r: Option<Vec<FileRef>>)
    ensures
        regex is None ==> (r matches Some(v) && refs_view(v@) == image_refs_from(markdown@, 0).map_values(
            |m: (int, int, int)| image_ref_view(markdown@, m),
        )),
        regex matches Some(re) ==> opt_refs_view(r) == regex_file_refs(*re, markdown@),
        r matches Some(v) ==> refs_well_placed(encode_utf8(markdown@), v@),
{
    match regex {
        Some(re) => find_file_refs(re, markdown),
        None => Some(image_refs(markdown)),
    }
}

} // verus!
