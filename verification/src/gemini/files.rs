//! Files referred to from markdown, as found and fetched.
use base64::Engine;
use vstd::prelude::*;
use vstd::string::*;

verus! {

/// What `base64`'s standard engine makes of `bytes`: their base64 text, with
/// padding.
pub uninterp spec fn base64_standard(bytes: Seq<u8>) -> Seq<char>;

/// `base64::engine::general_purpose::STANDARD.encode`: the padded base64 text of
/// `bytes`, named `base64_standard`.
#[verifier::external_body]
pub(crate) fn encode_base64(bytes: &[u8]) -> (r: String)
    ensures
        r@ == base64_standard(bytes@),
{
    base64::engine::general_purpose::STANDARD.encode(bytes)
}

/// A file reference found in markdown: where the match stands (byte offset and
/// byte length), and, when the file could be read, its MIME type and content in
/// base64.
#[derive(Clone, Debug)]
pub struct MatchedFiles {
    pub index: usize,
    pub length: usize,
    pub mime_type: Option<String>,
    pub base64: Option<String>,
}

/// Whether `url` is fetched over the web rather than read from the file system.
pub open spec fn spec_is_web_url(url: Seq<char>) -> bool {
    ||| url.len() >= 8 && url.take(8) == seq!['h', 't', 't', 'p', 's', ':', '/', '/']
    ||| url.len() >= 7 && url.take(7) == seq!['h', 't', 't', 'p', ':', '/', '/']
}

fn str_starts_with(s: &str, pat: &str) -> (r: bool)
    ensures
        r == (s@.len() >= pat@.len() && s@.take(pat@.len() as int) == pat@),
{
    let n = pat.unicode_len();
    if s.unicode_len() < n {
        return false;
    }
    let mut i: usize = 0;
    while i < n
        invariant
            n == pat@.len(),
            n <= s@.len(),
            i <= n,
            forall|j: int| 0 <= j < i ==> s@[j] == pat@[j],
        decreases n - i,
    {
        if s.get_char(i) != pat.get_char(i) {
            assert(s@.take(n as int)[i as int] != pat@[i as int]);
            return false;
        }
        i = i + 1;
    }
    assert(s@.take(n as int) =~= pat@);
    true
}

/// Whether `url` starts with `https://` or `http://`, and so is fetched over the
/// web.
pub fn is_web_url(url: &str) -> (r: bool)
    ensures
        r == spec_is_web_url(url@),
{
    let https = "https://";
    let http = "http://";
    proof {
        reveal_strlit("https://");
        reveal_strlit("http://");
        assert(https@ =~= seq!['h', 't', 't', 'p', 's', ':', '/', '/']);
        assert(http@ =~= seq!['h', 't', 't', 'p', ':', '/', '/']);
    }
    let a = str_starts_with(url, https);
    let b = str_starts_with(url, http);
    a || b
}

/// A matched file and whether its MIME type still has to be guessed.
pub struct FetchedFile {
    pub file: MatchedFiles,
    /// The content arrived without a MIME type, so one must be guessed from the
    /// URL.
    pub needs_guess: bool,
}

/// The record of a file reference at `index` of byte length `length`, given the
/// MIME type that came with it (from a `Content-Type` header) and its bytes, if
/// it could be fetched or read. Without bytes there is neither MIME type nor
/// content; with bytes the content is their base64, and a missing MIME type is
/// to be guessed.
pub fn file_from_download(
    index: usize,
    length: usize,
    header_mime: Option<String>,
    body: Option<Vec<u8>>,
) -> (r: FetchedFile)
    ensures
        r.file.index == index,
        r.file.length == length,
        body is None ==> r.file.mime_type is None && r.file.base64 is None && !r.needs_guess,
        body matches Some(b) ==> {
            &&& r.file.base64 matches Some(s) && s@ == base64_standard(b@)
            &&& r.file.mime_type == header_mime
            &&& r.needs_guess == header_mime is None
        },
{
    match body {
        Some(bytes) => {
            let needs_guess = header_mime.is_none();
            FetchedFile {
                file: MatchedFiles {
                    index,
                    length,
                    mime_type: header_mime,
                    base64: Some(encode_base64(bytes.as_slice())),
                },
                needs_guess,
            }
        },
        None => FetchedFile {
            file: MatchedFiles { index, length, mime_type: None, base64: None },
            needs_guess: false,
        },
    }
}

} // verus!
