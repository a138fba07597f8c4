use llms_client::gemini::files::{file_from_download, is_web_url, MatchedFiles};
use llms_client::gemini::types::request::{Chat, PartType};
use llms_client::gemini::utils::MarkdownToParts;

fn matched(markdown: &str, pattern: &str, fetched: bool) -> MatchedFiles {
    let index = markdown.find(pattern).unwrap();
    MatchedFiles {
        index,
        length: pattern.len(),
        mime_type: if fetched { Some("image/png".to_string()) } else { None },
        base64: if fetched { Some("AAAA".to_string()) } else { None },
    }
}

#[test]
fn process_keeps_text_and_inserts_files() {
    let markdown = " water is good ![but fire](tests/lda.png). thanks thanks";
    let files = vec![matched(markdown, "![but fire](tests/lda.png)", true)];
    let parts = MarkdownToParts::checked(markdown, files).unwrap().process();
    assert_eq!(parts.len(), 3);
    assert_eq!(Chat::extract_text_all(&parts, ""), markdown);
    match parts[1].data() {
        PartType::InlineData(d) => {
            assert_eq!(d.mime_type(), "image/png");
            assert_eq!(d.data(), "AAAA");
        }
        _ => panic!("expected inline data"),
    }
    match parts[2].data() {
        PartType::Text(t) => assert_eq!(t, ". thanks thanks"),
        _ => panic!("expected text"),
    }
}

#[test]
fn process_leaves_unfetched_files_in_text() {
    let markdown = " water is good ![but fire](lda.png).  thanks thanks ![x](y.png).";
    let files = vec![
        matched(markdown, "![but fire](lda.png)", false),
        matched(markdown, "![x](y.png)", true),
    ];
    let parts = MarkdownToParts::checked(markdown, files).unwrap().process();
    assert_eq!(parts.len(), 3);
    assert_eq!(Chat::extract_text_all(&parts, ""), markdown);
    match parts[2].data() {
        PartType::Text(t) => assert_eq!(t, "."),
        _ => panic!("expected text"),
    }
}

#[test]
fn process_with_file_at_the_end_and_unicode() {
    let markdown = "é ![a](b)";
    let files = vec![matched(markdown, "![a](b)", true)];
    let p = MarkdownToParts::checked(markdown, files).unwrap();
    assert_eq!(p.base64s().len(), 1);
    let parts = p.process();
    assert_eq!(parts.len(), 2);
    assert_eq!(Chat::extract_text_all(&parts, ""), markdown);
}

#[test]
fn process_without_files_is_one_text() {
    let parts = MarkdownToParts::checked("plain", vec![]).unwrap().process();
    assert_eq!(parts.len(), 1);
    assert!(MarkdownToParts::checked("", vec![]).unwrap().process().is_empty());
}

#[test]
fn web_urls_are_recognised() {
    assert!(is_web_url("https://example.com/a.png"));
    assert!(is_web_url("http://x"));
    assert!(!is_web_url("tests/lda.png"));
    assert!(!is_web_url("http:/x"));
    assert!(!is_web_url(""));
}

#[test]
fn downloads_are_encoded_in_base64() {
    let f = file_from_download(3, 4, None, Some(b"hello".to_vec()));
    assert_eq!(f.file.base64.as_deref(), Some("aGVsbG8="));
    assert!(f.needs_guess);
    assert_eq!(f.file.index, 3);
    let g = file_from_download(0, 1, Some("text/plain".to_string()), Some(vec![]));
    assert_eq!(g.file.base64.as_deref(), Some(""));
    assert_eq!(g.file.mime_type.as_deref(), Some("text/plain"));
    assert!(!g.needs_guess);
    let h = file_from_download(0, 1, Some("text/plain".to_string()), None);
    assert!(h.file.mime_type.is_none() && h.file.base64.is_none() && !h.needs_guess);
}
