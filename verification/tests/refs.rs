use llms_client::gemini::files::MatchedFiles;
use llms_client::gemini::refs::{file_refs, image_refs, FileRef};
use llms_client::gemini::utils::{cuts_fit, MarkdownToParts};
use regex::Regex;

fn view(refs: &[FileRef]) -> Vec<(usize, usize, String)> {
    refs.iter().map(|r| (r.index, r.length, r.url.clone())).collect()
}

fn default_regex() -> Regex {
    Regex::new(r"(?s)!\[.*?].?\((.*?)\)").unwrap()
}

#[test]
fn image_refs_give_byte_offsets_and_urls() {
    let md = "see ![a](x.png) and ![b](y.png)";
    assert_eq!(
        view(&image_refs(md)),
        vec![(4, 11, "x.png".to_string()), (20, 11, "y.png".to_string())]
    );
}

#[test]
fn image_refs_count_bytes_of_wide_characters() {
    let md = "é ![ü](ñ.png)";
    assert_eq!(view(&image_refs(md)), vec![(3, 13, "ñ.png".to_string())]);
}

#[test]
fn image_refs_follow_the_default_pattern() {
    let cases = [
        "plain text",
        "![a](b",
        "![a]x(b) tail",
        "![a]((b)",
        "![x]](y)",
        "![a](b)![c](d)",
        "!![a](b)",
        "![multi\nline](u\nrl) ![](e)",
        "![a] (b) ![c](d",
        "é![ü]ñ(ö) ![z]",
        "![a](b)c)",
        "![[x]](y)",
    ];
    let regex = default_regex();
    for md in cases {
        let found = file_refs(md, Some(&regex)).unwrap();
        assert_eq!(view(&image_refs(md)), view(&found), "markdown: {:?}", md);
    }
}

#[test]
fn regex_without_group_one_gives_none() {
    let regex = Regex::new(r"!\[.*?\]").unwrap();
    assert!(file_refs("![a](b)", Some(&regex)).is_none());
    assert_eq!(file_refs("no image", Some(&regex)).map(|v| v.len()), Some(0));
}

#[test]
fn regex_refs_use_group_one() {
    let regex = Regex::new(r"<(\w+)>").unwrap();
    let found = file_refs("a <b> c <dd>", Some(&regex)).unwrap();
    assert_eq!(view(&found), vec![(2, 3, "b".to_string()), (8, 4, "dd".to_string())]);
}

fn file(index: usize, length: usize) -> MatchedFiles {
    MatchedFiles {
        index,
        length,
        mime_type: Some("image/png".to_string()),
        base64: Some("AAAA".to_string()),
    }
}

#[test]
fn files_at_refs_make_a_converter() {
    let md = "see ![a](x.png) end";
    let refs = image_refs(md);
    let parts = MarkdownToParts::at_refs(md, &refs, vec![file(4, 11)]).unwrap().process();
    assert_eq!(parts.len(), 3);
    assert!(MarkdownToParts::at_refs(md, &refs, vec![file(4, 10)]).is_none());
    assert!(MarkdownToParts::at_refs(md, &refs, vec![]).is_none());
}

#[test]
fn cuts_are_checked() {
    let md = "é![a](b)";
    assert!(cuts_fit(md, &vec![file(2, 7)]));
    assert!(!cuts_fit(md, &vec![file(0, 1)]));
    assert!(!cuts_fit(md, &vec![file(2, 20)]));
    assert!(!cuts_fit(md, &vec![file(2, 7), file(0, 2)]));
    assert!(MarkdownToParts::checked(md, vec![file(0, 1)]).is_none());
    let unfetched = MatchedFiles { index: 0, length: 1, mime_type: None, base64: None };
    assert!(cuts_fit(md, &vec![unfetched]));
}

#[test]
fn without_regex_the_image_grammar_is_used() {
    let md = "x ![a](b.png)";
    assert_eq!(view(&file_refs(md, None).unwrap()), view(&image_refs(md)));
}
