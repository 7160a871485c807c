//! The extractor that needs no server.

use parselab::error::Error;
use parselab::ir::Content;
use parselab::mock::MockExtractor;

#[test]
fn pass1_with_no_pages_returns_page_zero() {
    let result = MockExtractor.pass1(b"", None).unwrap();
    assert_eq!(result.pages.len(), 1);
    assert_eq!(result.pages[0].page, 0);
    assert!(matches!(result.pages[0].content, Content::Markdown(_)));
}

#[test]
fn pass1_with_explicit_pages_returns_those_pages() {
    let result = MockExtractor.pass1(b"", Some(&[3, 7, 12])).unwrap();
    let nums: Vec<_> = result.pages.iter().map(|p| p.page).collect();
    assert_eq!(nums, vec![3, 7, 12]);
}

#[test]
fn pass2_empty_pages_errors() {
    let err = MockExtractor.pass2(b"", &[]).unwrap_err();
    assert!(matches!(err, Error::EmptyPagesForPass2));
}

#[test]
fn pass2_returns_structured_pages_for_each_input() {
    let result = MockExtractor.pass2(b"", &[1, 4]).unwrap();
    assert_eq!(result.pages.len(), 2);
    for p in &result.pages {
        assert!(matches!(p.content, Content::Structured(_)));
    }
}

#[test]
fn pass1_pages_share_extraction_uuid() {
    let result = MockExtractor.pass1(b"", Some(&[0, 1, 2])).unwrap();
    let extraction_uuid = result.extraction.uuid;
    for p in &result.pages {
        assert_eq!(p.extraction_uuid, extraction_uuid);
    }
}

#[test]
fn pass1_pages_name_themselves() {
    let result = MockExtractor.pass1(b"", Some(&[12])).unwrap();
    match &result.pages[0].content {
        Content::Markdown(m) => assert_eq!(m.markdown, "# mock page 12"),
        other => panic!("{other:?}"),
    }
    let metrics = result.pages[0].metrics.as_ref().unwrap();
    assert_eq!(metrics.elapsed_secs.text(), "0.01");
    assert_eq!(metrics.input_tokens, Some(100));
}

#[test]
fn records_are_new() {
    let result = MockExtractor.pass1(b"", Some(&[3, 7])).unwrap();
    assert_eq!((result.extraction.uuid.0 >> 76) & 0xf, 4);
    assert!(result.extraction.created_at.secs() > 1_700_000_000);
    assert_ne!(result.pages[0].page_uuid, result.pages[1].page_uuid);
    assert_eq!((result.pages[1].page_uuid.0 >> 62) & 0x3, 2);
}
