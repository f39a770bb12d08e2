use deepwell::search::{meili_backoff, meili_step, MeiliOutcome, MeiliStep};
use deepwell::search::{check_revision_owner, indexed_revision, next_batch_size, plan_index_batch, SearchCursor};
use deepwell::error::ErrorType;
use deepwell::search::{plain_body, plain_text_of, HtmlEvent, SearchDocument, SearchHit, SearchRequest};

#[test]
fn html_plain_text_omits_nonvisible_markup() {
    let html = "<p>Hello &amp; goodbye</p><script>secret()</script><style>.secret{}</style><div hidden>hidden</div><span class=\"wj-hidden\">conditional secret</span><p>Visible <b>text</b></p>";
    assert_eq!(plain_body(html), "Hello & goodbye Visible text");
}

#[test]
fn every_way_of_hiding_an_element_hides_its_text() {
    let html = "<p aria-hidden=\"true\">a</p><p style=\"display : none\">b</p><p class=\"x wj-invisible\">c</p><svg><text>d</text></svg><p aria-hidden=\"false\">shown</p><div><span>deep</span>  text</div>";
    assert_eq!(plain_body(html), "shown deep text");
}

#[test]
fn the_root_element_is_never_hidden() {
    let events = vec![
        HtmlEvent::Open { name: "script".into(), hidden: true, class: None, aria_hidden: None, style: None },
        HtmlEvent::Text(" a  b ".into()),
        HtmlEvent::Close,
    ];
    assert_eq!(plain_text_of(&events), "a b");
}

fn document(body: &str) -> SearchDocument {
    SearchDocument {
        page_id: 4,
        site_id: 7,
        revision_id: 9,
        title: "Title".into(),
        slug: "slug".into(),
        tags: vec!["tag".into()],
        body: body.into(),
    }
}

#[test]
fn hits_show_the_first_two_hundred_characters() {
    let hit = SearchHit::from_document(&document(&"é".repeat(300)));
    assert_eq!(hit.snippet, "é".repeat(200));
    assert_eq!((hit.page_id, hit.title.as_str(), hit.slug.as_str(), hit.tags.clone()), (4, "Title", "slug", vec!["tag".to_owned()]));
}

#[test]
fn stale_index_entries_show_nothing() {
    assert!(SearchHit::from_current_document(&document("visible body"), "<p>visible body</p>").is_some());
    assert!(SearchHit::from_current_document(&document("old private body"), "<p>replacement public body</p>").is_none());
}

#[test]
fn search_requests_stay_within_bounds() {
    let request = |query: &str, offset, limit| SearchRequest { query: query.into(), offset, limit };
    assert!(request("hello", 0, 10).validate().is_ok());
    assert!(request("hello", 500, 20).validate().is_ok());
    for bad in [request("  ", 0, 10), request("hello", 0, 0), request("hello", 0, 21), request("hello", 501, 1), request(&"é".repeat(101), 0, 1)] {
        let error = bad.validate().unwrap_err();
        assert_eq!((error.error_type, error.message.as_str()), (ErrorType::BadRequest, "invalid search query, offset or limit"));
    }
    assert!(request(&"é".repeat(100), 0, 1).validate().is_ok());
}

#[test]
fn meilisearch_refusals_are_retried_within_the_budget() {
    let status = |code, retry_after: Option<&str>| MeiliOutcome::Status {
        code,
        status_text: format!("{code} X"),
        retry_after: retry_after.map(str::to_owned),
    };
    assert!(matches!(meili_step(0, &MeiliOutcome::Success, 0, 0), MeiliStep::Done));
    assert!(matches!(meili_step(0, &status(503, Some("2")), 7, 0), MeiliStep::Retry(2_000_000_000)));
    assert!(matches!(meili_step(1, &status(429, None), 7, 0), MeiliStep::Retry(7)));
    let now = 1_445_412_480_000_000_000i128;
    assert!(matches!(meili_step(0, &status(502, Some("Wed, 21 Oct 2015 07:28:03 GMT")), 7, now), MeiliStep::Retry(3_000_000_000)));
    assert!(matches!(meili_step(0, &status(502, Some("Wed, 21 Oct 2015 07:27:00 GMT")), 7, now), MeiliStep::Retry(0)));
    match meili_step(0, &status(504, Some("6")), 7, 0) {
        MeiliStep::Fail(error) => assert_eq!(error.message, "Meilisearch Retry-After exceeds retry budget"),
        other => panic!("unexpected {other:?}"),
    }
    match meili_step(2, &status(503, None), 7, 0) {
        MeiliStep::Fail(error) => assert_eq!(error.message, "Meilisearch request failed: HTTP 503 X"),
        other => panic!("unexpected {other:?}"),
    }
    match meili_step(0, &status(400, None), 7, 0) {
        MeiliStep::Fail(error) => assert_eq!(error.error_type, ErrorType::Request),
        other => panic!("unexpected {other:?}"),
    }
    assert!(matches!(meili_step(1, &MeiliOutcome::Unreachable("timeout".into()), 9, 0), MeiliStep::Retry(9)));
    match meili_step(2, &MeiliOutcome::Unreachable("timeout".into()), 9, 0) {
        MeiliStep::Fail(error) => assert_eq!(error.message, "Meilisearch unavailable: timeout"),
        other => panic!("unexpected {other:?}"),
    }
    for attempt in 0..3 {
        let wait = meili_backoff(attempt);
        let base = (100u64 << attempt) * 1_000_000;
        assert!(base <= wait && wait < base + 40_000_000);
    }
}

#[test]
fn paging_counts_visible_hits_only() {
    let hit = |id| SearchHit { page_id: id, title: String::new(), slug: String::new(), tags: vec![], snippet: String::new() };
    let request = SearchRequest { query: "q".into(), offset: 1, limit: 2 };
    let mut cursor = SearchCursor::new(&request);
    assert!(!cursor.see(Some(hit(1))));
    assert!(!cursor.see(None));
    assert!(!cursor.see(Some(hit(2))));
    assert!(!cursor.see(Some(hit(3))));
    assert!(cursor.see(Some(hit(4))));
    assert_eq!(cursor.hits.iter().map(|h| h.page_id).collect::<Vec<_>>(), vec![2, 3]);
    assert_eq!(cursor.visible_count, 3);
    assert!(cursor.end_batch(10, 50));
    assert_eq!(cursor.raw_offset, 10);
    assert_eq!(next_batch_size(0).unwrap(), 50);
    assert_eq!(next_batch_size(980).unwrap(), 20);
    assert_eq!(next_batch_size(1000).unwrap_err().message, "search exceeds candidate scan limit");
}

#[test]
fn pending_pages_index_their_own_current_revision() {
    assert_eq!(indexed_revision(None).unwrap(), None);
    assert_eq!(indexed_revision(Some((true, Some(4)))).unwrap(), None);
    assert_eq!(indexed_revision(Some((false, Some(4)))).unwrap(), Some(4));
    let error = indexed_revision(Some((false, None))).unwrap_err();
    assert_eq!((error.error_type, error.message.as_str()), (ErrorType::Page, "search page missing current revision"));
    assert!(check_revision_owner(1, 2, 1, 2).is_ok());
    let error = check_revision_owner(1, 2, 3, 2).unwrap_err();
    assert_eq!(error.message, "search revision belongs to another page");
    assert!(check_revision_owner(1, 2, 1, 3).is_err());
}

#[test]
fn candidates_of_other_sites_are_passed_over() {
    let document = SearchDocument {
        page_id: 1,
        site_id: 7,
        revision_id: 2,
        title: "T".to_string(),
        slug: "t".to_string(),
        tags: Vec::new(),
        body: String::new(),
    };
    assert!(document.is_on_site(7));
    assert!(!document.is_on_site(8));
}

fn hit(page_id: i64) -> Option<SearchHit> {
    let mut document = document("text");
    document.page_id = page_id;
    Some(SearchHit::from_document(&document))
}

#[test]
fn batches_page_visible_hits_only() {
    let request = SearchRequest { query: "hello".into(), offset: 1, limit: 1 };
    let mut cursor = SearchCursor::new(&request);
    let first: Vec<Option<SearchHit>> = (1..=50).map(|id| if id == 3 { hit(3) } else { None }).collect();
    assert_eq!(cursor.see_batch(first, 50), None);
    assert_eq!((cursor.visible_count, cursor.raw_offset, cursor.hits.len()), (1, 50, 0));
    assert_eq!(cursor.see_batch(vec![None, hit(52), hit(53)], 50), Some(true));
    assert_eq!(cursor.hits.iter().map(|h| h.page_id).collect::<Vec<_>>(), vec![52]);

    let mut cursor = SearchCursor::new(&SearchRequest { query: "hello".into(), offset: 0, limit: 5 });
    assert_eq!(cursor.see_batch(vec![hit(1), None], 50), Some(false));
    assert_eq!(cursor.hits.len(), 1);
}

#[test]
fn worker_batches_upsert_live_pages_remove_gone_ones_and_acknowledge_all() {
    let pending = vec![(4, 10), (5, 11), (6, 12)];
    let plan = plan_index_batch(&pending, vec![Some(document("a")), None, Some(document("b"))]);
    assert_eq!(plan.upsert.len(), 2);
    assert_eq!(plan.remove, vec![5]);
    assert_eq!(plan.acknowledge, pending);
}
