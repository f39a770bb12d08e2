use deepwell::drafts::{draft_target, draft_target_slug, preview_access};
use deepwell::delivery::{unsubscribe_lookup, unsubscribe_token};
use deepwell::email::{MailgunConfig, OutgoingEmail};
use deepwell::password::{reset_decision, ResetAction};
use deepwell::error::ErrorType;
use deepwell::names::Reference;
use deepwell::render::pipeline::{render_body, render_step, PageFacts, RenderAction, RenderLayout, RenderMode, RenderPage, RenderSettings, RenderStage, RenderState, parse_body};
use deepwell::search::{index_query, visible_hit, SearchDocument, SearchRequest};

#[test]
fn previews_need_view_and_edit_or_create() {
    assert!(preview_access(true, true, true, false, None, false).is_ok());
    let error = preview_access(true, true, false, true, Some(1), true).unwrap_err();
    assert_eq!((error.error_type, error.message.as_str()), (ErrorType::PermissionDenied, "page preview access denied"));
    assert!(preview_access(false, false, false, true, Some(1), true).is_ok());
    let error = preview_access(false, false, false, true, None, true).unwrap_err();
    assert_eq!(error.message, "page preview create access denied");
    assert!(preview_access(false, true, true, false, Some(1), true).is_err());
}

#[test]
fn drafts_are_kept_under_the_existing_pages_slug() {
    let by_id = Reference::Id(4);
    let page = Some((4, "scp-173".to_string()));
    assert_eq!(draft_target_slug(&by_id, &page), "scp-173");
    let target = draft_target(1, &by_id, page.clone(), Some(4), true, true, Some(2), false).unwrap();
    assert_eq!((target.site_id, target.slug.as_str(), target.page_id), (1, "scp-173", Some(4)));
    let error = draft_target(1, &by_id, page.clone(), Some(5), true, true, Some(2), false).unwrap_err();
    assert_eq!(error.error_type, ErrorType::PermissionDenied);
    let error = draft_target(1, &by_id, page, None, true, false, Some(2), false).unwrap_err();
    assert_eq!(error.message, "page draft access denied");
    let by_slug = Reference::Slug("new-page".to_string());
    let target = draft_target(1, &by_slug, None, None, false, false, Some(2), true).unwrap();
    assert_eq!((target.slug.as_str(), target.page_id), ("new-page", None));
    let error = draft_target(1, &by_slug, None, None, false, false, None, true).unwrap_err();
    assert_eq!(error.message, "page draft create access denied");
    assert!(draft_target(1, &by_id, None, None, false, false, Some(2), true).is_err());
}

fn document() -> SearchDocument {
    SearchDocument {
        page_id: 3,
        site_id: 7,
        revision_id: 9,
        title: "indexed title".to_string(),
        slug: "indexed-slug".to_string(),
        tags: vec!["old".to_string()],
        body: "Hello world".to_string(),
    }
}

#[test]
fn search_hits_show_live_current_visible_pages_from_their_revision() {
    let page = || Some((7, false, Some(9), "scp-3".to_string()));
    let revision = || Some((3, 7, "SCP-3".to_string(), vec!["euclid".to_string()]));
    let hit = visible_hit(&document(), 7, page(), true, revision(), "<p>Hello world</p>").unwrap();
    assert_eq!((hit.page_id, hit.title.as_str(), hit.slug.as_str(), hit.snippet.as_str()), (3, "SCP-3", "scp-3", "Hello world"));
    assert_eq!(hit.tags, vec!["euclid".to_string()]);
    assert!(visible_hit(&document(), 7, page(), false, revision(), "<p>Hello world</p>").is_none());
    assert!(visible_hit(&document(), 7, Some((7, true, Some(9), "scp-3".to_string())), true, revision(), "<p>Hello world</p>").is_none());
    assert!(visible_hit(&document(), 7, Some((7, false, Some(10), "scp-3".to_string())), true, revision(), "<p>Hello world</p>").is_none());
    assert!(visible_hit(&document(), 7, Some((8, false, Some(9), "scp-3".to_string())), true, revision(), "<p>Hello world</p>").is_none());
    assert!(visible_hit(&document(), 7, page(), true, Some((4, 7, "x".to_string(), Vec::new())), "<p>Hello world</p>").is_none());
    assert!(visible_hit(&document(), 7, page(), true, revision(), "<p>Changed</p>").is_none());
    assert!(visible_hit(&document(), 7, None, true, revision(), "<p>Hello world</p>").is_none());
}

#[test]
fn every_index_request_filters_on_the_site() {
    let request = SearchRequest { query: "hello".to_string(), offset: 1, limit: 1 };
    let query = index_query(7, &request, 50, 50);
    assert_eq!((query.q.as_str(), query.filter.as_str(), query.offset, query.limit), ("hello", "site_id = 7", 50, 50));
    assert_eq!(index_query(-2, &request, 0, 10).filter, "site_id = -2");
}

#[test]
fn mailgun_attempts_post_with_basic_authentication() {
    let config = MailgunConfig::new(
        "https://api.mailgun.net".to_string(),
        "mg.example.org".to_string(),
        "key-secret".to_string(),
        "Cobalt Company <noreply@mg.example.org>".to_string(),
    );
    let email = OutgoingEmail {
        to: "alice@example.com".to_string(),
        subject: "Set your password".to_string(),
        text: "Open https://cobalt.example/-/set-password/abc & choose one.".to_string(),
        html: Some("<p>Choose a password</p>".to_string()),
    };
    let request = config.message_request(&email);
    assert_eq!(request.url, "https://api.mailgun.net/v3/mg.example.org/messages");
    assert_eq!((request.user.as_str(), request.password.as_str()), ("api", "key-secret"));
    let keys: Vec<&str> = request.form.iter().map(|(k, _)| k.as_str()).collect();
    assert_eq!(keys, ["from", "to", "subject", "text", "html"]);
}

#[test]
fn rendering_runs_template_show_to_includes_listings_then_preprocessing() {
    let body = RenderState { stage: RenderStage::Begin, list_page: Some(2) };
    let (state, action) = render_step(body, "source".to_string());
    assert_eq!(state.stage, RenderStage::Templated);
    assert!(matches!(action, RenderAction::ApplyLiveTemplate(ref t) if t == "source"));
    let (state, action) = render_step(state, "a[[include :snippets:suo BEGIN CODE |type=showto |user1=x]]b[[include :snippets:suo END CODE]]c".to_string());
    assert_eq!(state.stage, RenderStage::Included);
    assert!(matches!(action, RenderAction::ExpandIncludes(ref t) if t == "ac"));
    let (state, action) = render_step(state, "included".to_string());
    assert!(matches!(action, RenderAction::ExpandListPages(ref t, 2) if t == "included"));
    let (state, action) = render_step(state, "x[!-- c --]y\r\n".to_string());
    assert_eq!(state.stage, RenderStage::Done);
    assert!(matches!(action, RenderAction::Render(ref t) if t == "xy"));

    let fragment = RenderState { stage: RenderStage::Begin, list_page: None };
    let (state, action) = render_step(fragment, "nav".to_string());
    assert!(matches!(action, RenderAction::ExpandIncludes(ref t) if t == "nav"));
    let (_, action) = render_step(state, "nav".to_string());
    assert!(matches!(action, RenderAction::ExpandListPages(_, 1)));
}

#[test]
fn ftml_renders_the_preprocessed_text() {
    let page = PageFacts {
        page: "start".to_string(),
        category: None,
        site: "test".to_string(),
        title: "Start".to_string(),
        alt_title: None,
        score: 0,
        tags: Vec::new(),
        language: "en".to_string(),
    };
    let page = RenderPage::new(page);
    let settings = RenderSettings::new(RenderMode::Page, RenderLayout::Wikijump);
    let html = render_body("**bold** [[[other-page]]] [https://example.com x]", &page, &settings);
    assert!(html.body.contains("<strong>bold</strong>"), "{}", html.body);
    assert!(html.internal_links.iter().any(|l| l.page == "other-page"));
    assert!(html.external_links.iter().any(|l| l == "https://example.com"));
    assert!(parse_body("**bold**", &page, &settings).errors.is_empty());
    let parsed = parse_body("[[code type=\"rust\"]]\nfn main() {}\n[[/code]]", &page, &settings);
    assert_eq!(parsed.code_blocks.len(), 1);
    assert_eq!(parsed.code_blocks[0].contents, "fn main() {}");
    assert_eq!(parsed.code_blocks[0].language.as_deref(), Some("rust"));
    let parsed = parse_body("[[html]]\n<b>x</b>\n[[/html]]", &page, &settings);
    assert_eq!(parsed.html_blocks, vec!["<b>x</b>".to_string()]);
    assert!(!parse_body("[[div]]\nunclosed", &page, &settings).errors.is_empty());
}

#[test]
fn issued_unsubscribe_tokens_are_found_again() {
    let (token, hash) = unsubscribe_token();
    assert_eq!(unsubscribe_lookup(&token), Some(hash));
    assert_eq!(unsubscribe_lookup("not a uuid"), None);
}

#[test]
fn reset_requests_answer_the_same_with_or_without_an_account() {
    let (reply, action) = reset_decision(true, " a@b.c ", Some((4, true)));
    assert!(reply.is_ok());
    assert_eq!(action, ResetAction::IssueAndSend(4));
    let (reply, action) = reset_decision(true, " a@b.c ", Some((4, false)));
    assert!(reply.is_ok());
    assert_eq!(action, ResetAction::Nothing);
    let (reply, action) = reset_decision(true, " a@b.c ", None);
    assert!(reply.is_ok());
    assert_eq!(action, ResetAction::Nothing);
    let (reply, _) = reset_decision(false, "a@b.c", Some((4, true)));
    assert_eq!(reply.unwrap_err().error_type, ErrorType::EmailSend);
    let (reply, action) = reset_decision(true, "  ", Some((4, true)));
    assert_eq!(reply.unwrap_err().error_type, ErrorType::BadRequest);
    assert_eq!(action, ResetAction::Nothing);
}
