use deepwell::outdate::{dependent_pages, is_nav_page, is_site_bar, template_scope};
use deepwell::import::conflicting_revision;
use deepwell::job::{after_marking, QueueStep};
use deepwell::render::includes::check_expanded_size;
use deepwell::drafts::{access_denied, check_base, check_draft_origin, check_last_revision, draft_slug, draft_source, CreatePageRequest, DraftSource, EditPageRequest, PreviewRequest};
use deepwell::names::Reference;
use deepwell::editor::{editor_page_pattern, escape_like, is_image, suggestion, EditorPage, Suggestions};
use deepwell::error::ErrorType;
use deepwell::import::{check_history_limit, check_source_identity, check_target_page, history_hidden, invalid, matching_stored, validate_input, RevisionIdentity};
use deepwell::job::{pending_rerender_key, rerender_job, Job, PageId, RerenderType};
use deepwell::render::includes::{check_work_limits, is_local, no_such_include, IncludeExpansion, IncludeRound};

#[test]
fn include_expansion_is_bounded() {
    assert!(check_work_limits(15, 4096, 4 * 1024 * 1024).is_ok());
    assert_eq!(check_work_limits(16, 0, 0).unwrap_err().message, "include expansion exceeds its nesting limit");
    assert_eq!(check_work_limits(0, 4097, 0).unwrap_err().message, "include expansion exceeds its work limit");
    assert_eq!(check_work_limits(0, 0, 4 * 1024 * 1024 + 1).unwrap_err().error_type, ErrorType::Render);
    assert!(is_local(None, "scp"));
    assert!(is_local(Some("scp"), "scp"));
    assert!(!is_local(Some("other"), "scp"));
    assert_eq!(no_such_include(), "[[div class=\"error-block\"]]\nIncluded page unavailable.\n[[/div]]");
}

#[test]
fn like_patterns_escape_wildcards() {
    assert_eq!(escape_like("a%b_c\\d"), "a\\%b\\_c\\\\d");
    assert_eq!(editor_page_pattern("scp 17_").unwrap(), "scp-17\\_%");
    assert!(editor_page_pattern(" a ").is_err());
    assert!(editor_page_pattern(&"x".repeat(201)).is_err());
}

#[test]
fn rerender_markers_name_the_page_and_the_kind() {
    let id = PageId { site_id: 6, category_id: 7, page_id: 8 };
    assert_eq!(pending_rerender_key(id, RerenderType::NavigationOnly), "job:rerender-pending:8:NavigationOnly");
    assert_eq!(pending_rerender_key(id, RerenderType::Standalone), "job:rerender-pending:8:Standalone");
    assert_eq!(rerender_job(id, RerenderType::Standalone), Job::RerenderPage { id, rerender_type: RerenderType::Standalone });
}

fn revision(id: i64, number: i32) -> RevisionIdentity {
    RevisionIdentity {
        source_revision_id: id,
        source_revision_number: number,
        source_author_id: Some(3),
        representation: "display-decoded-not-byte-exact".into(),
        raw_source_html: "<p>x</p>".into(),
    }
}

#[test]
fn imported_history_needs_distinct_complete_revisions() {
    assert!(validate_input(5, &[revision(1, 0), revision(2, 1)]).is_ok());
    assert_eq!(validate_input(0, &[revision(1, 0)]).unwrap_err().message, "source page identity and revisions are required");
    assert_eq!(validate_input(5, &[]).unwrap_err().error_type, ErrorType::DatabaseImport);
    assert_eq!(validate_input(5, &[revision(1, -1)]).unwrap_err().message, "invalid source revision identity");
    assert_eq!(validate_input(5, &[revision(1, 0), revision(2, 0)]).unwrap_err().message, "duplicate source revision identity in request");
    let mut raw = revision(1, 0);
    raw.representation = "exact".into();
    assert_eq!(validate_input(5, &[raw]).unwrap_err().message, "history requires its raw source display and explicit representation");
    assert!(check_history_limit(100).is_ok());
    assert!(check_history_limit(0).is_err());
    assert!(check_source_identity(&[5, 5], 5).is_ok());
    assert_eq!(check_source_identity(&[5, 6], 5).unwrap_err().message, "page already has a different source history identity");
    assert_eq!(matching_stored(&[(1, 0), (2, 1)], 2, 0), Some(1));
    assert_eq!(matching_stored(&[(1, 0), (2, 1)], 9, 1), Some(1));
    assert_eq!(matching_stored(&[(1, 0)], 9, 9), None);
    assert_eq!(invalid("x").message, "x");
}

#[test]
fn drafts_and_previews_build_on_the_latest_revision() {
    assert_eq!(check_base(Some(4), Some(4)).unwrap(), 4);
    assert_eq!(check_base(Some(4), None).unwrap_err().message, "last_revision_id is required for existing page drafts");
    assert_eq!(check_base(Some(4), Some(3)).unwrap_err().error_type, ErrorType::NotLatestRevisionId);
    assert!(check_last_revision(None, 1).is_err());
    let preview = |wikitext: bool, form: bool, title: bool, base: Option<i64>| PreviewRequest {
        title: title.then(|| "T".to_owned()),
        alt_title: None,
        tags: None,
        wikitext: wikitext.then(|| "x".to_owned()),
        form_updates: form.then(Vec::new),
        last_revision_id: base,
    };
    assert!(preview(true, false, false, None).validate_modes(true).is_ok());
    assert_eq!(preview(true, true, true, None).validate_modes(true).unwrap_err().message, "exactly one of wikitext or form_updates is required");
    assert_eq!(preview(false, true, true, None).validate_modes(true).unwrap_err().message, "form_updates requires an existing page and last_revision_id");
    assert_eq!(preview(true, false, false, None).validate_modes(false).unwrap_err().message, "title is required for a new page");
    assert!(preview(false, true, true, Some(2)).validate_modes(true).is_ok());
}

#[test]
fn drafts_stay_with_their_page_and_need_a_usable_source() {
    assert_eq!(draft_slug(&Reference::Slug("Big Cheese Horace".into())), "big-cheese-horace");
    assert_eq!(draft_slug(&Reference::Slug("".into())), "");
    assert_eq!(draft_slug(&Reference::Id(4)), "");
    assert!(check_draft_origin(None, None).is_ok());
    assert!(check_draft_origin(Some(3), Some(3)).is_ok());
    assert_eq!(check_draft_origin(Some(3), None).unwrap_err().message, "page draft's original page is no longer at this slug");
    assert_eq!(access_denied(false, true).message, "page draft access denied");
    assert_eq!(access_denied(true, false).message, "page preview create access denied");
    assert_eq!(draft_source(true, false, Some(Some(4)), Some(4)).unwrap(), DraftSource::Wikitext);
    assert_eq!(draft_source(true, false, None, None).unwrap(), DraftSource::Wikitext);
    assert_eq!(draft_source(false, true, Some(Some(4)), Some(4)).unwrap(), DraftSource::FormUpdates(4));
    assert_eq!(
        draft_source(false, true, None, Some(4)).unwrap_err().message,
        "draft requires exactly one of wikitext or form_updates and a matching published base"
    );
    assert!(draft_source(true, true, Some(Some(4)), Some(4)).is_err());
    assert_eq!(draft_source(true, false, Some(Some(5)), Some(4)).unwrap_err().error_type, ErrorType::NotLatestRevisionId);
}

#[test]
fn small_decisions_report_their_errors() {
    assert_eq!(after_marking(true), QueueStep::Queue);
    assert_eq!(after_marking(false), QueueStep::AlreadyPending);
    assert!(check_expanded_size(4 * 1024 * 1024).is_ok());
    assert_eq!(check_expanded_size(4 * 1024 * 1024 + 1).unwrap_err().message, "include expansion exceeds its size limit");
    assert_eq!(conflicting_revision().message, "imported revision conflicts with the stored source record");
    assert_eq!(deepwell::members::already_member().error_type, ErrorType::SiteMemberExists);
    assert_eq!(deepwell::applications::denied_reviewer().message, "only site admins review applications");
    assert_eq!(deepwell::password::mail_unconfigured().error_type, ErrorType::EmailSend);
    assert_eq!(deepwell::watching::request_user(None).unwrap_err().error_type, ErrorType::PermissionDenied);
    assert_eq!(deepwell::watching::request_user(Some(3)).unwrap(), 3);
}

#[test]
fn navigation_pages_are_the_site_and_category_bars() {
    let categories = [(Some("nav:cat-top".to_owned()), None), (None, Some("nav:cat-side".to_owned()))];
    assert!(is_nav_page("nav:top", "nav:top", "nav:side", &categories));
    assert!(is_nav_page("nav:cat-side", "nav:top", "nav:side", &categories));
    assert!(!is_nav_page("start", "nav:top", "nav:side", &categories));
    assert!(!is_nav_page("", "", "", &categories));
}

#[test]
fn dependents_are_other_pages_once_each_in_order() {
    assert_eq!(dependent_pages(&[7, 3, 9, 3, 5, 7], 5), vec![3, 7, 9]);
    assert_eq!(dependent_pages(&[5, 5], 5), Vec::<i64>::new());
    assert_eq!(dependent_pages(&[], 1), Vec::<i64>::new());
}

#[test]
fn template_edits_outdate_their_category_or_the_site() {
    assert_eq!(template_scope("fragment", "_template", "_template"), Some(Some("fragment".to_string())));
    assert_eq!(template_scope("_default", "_template", "_template"), Some(None));
    assert_eq!(template_scope("_default", "start", "_template"), None);
    assert!(is_site_bar("nav:top", "nav:top", "nav:side"));
    assert!(is_site_bar("nav:side", "nav:top", "nav:side"));
    assert!(!is_site_bar("nav:other", "nav:top", "nav:side"));
}

#[test]
fn include_expansion_stops_after_sixteen_rounds() {
    let mut expansion = IncludeExpansion::new();
    assert_eq!(expansion.begin_round(0, 10).unwrap(), IncludeRound::Done);
    assert_eq!((expansion.depth, expansion.directives), (0, 0));
    for round in 1..=16 {
        assert_eq!(expansion.begin_round(2, 10).unwrap(), IncludeRound::Expand);
        assert_eq!((expansion.depth, expansion.directives), (round, 2 * round));
    }
    let error = expansion.begin_round(1, 10).unwrap_err();
    assert_eq!(error.message, "include expansion exceeds its nesting limit");
    assert_eq!(expansion.depth, 16);

    let mut expansion = IncludeExpansion::new();
    let error = expansion.begin_round(4097, 10).unwrap_err();
    assert_eq!(error.message, "include expansion exceeds its work limit");
    assert_eq!(expansion.begin_round(1, 4 * 1024 * 1024 + 1).unwrap_err().message, "include expansion exceeds its work limit");
    assert_eq!(expansion.begin_round(4096, 4 * 1024 * 1024).unwrap(), IncludeRound::Expand);
}

#[test]
fn rejects_combined_modes_even_when_both_are_empty() {
    for raw in ["", "name: Before"] {
        let request = EditPageRequest {
            wikitext: Some(raw.to_string()),
            form_updates: Some(Vec::new()),
            do_not_notify_watchers: false,
        };
        let error = request.validate_modes().unwrap_err();
        assert!(matches!(error.error_type, ErrorType::BadRequest));
    }
}

#[test]
fn edits_take_wikitext_or_form_updates_or_neither() {
    let raw = EditPageRequest { wikitext: Some("raw **wiki**".to_string()), form_updates: None, do_not_notify_watchers: false };
    assert!(raw.validate_modes().is_ok());
    let metadata_only = EditPageRequest { wikitext: None, form_updates: None, do_not_notify_watchers: true };
    assert!(metadata_only.validate_modes().is_ok());
    let form = EditPageRequest { wikitext: None, form_updates: Some(Vec::new()), do_not_notify_watchers: false };
    assert!(form.validate_modes().is_ok());
    let both = EditPageRequest { wikitext: Some(String::new()), form_updates: Some(Vec::new()), do_not_notify_watchers: false };
    assert_eq!(both.validate_modes().unwrap_err().message, "wikitext and form_updates cannot be combined");
}

#[test]
fn new_pages_come_from_their_wikitext_or_their_category_form() {
    let raw = CreatePageRequest { wikitext: "text".to_string(), form_updates: None };
    assert_eq!(raw.from_form().unwrap(), false);
    let form = CreatePageRequest { wikitext: String::new(), form_updates: Some(Vec::new()) };
    assert_eq!(form.from_form().unwrap(), true);
    let both = CreatePageRequest { wikitext: "text".to_string(), form_updates: Some(Vec::new()) };
    let error = both.from_form().unwrap_err();
    assert_eq!((error.error_type, error.message.as_str()), (ErrorType::BadRequest, "wikitext and form_updates cannot be combined"));
}

#[test]
fn editor_lists_images_and_stops_at_twenty_suggestions() {
    assert!(is_image("image/png"));
    assert!(!is_image("image"));
    assert!(!is_image("text/plain"));
    assert!(suggestion(1, 2, "scp-1".to_string(), Some((1, 3, "Other".to_string()))).is_none());
    assert!(suggestion(1, 2, "scp-1".to_string(), None).is_none());
    let found = suggestion(1, 2, "scp-1".to_string(), Some((1, 2, "SCP-1".to_string()))).unwrap();
    assert_eq!((found.slug.as_str(), found.title.as_str()), ("scp-1", "SCP-1"));

    let mut suggestions = Suggestions::new();
    assert!(!suggestions.see("hidden".to_string(), 1, None));
    assert_eq!(suggestions.cursor, Some(("hidden".to_string(), 1)));
    for id in 0..19 {
        let page = EditorPage { slug: format!("p{id}"), title: String::new() };
        assert!(!suggestions.see(page.slug.clone(), id, Some(page)));
    }
    let page = EditorPage { slug: "last".to_string(), title: String::new() };
    assert!(suggestions.see("last".to_string(), 99, Some(page)));
    assert_eq!(suggestions.pages.len(), 20);
    assert!(Suggestions::last_batch(39));
    assert!(!Suggestions::last_batch(40));
}

#[test]
fn history_goes_under_the_page_the_importer_saw() {
    assert!(check_target_page(Some(10), 10).is_ok());
    let error = check_target_page(None, 10).unwrap_err();
    assert_eq!((error.error_type, error.message.as_str()), (ErrorType::DatabaseImport, "history target page does not exist on this site"));
    let error = check_target_page(Some(11), 10).unwrap_err();
    assert_eq!(error.message, "current page revision changed before history import");
    let error = history_hidden();
    assert_eq!((error.error_type, error.message.as_str()), (ErrorType::Permission, "page history is not visible to this user"));
}
