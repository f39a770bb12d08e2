use deepwell::names::{live_template_slug, split_category, template_slug};
use deepwell::render::page_tokens::{
    field_argument, is_token_name, live_section, scalar_text, substitute_outside_module_bodies,
    substitute_tokens, FormField, FormOption, FormRecord, FormValue, PageTokens,
};

fn page<'a>(form: Option<&'a FormRecord>) -> PageTokens<'a> {
    PageTokens {
        fullname: "writing:letters-from-the-dead-1",
        title: "Letters from the dead [1]",
        created_at: Some(1_700_000_000),
        updated_at: None,
        form,
    }
}

fn text(s: &str) -> FormValue {
    FormValue::Text(s.to_owned())
}

/// The record of `rating: rated-m / summary: 'A letter.' / count: 7` under a
/// schema with a `rating` select field and `summary` and `count` text fields.
fn letter_form() -> FormRecord {
    FormRecord {
        fields: vec![
            FormField {
                name: "rating".into(),
                is_select: true,
                options: vec![
                    FormOption { code: text("rated-t"), label: text("T for Teen") },
                    FormOption { code: text("rated-m"), label: text("M for Mature") },
                ],
            },
            FormField { name: "summary".into(), is_select: false, options: vec![] },
            FormField { name: "count".into(), is_select: false, options: vec![] },
        ],
        values: vec![
            ("rating".into(), text("rated-m")),
            ("summary".into(), text("A letter.")),
            ("count".into(), FormValue::Number("7".into())),
        ],
    }
}

#[test]
fn substitutes_page_identity_and_links() {
    let output = substitute_tokens(
        "%%name%% %%fullname%% %%title%% %%linked_title%% %%title_linked%% %%link%% %%created_at%%",
        &page(None),
    );
    assert_eq!(
        output,
        "letters-from-the-dead-1 writing:letters-from-the-dead-1 Letters from the dead [1] \
         [[[writing:letters-from-the-dead-1|]]] [[[writing:letters-from-the-dead-1|]]] \
         /writing:letters-from-the-dead-1 [[date 1700000000]]",
    );
}

#[test]
fn form_data_shows_select_labels_and_form_raw_shows_codes() {
    let form = letter_form();
    let output = substitute_tokens(
        "%%form_data{rating}%%|%%form_raw{rating}%%|%%form_data{summary}%%|%%form_raw{count}%%|%%form_data{missing}%%|",
        &page(Some(&form)),
    );
    assert_eq!(output, "M for Mature|rated-m|A letter.|7||");
}

#[test]
fn unknown_unavailable_and_malformed_markers_stay_literal() {
    let output = substitute_tokens(
        "%%content%% %%updated_at%% 100%% done %%form_data{}%% %%",
        &page(None),
    );
    assert_eq!(output, "%%content%% %%updated_at%% 100%% done %%form_data{}%% %%");
}

#[test]
fn a_literal_percent_pair_does_not_swallow_a_following_token() {
    assert_eq!(
        substitute_tokens("50%% %%name%%", &page(None)),
        "50%% letters-from-the-dead-1"
    );
}

#[test]
fn form_tokens_without_a_record_are_empty() {
    assert_eq!(substitute_tokens("[%%form_data{rating}%%]", &page(None)), "[]");
    assert_eq!(substitute_tokens("[%%form_raw{rating}%%]", &page(None)), "[]");
}

#[test]
fn select_values_without_an_option_show_the_stored_value() {
    let mut form = letter_form();
    form.values[0].1 = text("rated-x");
    assert_eq!(substitute_tokens("%%form_data{rating}%%", &page(Some(&form))), "rated-x");
    form.values[0].1 = FormValue::Bool(true);
    assert_eq!(substitute_tokens("%%form_data{rating}%%", &page(Some(&form))), "true");
    form.values[0].1 = FormValue::Other;
    assert_eq!(substitute_tokens("%%form_data{rating}%%", &page(Some(&form))), "");
}

#[test]
fn token_names_are_lowercase_with_an_optional_field() {
    assert!(is_token_name("title_linked"));
    assert!(is_token_name("form_data{Rating-2_b}"));
    assert!(!is_token_name(""));
    assert!(!is_token_name("Title"));
    assert!(!is_token_name("form_data{}"));
    assert!(!is_token_name("form_data{a b}"));
    assert!(!is_token_name("{x}"));
    assert!(!is_token_name("form_data{x"));
}

#[test]
fn field_arguments_need_braces_after_the_function() {
    assert_eq!(field_argument("form_data{x}", "form_data").as_deref(), Some("x"));
    assert_eq!(field_argument("form_data{}", "form_data").as_deref(), Some(""));
    assert_eq!(field_argument("form_datax{y}", "form_data"), None);
    assert_eq!(field_argument("form_data{", "form_data"), None);
    assert_eq!(scalar_text(&FormValue::Bool(false)), "false");
    assert_eq!(scalar_text(&FormValue::Null), "");
}

#[test]
fn live_section_stops_at_the_separator_line() {
    assert_eq!(live_section("Top %%title%%\n\n====\n\nBelow\n"), "Top %%title%%\n\n");
    assert_eq!(live_section("No separator ===="), "No separator ====");
}

#[test]
fn live_section_accepts_a_separator_with_trailing_space_at_the_end() {
    assert_eq!(live_section("a\n====  "), "a\n");
    assert_eq!(live_section(""), "");
}

#[test]
fn list_pages_item_tokens_describe_listed_pages() {
    let tokens = PageTokens {
        fullname: "character:atley",
        title: "Sir Dane Atley",
        created_at: None,
        updated_at: None,
        form: None,
    };
    let template = "+ %%title%%\n[[module ListPages tags=\"+%%name%%\"]]\n* %%linked_title%%\n[[/module]]\n%%fullname%%";
    assert_eq!(
        substitute_outside_module_bodies(template, &tokens),
        "+ Sir Dane Atley\n[[module ListPages tags=\"+atley\"]]\n* %%linked_title%%\n[[/module]]\ncharacter:atley",
    );
}

#[test]
fn resolves_category_and_default_templates_without_self_parsing() {
    assert_eq!(template_slug("character:example"), Some("character:_template".into()));
    assert_eq!(template_slug("start"), Some("_template".into()));
    assert_eq!(template_slug("character:_template"), None);
    assert_eq!(template_slug("_template"), None);
}

#[test]
fn categories_split_at_the_first_colon() {
    assert_eq!(split_category("a:b:c"), (Some("a".to_owned()), "b:c".to_owned()));
    assert_eq!(split_category("plain"), (None, "plain".to_owned()));
}

#[test]
fn live_templates_come_from_the_category_template_of_visible_pages() {
    assert_eq!(
        live_template_slug(Some("character"), "atley"),
        Some(("character:atley".to_string(), "character:_template".to_string()))
    );
    assert_eq!(live_template_slug(None, "start"), Some(("start".to_string(), "_template".to_string())));
    assert_eq!(live_template_slug(Some("character"), "_template"), None);
    assert_eq!(live_template_slug(Some("character"), "_public"), None);
}
