use deepwell::render::list_pages::ModuleKind;
use deepwell::render::listing::module_output;
use deepwell::render::list_pages::{parse_attributes, parse_selection, OrderField, Selection};
use deepwell::render::listing::{
    render_items, splice_blocks, uses_forms, created_after, current_category, listing_fullname, page_count, select_visible, shown_range,
    sort_pages, ListedPage,
};

fn selection(header: &str) -> Selection {
    parse_selection(&parse_attributes(header).unwrap(), "character").unwrap()
}

fn page(slug: &str, category: &str, title: &str, created_at: i128, tags: &[&str]) -> ListedPage {
    ListedPage {
        page_id: 1,
        page_category_id: 2,
        slug: slug.into(),
        category: category.into(),
        created_at,
        updated_at: None,
        title: title.into(),
        tags: tags.iter().map(|t| t.to_string()).collect(),
        wikitext_hash: vec![],
    }
}

#[test]
fn selections_match_category_tags_type_and_age() {
    let nav = selection(" category=\"* -admin\" tag=\"guild-canon -_nav-omit\"");
    assert!(nav.matches(&page("writing:a", "writing", "A", 0, &["guild-canon"]), None));
    assert!(!nav.matches(&page("admin:a", "admin", "A", 0, &["guild-canon"]), None));
    assert!(!nav.matches(&page("writing:b", "writing", "B", 0, &["guild-canon", "_nav-omit"]), None));
    assert!(!nav.matches(&page("writing:c", "writing", "C", 0, &[]), None));
    assert!(!nav.matches(&page("writing:_hidden", "writing", "H", 0, &["guild-canon"]), None));
    let hidden = selection(" pagetype=\"hidden\"");
    assert!(hidden.matches(&page("character:_template", "character", "T", 0, &[]), None));
    let required = selection(" tags=\"+a +b\"");
    assert!(required.matches(&page("character:x", "character", "X", 0, &["b", "a"]), None));
    assert!(!required.matches(&page("character:x", "character", "X", 0, &["a"]), None));
    let untagged = selection(" tags=\"-\"");
    assert!(untagged.matches(&page("character:x", "character", "X", 5, &[]), Some(5)));
    assert!(!untagged.matches(&page("character:x", "character", "X", 4, &[]), Some(5)));
    assert!(!untagged.matches(&page("character:x", "character", "X", 5, &["t"]), None));
}

#[test]
fn listings_sort_by_field_then_full_name() {
    let pages = vec![
        page("character:b", "character", "beta", 3, &[]),
        page("character:A", "character", "Alpha", 1, &[]),
        page("character:c", "character", "alpha", 2, &[]),
    ];
    assert_eq!(sort_pages(&pages, OrderField::Name, false), vec![1, 0, 2]);
    assert_eq!(sort_pages(&pages, OrderField::Fullname, false), vec![1, 0, 2]);
    assert_eq!(sort_pages(&pages, OrderField::Title, false), vec![1, 2, 0]);
    assert_eq!(sort_pages(&pages, OrderField::CreatedAt, true), vec![0, 2, 1]);
    assert_eq!(sort_pages(&pages, OrderField::UpdatedAt, false), vec![1, 0, 2]);
    assert_eq!(sort_pages(&[], OrderField::Name, false), Vec::<usize>::new());
}

#[test]
fn listings_keep_visible_pages_up_to_the_limit_and_page_them() {
    assert_eq!(select_visible(&[true, false, true, true], Some(2)), vec![0, 2]);
    assert_eq!(select_visible(&[false, true], None), vec![1]);
    assert_eq!(select_visible(&[true], Some(0)), Vec::<usize>::new());
    assert_eq!(page_count(46 * 10 - 3, 10), 46);
    assert_eq!(page_count(0, 20), 0);
    assert_eq!(shown_range(45, 2, 20), (20, 40));
    assert_eq!(shown_range(45, 3, 20), (40, 45));
    assert_eq!(shown_range(45, 4, 20), (45, 45));
    assert_eq!(created_after(1_000, Some(1)), Some(1_000 - 86_400_000_000_000));
    assert_eq!(created_after(1_000, None), None);
    assert_eq!(current_category(None), "_default");
    assert_eq!(listing_fullname("_default", "start"), "start");
    assert_eq!(listing_fullname("writing", "x"), "writing:x");
    assert_eq!(page("a:b", "a", "t", 0, &[]).name(), "b");
}

#[test]
fn items_fill_each_listed_page_into_the_template() {
    let mut first = page("writing:a", "writing", "First", 1_700_000_000_999_999_999, &[]);
    first.updated_at = Some(-1);
    let second = page("b", "_default", "Second", 0, &[]);
    let items = render_items(
        "\n* %%title_linked%% %%created_at%% %%updated_at%% [[module ListPages]]%%title%%[[/module]]\r\n",
        &[first, second],
        &[None, None],
    );
    assert_eq!(
        items,
        vec![
            "* [[[writing:a|]]] [[date 1700000000]] [[date -1]] [[module ListPages]]%%title%%[[/module]]".to_owned(),
            "* [[[b|]]] [[date 0]] %%updated_at%% [[module ListPages]]%%title%%[[/module]]".to_owned(),
        ]
    );
    assert!(uses_forms("x %%form_raw{a}%%"));
    assert!(uses_forms("%%form_data{a}%%"));
    assert!(!uses_forms("%%form_data%%"));
}

#[test]
fn modules_are_replaced_by_their_output_in_place() {
    let source = "A [[module ListPages]]x[[/module]] B [[module CountPages]]%%total%%[[/module]] C";
    assert_eq!(splice_blocks(source, &["1".to_owned(), "2".to_owned()]), "A 1 B 2 C");
    assert_eq!(splice_blocks("no modules", &[]), "no modules");
}

#[test]
fn modules_become_their_listing_total_or_error() {
    let joined = Ok(selection(" separate=\"no\""));
    assert_eq!(
        module_output(ModuleKind::ListPages, &joined, "", &["a".to_owned()], "w", 1, 1, 0),
        "\n[[div class=\"list-pages-box\"]]\na\n[[/div]]\n"
    );
    assert_eq!(
        module_output(ModuleKind::CountPages, &joined, "\n%%total%% pages\n", &[], "w", 1, 0, 7),
        "\n[[div class=\"list-pages-box\"]]\n7 pages\n[[/div]]\n"
    );
    assert_eq!(
        module_output(ModuleKind::ListPages, &Err("unsupported order".to_owned()), "", &[], "w", 1, 0, 0),
        "[[div class=\"error-block\"]]\nListPages module error: unsupported order.\n[[/div]]"
    );
}
