use deepwell::render::list_layout::{error_block, layout_items, layout_total, pager};
use deepwell::render::list_pages::{
    list_pages_blocks, module_at, parse_attributes, parse_selection, ModuleKind, OrderField, PageType,
    Selection,
};

fn selection(header: &str) -> Selection {
    parse_selection(&parse_attributes(header).unwrap(), "character").unwrap()
}

#[test]
fn finds_multiline_headers_with_brackets_in_quoted_values() {
    let source = "Intro\n[[module ListPages category=\"player\" order=\"name\" perPage=\"200\"\nprependLine=\"+ %%title_linked%% [[# %%name%%]]\"]]\n* %%title%%\n[[/module]]\nOutro [[module Join]]";
    let blocks = list_pages_blocks(source);
    assert_eq!(blocks.len(), 1);
    let attributes = parse_attributes(&blocks[0].header).unwrap();
    assert_eq!(
        attributes.get("prependline").unwrap(),
        "+ %%title_linked%% [[# %%name%%]]"
    );
    assert_eq!(attributes.get("perpage").unwrap(), "200");
    assert_eq!(blocks[0].body, "\n* %%title%%\n");
    assert_eq!(&source[blocks[0].range.end..], "\nOutro [[module Join]]");
}

#[test]
fn ignores_other_modules_and_unterminated_list_pages() {
    assert!(list_pages_blocks("[[module ListPagesX]]x[[/module]]").is_empty());
    assert!(list_pages_blocks("[[module Join]] [[/module]]").is_empty());
    assert_eq!(
        list_pages_blocks("[[module CountPages]]%%total%%[[/module]]")[0].kind,
        ModuleKind::CountPages
    );
    assert!(list_pages_blocks("[[module ListPages category=\"a\"]] never closed").is_empty());
    assert_eq!(list_pages_blocks("[[MODULE listpages]]x[[/MODULE]]").len(), 1);
}

#[test]
fn stray_continuation_backslashes_are_not_arguments() {
    let attributes =
        parse_attributes(" separate=\"no\" category=\"player\" perPage=\"200\" \\").unwrap();
    assert_eq!(attributes.len(), 3);
    assert_eq!(attributes.get("separate").unwrap(), "no");
}

#[test]
fn selects_categories_tags_and_limits_like_wikidot() {
    let nav = selection(
        " category=\"* -admin -home\" tag=\"guild-canon -_nav-omit\" order=\"title\" separate=\"no\"",
    );
    assert!(nav.all_categories);
    assert_eq!(nav.excluded_categories, ["admin", "home"]);
    assert_eq!(nav.any_tags, ["guild-canon"]);
    assert_eq!(nav.excluded_tags, ["_nav-omit"]);
    assert_eq!(
        (nav.order, nav.descending, nav.per_page, nav.limit, nav.separate),
        (OrderField::Title, false, 20, None, false)
    );

    let home = selection(
        " category=\"character\" tags=\"_completed\" order=\"created_at asc\" limit=\"9\"",
    );
    assert_eq!(
        (home.categories.as_slice(), home.limit),
        (["character".to_owned()].as_slice(), Some(9))
    );
    assert_eq!(home.page_type, PageType::Normal);

    let required = selection(
        " category=\"writing +arc\" tags=\"+welcomed -reviewed\" perPage=\"500\" pagetype=\"*\"",
    );
    assert_eq!(required.categories, ["writing", "arc"]);
    assert_eq!(required.all_tags, ["welcomed"]);
    assert_eq!((required.per_page, required.page_type), (250, PageType::All));

    let current = selection(" tags=\"\" created_at=\"last 10 days\"");
    assert_eq!(current.categories, ["character"]);
    assert_eq!((current.order, current.descending), (OrderField::CreatedAt, true));
    assert_eq!(current.created_within_days, Some(10));
}

#[test]
fn unsupported_arguments_are_explicit_errors() {
    let parse = |header| {
        parse_selection(&parse_attributes(header).unwrap(), "character").unwrap_err()
    };
    assert_eq!(parse(" rssTitle=\"x\""), "unsupported argument rsstitle");
    assert_eq!(parse(" order=\"rating desc\""), "unsupported order");
    assert_eq!(parse(" created_at=\"older than 3 days\""), "unsupported created_at");
    assert_eq!(parse(" tags=\"a\" tag=\"b\""), "both tags and tag given");
    assert!(parse_attributes("category=\"open").is_err());
}

#[test]
fn separated_and_joined_layouts() {
    let items = ["|| a ||".to_owned(), "|| b || \\".to_owned()];
    let joined = selection(" separate=\"no\" prependLine=\"||~ Head ||\"");
    assert_eq!(
        layout_items(&joined, &items, ""),
        "\n[[div class=\"list-pages-box\"]]\n||~ Head ||\n|| a ||\n|| b ||\n[[/div]]\n"
    );
    let separate = selection(" prependLine=\"~ Page\" appendLine=\"End\"");
    assert_eq!(
        layout_items(&separate, &items[..1], ""),
        "\n[[div class=\"list-pages-box\"]]\n[[div class=\"list-pages-item\"]]\n|| a ||\n[[/div]]\n[[/div]]\n"
    );
    assert_eq!(layout_items(&joined, &[], ""), "");
}

#[test]
fn pager_matches_wikidot_page_navigation() {
    let labels = |current| {
        let wikitext = pager("writings", current, 46);
        let mut labels = Vec::new();
        for part in wikitext.split("[[span class=\"").skip(1) {
            let (class, rest) = part.split_once("\"]]").unwrap();
            let text = rest.split("[[/span]]").next().unwrap();
            labels.push(match class {
                "target" => {
                    let (href, label) = text[1..text.len() - 1].split_once(' ').unwrap();
                    format!("{label}={href}")
                }
                "current" => format!("({text})"),
                _ => text.to_owned(),
            });
        }
        labels.join(" ")
    };
    assert_eq!(
        labels(1),
        "page 1 of 46 (1) 2=/writings/p/2 3=/writings/p/3 ... 45=/writings/p/45 46=/writings/p/46 next »=/writings/p/2"
    );
    assert_eq!(
        labels(10),
        "page 10 of 46 « previous=/writings/p/9 1=/writings/p/1 2=/writings/p/2 ... 8=/writings/p/8 9=/writings/p/9 (10) 11=/writings/p/11 12=/writings/p/12 ... 45=/writings/p/45 46=/writings/p/46 next »=/writings/p/11"
    );
    assert_eq!(
        labels(46),
        "page 46 of 46 « previous=/writings/p/45 1=/writings/p/1 2=/writings/p/2 ... 44=/writings/p/44 45=/writings/p/45 (46)"
    );
    assert_eq!(pager("writings", 1, 1), "");
}

#[test]
fn pager_for_two_pages_has_no_gap() {
    assert_eq!(
        pager("a:b", 2, 2),
        "[[div class=\"pager\"]]\n[[span class=\"pager-no\"]]page 2 of 2[[/span]][[span class=\"target\"]][/a:b/p/1 « previous][[/span]][[span class=\"target\"]][/a:b/p/1 1][[/span]][[span class=\"current\"]]2[[/span]]\n[[/div]]\n"
    );
}

#[test]
fn separated_items_drop_a_trailing_continuation() {
    let separate = selection("");
    let items = ["x \\\\ ".to_owned()];
    assert_eq!(
        layout_items(&separate, &items, "P"),
        "\n[[div class=\"list-pages-box\"]]\n[[div class=\"list-pages-item\"]]\nx \\\\ \n[[/div]]\nP[[/div]]\n"
    );
}

#[test]
fn count_pages_fills_every_total_token() {
    assert_eq!(
        layout_total("\r\n%%total%% of %%total%%%\n\n", 12),
        "\n[[div class=\"list-pages-box\"]]\n12 of 12%\n[[/div]]\n"
    );
    assert_eq!(
        layout_total("\n\n", 0),
        "\n[[div class=\"list-pages-box\"]]\n\n[[/div]]\n"
    );
}

#[test]
fn module_errors_name_the_module_kind() {
    assert_eq!(
        error_block(ModuleKind::CountPages, "unsupported order"),
        "[[div class=\"error-block\"]]\nCountPages module error: unsupported order.\n[[/div]]"
    );
    assert_eq!(
        error_block(ModuleKind::ListPages, "x"),
        "[[div class=\"error-block\"]]\nListPages module error: x.\n[[/div]]"
    );
}

#[test]
fn module_openings_name_their_module() {
    assert_eq!(module_at(" listpages category=\"x\"]]", 0), Some(("listpages".to_string(), ModuleKind::ListPages)));
    assert_eq!(module_at("  countpages]]", 0), Some(("countpages".to_string(), ModuleKind::CountPages)));
    assert_eq!(module_at(" rate]]", 0), None);
    assert_eq!(module_at("listpages]]", 0), None);
}

#[test]
fn module_ranges_are_byte_offsets() {
    let source = "é[[module ListPages]]ü[[/module]]";
    let blocks = list_pages_blocks(source);
    assert_eq!(blocks.len(), 1);
    assert_eq!(blocks[0].range, 2..source.len());
    assert_eq!(&source[blocks[0].body_range.clone()], "ü");
    assert_eq!(module_at("é listpages]]", 2), Some(("listpages".to_string(), ModuleKind::ListPages)));
}

#[test]
fn a_repeated_argument_keeps_its_place_and_its_last_value() {
    let attributes = parse_attributes(" order=\"name\" limit=\"3\" ORDER=\"title\"").unwrap();
    assert_eq!(
        attributes.entries,
        vec![("order".to_string(), "title".to_string()), ("limit".to_string(), "3".to_string())]
    );
}
