use deepwell::render::show_to::{
    is_show_to, lists_user, reveal_show_to_regions, show_to_regions, strip_show_to_regions,
};

const NAV: &str = "* Home\n[[include :snippets:suo BEGIN CODE |type=showto | user1=ozmaasimov | user2=Allicat ]]\n* **Admin**\n * [[[_admin|Site Manager]]]\n[[include :snippets:suo END CODE]]\n* Profiles";

#[test]
fn removes_show_to_regions_with_their_markers() {
    assert_eq!(strip_show_to_regions(NAV.into()), "* Home\n\n* Profiles");
}

#[test]
fn an_unterminated_region_hides_the_rest_of_the_source() {
    let source =
        "Public\n[[include :snippets:suo BEGIN CODE |type=showto |user1=a]]\nPrivate";
    assert_eq!(strip_show_to_regions(source.into()), "Public\n");
}

#[test]
fn other_region_types_and_ordinary_text_are_unchanged() {
    let source = "[[include :snippets:suo BEGIN CODE |type=hideto |user1=a]]\nShown\n[[include :snippets:suo END CODE]]\n[[include other]]";
    assert_eq!(strip_show_to_regions(source.into()), source);
    assert_eq!(reveal_show_to_regions(source, "a"), None);
}

#[test]
fn listed_viewers_get_the_region_content_without_markers() {
    let revealed = "* Home\n\n* **Admin**\n * [[[_admin|Site Manager]]]\n\n* Profiles";
    assert_eq!(
        reveal_show_to_regions(NAV, "ozmaasimov").as_deref(),
        Some(revealed),
    );
    assert_eq!(
        reveal_show_to_regions(NAV, "allicat").as_deref(),
        Some(revealed),
    );
}

#[test]
fn unlisted_viewers_and_partial_names_get_nothing() {
    for viewer in ["luridel", "ozma", "ozmaasimov2", ""] {
        assert_eq!(reveal_show_to_regions(NAV, viewer), None, "{viewer}");
    }
}

#[test]
fn only_the_regions_listing_the_viewer_are_revealed() {
    let source = "[[include :snippets:suo BEGIN CODE |type=showto |user1=a]]\nFor A\n[[include :snippets:suo END CODE]]\n[[include :snippets:suo BEGIN CODE |type=showto |user=b]]\nFor B\n[[include :snippets:suo END CODE]]";
    let revealed = reveal_show_to_regions(source, "b").unwrap();
    assert_eq!(strip_show_to_regions(revealed), "\n\nFor B\n");
}

#[test]
fn region_positions_and_listing_follow_the_header() {
    let lower = NAV.to_ascii_lowercase();
    let regions = show_to_regions(&lower, Some("allicat"));
    assert_eq!(regions.len(), 1);
    assert_eq!(regions[0].start, 7);
    assert!(regions[0].lists_viewer);
    assert!(!show_to_regions(&lower, None)[0].lists_viewer);
    assert!(is_show_to(" begin code |type = showto |user1=a"));
    assert!(!is_show_to(" begin code |type=hideto"));
    assert!(lists_user("|user12=b |x=y", "b"));
    assert!(!lists_user("|userx=b", "b"));
    assert!(!lists_user("|user1=", ""));
}

#[test]
fn region_positions_are_byte_offsets() {
    let lower = "é[[include :snippets:suo begin code |type=showto |user1=a]]x[[include :snippets:suo end code]]";
    let regions = show_to_regions(lower, Some("a"));
    assert_eq!(regions.len(), 1);
    assert_eq!(regions[0].start, 2);
    assert_eq!(regions[0].end, lower.len());
    assert_eq!(&lower[regions[0].body_start..regions[0].body_end], "x");
}
