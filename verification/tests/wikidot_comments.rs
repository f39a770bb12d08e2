use deepwell::render::preprocess::finish_preprocessing;
use deepwell::render::wikidot_comments::{comment_end, raw_span_end, strip_comments};

const ROW: &str = "[!--{v}--]@@@@\n|| AKA || {v} ||\n[!-- --]\n|| Gender || Male ||";

#[test]
fn a_raw_marker_value_hides_the_guarded_row() {
    let source = ROW.replace("{v}", "@@");
    assert_eq!(strip_comments(source), "\n|| Gender || Male ||");
}

#[test]
fn a_real_value_shows_the_guarded_row() {
    let source = ROW.replace("{v}", "Red");
    assert_eq!(
        strip_comments(source),
        "@@@@\n|| AKA || Red ||\n\n|| Gender || Male ||"
    );
}

#[test]
fn raw_spans_protect_comment_markers_and_unterminated_comments_stay() {
    assert_eq!(strip_comments("@@[!--@@ kept".into()), "@@[!--@@ kept");
    assert_eq!(strip_comments("a [!-- open".into()), "a [!-- open");
    assert_eq!(strip_comments("é[!--x--]ü".into()), "éü");
}

#[test]
fn raw_spans_end_on_their_own_line() {
    assert_eq!(raw_span_end("@@a@@b", 0), 5);
    assert_eq!(raw_span_end("@@a\n@@", 0), 2);
    assert_eq!(comment_end("[!--x--]", 4), Some(8));
    assert_eq!(comment_end("[!--@@--]@@x--]", 4), Some(15));
    assert_eq!(comment_end("[!--x", 4), None);
}

#[test]
fn text_without_comments_is_returned_unchanged() {
    let source = "plain @@raw@@ text --] [[x]]".to_string();
    assert_eq!(strip_comments(source.clone()), source);
}

#[test]
fn comments_go_before_ftml_preprocessing() {
    let source = "\r\na[!-- note --]b\r\nc\td\r\n".to_string();
    assert_eq!(finish_preprocessing(source), "ab\nc    d");
    assert_eq!(finish_preprocessing("x[!-- a\r\n\tb --]y".to_string()), "xy");
}

#[test]
fn comment_positions_are_byte_offsets() {
    // "é" takes two bytes: the comment body starts at byte 6.
    assert_eq!(comment_end("é[!--x--]ü", 6), Some(10));
    assert_eq!(raw_span_end("é@@a@@b", 2), 7);
    assert_eq!(comment_end("é", 9), None);
}
