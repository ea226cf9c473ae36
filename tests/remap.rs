use hone_editor::remap::remap;
use hone_editor::token::{TokenSpan, TokenStyle};
use hone_editor::token_json::{
    extract_json_int, extract_json_str, parse_tokens_json, tokens_to_json, validate_tokens_json,
};

fn span(start: usize, end: usize, color: &str, style: TokenStyle) -> TokenSpan {
    TokenSpan { start, end, color: color.to_string(), style }
}

#[test]
fn edited_middle_word_goes_neutral() {
    let tokens = vec![
        span(0, 3, "#ff0000", TokenStyle::Normal),
        span(4, 7, "#00ff00", TokenStyle::Bold),
        span(8, 11, "#0000ff", TokenStyle::Italic),
    ];
    let r = remap(&tokens, "foo bar baz", "foo qux baz");
    assert_eq!(
        r,
        vec![
            span(0, 3, "#ff0000", TokenStyle::Normal),
            span(3, 8, "#d4d4d4", TokenStyle::Normal),
            span(8, 11, "#0000ff", TokenStyle::Italic),
        ]
    );
}

#[test]
fn suffix_shifts_with_length_change() {
    let tokens = vec![
        span(0, 3, "#ff0000", TokenStyle::Normal),
        span(4, 5, "#00ff00", TokenStyle::Normal),
        span(6, 9, "#0000ff", TokenStyle::Normal),
    ];
    let r = remap(&tokens, "foo x baz", "foo longer baz");
    assert_eq!(
        r,
        vec![
            span(0, 3, "#ff0000", TokenStyle::Normal),
            span(3, 11, "#d4d4d4", TokenStyle::Normal),
            span(11, 14, "#0000ff", TokenStyle::Normal),
        ]
    );
}

#[test]
fn suffix_never_overlaps_prefix() {
    let tokens = vec![
        span(0, 3, "#ff0000", TokenStyle::Normal),
        span(4, 7, "#0000ff", TokenStyle::Normal),
    ];
    let r = remap(&tokens, "foo baz", "foo longer baz");
    assert_eq!(
        r,
        vec![span(0, 3, "#ff0000", TokenStyle::Normal), span(3, 14, "#d4d4d4", TokenStyle::Normal)]
    );
}

#[test]
fn remap_of_same_text_is_not_identity() {
    let tokens = vec![span(0, 2, "#ff0000", TokenStyle::Normal)];
    assert_eq!(remap(&tokens, "ab", "ab"), vec![span(0, 2, "#d4d4d4", TokenStyle::Normal)]);
}

#[test]
fn remap_empty_inputs() {
    let tokens = vec![span(0, 2, "#ff0000", TokenStyle::Normal)];
    assert!(remap(&tokens, "ab", "").is_empty());
    assert!(remap(&Vec::new(), "ab", "ab").is_empty());
}

#[test]
fn later_spans_win_and_equal_runs_merge() {
    let tokens = vec![
        span(0, 4, "#111111", TokenStyle::Normal),
        span(2, 3, "#222222", TokenStyle::Normal),
        span(4, 5, "#111111", TokenStyle::Normal),
    ];
    let r = remap(&tokens, "ab.d; x", "ab.d; xy");
    assert_eq!(
        r,
        vec![
            span(0, 2, "#111111", TokenStyle::Normal),
            span(2, 3, "#222222", TokenStyle::Normal),
            span(3, 5, "#111111", TokenStyle::Normal),
            span(5, 8, "#d4d4d4", TokenStyle::Normal),
        ]
    );
}

#[test]
fn extract_helpers() {
    let obj = r##"{"s":12,"e":40,"c":"#6a9955","st":"italic"}"##;
    assert_eq!(extract_json_int(obj, "\"s\":"), Some(12));
    assert_eq!(extract_json_int(obj, "\"e\":"), Some(40));
    assert_eq!(extract_json_int(obj, "\"x\":"), None);
    assert_eq!(extract_json_int(r#"{"s":-1}"#, "\"s\":"), None);
    assert_eq!(extract_json_int(r#"{"s":99999999999999999999999}"#, "\"s\":"), None);
    assert_eq!(extract_json_str(obj, "\"c\":\""), "#6a9955");
    assert_eq!(extract_json_str(obj, "\"st\":\""), "italic");
    assert_eq!(extract_json_str(obj, "\"q\":\""), "");
    assert_eq!(extract_json_str(r#"{"c":"open"#, "\"c\":\""), "");
}

#[test]
fn parse_skips_objects_without_bounds() {
    let json = r##"[{"s":0,"e":6,"c":"#c586c0","st":"normal"},{"e":3},{"s":1,"e":2},{"s":5,"e":9,"st":"bold"}]"##;
    let spans = parse_tokens_json(json);
    assert_eq!(
        spans,
        vec![
            span(0, 6, "#c586c0", TokenStyle::Normal),
            span(1, 2, "#d4d4d4", TokenStyle::Normal),
            span(5, 9, "#d4d4d4", TokenStyle::Bold),
        ]
    );
}

#[test]
fn spans_to_json_text() {
    let spans = vec![
        span(0, 3, "#ff0000", TokenStyle::Bold),
        span(3, 12, "#d4d4d4", TokenStyle::Italic),
    ];
    assert_eq!(
        tokens_to_json(&spans),
        r##"[{"s":0,"e":3,"c":"#ff0000","st":"bold"},{"s":3,"e":12,"c":"#d4d4d4","st":"italic"}]"##
    );
    assert_eq!(tokens_to_json(&Vec::new()), "[]");
}

#[test]
fn validate_json_round() {
    let json = r##"[{"s":0,"e":3,"c":"#ff0000","st":"bold"},{"s":4,"e":7,"c":"#0000ff","st":"normal"}]"##;
    assert_eq!(
        validate_tokens_json(json, "foo bar", "foo bar!"),
        r##"[{"s":0,"e":3,"c":"#ff0000","st":"bold"},{"s":3,"e":8,"c":"#d4d4d4","st":"normal"}]"##
    );
    assert_eq!(validate_tokens_json("[]", "foo", "foo!"), "[]");
    assert_eq!(validate_tokens_json(json, "foo bar", ""), "[]");
}
