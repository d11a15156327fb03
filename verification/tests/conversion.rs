use md2html::emitter::markdown_to_html;

fn chars_of(s: &str) -> Vec<char> {
    s.chars().collect()
}

fn convert(input: &[&str]) -> Vec<String> {
    let lines: Vec<Vec<char>> = input.iter().map(|l| chars_of(l)).collect();
    markdown_to_html(&lines).into_iter().map(|v| v.into_iter().collect()).collect()
}

#[test]
fn heading_level_one() {
    assert_eq!(convert(&["# Hello"]), vec!["<h1>Hello</h1>"]);
}

#[test]
fn heading_level_three() {
    assert_eq!(convert(&["### Title"]), vec!["<h3>Title</h3>"]);
}

#[test]
fn bold_and_emphasis() {
    assert_eq!(
        convert(&["**bold** and *em*"]),
        vec!["<strong>bold</strong> and <em>em</em>"]
    );
}

#[test]
fn nested_unordered_lists() {
    assert_eq!(
        convert(&["- a", "    - b", ""]),
        vec!["<ul><li>a</li>", "<ul><li>b</li>", "</ul></ul><br>"]
    );
}

#[test]
fn ordered_list_run() {
    assert_eq!(
        convert(&["1. one", "2. two", ""]),
        vec!["<ol><li>one</li>", "<li>two</li>", "</ol><br>"]
    );
}

#[test]
fn table_pipeline() {
    assert_eq!(
        convert(&["| A | B |", "|---|---:|", "| 1 | 2 |", ""]),
        vec![
            "<table><thead><tr><th>A</th><th>B</th></tr></thead><tbody>",
            "",
            "<tr><td style=\"text-align: left\">1</td><td style=\"text-align: right\">2</td></tr>",
            "</tbody></table><br>",
        ]
    );
}

#[test]
fn table_row_past_stored_alignments() {
    assert_eq!(
        convert(&["| A | B |", "|---|---:|", "| 1 | 2 | 3 |"]),
        vec![
            "<table><thead><tr><th>A</th><th>B</th></tr></thead><tbody>",
            "",
            "<tr><td style=\"text-align: left\">1</td><td style=\"text-align: right\">2</td>\
             <td style=\"text-align: \">3</td></tr>",
        ]
    );
}

#[test]
fn reference_definition_and_link() {
    assert_eq!(
        convert(&["[g]: https://example.com", "see [here][g]"]),
        vec!["", "see <a href=\"https://example.com\">here</a>"]
    );
}

#[test]
fn later_reference_definition_overwrites() {
    assert_eq!(
        convert(&["[a]: u1", "[a]: u2", "x [l][a]"]),
        vec!["[a]: u1", "", "x <a href=\"u2\">l</a>"]
    );
}

#[test]
fn unknown_reference_label_is_kept() {
    assert_eq!(convert(&["see [here][nope]"]), vec!["see [here][nope]"]);
}

#[test]
fn checked_task_item() {
    assert_eq!(
        convert(&["- [x] done"]),
        vec!["<ul><li><input type=\"checkbox\" checked> done</li>"]
    );
}

#[test]
fn unchecked_task_item() {
    assert_eq!(
        convert(&["- [ ] todo"]),
        vec!["<ul><li><input type=\"checkbox\"> todo</li>"]
    );
}

#[test]
fn horizontal_rule_dashes() {
    assert_eq!(convert(&["---"]), vec!["<hr />"]);
}

#[test]
fn horizontal_rule_stars() {
    assert_eq!(convert(&["***"]), vec!["<hr />"]);
}

#[test]
fn horizontal_rule_underscores() {
    assert_eq!(convert(&["___"]), vec!["<hr />"]);
}

#[test]
fn indented_dashes_are_no_rule() {
    assert_eq!(convert(&["   ---"]), vec!["---"]);
}

#[test]
fn blank_line_becomes_break() {
    assert_eq!(convert(&[""]), vec!["<br>"]);
}

#[test]
fn escape_fast_path() {
    assert_eq!(convert(&["a \\*b\\*"]), vec!["a *b*"]);
}

#[test]
fn escape_supersedes_heading() {
    assert_eq!(convert(&["\\# x"]), vec!["# x"]);
}

#[test]
fn code_fence_toggle() {
    assert_eq!(convert(&["```", "x", "```"]), vec!["<pre>", "x", "</pre>"]);
}

#[test]
fn inline_code_pair() {
    assert_eq!(convert(&["`c`"]), vec!["<code>c</code>"]);
}

#[test]
fn strikethrough_pair() {
    assert_eq!(convert(&["~~x~~"]), vec!["<del>x</del>"]);
}

#[test]
fn underline_pair() {
    assert_eq!(convert(&["__u__"]), vec!["<ins>u</ins>"]);
}

#[test]
fn blockquote_line() {
    assert_eq!(convert(&["> quote"]), vec!["<blockquote>  quote</blockquote>"]);
}

#[test]
fn inline_image() {
    assert_eq!(convert(&["![alt](u)"]), vec!["<img alt=\"alt\" src=\"u\" />"]);
}

#[test]
fn inline_link() {
    assert_eq!(
        convert(&["go [there](u) now"]),
        vec!["go <a href=\"u\">there</a> now"]
    );
}

#[test]
fn plain_text_passes_through() {
    assert_eq!(convert(&["just words."]), vec!["just words."]);
}

#[test]
fn output_line_count_matches_input() {
    let input = ["# a", "", "- x", "text", "---", "| a |", ""];
    assert_eq!(convert(&input).len(), input.len());
}

#[test]
fn task_item_after_ordered_switches_list() {
    assert_eq!(
        convert(&["1. a", "- [x] b", ""]),
        vec![
            "<ol><li>a</li>",
            "</ol><ul><li><input type=\"checkbox\" checked> b</li>",
            "</ul><br>",
        ]
    );
}

#[test]
fn table_closure_prefixes_following_text() {
    assert_eq!(
        convert(&["| a |", "text"]),
        vec![
            "<table><thead><tr><th>a</th></tr></thead><tbody>",
            "</tbody></table>text",
        ]
    );
}

#[test]
fn heading_without_space() {
    assert_eq!(convert(&["##Hello"]), vec!["<h2>Hello</h2>"]);
}

#[test]
fn double_blockquote_padding() {
    assert_eq!(
        convert(&[">>x"]),
        vec!["<blockquote> &emsp;x</blockquote>"]
    );
}

#[test]
fn list_depth_drop_by_two_levels() {
    assert_eq!(
        convert(&["- a", "    - b", "        - c", "- d", ""]),
        vec![
            "<ul><li>a</li>",
            "<ul><li>b</li>",
            "<ul><li>c</li>",
            "</ul></ul><li>d</li>",
            "</ul><br>",
        ]
    );
}

#[test]
fn depth_jump_beyond_stack_is_capped_on_return() {
    assert_eq!(
        convert(&["        - a", "- b", ""]),
        vec!["<ul><li>a</li>", "</ul><ul><li>b</li>", "</ul><br>"]
    );
}

#[test]
fn alignments_reset_when_table_ends() {
    assert_eq!(
        convert(&["| A |", "|---:|", "| 1 |", "", "| B |", "| 2 |"]),
        vec![
            "<table><thead><tr><th>A</th></tr></thead><tbody>",
            "",
            "<tr><td style=\"text-align: right\">1</td></tr>",
            "</tbody></table><br>",
            "<table><thead><tr><th>B</th></tr></thead><tbody>",
            "<tr><td style=\"text-align: \">2</td></tr>",
        ]
    );
}

#[test]
fn whitespace_url_definition_is_stripped() {
    assert_eq!(convert(&["x [a]:  y", "[a]:   "]), vec!["x y", "[a]:"]);
}

#[test]
fn ordered_marker_with_non_ascii_digits() {
    assert_eq!(convert(&["\u{0661}. item"]), vec!["<ol><li>item</li>"]);
}

#[test]
fn already_html_heading_is_a_fixed_point() {
    assert_eq!(convert(&["<h1>Hello</h1>"]), vec!["<h1>Hello</h1>"]);
}

#[test]
fn already_html_inline_tags_are_a_fixed_point() {
    assert_eq!(
        convert(&["<strong>bold</strong> and <em>em</em>"]),
        vec!["<strong>bold</strong> and <em>em</em>"]
    );
}
