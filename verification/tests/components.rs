use md2html::lists::{close_open_lists, ListKind};
use md2html::refs::{collect_references, RefMap};
use md2html::tags::create_markdown_map;

fn chars_of(s: &str) -> Vec<char> {
    s.chars().collect()
}

fn string_of(v: &[char]) -> String {
    v.iter().collect()
}

#[test]
fn markdown_map_holds_the_eight_sigils() {
    let map = create_markdown_map();
    let cases = [
        ("#", "h"),
        ("**", "strong"),
        ("*", "em"),
        (">", "blockquote"),
        ("__", "ins"),
        ("~~", "del"),
        ("`", "code"),
        ("```", "pre"),
    ];
    for (sigil, tag) in cases {
        let got = map.get(&chars_of(sigil)).expect("sigil must be mapped");
        assert_eq!(string_of(&got), tag);
    }
    assert!(map.get(&chars_of("``")).is_none());
}

#[test]
fn close_open_lists_empties_the_stack() {
    let mut stack = vec![ListKind::Ordered, ListKind::Unordered];
    let mut html: Vec<char> = Vec::new();
    close_open_lists(&mut stack, &mut html);
    assert!(stack.is_empty());
    assert_eq!(string_of(&html), "</ul></ol>");
}

#[test]
fn collect_references_reads_label_and_url() {
    let lines = vec![chars_of("intro"), chars_of("[g]: https://example.com")];
    let refs = collect_references(&lines);
    let url = refs.get(&chars_of("g")).expect("label must be found");
    assert_eq!(string_of(&url), "https://example.com");
    assert!(refs.get(&chars_of("h")).is_none());
}

#[test]
fn reference_map_insert_overwrites() {
    let mut refs = RefMap::new();
    refs.insert(chars_of("a"), chars_of("u1"));
    refs.insert(chars_of("a"), chars_of("u2"));
    refs.insert(chars_of("b"), chars_of("u3"));
    assert_eq!(string_of(&refs.get(&chars_of("a")).unwrap()), "u2");
    assert_eq!(string_of(&refs.get(&chars_of("b")).unwrap()), "u3");
}
