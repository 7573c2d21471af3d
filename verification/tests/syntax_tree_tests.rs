//! Tests of finding a task's list item through the syntax tree.

use mindtape::write::{
    add_task_tag, find_item_with_id, find_task_node, list_item_spans, preorder_nodes,
    remove_task_tag, Source, SyntaxTree,
};

fn node(kind: &str, len: usize, children: Vec<SyntaxTree>) -> SyntaxTree {
    SyntaxTree { kind: kind.to_string(), len, children }
}

fn chars(s: &str) -> Vec<char> {
    s.chars().collect()
}

#[test]
fn preorder_gives_byte_ranges_in_tree_order() {
    let tree = node(
        "markup",
        10,
        vec![node("list item", 6, vec![node("text", 2, vec![]), node("space", 1, vec![])]), node("text", 4, vec![])],
    );
    let nodes = preorder_nodes(&tree);
    let got: Vec<(&str, usize, usize)> = nodes.iter().map(|(k, s, e)| (k.as_str(), *s, *e)).collect();
    assert_eq!(
        got,
        vec![
            ("markup", 0, 10),
            ("list item", 0, 6),
            ("text", 0, 2),
            ("space", 2, 3),
            ("text", 6, 10),
        ]
    );
}

#[test]
fn item_spans_are_in_characters() {
    // "é" takes two bytes: the item's bytes 2..7 are characters 1..6.
    let text = chars("é- [ ] a");
    let nodes = vec![
        ("markup".to_string(), 0, 9),
        ("list item".to_string(), 2, 7),
        ("list item".to_string(), 1, 7), // inside 'é': left out
    ];
    assert_eq!(list_item_spans(&text, &nodes), vec![(1, 6)]);
}

#[test]
fn first_item_naming_the_id_is_found() {
    let text = chars("- [ ] A #id(\"x\")\n- [ ] B #id(\"y\")");
    let spans = vec![(0, 16), (17, 33)];
    assert_eq!(find_item_with_id(&text, &spans, "y"), Some((17, 33)));
    assert_eq!(find_item_with_id(&text, &spans, "z"), None);
}

#[test]
fn task_node_found_in_parsed_file() {
    let src = "= Title\n\n- [ ] A #id(\"x\")\n- [x] B #id(\"y\")\n";
    let text = chars(src);
    let (s, e) = find_task_node(&text, "y").unwrap();
    let item: String = text[s..e].iter().collect();
    assert!(item.starts_with("- [x] B"), "{item}");
    assert_eq!(find_task_node(&text, "nope"), None);
}

#[test]
fn task_node_found_after_non_ascii_text() {
    let src = "Überblick\n\n- [ ] Café #id(\"c\")\n";
    let text = chars(src);
    let (s, e) = find_task_node(&text, "c").unwrap();
    let item: String = text[s..e].iter().collect();
    assert!(item.starts_with("- [ ] Café"), "{item}");
}

#[test]
fn add_then_remove_tag_with_hash_restores_text() {
    let text = "- [ ] Task #id(\"a\")";
    let once = add_task_tag(&Source::detached(text), "a", "c#").unwrap();
    assert_eq!(once, "- [ ] Task #tag(\"c#\") #id(\"a\")");
    let back = remove_task_tag(&Source::detached(&once), "a", "c#").unwrap();
    assert_eq!(back, text);
}
