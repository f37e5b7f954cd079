use fs_query::ast::outline::{can_be_listing, NodeRecord};
use fs_query::ast::syntax::SyntaxNode;

fn record(depth: usize, kind: &str, field: Option<&str>, at: usize) -> NodeRecord {
    NodeRecord {
        depth,
        kind: kind.to_string(),
        field: field.map(|f| f.to_string()),
        start_row: at,
        end_row: at + 1,
        start_byte: 10 * at,
        end_byte: 10 * at + 5,
    }
}

fn shape(node: &SyntaxNode) -> String {
    let below: Vec<String> = node.children.iter().map(shape).collect();
    if below.is_empty() {
        node.kind.clone()
    } else {
        format!("{}({})", node.kind, below.join(","))
    }
}

#[test]
fn listing_of_one_record_is_a_leaf() {
    let records = vec![record(0, "root", None, 3)];
    assert!(can_be_listing(&records));
    let tree = SyntaxNode::from_listing(&records).unwrap();
    assert_eq!(tree.kind, "root");
    assert_eq!(tree.field, None);
    assert_eq!(tree.start_row, 3);
    assert_eq!(tree.end_row, 4);
    assert_eq!(tree.start_byte, 30);
    assert_eq!(tree.end_byte, 35);
    assert!(tree.children.is_empty());
}

#[test]
fn listing_is_built_into_its_tree() {
    let records = vec![
        record(0, "a", None, 0),
        record(1, "b", Some("left"), 1),
        record(2, "c", None, 2),
        record(3, "d", None, 3),
        record(2, "e", Some("name"), 4),
        record(1, "f", None, 5),
        record(1, "g", Some("right"), 6),
        record(2, "h", None, 7),
    ];
    let tree = SyntaxNode::from_listing(&records).unwrap();
    assert_eq!(shape(&tree), "a(b(c(d),e),f,g(h))");
    assert_eq!(tree.children[0].field, Some("left".to_string()));
    assert_eq!(tree.children[0].children[1].field, Some("name".to_string()));
    assert_eq!(tree.children[0].children[1].start_byte, 40);
    assert_eq!(tree.children[2].children[0].start_row, 7);
}

#[test]
fn empty_listing_has_no_tree() {
    let records: Vec<NodeRecord> = vec![];
    assert!(!can_be_listing(&records));
    assert!(SyntaxNode::from_listing(&records).is_none());
}

#[test]
fn listing_must_start_at_level_zero() {
    let records = vec![record(1, "a", None, 0), record(2, "b", None, 1)];
    assert!(!can_be_listing(&records));
    assert!(SyntaxNode::from_listing(&records).is_none());
}

#[test]
fn listing_with_a_second_root_has_no_tree() {
    let records = vec![record(0, "a", None, 0), record(1, "b", None, 1), record(0, "c", None, 2)];
    assert!(!can_be_listing(&records));
    assert!(SyntaxNode::from_listing(&records).is_none());
}

#[test]
fn listing_that_skips_a_level_has_no_tree() {
    let records = vec![record(0, "a", None, 0), record(2, "b", None, 1)];
    assert!(!can_be_listing(&records));
    assert!(SyntaxNode::from_listing(&records).is_none());
}

#[test]
fn listing_with_a_row_at_the_limit_has_no_tree() {
    let mut late = record(1, "b", None, 1);
    late.end_row = usize::MAX;
    let records = vec![record(0, "a", None, 0), late];
    assert!(!can_be_listing(&records));
    assert!(SyntaxNode::from_listing(&records).is_none());
    let mut first = record(0, "a", None, 0);
    first.start_row = usize::MAX;
    assert!(SyntaxNode::from_listing(&vec![first]).is_none());
}

#[test]
fn listing_with_rows_just_below_the_limit_has_a_tree() {
    let mut first = record(0, "a", None, 0);
    first.start_row = usize::MAX - 1;
    first.end_row = usize::MAX - 1;
    let tree = SyntaxNode::from_listing(&vec![first]).unwrap();
    assert_eq!(tree.start_row, usize::MAX - 1);
}
