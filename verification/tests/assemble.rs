use treasure_trove::assemble::{assemble, copy_items, copy_text, Item};
use treasure_trove::extract::ParsedItem;

fn parsed(name: &str, quantity: i32) -> ParsedItem {
    ParsedItem { name: name.to_string(), quantity }
}

#[test]
fn assemble_broadcasts_container_and_location() {
    let items = assemble(
        vec![parsed("nails", 3), parsed("hammer", 1)],
        Some(5),
        Some("Shelf A".to_string()),
    );
    assert_eq!(items.len(), 2);
    for item in items.iter() {
        assert_eq!(item.container_id, Some(5));
        assert_eq!(item.location, Some("Shelf A".to_string()));
    }
}

#[test]
fn assemble_keeps_names_quantities_and_order() {
    let items = assemble(vec![parsed("nails", 3), parsed("hammer", 1)], Some(5), None);
    assert_eq!(
        items,
        vec![
            Item { id: None, name: "nails".to_string(), quantity: 3, container_id: Some(5), location: None },
            Item { id: None, name: "hammer".to_string(), quantity: 1, container_id: Some(5), location: None },
        ]
    );
}

#[test]
fn assemble_loose_items() {
    let items = assemble(vec![parsed("saw", 2)], None, None);
    assert_eq!(items[0].container_id, None);
    assert_eq!(items[0].location, None);
    assert_eq!(items[0].id, None);
}

#[test]
fn assemble_nothing() {
    assert_eq!(assemble(vec![], Some(1), Some("x".to_string())), vec![]);
}

#[test]
fn assemble_many() {
    let source: Vec<ParsedItem> = (1..=100).map(|i| parsed(&format!("thing {}", i), i)).collect();
    let items = assemble(source.clone(), Some(-7), Some("attic".to_string()));
    assert_eq!(items.len(), 100);
    for (item, p) in items.iter().zip(source.iter()) {
        assert_eq!(item.name, p.name);
        assert_eq!(item.quantity, p.quantity);
        assert_eq!(item.container_id, Some(-7));
        assert_eq!(item.location.as_deref(), Some("attic"));
    }
}

#[test]
fn copies_are_equal() {
    let items = assemble(vec![parsed("nails", 3), parsed("hammer", 1)], Some(5), Some("A".to_string()));
    assert_eq!(copy_items(&items), items);
    assert_eq!(copy_items(&vec![]), vec![]);
    assert_eq!(copy_text(&Some("x".to_string())), Some("x".to_string()));
    assert_eq!(copy_text(&None), None);
}
