use treasure_trove::assemble::Item;
use treasure_trove::listing::{group_rows, same_text, ItemWithContainer, Section};

fn item(id: i64, name: &str) -> Item {
    Item { id: Some(id), name: name.to_string(), quantity: 1, container_id: None, location: None }
}

fn row(id: i64, name: &str, container: Option<&str>) -> ItemWithContainer {
    ItemWithContainer { item: item(id, name), container_name: container.map(|c| c.to_string()) }
}

fn section(container: Option<&str>, items: Vec<Item>) -> Section {
    Section { container_name: container.map(|c| c.to_string()), items }
}

#[test]
fn group_nothing() {
    assert_eq!(group_rows(vec![]), vec![]);
}

#[test]
fn group_one_row() {
    assert_eq!(
        group_rows(vec![row(1, "saw", Some("Bin"))]),
        vec![section(Some("Bin"), vec![item(1, "saw")])]
    );
}

#[test]
fn group_runs_of_the_same_container() {
    let rows = vec![
        row(1, "nails", Some("A")),
        row(2, "hammer", Some("A")),
        row(3, "saw", Some("B")),
        row(4, "rope", None),
        row(5, "tape", None),
    ];
    assert_eq!(
        group_rows(rows),
        vec![
            section(Some("A"), vec![item(1, "nails"), item(2, "hammer")]),
            section(Some("B"), vec![item(3, "saw")]),
            section(None, vec![item(4, "rope"), item(5, "tape")]),
        ]
    );
}

#[test]
fn group_does_not_reorder() {
    let rows = vec![
        row(1, "a", Some("A")),
        row(2, "b", Some("B")),
        row(3, "c", Some("A")),
    ];
    assert_eq!(
        group_rows(rows),
        vec![
            section(Some("A"), vec![item(1, "a")]),
            section(Some("B"), vec![item(2, "b")]),
            section(Some("A"), vec![item(3, "c")]),
        ]
    );
}

#[test]
fn group_loses_nothing() {
    let rows: Vec<ItemWithContainer> = (0..50)
        .map(|i| row(i, "thing", if i % 7 < 3 { Some("X") } else if i % 7 < 5 { None } else { Some("Y") }))
        .collect();
    let sections = group_rows(rows.clone());
    let flat: Vec<Item> = sections.iter().flat_map(|s| s.items.clone()).collect();
    let all: Vec<Item> = rows.iter().map(|r| r.item.clone()).collect();
    assert_eq!(flat, all);
    for s in sections.iter() {
        assert!(!s.items.is_empty());
    }
    for pair in sections.windows(2) {
        assert_ne!(pair[0].container_name, pair[1].container_name);
    }
}

#[test]
fn loose_and_empty_name_differ() {
    let rows = vec![row(1, "a", Some("")), row(2, "b", None)];
    assert_eq!(group_rows(rows).len(), 2);
}

#[test]
fn same_text_compares_optional_texts() {
    let a = Some("A".to_string());
    let b = Some("B".to_string());
    assert!(same_text(&a, &a.clone()));
    assert!(!same_text(&a, &b));
    assert!(!same_text(&a, &None));
    assert!(!same_text(&None, &b));
    assert!(same_text(&None, &None));
}

#[test]
fn listing_in_display_order_has_one_section_for_each_container() {
    let rows = vec![
        row(1, "a", Some("A")),
        row(2, "b", Some("A")),
        row(3, "c", Some("B")),
        row(4, "d", Some("C")),
        row(5, "e", Some("C")),
        row(6, "f", None),
    ];
    let sections = group_rows(rows);
    let names: Vec<Option<String>> = sections.iter().map(|s| s.container_name.clone()).collect();
    assert_eq!(
        names,
        vec![Some("A".to_string()), Some("B".to_string()), Some("C".to_string()), None]
    );
    for (i, a) in names.iter().enumerate() {
        for b in names.iter().skip(i + 1) {
            assert_ne!(a, b);
        }
    }
}
