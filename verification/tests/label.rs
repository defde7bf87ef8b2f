use treasure_trove::assemble::Item;
use treasure_trove::label::{format_label, format_line, LabelLine, HEADER_TOP, LINES_TOP, LINE_STEP};

fn item(name: &str, quantity: i32) -> Item {
    Item { id: None, name: name.to_string(), quantity, container_id: None, location: None }
}

#[test]
fn label_of_three_items() {
    let items = vec![item("nails", 3), item("hammer", 1), item("screws", 10)];
    let label = format_label(&items, None);
    assert_eq!(
        label.lines,
        vec![
            LabelLine { y_offset: 80, text: "3 x nails".to_string() },
            LabelLine { y_offset: 102, text: "1 x hammer".to_string() },
            LabelLine { y_offset: 124, text: "10 x screws".to_string() },
        ]
    );
    assert_eq!(label.header, None);
}

#[test]
fn label_lines_rise_by_a_constant_step() {
    let items = vec![item("a", 1), item("b", 2), item("c", 3)];
    let label = format_label(&items, Some("Bin"));
    assert_eq!(label.lines.len(), 3);
    assert!(label.lines[0].y_offset < label.lines[1].y_offset);
    assert!(label.lines[1].y_offset < label.lines[2].y_offset);
    assert_eq!(
        label.lines[1].y_offset - label.lines[0].y_offset,
        label.lines[2].y_offset - label.lines[1].y_offset
    );
    assert_eq!(label.lines[1].y_offset - label.lines[0].y_offset, LINE_STEP);
    assert_eq!(label.lines[0].y_offset, LINES_TOP);
}

#[test]
fn label_keeps_item_order() {
    let items = vec![item("c", 1), item("a", 2), item("b", 3)];
    let label = format_label(&items, None);
    let texts: Vec<&str> = label.lines.iter().map(|l| l.text.as_str()).collect();
    assert_eq!(texts, vec!["1 x c", "2 x a", "3 x b"]);
}

#[test]
fn label_header() {
    let label = format_label(&vec![item("a", 1)], Some("Spring 1"));
    assert_eq!(label.header, Some(LabelLine { y_offset: 40, text: "Spring 1".to_string() }));
    assert_eq!(HEADER_TOP, 40);
    assert!(label.lines[0].y_offset > HEADER_TOP);
}

#[test]
fn label_of_nothing() {
    let label = format_label(&vec![], Some("Empty"));
    assert_eq!(label.lines, vec![]);
    assert_eq!(label.header.map(|h| h.text), Some("Empty".to_string()));
}

#[test]
fn label_of_many_items() {
    let items: Vec<Item> = (0..500).map(|i| item("thing", i + 1)).collect();
    let label = format_label(&items, None);
    for (i, line) in label.lines.iter().enumerate() {
        assert_eq!(line.y_offset, 80 + 22 * i as u128);
        assert_eq!(line.text, format!("{} x thing", i + 1));
    }
}

#[test]
fn line_text_of_odd_quantities() {
    assert_eq!(format_line(&item("bolts", 2147483647)), "2147483647 x bolts");
    assert_eq!(format_line(&item("debts", -2147483648)), "-2147483648 x debts");
    assert_eq!(format_line(&item("nothing", 0)), "0 x nothing");
    assert_eq!(format_line(&item("", 7)), "7 x ");
}

#[test]
fn line_text_keeps_the_name_as_it_is() {
    assert_eq!(format_line(&item("3 x nails", 2)), "2 x 3 x nails");
    assert_eq!(format_line(&item("caf\u{e9} <cups>", 4)), "4 x caf\u{e9} <cups>");
}
