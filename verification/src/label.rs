//! The label formatter: item records become the lines of a label, each at
//! its own height, under an optional header.
//!
//! A label is data only. Turning it into a printer's commands and sending it
//! is left to the caller.

use crate::assemble::{items_view, Item, ItemView};
use crate::number::{decimal_text, push_decimal};
use crate::text::text_view;
use vstd::prelude::*;
use vstd::string::StringExecFns;

verus! {

/// The height of the header line.
pub const HEADER_TOP: u128 = 40;

/// The height of the first item line.
pub const LINES_TOP: u128 = 80;

/// The distance from one item line to the next.
pub const LINE_STEP: u128 = 22;

/// One line of a label: where it stands and what it says.
#[derive(Debug, Clone, PartialEq, Eq)]
pub struct LabelLine {
    pub y_offset: u128,
    pub text: String,
}

/// A `LabelLine` as plain values.
pub struct LabelLineView {
    pub y_offset: int,
    pub text: Seq<char>,
}

impl View for LabelLine {
    type V = LabelLineView;

    open spec fn view(&self) -> LabelLineView {
        LabelLineView { y_offset: self.y_offset as int, text: self.text@ }
    }
}

/// A label: an optional header line and one line for each item.
#[derive(Debug, Clone, PartialEq, Eq)]
pub struct Label {
    pub header: Option<LabelLine>,
    pub lines: Vec<LabelLine>,
}

/// A `Label` as plain values.
pub struct LabelView {
    pub header: Option<LabelLineView>,
    pub lines: Seq<LabelLineView>,
}

impl View for Label {
    type V = LabelView;

    open spec fn view(&self) -> LabelView {
        LabelView {
            header: match self.header {
                Some(line) => Some(line@),
                None => None,
            },
            lines: self.lines@.map_values(|line: LabelLine| line@),
        }
    }
}

/// What the line of an item says: its quantity, an `x` between two blanks,
/// and its name.
pub open spec fn line_text(item: ItemView) -> Seq<char> {
    decimal_text(item.quantity) + seq![' ', 'x', ' '] + item.name
}

/// The height of the item line at position `index`.
pub open spec fn line_offset(index: int) -> int {
    LINES_TOP + LINE_STEP * index
}

/// The label of a list of items: the header, where one is given, and one line
/// for each item in the order of the items, the lines a fixed step apart.
pub open spec fn label_of(items: Seq<ItemView>, header: Option<Seq<char>>) -> LabelView {
    LabelView {
        header: match header {
            Some(text) => Some(LabelLineView { y_offset: HEADER_TOP as int, text }),
            None => None,
        },
        lines: Seq::new(
            items.len(),
            |i: int| LabelLineView { y_offset: line_offset(i), text: line_text(items[i]) },
        ),
    }
}

/// A label has one line for each item, in the order of the items. The lines
/// stand at strictly increasing heights, each a fixed step below the one
/// before, and all of them below the header.
pub proof fn lemma_label_lines(items: Seq<ItemView>, header: Option<Seq<char>>)
    ensures
        label_of(items, header).lines.len() == items.len(),
        forall|i: int|
            #![trigger label_of(items, header).lines[i]]
            0 <= i < items.len() ==> {
                &&& label_of(items, header).lines[i].text == line_text(items[i])
                &&& label_of(items, header).lines[i].y_offset == LINES_TOP + LINE_STEP * i
                &&& label_of(items, header).lines[i].y_offset > HEADER_TOP
            },
        forall|i: int|
            #![trigger label_of(items, header).lines[i]]
            0 < i < items.len() ==> label_of(items, header).lines[i].y_offset == label_of(
                items,
                header,
            ).lines[i - 1].y_offset + LINE_STEP,
        forall|i: int, j: int|
            #![trigger label_of(items, header).lines[i], label_of(items, header).lines[j]]
            0 <= i < j < items.len() ==> label_of(items, header).lines[i].y_offset < label_of(
                items,
                header,
            ).lines[j].y_offset,
        label_of(items, header).header is Some <==> header is Some,
{
    assert forall|i: int|
        #![trigger label_of(items, header).lines[i]]
        0 < i < items.len() implies label_of(items, header).lines[i].y_offset == label_of(
        items,
        header,
    ).lines[i - 1].y_offset + LINE_STEP by {
        assert(LINE_STEP * i == LINE_STEP * (i - 1) + LINE_STEP) by (nonlinear_arith);
    }
    assert forall|i: int, j: int|
        #![trigger label_of(items, header).lines[i], label_of(items, header).lines[j]]
        0 <= i < j < items.len() implies label_of(items, header).lines[i].y_offset < label_of(
        items,
        header,
    ).lines[j].y_offset by {
        assert(LINE_STEP * i < LINE_STEP * j) by (nonlinear_arith)
            requires
                i < j,
        ;
    }
}

/// Writes the line of one item.
pub fn format_line(item: &Item) -> (text: String)
    ensures
        text@ == line_text(item@),
{
    let mut text = String::new();
    push_decimal(&mut text, item.quantity as i64);
    text.push(' ');
    text.push('x');
    text.push(' ');
    text.append(item.name.as_str());
    assert(text@ =~= line_text(item@));
    text
}

/// Lays the items out as a label, under `header` where one is given.
pub fn format_label(items: &Vec<Item>, header: Option<&str>) -> (label: Label)
    ensures
        label@ == label_of(
            items_view(items@),
            match header {
                Some(text) => Some(text@),
                None => None,
            },
        ),
{
    let ghost target = label_of(
        items_view(items@),
        match header {
            Some(text) => Some(text@),
            None => None,
        },
    );
    let head = match header {
        Some(text) => Some(LabelLine { y_offset: HEADER_TOP, text: text.to_owned() }),
        None => None,
    };
    let mut lines: Vec<LabelLine> = Vec::new();
    let mut y: u128 = LINES_TOP;
    let mut i: usize = 0;
    while i < items.len()
        invariant
            i <= items.len(),
            lines.len() == i,
            y == LINES_TOP + LINE_STEP * i,
            target.lines.len() == items.len(),
            forall|k: int| 0 <= k < i ==> (#[trigger] lines[k])@ == target.lines[k],
            forall|k: int|
                0 <= k < items.len() ==> #[trigger] target.lines[k] == (LabelLineView {
                    y_offset: line_offset(k),
                    text: line_text(items[k]@),
                }),
        decreases items.len() - i,
    {
        lines.push(LabelLine { y_offset: y, text: format_line(&items[i]) });
        y = y + LINE_STEP;
        i += 1;
    }
    let label = Label { header: head, lines };
    assert(label@.lines =~= target.lines);
    label
}

} // verus!
