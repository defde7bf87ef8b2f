//! The assembler: extracted items become item records that all carry the
//! container and the location of their submission.

use crate::extract::{item_ok, parsed_view, ParsedItem, ParsedItemView};
use crate::text::text_view;
use vstd::prelude::*;

verus! {

/// One item record. `id` is absent until storage has assigned one.
#[derive(Debug, Clone, PartialEq, Eq)]
pub struct Item {
    pub id: Option<i64>,
    pub name: String,
    pub quantity: i32,
    pub container_id: Option<i64>,
    pub location: Option<String>,
}

/// An `Item` as plain values.
pub struct ItemView {
    pub id: Option<i64>,
    pub name: Seq<char>,
    pub quantity: int,
    pub container_id: Option<i64>,
    pub location: Option<Seq<char>>,
}

impl View for Item {
    type V = ItemView;

    open spec fn view(&self) -> ItemView {
        ItemView {
            id: self.id,
            name: self.name@,
            quantity: self.quantity as int,
            container_id: self.container_id,
            location: text_view(self.location),
        }
    }
}

impl Item {
    /// A record that may be stored has a name and stands for at least one
    /// thing.
    pub open spec fn wf(&self) -> bool {
        self.name@.len() > 0 && self.quantity >= 1
    }
}

/// The records of a list as plain values, in the same order.
pub open spec fn items_view(items: Seq<Item>) -> Seq<ItemView> {
    items.map_values(|item: Item| item@)
}

/// The record of one extracted item in a submission.
pub open spec fn record_of(
    parsed: ParsedItemView,
    container_id: Option<i64>,
    location: Option<Seq<char>>,
) -> ItemView {
    ItemView { id: None, name: parsed.name, quantity: parsed.quantity, container_id, location }
}

/// The records of a submission: one for each extracted item, in the same
/// order, every one with the submission's container and location.
pub open spec fn assembled(
    parsed: Seq<ParsedItemView>,
    container_id: Option<i64>,
    location: Option<Seq<char>>,
) -> Seq<ItemView> {
    Seq::new(parsed.len(), |i: int| record_of(parsed[i], container_id, location))
}

/// All records of one submission share its container and its location, there
/// is one for each extracted item, and each keeps its item's name and
/// quantity and has no id yet.
pub proof fn lemma_assembled_broadcast(
    parsed: Seq<ParsedItemView>,
    container_id: Option<i64>,
    location: Option<Seq<char>>,
)
    ensures
        assembled(parsed, container_id, location).len() == parsed.len(),
        forall|i: int|
            #![trigger assembled(parsed, container_id, location)[i]]
            0 <= i < parsed.len() ==> {
                let record = assembled(parsed, container_id, location)[i];
                &&& record.container_id == container_id
                &&& record.location == location
                &&& record.name == parsed[i].name
                &&& record.quantity == parsed[i].quantity
                &&& record.id is None
            },
        forall|i: int, j: int|
            #![trigger assembled(parsed, container_id, location)[i], assembled(parsed, container_id, location)[j]]
            0 <= i < parsed.len() && 0 <= j < parsed.len() ==> {
                &&& assembled(parsed, container_id, location)[i].container_id == assembled(
                    parsed,
                    container_id,
                    location,
                )[j].container_id
                &&& assembled(parsed, container_id, location)[i].location == assembled(
                    parsed,
                    container_id,
                    location,
                )[j].location
            },
{
}

/// Records made of usable items may be stored.
pub proof fn lemma_assembled_usable(
    parsed: Seq<ParsedItemView>,
    container_id: Option<i64>,
    location: Option<Seq<char>>,
)
    requires
        forall|i: int| 0 <= i < parsed.len() ==> item_ok(#[trigger] parsed[i]),
    ensures
        forall|i: int|
            #![trigger assembled(parsed, container_id, location)[i]]
            0 <= i < parsed.len() ==> {
                &&& assembled(parsed, container_id, location)[i].name.len() > 0
                &&& assembled(parsed, container_id, location)[i].quantity >= 1
            },
{
}

/// A copy of an optional text.
pub fn copy_text(field: &Option<String>) -> (out: Option<String>)
    ensures
        out == *field,
{
    match field {
        Some(s) => Some(s.clone()),
        None => None,
    }
}

/// A copy of a list of records.
pub fn copy_items(items: &Vec<Item>) -> (out: Vec<Item>)
    ensures
        out@ == items@,
{
    let mut out: Vec<Item> = Vec::new();
    let mut i: usize = 0;
    while i < items.len()
        invariant
            i <= items.len(),
            out@ == items@.take(i as int),
        decreases items.len() - i,
    {
        let item = &items[i];
        out.push(
            Item {
                id: item.id,
                name: item.name.clone(),
                quantity: item.quantity,
                container_id: item.container_id,
                location: copy_text(&item.location),
            },
        );
        assert(out@ =~= items@.take(i + 1));
        i += 1;
    }
    assert(items@.take(items.len() as int) =~= items@);
    out
}

/// Makes the records of one submission out of its extracted items.
pub fn assemble(parsed: Vec<ParsedItem>, container_id: Option<i64>, location: Option<String>) -> (out:
    Vec<Item>)
    ensures
        items_view(out@) == assembled(
            parsed_view(parsed@),
            container_id,
            text_view(location),
        ),
        out.len() == parsed.len(),
        forall|i: int|
            0 <= i < out.len() ==> (#[trigger] out[i])@ == record_of(
                parsed[i]@,
                container_id,
                text_view(location),
            ),
        forall|i: int|
            0 <= i < out.len() ==> (#[trigger] out[i]).container_id == container_id && out[i].location
                == location,
        forall|i: int| 0 <= i < out.len() && parsed[i].wf() ==> (#[trigger] out[i]).wf(),
{
    let ghost source = parsed@;
    let ghost target = assembled(
        parsed_view(source),
        container_id,
        text_view(location),
    );
    let mut out: Vec<Item> = Vec::new();
    for p in it: parsed.into_iter()
        invariant
            it.seq() == source,
            out.len() == it.index(),
            target == assembled(
                parsed_view(source),
                container_id,
                text_view(location),
            ),
            forall|k: int|
                0 <= k < out.len() ==> (#[trigger] out[k])@ == target[k] && out[k].location
                    == location && out[k].container_id == container_id && (source[k].wf()
                    ==> out[k].wf()),
    {
        out.push(
            Item {
                id: None,
                name: p.name,
                quantity: p.quantity,
                container_id,
                location: copy_text(&location),
            },
        );
    }
    assert(items_view(out@) =~= target);
    assert forall|i: int| 0 <= i < out.len() implies (#[trigger] out[i])@ == record_of(
        source[i]@,
        container_id,
        text_view(location),
    ) by {
        assert(parsed_view(source)[i] == source[i]@);
    }
    out
}

} // verus!
