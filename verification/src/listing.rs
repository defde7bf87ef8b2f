//! The listing: stored records, read in display order, fall into sections,
//! one for each run of records of the same container.
//!
//! Storage hands the records over already ordered: those in a container
//! before loose ones, by container name, the newest first within a
//! container. Here the runs are cut; nothing is reordered.

use crate::assemble::{Item, ItemView};
use crate::text::text_view;
use vstd::prelude::*;

verus! {

/// A stored record together with the name of its container, if it has one.
#[derive(Debug, Clone, PartialEq, Eq)]
pub struct ItemWithContainer {
    pub item: Item,
    pub container_name: Option<String>,
}

/// An `ItemWithContainer` as plain values.
pub struct ItemWithContainerView {
    pub item: ItemView,
    pub container_name: Option<Seq<char>>,
}

impl View for ItemWithContainer {
    type V = ItemWithContainerView;

    open spec fn view(&self) -> ItemWithContainerView {
        ItemWithContainerView { item: self.item@, container_name: text_view(self.container_name) }
    }
}

/// The records of one container, or the loose ones, as they follow each other
/// in the listing.
#[derive(Debug, Clone, PartialEq, Eq)]
pub struct Section {
    pub container_name: Option<String>,
    pub items: Vec<Item>,
}

/// A `Section` as plain values.
pub struct SectionView {
    pub container_name: Option<Seq<char>>,
    pub items: Seq<ItemView>,
}

impl View for Section {
    type V = SectionView;

    open spec fn view(&self) -> SectionView {
        SectionView {
            container_name: text_view(self.container_name),
            items: self.items@.map_values(|item: Item| item@),
        }
    }
}

/// The rows of a listing as plain values, in the same order.
pub open spec fn rows_view(rows: Seq<ItemWithContainer>) -> Seq<ItemWithContainerView> {
    rows.map_values(|row: ItemWithContainer| row@)
}

/// The sections of a listing as plain values, in the same order.
pub open spec fn sections_view(sections: Seq<Section>) -> Seq<SectionView> {
    sections.map_values(|section: Section| section@)
}

/// The sections of a listing: a row goes into the section of the row before
/// it where both belong to the same container, and begins a new section
/// where they do not.
pub open spec fn sections_of(rows: Seq<ItemWithContainerView>) -> Seq<SectionView>
    decreases rows.len(),
{
    if rows.len() == 0 {
        Seq::empty()
    } else {
        let before = sections_of(rows.drop_last());
        let row = rows.last();
        if before.len() > 0 && before.last().container_name == row.container_name {
            before.drop_last().push(
                SectionView {
                    container_name: row.container_name,
                    items: before.last().items.push(row.item),
                },
            )
        } else {
            before.push(SectionView { container_name: row.container_name, items: seq![row.item] })
        }
    }
}

/// The records of all sections, one section after the other.
pub open spec fn flattened(sections: Seq<SectionView>) -> Seq<ItemView>
    decreases sections.len(),
{
    if sections.len() == 0 {
        Seq::empty()
    } else {
        flattened(sections.drop_last()) + sections.last().items
    }
}

/// Cutting a listing into sections loses and reorders nothing: the sections,
/// read one after the other, are the records of the listing. No section is
/// empty, the last section is that of the last row, and two sections that
/// follow each other belong to different containers.
pub proof fn lemma_sections_of(rows: Seq<ItemWithContainerView>)
    ensures
        flattened(sections_of(rows)) == rows.map_values(|row: ItemWithContainerView| row.item),
        forall|i: int|
            0 <= i < sections_of(rows).len() ==> (#[trigger] sections_of(rows)[i]).items.len() > 0,
        forall|i: int|
            0 < i < sections_of(rows).len() ==> (#[trigger] sections_of(rows)[i]).container_name
                != sections_of(rows)[i - 1].container_name,
        rows.len() > 0 ==> sections_of(rows).len() > 0 && sections_of(rows).last().container_name
            == rows.last().container_name,
        rows.len() == 0 ==> sections_of(rows).len() == 0,
    decreases rows.len(),
{
    let items = rows.map_values(|row: ItemWithContainerView| row.item);
    if rows.len() == 0 {
        assert(flattened(sections_of(rows)) =~= items);
    } else {
        let rest = rows.drop_last();
        lemma_sections_of(rest);
        let before = sections_of(rest);
        let row = rows.last();
        let now = sections_of(rows);
        let rest_items = rest.map_values(|row: ItemWithContainerView| row.item);
        assert(items =~= rest_items.push(row.item));
        if before.len() > 0 && before.last().container_name == row.container_name {
            assert(now.drop_last() =~= before.drop_last());
            assert(flattened(before) == flattened(before.drop_last()) + before.last().items);
            assert(flattened(now) =~= items);
            assert forall|i: int| 0 < i < now.len() implies (#[trigger] now[i]).container_name
                != now[i - 1].container_name by {
                assert(now[i].container_name == before[i].container_name);
                assert(now[i - 1] == before[i - 1]);
            }
        } else {
            assert(now.drop_last() =~= before);
            assert(flattened(now) =~= items);
            assert forall|i: int| 0 < i < now.len() implies (#[trigger] now[i]).container_name
                != now[i - 1].container_name by {
                if i < before.len() {
                    assert(now[i] == before[i]);
                    assert(now[i - 1] == before[i - 1]);
                } else {
                    assert(now[i - 1] == before.last());
                }
            }
        }
    }
}

/// Whether the rows of each container stand together: between two rows of
/// the same container there is no row of another. A listing in display order
/// is of this kind.
pub open spec fn clustered(rows: Seq<ItemWithContainerView>) -> bool {
    forall|i: int, j: int, k: int|
        0 <= i < j < k < rows.len() && (#[trigger] rows[i]).container_name == (
        #[trigger] rows[k]).container_name ==> (#[trigger] rows[j]).container_name
            == rows[i].container_name
}

/// Every section belongs to the container of one of the rows.
pub proof fn lemma_section_names(rows: Seq<ItemWithContainerView>)
    ensures
        forall|a: int|
            0 <= a < sections_of(rows).len() ==> exists|i: int|
                0 <= i < rows.len() && (#[trigger] rows[i]).container_name == (
                #[trigger] sections_of(rows)[a]).container_name,
    decreases rows.len(),
{
    if rows.len() > 0 {
        let rest = rows.drop_last();
        let before = sections_of(rest);
        let now = sections_of(rows);
        let last = rows.len() - 1;
        lemma_section_names(rest);
        assert forall|a: int| 0 <= a < now.len() implies exists|i: int|
            0 <= i < rows.len() && (#[trigger] rows[i]).container_name == (
            #[trigger] now[a]).container_name by {
            if a == now.len() - 1 {
                assert(rows[last].container_name == now[a].container_name);
            } else {
                assert(now[a] == before[a]);
                let i = choose|i: int|
                    0 <= i < rest.len() && (#[trigger] rest[i]).container_name
                        == before[a].container_name;
                assert(rows[i] == rest[i]);
            }
        }
    }
}

/// In a listing whose containers stand together every container has one
/// section only: no two sections belong to the same container.
pub proof fn lemma_sections_distinct(rows: Seq<ItemWithContainerView>)
    requires
        clustered(rows),
    ensures
        forall|a: int, b: int|
            0 <= a < b < sections_of(rows).len() ==> (#[trigger] sections_of(rows)[a]).container_name
                != (#[trigger] sections_of(rows)[b]).container_name,
    decreases rows.len(),
{
    if rows.len() > 0 {
        let rest = rows.drop_last();
        let before = sections_of(rest);
        let now = sections_of(rows);
        let last = rows.len() - 1;
        assert(clustered(rest)) by {
            assert forall|i: int, j: int, k: int|
                0 <= i < j < k < rest.len() && (#[trigger] rest[i]).container_name == (
                #[trigger] rest[k]).container_name implies (#[trigger] rest[j]).container_name
                == rest[i].container_name by {
                assert(rows[i] == rest[i] && rows[j] == rest[j] && rows[k] == rest[k]);
            }
        }
        lemma_sections_distinct(rest);
        lemma_sections_of(rest);
        lemma_section_names(rest);
        assert forall|a: int, b: int| 0 <= a < b < now.len() implies (#[trigger] now[a]).container_name
            != (#[trigger] now[b]).container_name by {
            if before.len() > 0 && before.last().container_name == rows[last].container_name {
                assert(now[a].container_name == before[a].container_name);
                assert(now[b].container_name == before[b].container_name);
            } else if b < before.len() {
                assert(now[a] == before[a]);
                assert(now[b] == before[b]);
            } else {
                assert(now[a] == before[a]);
                assert(now[b].container_name == rows[last].container_name);
                if before[a].container_name == rows[last].container_name {
                    let i = choose|i: int|
                        0 <= i < rest.len() && (#[trigger] rest[i]).container_name
                            == before[a].container_name;
                    let j = rest.len() - 1;
                    assert(rows[i] == rest[i]);
                    assert(rows[j] == rest[j]);
                    assert(before.last().container_name == rest[j].container_name);
                    if a < before.len() - 1 {
                        assert(before[a].container_name != before[before.len() - 1].container_name);
                    }
                    if i < j {
                        assert(rows[i].container_name == rows[last].container_name);
                        assert(rows[j].container_name == rows[i].container_name);
                    }
                }
            }
        }
    }
}

/// Whether two optional texts are the same.
pub fn same_text(a: &Option<String>, b: &Option<String>) -> (same: bool)
    ensures
        same == (text_view(*a) == text_view(*b)),
{
    match a {
        Some(x) => match b {
            Some(y) => *x == *y,
            None => false,
        },
        None => b.is_none(),
    }
}

/// The sections so far: the closed ones, then the open one, if any.
pub open spec fn with_open(closed: Seq<Section>, open: Option<Section>) -> Seq<SectionView> {
    match open {
        Some(section) => sections_view(closed).push(section@),
        None => sections_view(closed),
    }
}

/// The section that `row` begins.
fn begin_section(row: ItemWithContainer) -> (section: Section)
    ensures
        section@ == (SectionView {
            container_name: row@.container_name,
            items: seq![row@.item],
        }),
{
    let mut items: Vec<Item> = Vec::new();
    items.push(row.item);
    let section = Section { container_name: row.container_name, items };
    assert(section@.items =~= seq![row@.item]);
    section
}

/// Cuts a listing into its sections.
pub fn group_rows(rows: Vec<ItemWithContainer>) -> (out: Vec<Section>)
    ensures
        sections_view(out@) == sections_of(rows_view(rows@)),
{
    let ghost source = rows@;
    let mut closed: Vec<Section> = Vec::new();
    let mut open: Option<Section> = None;
    assert(rows_view(source.take(0)) =~= Seq::<ItemWithContainerView>::empty());
    assert(with_open(closed@, open) =~= Seq::<SectionView>::empty());
    for row in it: rows.into_iter()
        invariant
            it.seq() == source,
            open is None ==> closed@.len() == 0,
            with_open(closed@, open) == sections_of(rows_view(source.take(it.index()))),
    {
        let ghost seen = rows_view(source.take(it.index()));
        let ghost longer = rows_view(source.take(it.index() + 1));
        let ghost closed_before = sections_view(closed@);
        assert(longer.drop_last() =~= seen);
        assert(longer.last() == row@);
        let previous = open;
        open = match previous {
            None => {
                assert(sections_of(seen).len() == 0);
                Some(begin_section(row))
            },
            Some(section) => {
                assert(sections_of(seen).last() == section@);
                assert(sections_of(seen).drop_last() =~= closed_before);
                if same_text(&section.container_name, &row.container_name) {
                    let mut section = section;
                    let ghost items_before = section@.items;
                    section.items.push(row.item);
                    assert(section@.items =~= items_before.push(row@.item));
                    Some(section)
                } else {
                    closed.push(section);
                    assert(sections_view(closed@) =~= closed_before.push(section@));
                    Some(begin_section(row))
                }
            },
        };
        assert(with_open(closed@, open) =~= sections_of(longer));
    }
    assert(source.take(source.len() as int) =~= source);
    match open {
        Some(section) => {
            let ghost closed_before = sections_view(closed@);
            closed.push(section);
            assert(sections_view(closed@) =~= closed_before.push(section@));
        },
        None => {},
    }
    closed
}

} // verus!
