//! One submission from form to report, as a machine of stages.
//!
//! The work of a submission alternates between decisions and calls that only
//! the caller can make: the structuring capability, storage, the commit. The
//! decisions are here. `start` and `advance` say what to do next; the caller
//! does it and comes back with what happened.
//!
//! The caller opens one transaction before the first storage action of a
//! submission and keeps it until `Action::Finish`: it commits on
//! `Action::Commit` and gives the transaction up where `Finish` asks for a
//! rollback, so that a newly made container is never kept without the items.

use crate::assemble::{assemble, assembled, copy_items, items_view, Item, ItemView};
use crate::extract::{
    extract, extracted, item_ok, lemma_extracted, parsed_view, structured_view, Fallback,
    ParsedItem, ParsedItemView,
};
use crate::label::{format_label, label_of, Label, LabelView};
use crate::resolve::{
    attached, copy_request, loose, parse_selection, plan_container, planned, selected_id,
    settle_container, settled, ContainerReply, ContainerReplyView, ContainerRequest,
    ContainerRequestView, Resolution, ResolutionView, ResolveError,
};
use crate::text::{normalize_optional, normalized, text_view};
use vstd::prelude::*;

verus! {

/// What a form hands in: the raw text and three optional fields.
#[derive(Debug, Clone, PartialEq, Eq)]
pub struct Submission {
    pub raw_text: String,
    pub container_selection: Option<String>,
    pub container_new_name: Option<String>,
    pub location: Option<String>,
}

/// A `Submission` as plain values.
pub struct SubmissionView {
    pub raw_text: Seq<char>,
    pub container_selection: Option<Seq<char>>,
    pub container_new_name: Option<Seq<char>>,
    pub location: Option<Seq<char>>,
}

impl View for Submission {
    type V = SubmissionView;

    open spec fn view(&self) -> SubmissionView {
        SubmissionView {
            raw_text: self.raw_text@,
            container_selection: text_view(self.container_selection),
            container_new_name: text_view(self.container_new_name),
            location: text_view(self.location),
        }
    }
}

/// What the caller is told at the end of a submission.
#[derive(Debug, Clone, PartialEq, Eq)]
pub struct Report {
    /// The records of the submission, for display whether stored or not.
    pub items: Vec<Item>,
    /// Whether the records are in storage for good.
    pub persisted: bool,
    /// Why the records are attached to no container, where one was asked for.
    pub notice: Option<ResolveError>,
    /// The label to print, which is owed whether storing succeeded or not.
    pub label: Label,
}

/// A `Report` as plain values.
pub struct ReportView {
    pub items: Seq<ItemView>,
    pub persisted: bool,
    pub notice: Option<ResolveError>,
    pub label: LabelView,
}

impl View for Report {
    type V = ReportView;

    open spec fn view(&self) -> ReportView {
        ReportView {
            items: items_view(self.items@),
            persisted: self.persisted,
            notice: self.notice,
            label: self.label@,
        }
    }
}

/// Where a submission stands.
#[derive(Debug, Clone, PartialEq, Eq)]
pub enum Stage {
    /// The structuring capability has been asked.
    Structuring { submission: Submission },
    /// Storage has been asked for the container.
    Resolving { parsed: Vec<ParsedItem>, request: ContainerRequest, location: Option<String> },
    /// Storage has been asked to store the records.
    Storing { items: Vec<Item>, container_name: Option<String>, notice: Option<ResolveError> },
    /// Storage has been asked to commit.
    Committing { items: Vec<Item>, container_name: Option<String>, notice: Option<ResolveError> },
    /// The submission is over.
    Done,
}

/// A `Stage` as plain values.
pub enum StageView {
    Structuring { submission: SubmissionView },
    Resolving {
        parsed: Seq<ParsedItemView>,
        request: ContainerRequestView,
        location: Option<Seq<char>>,
    },
    Storing { items: Seq<ItemView>, container_name: Option<Seq<char>>, notice: Option<ResolveError> },
    Committing {
        items: Seq<ItemView>,
        container_name: Option<Seq<char>>,
        notice: Option<ResolveError>,
    },
    Done,
}

impl View for Stage {
    type V = StageView;

    open spec fn view(&self) -> StageView {
        match self {
            Stage::Structuring { submission } => StageView::Structuring {
                submission: submission@,
            },
            Stage::Resolving { parsed, request, location } => StageView::Resolving {
                parsed: parsed_view(parsed@),
                request: request@,
                location: text_view(*location),
            },
            Stage::Storing { items, container_name, notice } => StageView::Storing {
                items: items_view(items@),
                container_name: text_view(*container_name),
                notice: *notice,
            },
            Stage::Committing { items, container_name, notice } => StageView::Committing {
                items: items_view(items@),
                container_name: text_view(*container_name),
                notice: *notice,
            },
            Stage::Done => StageView::Done,
        }
    }
}

/// What happened since the last action.
#[derive(Debug, Clone, PartialEq, Eq)]
pub enum Event {
    /// The capability answered with these items, or gave no usable answer.
    Structured { answer: Option<Vec<ParsedItem>> },
    /// Storage answered the container request.
    Container { reply: ContainerReply },
    /// Storage stored all the records, or failed on one.
    Stored { ok: bool },
    /// The commit went through, or failed.
    Committed { ok: bool },
}

/// An `Event` as plain values.
pub enum EventView {
    Structured { answer: Option<Seq<ParsedItemView>> },
    Container { reply: ContainerReplyView },
    Stored { ok: bool },
    Committed { ok: bool },
}

impl View for Event {
    type V = EventView;

    open spec fn view(&self) -> EventView {
        match self {
            Event::Structured { answer } => EventView::Structured {
                answer: structured_view(*answer),
            },
            Event::Container { reply } => EventView::Container { reply: reply@ },
            Event::Stored { ok } => EventView::Stored { ok: *ok },
            Event::Committed { ok } => EventView::Committed { ok: *ok },
        }
    }
}

/// What the caller is to do next.
#[derive(Debug, Clone, PartialEq, Eq)]
pub enum Action {
    /// Ask the structuring capability about this text, once.
    Structure { text: String },
    /// Ask storage for the container, inside the transaction.
    AskContainer { request: ContainerRequest },
    /// Store these records in one go, inside the transaction.
    Store { items: Vec<Item> },
    /// Commit the transaction.
    Commit,
    /// Give the transaction up if `rollback` says so, then show the report and
    /// print its label.
    Finish { rollback: bool, report: Report },
    /// Nothing: the event does not belong to the stage, which is unchanged.
    Reject,
}

/// An `Action` as plain values.
pub enum ActionView {
    Structure { text: Seq<char> },
    AskContainer { request: ContainerRequestView },
    Store { items: Seq<ItemView> },
    Commit,
    Finish { rollback: bool, report: ReportView },
    Reject,
}

impl View for Action {
    type V = ActionView;

    open spec fn view(&self) -> ActionView {
        match self {
            Action::Structure { text } => ActionView::Structure { text: text@ },
            Action::AskContainer { request } => ActionView::AskContainer { request: request@ },
            Action::Store { items } => ActionView::Store { items: items_view(items@) },
            Action::Commit => ActionView::Commit,
            Action::Finish { rollback, report } => ActionView::Finish {
                rollback: *rollback,
                report: report@,
            },
            Action::Reject => ActionView::Reject,
        }
    }
}

/// Whether every record may be stored: each has a name and stands for at
/// least one thing.
pub open spec fn records_usable(items: Seq<ItemView>) -> bool {
    forall|i: int| 0 <= i < items.len() ==> (#[trigger] items[i]).name.len() > 0 && items[i].quantity >= 1
}

/// Whether all records are attached to the same container and location.
pub open spec fn records_together(items: Seq<ItemView>) -> bool {
    forall|i: int, j: int|
        0 <= i < items.len() && 0 <= j < items.len() ==> (#[trigger] items[i]).container_id == (
        #[trigger] items[j]).container_id && items[i].location == items[j].location
}

/// What a stage must hold for the machine to keep its promises: usable
/// extracted items, and records that are usable and stay together.
pub open spec fn stage_ok(stage: StageView) -> bool {
    match stage {
        StageView::Structuring { .. } => true,
        StageView::Resolving { parsed, .. } => forall|i: int|
            0 <= i < parsed.len() ==> item_ok(#[trigger] parsed[i]),
        StageView::Storing { items, .. } => records_usable(items) && records_together(items),
        StageView::Committing { items, .. } => records_usable(items) && records_together(items),
        StageView::Done => true,
    }
}

/// The first stage and action of a submission: ask the capability about the
/// raw text.
pub open spec fn started(submission: SubmissionView) -> (StageView, ActionView) {
    (StageView::Structuring { submission }, ActionView::Structure { text: submission.raw_text })
}

/// The step that hands the records of a submission to storage.
pub open spec fn store_step(
    parsed: Seq<ParsedItemView>,
    resolution: ResolutionView,
    notice: Option<ResolveError>,
    location: Option<Seq<char>>,
) -> (StageView, ActionView) {
    let items = assembled(parsed, resolution.container_id, location);
    (
        StageView::Storing { items, container_name: resolution.container_name, notice },
        ActionView::Store { items },
    )
}

/// The report at the end of a submission.
pub open spec fn report_of(
    items: Seq<ItemView>,
    container_name: Option<Seq<char>>,
    notice: Option<ResolveError>,
    persisted: bool,
) -> ReportView {
    ReportView { items, persisted, notice, label: label_of(items, container_name) }
}

/// Why resolving failed, if it did.
pub open spec fn notice_of(outcome: Result<ResolutionView, ResolveError>) -> Option<ResolveError> {
    match outcome {
        Ok(_) => None,
        Err(e) => Some(e),
    }
}

/// The next stage and action, given what happened.
///
/// - The capability's answer settles the items; the location is normalised;
///   the container is planned. Where no container is asked for, the records
///   go to storage at once.
/// - Storage's answer on the container settles where the records belong. A
///   container that could not be resolved leaves them loose, with a notice.
/// - Stored records are committed. A failure to store ends the submission
///   with a rollback, and the report says that nothing was stored.
/// - The commit ends the submission; the report says whether it held.
/// - An event that does not belong to the stage changes nothing.
pub open spec fn advanced(stage: StageView, event: EventView, mode: Fallback) -> (
    StageView,
    ActionView,
) {
    match (stage, event) {
        (StageView::Structuring { submission }, EventView::Structured { answer }) => {
            let parsed = extracted(submission.raw_text, answer, mode);
            let location = normalized(submission.location);
            let request = planned(
                submission.container_new_name,
                selected_id(submission.container_selection),
            );
            if request is Loose {
                store_step(parsed, loose(), None, location)
            } else {
                (
                    StageView::Resolving { parsed, request, location },
                    ActionView::AskContainer { request },
                )
            }
        },
        (StageView::Resolving { parsed, request, location }, EventView::Container { reply }) => {
            let outcome = settled(request, reply);
            store_step(parsed, attached(outcome), notice_of(outcome), location)
        },
        (StageView::Storing { items, container_name, notice }, EventView::Stored { ok }) => {
            if ok {
                (StageView::Committing { items, container_name, notice }, ActionView::Commit)
            } else {
                (
                    StageView::Done,
                    ActionView::Finish {
                        rollback: true,
                        report: report_of(items, container_name, notice, false),
                    },
                )
            }
        },
        (StageView::Committing { items, container_name, notice }, EventView::Committed { ok }) => (
            StageView::Done,
            ActionView::Finish {
                rollback: false,
                report: report_of(items, container_name, notice, ok),
            },
        ),
        _ => (stage, ActionView::Reject),
    }
}

/// Every submission starts in order, with one question to the capability.
pub proof fn lemma_started_in_order(submission: SubmissionView)
    ensures
        stage_ok(started(submission).0),
        started(submission).1 == (ActionView::Structure { text: submission.raw_text }),
{
}

/// The machine keeps its stages in order: from a stage that is in order it
/// only reaches stages that are.
pub proof fn lemma_advanced_keeps_order(stage: StageView, event: EventView, mode: Fallback)
    requires
        stage_ok(stage),
    ensures
        stage_ok(advanced(stage, event, mode).0),
{
    match (stage, event) {
        (StageView::Structuring { submission }, EventView::Structured { answer }) => {
            lemma_extracted(submission.raw_text, answer, mode);
        },
        _ => {},
    }
}

/// Only records that may be stored are handed to storage, and all records of
/// one submission go there together: with the same container and the same
/// location.
pub proof fn lemma_stores_usable_records(stage: StageView, event: EventView, mode: Fallback)
    requires
        stage_ok(stage),
    ensures
        advanced(stage, event, mode).1 matches ActionView::Store { items } ==> records_usable(items)
            && records_together(items),
{
    lemma_advanced_keeps_order(stage, event, mode);
}

/// The capability is asked once for each submission: no step asks it again,
/// and no step leads back to the stage that waits for it. Whatever it
/// answered, the submission goes on.
pub proof fn lemma_capability_asked_once(stage: StageView, event: EventView, mode: Fallback)
    ensures
        !(advanced(stage, event, mode).1 is Structure),
        advanced(stage, event, mode).0 is Structuring ==> stage is Structuring && advanced(
            stage,
            event,
            mode,
        ).1 is Reject,
        stage is Structuring && event is Structured ==> (advanced(stage, event, mode).1 is Store
            || advanced(stage, event, mode).1 is AskContainer),
{
}

/// Nothing is committed unless every record was stored, and success is
/// claimed only after a commit that held. A failure to store ends the
/// submission at once with a rollback, so that neither the records nor a
/// container made for them stay behind.
pub proof fn lemma_commit_follows_store(stage: StageView, event: EventView, mode: Fallback)
    ensures
        advanced(stage, event, mode).1 is Commit <==> stage is Storing && event
            == (EventView::Stored { ok: true }),
        advanced(stage, event, mode).1 matches ActionView::Finish { rollback, report } ==> {
            &&& advanced(stage, event, mode).0 is Done
            &&& rollback <==> stage is Storing && event == (EventView::Stored { ok: false })
            &&& report.persisted <==> stage is Committing && event == (EventView::Committed {
                ok: true,
            })
            &&& rollback ==> !report.persisted
        },
        stage is Storing && event == (EventView::Stored { ok: false }) ==> (advanced(
            stage,
            event,
            mode,
        ).1 matches ActionView::Finish { rollback, report } && rollback && !report.persisted),
{
}

/// A selected container that does not exist does not stop the submission:
/// the records go to storage loose, and the report will carry the notice.
pub proof fn lemma_missing_container_goes_on(
    parsed: Seq<ParsedItemView>,
    id: i64,
    location: Option<Seq<char>>,
    mode: Fallback,
)
    ensures
        advanced(
            StageView::Resolving { parsed, request: ContainerRequestView::Find { id }, location },
            EventView::Container { reply: ContainerReplyView::Missing },
            mode,
        ) == (
            StageView::Storing {
                items: assembled(parsed, None, location),
                container_name: None,
                notice: Some(ResolveError::NotFound { id }),
            },
            ActionView::Store { items: assembled(parsed, None, location) },
        ),
{
}

/// An event that is rejected changes nothing.
pub proof fn lemma_rejected_changes_nothing(stage: StageView, event: EventView, mode: Fallback)
    ensures
        advanced(stage, event, mode).1 is Reject ==> advanced(stage, event, mode).0 == stage,
        stage is Done ==> advanced(stage, event, mode).1 is Reject,
{
}

/// Begins a submission.
pub fn start(submission: Submission) -> (next: (Stage, Action))
    ensures
        (next.0@, next.1@) == started(submission@),
        stage_ok(next.0@),
{
    let text = submission.raw_text.clone();
    (Stage::Structuring { submission }, Action::Structure { text })
}

/// Hands the records of a submission to storage.
fn store(
    parsed: Vec<ParsedItem>,
    resolution: Resolution,
    notice: Option<ResolveError>,
    location: Option<String>,
) -> (next: (Stage, Action))
    ensures
        (next.0@, next.1@) == store_step(
            parsed_view(parsed@),
            resolution@,
            notice,
            text_view(location),
        ),
{
    let items = assemble(parsed, resolution.container_id, location);
    let copy = copy_items(&items);
    (
        Stage::Storing { items, container_name: resolution.container_name, notice },
        Action::Store { items: copy },
    )
}

/// Ends a submission.
fn finish(
    items: Vec<Item>,
    container_name: Option<String>,
    notice: Option<ResolveError>,
    persisted: bool,
    rollback: bool,
) -> (next: (Stage, Action))
    ensures
        next.0@ == StageView::Done,
        next.1@ == (ActionView::Finish {
            rollback,
            report: report_of(items_view(items@), text_view(container_name), notice, persisted),
        }),
{
    let label = match &container_name {
        Some(name) => format_label(&items, Some(name.as_str())),
        None => format_label(&items, None),
    };
    (Stage::Done, Action::Finish { rollback, report: Report { items, persisted, notice, label } })
}

/// Takes a submission one step further: from the stage it stands at and what
/// happened since, to the next stage and what to do now.
pub fn advance(stage: Stage, event: Event, mode: Fallback) -> (next: (Stage, Action))
    ensures
        (next.0@, next.1@) == advanced(stage@, event@, mode),
        stage_ok(stage@) ==> stage_ok(next.0@),
{
    proof {
        if stage_ok(stage@) {
            lemma_advanced_keeps_order(stage@, event@, mode);
        }
    }
    match stage {
        Stage::Structuring { submission } => match event {
            Event::Structured { answer } => {
                let parsed = extract(submission.raw_text.as_str(), answer, mode);
                let location = normalize_optional(submission.location);
                let request = plan_container(
                    submission.container_new_name,
                    parse_selection(submission.container_selection),
                );
                match request {
                    ContainerRequest::Loose => store(
                        parsed,
                        Resolution { container_id: None, container_name: None },
                        None,
                        location,
                    ),
                    request => {
                        let ask = copy_request(&request);
                        (
                            Stage::Resolving { parsed, request, location },
                            Action::AskContainer { request: ask },
                        )
                    },
                }
            },
            _ => (Stage::Structuring { submission }, Action::Reject),
        },
        Stage::Resolving { parsed, request, location } => match event {
            Event::Container { reply } => {
                match settle_container(request, reply) {
                    Ok(resolution) => store(parsed, resolution, None, location),
                    Err(e) => store(
                        parsed,
                        Resolution { container_id: None, container_name: None },
                        Some(e),
                        location,
                    ),
                }
            },
            _ => (Stage::Resolving { parsed, request, location }, Action::Reject),
        },
        Stage::Storing { items, container_name, notice } => match event {
            Event::Stored { ok } => {
                if ok {
                    (Stage::Committing { items, container_name, notice }, Action::Commit)
                } else {
                    finish(items, container_name, notice, false, true)
                }
            },
            _ => (Stage::Storing { items, container_name, notice }, Action::Reject),
        },
        Stage::Committing { items, container_name, notice } => match event {
            Event::Committed { ok } => finish(items, container_name, notice, ok, false),
            _ => (Stage::Committing { items, container_name, notice }, Action::Reject),
        },
        Stage::Done => (Stage::Done, Action::Reject),
    }
}

} // verus!
