//! The container resolver: which single container, if any, the items of one
//! submission are attached to.
//!
//! Resolving alternates with storage. `plan_container` decides what to ask of
//! storage, the caller asks it inside its transaction, and `settle_container`
//! decides what the answer means.

use crate::number::{read_signed, signed_decimal};
use crate::text::{
    chars_of, is_blank, lemma_trimmed, lemma_trimmed_idempotent, normalize_optional, normalized,
    text_view, trim_bounds, trimmed,
};
use vstd::prelude::*;

verus! {

/// What the resolver asks of storage.
#[derive(Debug, Clone, PartialEq, Eq)]
pub enum ContainerRequest {
    /// Make sure that a container of this name exists, without creating a
    /// second one, and read its id back.
    Ensure { name: String },
    /// Look up the name of the container with this id.
    Find { id: i64 },
    /// Ask nothing: the items stay loose.
    Loose,
}

/// A `ContainerRequest` as plain values.
pub enum ContainerRequestView {
    Ensure { name: Seq<char> },
    Find { id: i64 },
    Loose,
}

impl View for ContainerRequest {
    type V = ContainerRequestView;

    open spec fn view(&self) -> ContainerRequestView {
        match self {
            ContainerRequest::Ensure { name } => ContainerRequestView::Ensure { name: name@ },
            ContainerRequest::Find { id } => ContainerRequestView::Find { id: *id },
            ContainerRequest::Loose => ContainerRequestView::Loose,
        }
    }
}

/// What storage answered.
#[derive(Debug, Clone, PartialEq, Eq)]
pub enum ContainerReply {
    /// The id of the container that was asked for by name.
    Id(i64),
    /// The name of the container that was asked for by id.
    Name(String),
    /// There is no such container.
    Missing,
    /// Storage failed.
    Failed,
}

/// A `ContainerReply` as plain values.
pub enum ContainerReplyView {
    Id(i64),
    Name(Seq<char>),
    Missing,
    Failed,
}

impl View for ContainerReply {
    type V = ContainerReplyView;

    open spec fn view(&self) -> ContainerReplyView {
        match self {
            ContainerReply::Id(id) => ContainerReplyView::Id(*id),
            ContainerReply::Name(name) => ContainerReplyView::Name(name@),
            ContainerReply::Missing => ContainerReplyView::Missing,
            ContainerReply::Failed => ContainerReplyView::Failed,
        }
    }
}

/// Why no container could be resolved.
#[derive(Debug, Clone, Copy, PartialEq, Eq)]
pub enum ResolveError {
    /// The selected id names no container.
    NotFound { id: i64 },
    /// Storage failed, or answered something that was not asked.
    Storage,
}

/// The container that a submission resolved to: both parts present, or both
/// absent for loose items.
#[derive(Debug, Clone, PartialEq, Eq)]
pub struct Resolution {
    pub container_id: Option<i64>,
    pub container_name: Option<String>,
}

/// A `Resolution` as plain values.
pub struct ResolutionView {
    pub container_id: Option<i64>,
    pub container_name: Option<Seq<char>>,
}

impl View for Resolution {
    type V = ResolutionView;

    open spec fn view(&self) -> ResolutionView {
        ResolutionView {
            container_id: self.container_id,
            container_name: text_view(self.container_name),
        }
    }
}

/// The resolution that attaches to no container.
pub open spec fn loose() -> ResolutionView {
    ResolutionView { container_id: None, container_name: None }
}

/// The id that a selection field names: the field without the white space
/// around it, read as a signed integer. A field that is absent, blank or no
/// such number selects nothing.
pub open spec fn selected_id(field: Option<Seq<char>>) -> Option<i64> {
    match field {
        Some(s) => match signed_decimal(trimmed(s)) {
            Some(v) => Some(v as i64),
            None => None,
        },
        None => None,
    }
}

/// What to ask of storage. A new name that is not blank comes first, whatever
/// was selected; then the selection; else nothing.
pub open spec fn planned(new_name: Option<Seq<char>>, selected: Option<i64>)
    -> ContainerRequestView {
    match normalized(new_name) {
        Some(name) => ContainerRequestView::Ensure { name },
        None => match selected {
            Some(id) => ContainerRequestView::Find { id },
            None => ContainerRequestView::Loose,
        },
    }
}

/// What storage's answer to a request means.
pub open spec fn settled(request: ContainerRequestView, reply: ContainerReplyView) -> Result<
    ResolutionView,
    ResolveError,
> {
    match request {
        ContainerRequestView::Loose => Ok(loose()),
        ContainerRequestView::Ensure { name } => match reply {
            ContainerReplyView::Id(id) => Ok(
                ResolutionView { container_id: Some(id), container_name: Some(name) },
            ),
            _ => Err(ResolveError::Storage),
        },
        ContainerRequestView::Find { id } => match reply {
            ContainerReplyView::Name(name) => Ok(
                ResolutionView { container_id: Some(id), container_name: Some(name) },
            ),
            ContainerReplyView::Missing => Err(ResolveError::NotFound { id }),
            _ => Err(ResolveError::Storage),
        },
    }
}

/// The container that the items are attached to after all: the resolved one,
/// or none where resolving failed.
pub open spec fn attached(outcome: Result<ResolutionView, ResolveError>) -> ResolutionView {
    match outcome {
        Ok(resolution) => resolution,
        Err(_) => loose(),
    }
}

/// The view of the outcome of resolving.
pub open spec fn outcome_view(outcome: Result<Resolution, ResolveError>) -> Result<
    ResolutionView,
    ResolveError,
> {
    match outcome {
        Ok(resolution) => Ok(resolution@),
        Err(e) => Err(e),
    }
}

/// A new name takes precedence: with a new name that is not blank, the request
/// is the same whatever was selected, the resolved name is that new name, and
/// the resolved id is the one that storage read back for it.
pub proof fn lemma_new_name_takes_precedence(
    new_name: Seq<char>,
    selected: Option<i64>,
    reply: ContainerReplyView,
)
    requires
        !is_blank(new_name),
    ensures
        planned(Some(new_name), selected) == (ContainerRequestView::Ensure {
            name: trimmed(new_name),
        }),
        planned(Some(new_name), selected) == planned(Some(new_name), None),
        settled(planned(Some(new_name), selected), reply) matches Ok(resolution) ==> {
            &&& reply == ContainerReplyView::Id(resolution.container_id->0)
            &&& resolution.container_name == Some(trimmed(new_name))
        },
        settled(planned(Some(new_name), selected), reply) is Ok <==> reply is Id,
{
}

/// A container is only ever asked for under a name that is not empty and has
/// no white space around it, and by name only where a new name was given.
pub proof fn lemma_ensured_name_is_clean(new_name: Option<Seq<char>>, selected: Option<i64>)
    ensures
        planned(new_name, selected) matches ContainerRequestView::Ensure { name } ==> {
            &&& name.len() > 0
            &&& trimmed(name) == name
            &&& new_name matches Some(given) && name == trimmed(given)
        },
        planned(new_name, selected) matches ContainerRequestView::Find { id } ==> selected == Some(
            id,
        ) && normalized(new_name) is None,
{
    if let Some(given) = new_name {
        lemma_trimmed(given);
        lemma_trimmed_idempotent(given);
    }
}

/// Asking for the same new name again is the same request, so that storage is
/// asked for the same row both times; and the id that storage reads back is
/// handed on unchanged.
pub proof fn lemma_same_name_same_request(
    first: Seq<char>,
    second: Seq<char>,
    selected_first: Option<i64>,
    selected_second: Option<i64>,
    id: i64,
)
    requires
        !is_blank(first),
        trimmed(first) == trimmed(second),
    ensures
        planned(Some(first), selected_first) == planned(Some(second), selected_second),
        settled(planned(Some(first), selected_first), ContainerReplyView::Id(id)) == settled(
            planned(Some(second), selected_second),
            ContainerReplyView::Id(id),
        ),
        attached(
            settled(planned(Some(first), selected_first), ContainerReplyView::Id(id)),
        ).container_id == Some(id),
{
    lemma_trimmed(first);
    lemma_trimmed(second);
}

/// With neither a new name nor a selection nothing is asked, and the items
/// stay loose whatever storage might say.
pub proof fn lemma_nothing_selected(reply: ContainerReplyView)
    ensures
        planned(None, None) == ContainerRequestView::Loose,
        settled(planned(None, None), reply) == Ok::<ResolutionView, ResolveError>(loose()),
{
}

/// A resolution has both its parts or neither, and a failed one attaches to
/// nothing.
pub proof fn lemma_settled_shape(request: ContainerRequestView, reply: ContainerReplyView)
    ensures
        attached(settled(request, reply)).container_id is Some <==> attached(
            settled(request, reply),
        ).container_name is Some,
        settled(request, reply) is Err ==> attached(settled(request, reply)) == loose(),
        settled(request, reply) matches Err(ResolveError::NotFound { id }) ==> request
            == (ContainerRequestView::Find { id }) && reply == ContainerReplyView::Missing,
{
}

/// Reads the selection field of a form as a container id.
pub fn parse_selection(field: Option<String>) -> (out: Option<i64>)
    ensures
        out == selected_id(text_view(field)),
{
    match field {
        None => None,
        Some(s) => {
            let chars = chars_of(s.as_str());
            let (a, b) = trim_bounds(&chars, 0, chars.len());
            assert(chars@.subrange(0, chars.len() as int) =~= s@);
            read_signed(&chars, a, b)
        },
    }
}

/// A copy of a request.
pub fn copy_request(request: &ContainerRequest) -> (out: ContainerRequest)
    ensures
        out == *request,
{
    match request {
        ContainerRequest::Ensure { name } => ContainerRequest::Ensure { name: name.clone() },
        ContainerRequest::Find { id } => ContainerRequest::Find { id: *id },
        ContainerRequest::Loose => ContainerRequest::Loose,
    }
}

/// Decides what to ask of storage for one submission.
pub fn plan_container(new_name: Option<String>, selected_id: Option<i64>) -> (request:
    ContainerRequest)
    ensures
        request@ == planned(text_view(new_name), selected_id),
{
    match normalize_optional(new_name) {
        Some(name) => ContainerRequest::Ensure { name },
        None => match selected_id {
            Some(id) => ContainerRequest::Find { id },
            None => ContainerRequest::Loose,
        },
    }
}

/// Decides what storage's answer to `request` means. An error is reported to
/// the caller, who goes on without a container.
pub fn settle_container(request: ContainerRequest, reply: ContainerReply) -> (outcome: Result<
    Resolution,
    ResolveError,
>)
    ensures
        outcome_view(outcome) == settled(request@, reply@),
{
    match request {
        ContainerRequest::Loose => Ok(Resolution { container_id: None, container_name: None }),
        ContainerRequest::Ensure { name } => match reply {
            ContainerReply::Id(id) => Ok(
                Resolution { container_id: Some(id), container_name: Some(name) },
            ),
            _ => Err(ResolveError::Storage),
        },
        ContainerRequest::Find { id } => match reply {
            ContainerReply::Name(name) => Ok(
                Resolution { container_id: Some(id), container_name: Some(name) },
            ),
            ContainerReply::Missing => Err(ResolveError::NotFound { id }),
            _ => Err(ResolveError::Storage),
        },
    }
}

} // verus!
