//! What a command asks of its surroundings and what it is told in return.
//!
//! A command never talks to the service or to the user itself. It says what
//! it needs next as a [`Request`], is handed the [`Reply`], and says in a
//! [`Step`] how it goes on.

use crate::error::{CommandError, CommandErrorView};
use crate::model::{AppLink, AppLinkView, ResourceItem, ResourceItemView};
use vstd::prelude::*;

verus! {

/// One thing for the surroundings to do.
#[derive(Debug, PartialEq, Eq)]
pub enum Request {
    /// Fetch the key value stores.
    ListStores,
    /// Create a key value store.
    CreateStore { name: String },
    /// Delete a key value store.
    DeleteStore { name: String },
    /// Give a key value store another name.
    RenameStore { name: String, new_name: String },
    /// Set one pair in a key value store.
    SetPair { store: String, key: String, value: String },
    /// Ask the user whether the store, with these links, shall be deleted.
    ConfirmDelete { name: String, links: Vec<AppLink> },
}

/// What a [`Request`] holds.
pub enum RequestView {
    ListStores,
    CreateStore { name: Seq<char> },
    DeleteStore { name: Seq<char> },
    RenameStore { name: Seq<char>, new_name: Seq<char> },
    SetPair { store: Seq<char>, key: Seq<char>, value: Seq<char> },
    ConfirmDelete { name: Seq<char>, links: Seq<AppLinkView> },
}

impl View for Request {
    type V = RequestView;

    open spec fn view(&self) -> RequestView {
        match self {
            Request::ListStores => RequestView::ListStores,
            Request::CreateStore { name } => RequestView::CreateStore { name: name@ },
            Request::DeleteStore { name } => RequestView::DeleteStore { name: name@ },
            Request::RenameStore { name, new_name } => RequestView::RenameStore {
                name: name@,
                new_name: new_name@,
            },
            Request::SetPair { store, key, value } => RequestView::SetPair {
                store: store@,
                key: key@,
                value: value@,
            },
            Request::ConfirmDelete { name, links } => RequestView::ConfirmDelete {
                name: name@,
                links: links.deep_view(),
            },
        }
    }
}

/// The outcome of a [`Request`].
#[derive(Debug, PartialEq, Eq)]
pub enum Reply {
    /// The key value stores that the service holds.
    Stores(Vec<ResourceItem>),
    /// The service did what was asked.
    Done,
    /// The user's answer.
    Confirmed(bool),
    /// The service failed; the text says how.
    Failed(String),
}

/// What a [`Reply`] holds.
pub enum ReplyView {
    Stores(Seq<ResourceItemView>),
    Done,
    Confirmed(bool),
    Failed(Seq<char>),
}

impl View for Reply {
    type V = ReplyView;

    open spec fn view(&self) -> ReplyView {
        match self {
            Reply::Stores(items) => ReplyView::Stores(items.deep_view()),
            Reply::Done => ReplyView::Done,
            Reply::Confirmed(yes) => ReplyView::Confirmed(*yes),
            Reply::Failed(cause) => ReplyView::Failed(cause@),
        }
    }
}

/// Where a command stands while a [`Request`] is under way.
#[derive(Debug, PartialEq, Eq)]
pub enum Progress {
    /// The stores are being fetched.
    Listing,
    /// The user is being asked.
    Confirming,
    /// The service is creating, deleting or renaming the store.
    Mutating,
    /// The pair before place `next` is being set in `store`.
    Setting { store: String, next: usize },
}

/// What a [`Progress`] holds.
pub enum ProgressView {
    Listing,
    Confirming,
    Mutating,
    Setting { store: Seq<char>, next: usize },
}

impl View for Progress {
    type V = ProgressView;

    open spec fn view(&self) -> ProgressView {
        match self {
            Progress::Listing => ProgressView::Listing,
            Progress::Confirming => ProgressView::Confirming,
            Progress::Mutating => ProgressView::Mutating,
            Progress::Setting { store, next } => ProgressView::Setting {
                store: store@,
                next: *next,
            },
        }
    }
}

/// What a command hands over when it has succeeded.
#[derive(Debug, PartialEq, Eq)]
pub enum Output {
    /// Lines to print, one after another.
    Lines(Vec<String>),
    /// Resources to write as a JSON array.
    Json(Vec<ResourceItem>),
}

/// What an [`Output`] holds.
pub enum OutputView {
    Lines(Seq<Seq<char>>),
    Json(Seq<ResourceItemView>),
}

impl View for Output {
    type V = OutputView;

    open spec fn view(&self) -> OutputView {
        match self {
            Output::Lines(lines) => OutputView::Lines(lines.deep_view()),
            Output::Json(items) => OutputView::Json(items.deep_view()),
        }
    }
}

/// How a command goes on.
#[derive(Debug, PartialEq, Eq)]
pub enum Step {
    /// Do what `request` says and come back with the reply; `then` is where
    /// the command stands meanwhile.
    Call { request: Request, then: Progress },
    /// The command has succeeded.
    Finish(Output),
    /// The command has failed.
    Fail(CommandError),
}

/// What a [`Step`] holds.
pub enum StepView {
    Call { request: RequestView, then: ProgressView },
    Finish(OutputView),
    Fail(CommandErrorView),
}

impl View for Step {
    type V = StepView;

    open spec fn view(&self) -> StepView {
        match self {
            Step::Call { request, then } => StepView::Call { request: request@, then: then@ },
            Step::Finish(output) => StepView::Finish(output@),
            Step::Fail(error) => StepView::Fail(error@),
        }
    }
}

/// The reply is one that a command standing at `progress` waits for.
pub open spec fn answers(progress: ProgressView, reply: ReplyView) -> bool {
    match progress {
        ProgressView::Listing => reply is Stores || reply is Failed,
        ProgressView::Confirming => reply is Confirmed,
        ProgressView::Mutating => reply is Done || reply is Failed,
        ProgressView::Setting { .. } => reply is Done || reply is Failed,
    }
}

/// Whether the reply is one that a command standing at `progress` waits
/// for.
pub fn reply_answers(progress: &Progress, reply: &Reply) -> (r: bool)
    ensures
        r == answers(progress@, reply@),
{
    match progress {
        Progress::Listing => matches!(reply, Reply::Stores(_) | Reply::Failed(_)),
        Progress::Confirming => matches!(reply, Reply::Confirmed(_)),
        Progress::Mutating => matches!(reply, Reply::Done | Reply::Failed(_)),
        Progress::Setting { .. } => matches!(reply, Reply::Done | Reply::Failed(_)),
    }
}

} // verus!
