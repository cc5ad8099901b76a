//! The key value store commands and the decisions that each takes between
//! the calls that its surroundings make for it.
//!
//! A command starts with [`KeyValueCommand::start`]. Whenever a step is a
//! [`Step::Call`], the surroundings do what it asks and hand the reply to
//! [`KeyValueCommand::step`], together with the progress that the step
//! named, until a step finishes or fails.

use crate::error::{CommandError, CommandErrorView, ConfigurationProblem};
use crate::grouping::{filter_by_app, group_resources, grouping_of, shown, ResourceGroupBy};
use crate::model::{ResourceItem, ResourceItemView, ResourceType};
use crate::protocol::{
    answers, Output, OutputView, Progress, ProgressView, Reply, ReplyView, Request, RequestView,
    Step, StepView,
};
use crate::render::{render_table, table, ListFormat};
use crate::target::{has_name, names_of, ResourceTarget, ResourceTargetView};
use crate::text::{is_split, split_pair, wrap};
use vstd::prelude::*;

verus! {

/// The grouping of a tabular listing, as the user names it.
#[derive(Clone, Copy, Debug, PartialEq, Eq, Structural)]
pub enum GroupBy {
    App,
    Store,
}

impl Default for GroupBy {
    fn default() -> (r: Self)
        ensures
            r == GroupBy::App,
    {
        GroupBy::App
    }
}

impl From<GroupBy> for ResourceGroupBy {
    fn from(group_by: GroupBy) -> (r: Self) {
        match group_by {
            GroupBy::App => ResourceGroupBy::App,
            GroupBy::Store => ResourceGroupBy::Resource(ResourceType::KeyValueStore),
        }
    }
}

impl vstd::std_specs::convert::FromSpecImpl<GroupBy> for ResourceGroupBy {
    open spec fn obeys_from_spec() -> bool {
        true
    }

    open spec fn from_spec(group_by: GroupBy) -> Self {
        match group_by {
            GroupBy::App => ResourceGroupBy::App,
            GroupBy::Store => ResourceGroupBy::Resource(ResourceType::KeyValueStore),
        }
    }
}

/// The strategy that stands for the grouping which the user named, if any.
pub open spec fn strategy(group_by: Option<GroupBy>) -> Option<ResourceGroupBy> {
    match group_by {
        Some(GroupBy::App) => Some(ResourceGroupBy::App),
        Some(GroupBy::Store) => Some(ResourceGroupBy::Resource(ResourceType::KeyValueStore)),
        None => None,
    }
}

/// Reads an argument of the form `key=value`: the key is what stands before
/// the first equals sign, the value what stands behind it.
pub fn parse_kv(text: &str) -> (r: Result<(String, String), CommandError>)
    ensures
        match r {
            Ok((key, value)) => is_split(text@, key@, value@),
            Err(e) => !text@.contains('=') && e@ == CommandErrorView::Configuration(
                ConfigurationProblem::KeyValuePair,
            ),
        },
{
    match split_pair(text) {
        Some(pair) => Ok(pair),
        None => Err(CommandError::Configuration(ConfigurationProblem::KeyValuePair)),
    }
}

/// The step that asks for the stores.
pub open spec fn fetch_stores() -> StepView {
    StepView::Call { request: RequestView::ListStores, then: ProgressView::Listing }
}

/// The step that ends a command with these lines.
pub open spec fn finish_with(lines: Seq<Seq<char>>) -> StepView {
    StepView::Finish(OutputView::Lines(lines))
}

/// The step that ends a command because the service failed.
pub open spec fn fail_remote(context: Seq<char>, cause: Seq<char>) -> StepView {
    StepView::Fail(CommandErrorView::Remote { context, cause })
}

/// What is said of a failure to fetch the stores for a command on `name`.
pub open spec fn listing_context(name: Seq<char>) -> Seq<char> {
    "Error listing key value stores '"@ + name + "'"@
}

/// What is said of a failure to create the store.
pub open spec fn creating_context(name: Seq<char>) -> Seq<char> {
    "Error creating key value store '"@ + name + "'"@
}

/// What is said of a failure to delete the store.
pub open spec fn deleting_context(name: Seq<char>) -> Seq<char> {
    "Problem deleting key value store '"@ + name + "'"@
}

/// What is said of a failure to rename the store.
pub open spec fn renaming_context(name: Seq<char>) -> Seq<char> {
    "Error renaming key value store '"@ + name + "'"@
}

/// What is said of a failure to set a pair.
pub open spec fn setting_context(store: Seq<char>, key: Seq<char>, value: Seq<char>) -> Seq<char> {
    "Error adding key value pair '"@ + key + "="@ + value + "' to store '"@ + store + "'"@
}

/// The line that reports a store created.
pub open spec fn created_message(name: Seq<char>) -> Seq<char> {
    "Key value store \""@ + name + "\" created"@
}

/// The line that reports a store deleted.
pub open spec fn deleted_message(name: Seq<char>) -> Seq<char> {
    "Key value store \""@ + name + "\" deleted"@
}

/// The line that reports a store renamed.
pub open spec fn renamed_message(name: Seq<char>, new_name: Seq<char>) -> Seq<char> {
    "Key value store \""@ + name + "\" is now named \""@ + new_name + "\""@
}

fn call_list() -> (r: Step)
    ensures
        r@ == fetch_stores(),
{
    Step::Call { request: Request::ListStores, then: Progress::Listing }
}

fn finish_lines(lines: Vec<String>) -> (r: Step)
    ensures
        r@ == finish_with(lines.deep_view()),
{
    Step::Finish(Output::Lines(lines))
}

fn finish_line(line: String) -> (r: Step)
    ensures
        r@ == finish_with(seq![line@]),
{
    let lines = vec![line];
    assert(lines.deep_view() =~= seq![line@]);
    Step::Finish(Output::Lines(lines))
}

fn finish_silent() -> (r: Step)
    ensures
        r@ == finish_with(Seq::empty()),
{
    let lines: Vec<String> = Vec::new();
    assert(lines.deep_view() =~= Seq::<Seq<char>>::empty());
    Step::Finish(Output::Lines(lines))
}

fn remote_failure(context: String, cause: String) -> (r: Step)
    ensures
        r@ == fail_remote(context@, cause@),
{
    Step::Fail(CommandError::Remote { context, cause })
}

/// Creates a key value store.
#[derive(Debug, PartialEq, Eq)]
pub struct CreateCommand {
    /// The name of the key value store.
    pub name: String,
}

impl CreateCommand {
    /// How the command goes on at `progress` when handed `reply`: it
    /// creates the store unless one of that name exists, and reports it
    /// created.
    pub open spec fn spec_step(&self, progress: ProgressView, reply: ReplyView) -> StepView {
        match (progress, reply) {
            (ProgressView::Listing, ReplyView::Stores(items)) => if names_of(items).contains(
                self.name@,
            ) {
                StepView::Fail(
                    CommandErrorView::AlreadyExists {
                        resource_type: ResourceType::KeyValueStore,
                        name: self.name@,
                    },
                )
            } else {
                StepView::Call {
                    request: RequestView::CreateStore { name: self.name@ },
                    then: ProgressView::Mutating,
                }
            },
            (ProgressView::Listing, ReplyView::Failed(cause)) => fail_remote(
                listing_context(self.name@),
                cause,
            ),
            (ProgressView::Mutating, ReplyView::Done) => finish_with(
                seq![created_message(self.name@)],
            ),
            (ProgressView::Mutating, ReplyView::Failed(cause)) => fail_remote(
                creating_context(self.name@),
                cause,
            ),
            _ => StepView::Fail(CommandErrorView::OutOfTurn),
        }
    }

    /// The first step: fetch the stores.
    pub fn start(&self) -> (r: Step)
        ensures
            r@ == fetch_stores(),
    {
        call_list()
    }

    /// The step that follows `reply`.
    pub fn step(&self, progress: Progress, reply: Reply) -> (r: Step)
        ensures
            r@ == self.spec_step(progress@, reply@),
    {
        match (progress, reply) {
            (Progress::Listing, Reply::Stores(items)) => {
                if has_name(&items, self.name.as_str()) {
                    Step::Fail(
                        CommandError::AlreadyExists {
                            resource_type: ResourceType::KeyValueStore,
                            name: self.name.clone(),
                        },
                    )
                } else {
                    Step::Call {
                        request: Request::CreateStore { name: self.name.clone() },
                        then: Progress::Mutating,
                    }
                }
            },
            (Progress::Listing, Reply::Failed(cause)) => remote_failure(
                wrap("Error listing key value stores '", self.name.as_str(), "'"),
                cause,
            ),
            (Progress::Mutating, Reply::Done) => finish_line(
                wrap("Key value store \"", self.name.as_str(), "\" created"),
            ),
            (Progress::Mutating, Reply::Failed(cause)) => remote_failure(
                wrap("Error creating key value store '", self.name.as_str(), "'"),
                cause,
            ),
            _ => Step::Fail(CommandError::OutOfTurn),
        }
    }
}

/// Gives a key value store another name.
#[derive(Debug, PartialEq, Eq)]
pub struct RenameCommand {
    /// The current name of the key value store.
    pub name: String,
    /// The new name for the key value store.
    pub new_name: String,
}

impl RenameCommand {
    /// How the command goes on at `progress` when handed `reply`: it
    /// renames the store if one of that name exists, and reports both
    /// names.
    pub open spec fn spec_step(&self, progress: ProgressView, reply: ReplyView) -> StepView {
        match (progress, reply) {
            (ProgressView::Listing, ReplyView::Stores(items)) => if names_of(items).contains(
                self.name@,
            ) {
                StepView::Call {
                    request: RequestView::RenameStore {
                        name: self.name@,
                        new_name: self.new_name@,
                    },
                    then: ProgressView::Mutating,
                }
            } else {
                StepView::Fail(
                    CommandErrorView::NotFound {
                        resource_type: ResourceType::KeyValueStore,
                        name: self.name@,
                    },
                )
            },
            (ProgressView::Listing, ReplyView::Failed(cause)) => fail_remote(
                listing_context(self.name@),
                cause,
            ),
            (ProgressView::Mutating, ReplyView::Done) => finish_with(
                seq![renamed_message(self.name@, self.new_name@)],
            ),
            (ProgressView::Mutating, ReplyView::Failed(cause)) => fail_remote(
                renaming_context(self.name@),
                cause,
            ),
            _ => StepView::Fail(CommandErrorView::OutOfTurn),
        }
    }

    /// The first step: fetch the stores.
    pub fn start(&self) -> (r: Step)
        ensures
            r@ == fetch_stores(),
    {
        call_list()
    }

    /// The step that follows `reply`.
    pub fn step(&self, progress: Progress, reply: Reply) -> (r: Step)
        ensures
            r@ == self.spec_step(progress@, reply@),
    {
        match (progress, reply) {
            (Progress::Listing, Reply::Stores(items)) => {
                if has_name(&items, self.name.as_str()) {
                    Step::Call {
                        request: Request::RenameStore {
                            name: self.name.clone(),
                            new_name: self.new_name.clone(),
                        },
                        then: Progress::Mutating,
                    }
                } else {
                    Step::Fail(
                        CommandError::NotFound {
                            resource_type: ResourceType::KeyValueStore,
                            name: self.name.clone(),
                        },
                    )
                }
            },
            (Progress::Listing, Reply::Failed(cause)) => remote_failure(
                wrap("Error listing key value stores '", self.name.as_str(), "'"),
                cause,
            ),
            (Progress::Mutating, Reply::Done) => {
                let mut line = wrap("Key value store \"", self.name.as_str(), "\" is now named \"");
                line.append(self.new_name.as_str());
                line.append("\"");
                finish_line(line)
            },
            (Progress::Mutating, Reply::Failed(cause)) => remote_failure(
                wrap("Error renaming key value store '", self.name.as_str(), "'"),
                cause,
            ),
            _ => Step::Fail(CommandError::OutOfTurn),
        }
    }
}

/// Deletes a key value store.
#[derive(Debug, PartialEq, Eq)]
pub struct DeleteCommand {
    /// The name of the key value store.
    pub name: String,
    /// Delete without asking the user first.
    pub yes: bool,
}

impl DeleteCommand {
    /// The step that asks the service to delete the store.
    pub open spec fn delete_call(&self) -> StepView {
        StepView::Call {
            request: RequestView::DeleteStore { name: self.name@ },
            then: ProgressView::Mutating,
        }
    }

    /// How the command goes on at `progress` when handed `reply`: it finds
    /// the store by its name, asks the user unless told not to, deletes the
    /// store unless the user declined, and reports it deleted.
    pub open spec fn spec_step(&self, progress: ProgressView, reply: ReplyView) -> StepView {
        match (progress, reply) {
            (ProgressView::Listing, ReplyView::Stores(items)) => match ResourceTargetView::ByName(
                self.name@,
            ).resolve(items, ResourceType::KeyValueStore) {
                Err(e) => StepView::Fail(e),
                Ok(item) => if self.yes {
                    self.delete_call()
                } else {
                    StepView::Call {
                        request: RequestView::ConfirmDelete { name: self.name@, links: item.links },
                        then: ProgressView::Confirming,
                    }
                },
            },
            (ProgressView::Listing, ReplyView::Failed(cause)) => fail_remote(
                listing_context(self.name@),
                cause,
            ),
            (ProgressView::Confirming, ReplyView::Confirmed(yes)) => if yes {
                self.delete_call()
            } else {
                finish_with(Seq::empty())
            },
            (ProgressView::Mutating, ReplyView::Done) => finish_with(
                seq![deleted_message(self.name@)],
            ),
            (ProgressView::Mutating, ReplyView::Failed(cause)) => fail_remote(
                deleting_context(self.name@),
                cause,
            ),
            _ => StepView::Fail(CommandErrorView::OutOfTurn),
        }
    }

    /// The first step: fetch the stores.
    pub fn start(&self) -> (r: Step)
        ensures
            r@ == fetch_stores(),
    {
        call_list()
    }

    fn call_delete(&self) -> (r: Step)
        ensures
            r@ == self.delete_call(),
    {
        Step::Call {
            request: Request::DeleteStore { name: self.name.clone() },
            then: Progress::Mutating,
        }
    }

    /// The step that follows `reply`.
    pub fn step(&self, progress: Progress, reply: Reply) -> (r: Step)
        ensures
            r@ == self.spec_step(progress@, reply@),
    {
        match (progress, reply) {
            (Progress::Listing, Reply::Stores(items)) => {
                let target = ResourceTarget::ByName(self.name.clone());
                match target.find_in(items, ResourceType::KeyValueStore) {
                    Err(e) => Step::Fail(e),
                    Ok(item) => {
                        if self.yes {
                            self.call_delete()
                        } else {
                            Step::Call {
                                request: Request::ConfirmDelete {
                                    name: self.name.clone(),
                                    links: item.links,
                                },
                                then: Progress::Confirming,
                            }
                        }
                    },
                }
            },
            (Progress::Listing, Reply::Failed(cause)) => remote_failure(
                wrap("Error listing key value stores '", self.name.as_str(), "'"),
                cause,
            ),
            (Progress::Confirming, Reply::Confirmed(yes)) => {
                if yes {
                    self.call_delete()
                } else {
                    finish_silent()
                }
            },
            (Progress::Mutating, Reply::Done) => finish_line(
                wrap("Key value store \"", self.name.as_str(), "\" deleted"),
            ),
            (Progress::Mutating, Reply::Failed(cause)) => remote_failure(
                wrap("Problem deleting key value store '", self.name.as_str(), "'"),
                cause,
            ),
            _ => Step::Fail(CommandError::OutOfTurn),
        }
    }
}

/// Lists the key value stores.
#[derive(Debug, PartialEq, Eq)]
pub struct ListCommand {
    /// Show only the stores linked to this app.
    pub app: Option<String>,
    /// The name of a key value store; the listing does not depend on it.
    pub store: Option<String>,
    /// The grouping of a tabular listing.
    pub group_by: Option<GroupBy>,
    /// The form of the listing.
    pub format: ListFormat,
}

/// The app of a command as an optional text.
pub fn as_text(value: &Option<String>) -> (r: Option<&str>)
    ensures
        r.deep_view() == value.deep_view(),
{
    match value {
        Some(text) => Some(text.as_str()),
        None => None,
    }
}

impl ListCommand {
    /// A grouping is asked for together with JSON output, which none has.
    pub open spec fn asks_grouped_json(&self) -> bool {
        self.format == ListFormat::Json && self.group_by is Some
    }

    /// What the listing of `items` hands over: as JSON the stores shown, in
    /// their given order; as a table the lines of their groups.
    pub open spec fn listing(&self, items: Seq<ResourceItemView>) -> OutputView {
        match self.format {
            ListFormat::Json => OutputView::Json(shown(items, self.app.deep_view())),
            ListFormat::Table => OutputView::Lines(
                table(
                    grouping_of(items, self.app.deep_view(), strategy(self.group_by)),
                    ResourceType::KeyValueStore,
                ),
            ),
        }
    }

    /// The first step: fetch the stores, unless the request is malformed.
    pub open spec fn spec_start(&self) -> StepView {
        if self.asks_grouped_json() {
            StepView::Fail(CommandErrorView::Configuration(ConfigurationProblem::GroupingWithJson))
        } else {
            fetch_stores()
        }
    }

    /// How the command goes on at `progress` when handed `reply`: it hands
    /// over the listing of the stores.
    pub open spec fn spec_step(&self, progress: ProgressView, reply: ReplyView) -> StepView {
        match (progress, reply) {
            (ProgressView::Listing, ReplyView::Stores(items)) => if self.asks_grouped_json() {
                StepView::Fail(
                    CommandErrorView::Configuration(ConfigurationProblem::GroupingWithJson),
                )
            } else {
                StepView::Finish(self.listing(items))
            },
            (ProgressView::Listing, ReplyView::Failed(cause)) => fail_remote(
                "Error listing key value stores"@,
                cause,
            ),
            _ => StepView::Fail(CommandErrorView::OutOfTurn),
        }
    }

    /// Whether a grouping is asked for together with JSON output.
    pub fn grouped_json(&self) -> (r: bool)
        ensures
            r == self.asks_grouped_json(),
    {
        match (self.format, self.group_by) {
            (ListFormat::Json, Some(_)) => true,
            _ => false,
        }
    }

    /// The first step. JSON output together with a grouping fails here,
    /// before anything is asked of the service.
    pub fn start(&self) -> (r: Step)
        ensures
            r@ == self.spec_start(),
            self.format == ListFormat::Json && self.group_by is Some ==> r@ == StepView::Fail(
                CommandErrorView::Configuration(ConfigurationProblem::GroupingWithJson),
            ),
            !(self.format == ListFormat::Json && self.group_by is Some) ==> r@ == fetch_stores(),
    {
        if self.grouped_json() {
            Step::Fail(CommandError::Configuration(ConfigurationProblem::GroupingWithJson))
        } else {
            call_list()
        }
    }

    /// The step that follows `reply`.
    pub fn step(&self, progress: Progress, reply: Reply) -> (r: Step)
        ensures
            r@ == self.spec_step(progress@, reply@),
    {
        match (progress, reply) {
            (Progress::Listing, Reply::Stores(items)) => {
                if self.grouped_json() {
                    return Step::Fail(
                        CommandError::Configuration(ConfigurationProblem::GroupingWithJson),
                    );
                }
                match self.format {
                    ListFormat::Json => Step::Finish(
                        Output::Json(filter_by_app(items, as_text(&self.app))),
                    ),
                    ListFormat::Table => {
                        let group_by = match self.group_by {
                            Some(g) => Some(ResourceGroupBy::from(g)),
                            None => None,
                        };
                        let groups = group_resources(items, as_text(&self.app), group_by);
                        finish_lines(render_table(&groups, ResourceType::KeyValueStore))
                    },
                }
            },
            (Progress::Listing, Reply::Failed(cause)) => remote_failure(
                String::from_str("Error listing key value stores"),
                cause,
            ),
            _ => Step::Fail(CommandError::OutOfTurn),
        }
    }
}

/// Sets pairs in a key value store.
#[derive(Debug, PartialEq, Eq)]
pub struct SetCommand {
    /// The name of the key value store.
    pub store: Option<String>,
    /// The label under which an app refers to the key value store.
    pub label: Option<String>,
    /// The app to which the label belongs.
    pub app: Option<String>,
    /// The pairs to set, each a key and a value.
    pub key_values: Vec<(String, String)>,
}

impl SetCommand {
    /// The target that the command's selectors describe, if any.
    pub open spec fn target(&self) -> Option<ResourceTargetView> {
        ResourceTargetView::from_inputs(
            self.store.deep_view(),
            self.label.deep_view(),
            self.app.deep_view(),
        )
    }

    /// The step once the pairs before place `at` are set in `store`: set
    /// the pair at that place, or finish where none is left.
    pub open spec fn set_from(&self, store: Seq<char>, at: int) -> StepView {
        let pairs = self.key_values.deep_view();
        if 0 <= at < pairs.len() {
            StepView::Call {
                request: RequestView::SetPair { store, key: pairs[at].0, value: pairs[at].1 },
                then: ProgressView::Setting { store, next: (at + 1) as usize },
            }
        } else {
            finish_with(Seq::empty())
        }
    }

    /// The first step: fetch the stores, unless the selectors are
    /// malformed.
    pub open spec fn spec_start(&self) -> StepView {
        if self.target() is Some {
            fetch_stores()
        } else {
            StepView::Fail(CommandErrorView::Configuration(ConfigurationProblem::TargetSelectors))
        }
    }

    /// How the command goes on at `progress` when handed `reply`: it finds
    /// the one store that its selectors stand for and sets the pairs in it,
    /// one after another in their given order, until one fails.
    pub open spec fn spec_step(&self, progress: ProgressView, reply: ReplyView) -> StepView {
        let pairs = self.key_values.deep_view();
        match (progress, reply) {
            (ProgressView::Listing, ReplyView::Stores(items)) => match self.target() {
                None => StepView::Fail(
                    CommandErrorView::Configuration(ConfigurationProblem::TargetSelectors),
                ),
                Some(target) => match target.resolve(items, ResourceType::KeyValueStore) {
                    Err(e) => StepView::Fail(e),
                    Ok(item) => self.set_from(item.name, 0),
                },
            },
            (ProgressView::Listing, ReplyView::Failed(cause)) => fail_remote(
                "Problem fetching key value stores"@,
                cause,
            ),
            (ProgressView::Setting { store, next }, ReplyView::Done) => if 1 <= next
                <= pairs.len() {
                self.set_from(store, next as int)
            } else {
                StepView::Fail(CommandErrorView::OutOfTurn)
            },
            (ProgressView::Setting { store, next }, ReplyView::Failed(cause)) => if 1 <= next
                <= pairs.len() {
                fail_remote(setting_context(store, pairs[next - 1].0, pairs[next - 1].1), cause)
            } else {
                StepView::Fail(CommandErrorView::OutOfTurn)
            },
            _ => StepView::Fail(CommandErrorView::OutOfTurn),
        }
    }

    /// The first step. Malformed selectors fail here, before anything is
    /// asked of the service.
    pub fn start(&self) -> (r: Step)
        ensures
            r@ == self.spec_start(),
    {
        match ResourceTarget::from_inputs(&self.store, &self.label, &self.app) {
            Ok(_) => call_list(),
            Err(e) => Step::Fail(e),
        }
    }

    fn call_set_from(&self, store: String, at: usize) -> (r: Step)
        ensures
            r@ == self.set_from(store@, at as int),
    {
        if at < self.key_values.len() {
            let pair = &self.key_values[at];
            Step::Call {
                request: Request::SetPair {
                    store: store.clone(),
                    key: pair.0.clone(),
                    value: pair.1.clone(),
                },
                then: Progress::Setting { store, next: at + 1 },
            }
        } else {
            finish_silent()
        }
    }

    /// The step that follows `reply`.
    pub fn step(&self, progress: Progress, reply: Reply) -> (r: Step)
        ensures
            r@ == self.spec_step(progress@, reply@),
    {
        match (progress, reply) {
            (Progress::Listing, Reply::Stores(items)) => {
                match ResourceTarget::from_inputs(&self.store, &self.label, &self.app) {
                    Err(e) => Step::Fail(e),
                    Ok(target) => match target.find_in(items, ResourceType::KeyValueStore) {
                        Err(e) => Step::Fail(e),
                        Ok(item) => self.call_set_from(item.name, 0),
                    },
                }
            },
            (Progress::Listing, Reply::Failed(cause)) => remote_failure(
                String::from_str("Problem fetching key value stores"),
                cause,
            ),
            (Progress::Setting { store, next }, Reply::Done) => {
                if 1 <= next && next <= self.key_values.len() {
                    self.call_set_from(store, next)
                } else {
                    Step::Fail(CommandError::OutOfTurn)
                }
            },
            (Progress::Setting { store, next }, Reply::Failed(cause)) => {
                if 1 <= next && next <= self.key_values.len() {
                    let pair = &self.key_values[next - 1];
                    let mut context = wrap("Error adding key value pair '", pair.0.as_str(), "=");
                    context.append(pair.1.as_str());
                    context.append("' to store '");
                    context.append(store.as_str());
                    context.append("'");
                    remote_failure(context, cause)
                } else {
                    Step::Fail(CommandError::OutOfTurn)
                }
            },
            _ => Step::Fail(CommandError::OutOfTurn),
        }
    }
}

/// A command on key value stores.
#[derive(Debug, PartialEq, Eq)]
pub enum KeyValueCommand {
    /// Create a new key value store.
    Create(CreateCommand),
    /// Delete a key value store.
    Delete(DeleteCommand),
    /// List key value stores.
    List(ListCommand),
    /// Set a key value pair in a store.
    SetPairs(SetCommand),
    /// Rename a key value store.
    Rename(RenameCommand),
}

impl KeyValueCommand {
    /// The first step of the command.
    pub open spec fn spec_start(&self) -> StepView {
        match self {
            KeyValueCommand::Create(_) => fetch_stores(),
            KeyValueCommand::Delete(_) => fetch_stores(),
            KeyValueCommand::List(cmd) => cmd.spec_start(),
            KeyValueCommand::SetPairs(cmd) => cmd.spec_start(),
            KeyValueCommand::Rename(_) => fetch_stores(),
        }
    }

    /// How the command goes on at `progress` when handed `reply`.
    pub open spec fn spec_step(&self, progress: ProgressView, reply: ReplyView) -> StepView {
        match self {
            KeyValueCommand::Create(cmd) => cmd.spec_step(progress, reply),
            KeyValueCommand::Delete(cmd) => cmd.spec_step(progress, reply),
            KeyValueCommand::List(cmd) => cmd.spec_step(progress, reply),
            KeyValueCommand::SetPairs(cmd) => cmd.spec_step(progress, reply),
            KeyValueCommand::Rename(cmd) => cmd.spec_step(progress, reply),
        }
    }

    /// The first step of the command.
    pub fn start(&self) -> (r: Step)
        ensures
            r@ == self.spec_start(),
    {
        match self {
            KeyValueCommand::Create(cmd) => cmd.start(),
            KeyValueCommand::Delete(cmd) => cmd.start(),
            KeyValueCommand::List(cmd) => cmd.start(),
            KeyValueCommand::SetPairs(cmd) => cmd.start(),
            KeyValueCommand::Rename(cmd) => cmd.start(),
        }
    }

    /// The step that follows `reply`, where the command stood at
    /// `progress`.
    pub fn step(&self, progress: Progress, reply: Reply) -> (r: Step)
        ensures
            r@ == self.spec_step(progress@, reply@),
    {
        match self {
            KeyValueCommand::Create(cmd) => cmd.step(progress, reply),
            KeyValueCommand::Delete(cmd) => cmd.step(progress, reply),
            KeyValueCommand::List(cmd) => cmd.step(progress, reply),
            KeyValueCommand::SetPairs(cmd) => cmd.step(progress, reply),
            KeyValueCommand::Rename(cmd) => cmd.step(progress, reply),
        }
    }
}

/// A command that is handed a reply which does not answer what it asked
/// fails as out of turn, whatever the command.
pub proof fn lemma_unanswered_is_out_of_turn(
    command: KeyValueCommand,
    progress: ProgressView,
    reply: ReplyView,
)
    requires
        !answers(progress, reply),
    ensures
        command.spec_step(progress, reply) == StepView::Fail(CommandErrorView::OutOfTurn),
{
}

/// No command asks the service to change anything before it has seen the
/// stores: its first step fetches them, or fails.
pub proof fn lemma_starts_by_fetching(command: KeyValueCommand)
    ensures
        command.spec_start() == fetch_stores() || command.spec_start() is Fail,
{
}

} // verus!
