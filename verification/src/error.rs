//! The ways in which a command fails, and the sentence that reports each.

use crate::model::ResourceType;
use crate::text::{join, join_strings};
use vstd::prelude::*;

verus! {

/// What is wrong with a request before anything is asked of the service.
#[derive(Clone, Copy, Debug, PartialEq, Eq, Structural)]
pub enum ConfigurationProblem {
    /// Neither a store alone nor a label with its app was given, or one of
    /// the values given is empty.
    TargetSelectors,
    /// A grouping was asked for together with JSON output.
    GroupingWithJson,
    /// A pair to set does not have the form `key=value`.
    KeyValuePair,
}

impl ConfigurationProblem {
    pub open spec fn spec_message(self) -> Seq<char> {
        match self {
            ConfigurationProblem::TargetSelectors =>
                "Specify either a store name, or both a label and an app; none of them may be empty"@,
            ConfigurationProblem::GroupingWithJson =>
                "Grouping is not supported with JSON format output"@,
            ConfigurationProblem::KeyValuePair => "Key/Values must be of the form `key=value`"@,
        }
    }

    pub fn message(self) -> (r: &'static str)
        ensures
            r@ == self.spec_message(),
    {
        match self {
            ConfigurationProblem::TargetSelectors =>
                "Specify either a store name, or both a label and an app; none of them may be empty",
            ConfigurationProblem::GroupingWithJson =>
                "Grouping is not supported with JSON format output",
            ConfigurationProblem::KeyValuePair => "Key/Values must be of the form `key=value`",
        }
    }
}

/// Why a command ended without doing what was asked.
#[derive(Debug, PartialEq, Eq)]
pub enum CommandError {
    /// The request is malformed; the service was not contacted.
    Configuration(ConfigurationProblem),
    /// No resource has the given name.
    NotFound { resource_type: ResourceType, name: String },
    /// No resource is linked to the app under the label.
    NotFoundByLabel { resource_type: ResourceType, label: String, app: String },
    /// Several resources are linked to the app under the label; `names` lists
    /// them in the order in which the service reported them.
    Ambiguous { resource_type: ResourceType, label: String, app: String, names: Vec<String> },
    /// A resource with the given name exists already.
    AlreadyExists { resource_type: ResourceType, name: String },
    /// A call to the service failed; `context` says which.
    Remote { context: String, cause: String },
    /// The command was handed a reply to something that it had not asked.
    OutOfTurn,
}

/// What a [`CommandError`] holds.
pub enum CommandErrorView {
    Configuration(ConfigurationProblem),
    NotFound { resource_type: ResourceType, name: Seq<char> },
    NotFoundByLabel { resource_type: ResourceType, label: Seq<char>, app: Seq<char> },
    Ambiguous { resource_type: ResourceType, label: Seq<char>, app: Seq<char>, names: Seq<Seq<char>> },
    AlreadyExists { resource_type: ResourceType, name: Seq<char> },
    Remote { context: Seq<char>, cause: Seq<char> },
    OutOfTurn,
}

impl View for CommandError {
    type V = CommandErrorView;

    open spec fn view(&self) -> CommandErrorView {
        match self {
            CommandError::Configuration(problem) => CommandErrorView::Configuration(*problem),
            CommandError::NotFound { resource_type, name } => CommandErrorView::NotFound {
                resource_type: *resource_type,
                name: name@,
            },
            CommandError::NotFoundByLabel { resource_type, label, app } =>
                CommandErrorView::NotFoundByLabel {
                    resource_type: *resource_type,
                    label: label@,
                    app: app@,
                },
            CommandError::Ambiguous { resource_type, label, app, names } =>
                CommandErrorView::Ambiguous {
                    resource_type: *resource_type,
                    label: label@,
                    app: app@,
                    names: names.deep_view(),
                },
            CommandError::AlreadyExists { resource_type, name } => CommandErrorView::AlreadyExists {
                resource_type: *resource_type,
                name: name@,
            },
            CommandError::Remote { context, cause } => CommandErrorView::Remote {
                context: context@,
                cause: cause@,
            },
            CommandError::OutOfTurn => CommandErrorView::OutOfTurn,
        }
    }
}

impl CommandErrorView {
    /// The sentence that reports the failure to the user.
    pub open spec fn message(self) -> Seq<char> {
        match self {
            CommandErrorView::Configuration(problem) => problem.spec_message(),
            CommandErrorView::NotFound { resource_type, name } => "No "@ + resource_type.spec_name()
                + " found with name \""@ + name + "\""@,
            CommandErrorView::NotFoundByLabel { resource_type, label, app } => "No "@
                + resource_type.spec_name() + " found with label \""@ + label + "\" for app \""@
                + app + "\". Address the "@ + resource_type.spec_name() + " by its name instead"@,
            CommandErrorView::Ambiguous { resource_type, label, app, names } => "More than one "@
                + resource_type.spec_name() + " found with label \""@ + label + "\" for app \""@
                + app + "\": "@ + join(names, ", "@) + ". Address one of them by its exact name"@,
            CommandErrorView::AlreadyExists { resource_type, name } => resource_type.spec_title()
                + " \""@ + name + "\" already exists"@,
            CommandErrorView::Remote { context, cause } => context + ": "@ + cause,
            CommandErrorView::OutOfTurn => "The reply does not answer what the command asked"@,
        }
    }
}

impl CommandError {
    /// The sentence that reports the failure to the user.
    pub fn message(&self) -> (r: String)
        ensures
            r@ == self@.message(),
    {
        match self {
            CommandError::Configuration(problem) => String::from_str(problem.message()),
            CommandError::NotFound { resource_type, name } => {
                let mut out = String::from_str("No ");
                out.append(resource_type.name());
                out.append(" found with name \"");
                out.append(name.as_str());
                out.append("\"");
                out
            },
            CommandError::NotFoundByLabel { resource_type, label, app } => {
                let mut out = String::from_str("No ");
                out.append(resource_type.name());
                out.append(" found with label \"");
                out.append(label.as_str());
                out.append("\" for app \"");
                out.append(app.as_str());
                out.append("\". Address the ");
                out.append(resource_type.name());
                out.append(" by its name instead");
                out
            },
            CommandError::Ambiguous { resource_type, label, app, names } => {
                let listed = join_strings(names, ", ");
                let mut out = String::from_str("More than one ");
                out.append(resource_type.name());
                out.append(" found with label \"");
                out.append(label.as_str());
                out.append("\" for app \"");
                out.append(app.as_str());
                out.append("\": ");
                out.append(listed.as_str());
                out.append(". Address one of them by its exact name");
                out
            },
            CommandError::AlreadyExists { resource_type, name } => {
                let mut out = String::from_str(resource_type.title());
                out.append(" \"");
                out.append(name.as_str());
                out.append("\" already exists");
                out
            },
            CommandError::Remote { context, cause } => {
                let mut out = context.clone();
                out.append(": ");
                out.append(cause.as_str());
                out
            },
            CommandError::OutOfTurn => String::from_str(
                "The reply does not answer what the command asked",
            ),
        }
    }
}

} // verus!
