//! The data exchanged with the remote service: resources and their links.

use crate::text::str_eq;
use vstd::prelude::*;

verus! {

/// The kind of remote resource that a command addresses.
#[derive(Clone, Copy, Debug, PartialEq, Eq, Structural)]
pub enum ResourceType {
    Database,
    KeyValueStore,
}

impl ResourceType {
    /// The kind's name as it stands inside a sentence.
    pub open spec fn spec_name(self) -> Seq<char> {
        match self {
            ResourceType::Database => "database"@,
            ResourceType::KeyValueStore => "key value store"@,
        }
    }

    /// The kind's name as it stands at the start of a sentence.
    pub open spec fn spec_title(self) -> Seq<char> {
        match self {
            ResourceType::Database => "Database"@,
            ResourceType::KeyValueStore => "Key value store"@,
        }
    }

    /// The kind's name as it stands inside a sentence.
    pub fn name(self) -> (r: &'static str)
        ensures
            r@ == self.spec_name(),
    {
        match self {
            ResourceType::Database => "database",
            ResourceType::KeyValueStore => "key value store",
        }
    }

    /// The kind's name as it stands at the start of a sentence.
    pub fn title(self) -> (r: &'static str)
        ensures
            r@ == self.spec_title(),
    {
        match self {
            ResourceType::Database => "Database",
            ResourceType::KeyValueStore => "Key value store",
        }
    }
}

/// Records that an app refers to a resource under a label.
#[derive(Debug, PartialEq, Eq)]
pub struct AppLink {
    pub app_name: String,
    pub label: String,
}

/// What an [`AppLink`] holds.
pub struct AppLinkView {
    pub app_name: Seq<char>,
    pub label: Seq<char>,
}

impl View for AppLink {
    type V = AppLinkView;

    open spec fn view(&self) -> AppLinkView {
        AppLinkView { app_name: self.app_name@, label: self.label@ }
    }
}

impl DeepView for AppLink {
    type V = AppLinkView;

    open spec fn deep_view(&self) -> AppLinkView {
        self@
    }
}

impl Clone for AppLink {
    fn clone(&self) -> (r: Self)
        ensures
            r@ == self@,
    {
        AppLink { app_name: self.app_name.clone(), label: self.label.clone() }
    }
}

impl AppLink {
    pub fn new(app_name: String, label: String) -> (r: Self)
        ensures
            r@ == (AppLinkView { app_name: app_name@, label: label@ }),
    {
        AppLink { app_name, label }
    }
}

/// A named remote resource with the links that refer to it, in the order in
/// which the service reported them.
#[derive(Debug, PartialEq, Eq)]
pub struct ResourceItem {
    pub name: String,
    pub links: Vec<AppLink>,
}

/// What a [`ResourceItem`] holds.
pub struct ResourceItemView {
    pub name: Seq<char>,
    pub links: Seq<AppLinkView>,
}

impl ResourceItemView {
    /// Some link of the resource belongs to `app`.
    pub open spec fn has_app(self, app: Seq<char>) -> bool {
        exists|i: int| 0 <= i < self.links.len() && (#[trigger] self.links[i]).app_name == app
    }

    /// Some link of the resource belongs to `app` and carries `label`.
    pub open spec fn has_link(self, label: Seq<char>, app: Seq<char>) -> bool {
        self.links.contains(AppLinkView { app_name: app, label })
    }
}

impl View for ResourceItem {
    type V = ResourceItemView;

    open spec fn view(&self) -> ResourceItemView {
        ResourceItemView { name: self.name@, links: self.links.deep_view() }
    }
}

impl DeepView for ResourceItem {
    type V = ResourceItemView;

    open spec fn deep_view(&self) -> ResourceItemView {
        self@
    }
}

/// Copies a list of links, keeping their order.
pub fn clone_links(links: &Vec<AppLink>) -> (r: Vec<AppLink>)
    ensures
        r.deep_view() == links.deep_view(),
{
    let mut out: Vec<AppLink> = Vec::new();
    let mut i: usize = 0;
    while i < links.len()
        invariant
            i <= links.len(),
            out.len() == i,
            forall|j: int| 0 <= j < i ==> out[j]@ == links[j]@,
        decreases links.len() - i,
    {
        out.push(links[i].clone());
        i += 1;
    }
    assert(out.deep_view() =~= links.deep_view());
    out
}

impl Clone for ResourceItem {
    fn clone(&self) -> (r: Self)
        ensures
            r@ == self@,
    {
        ResourceItem { name: self.name.clone(), links: clone_links(&self.links) }
    }
}

impl ResourceItem {
    pub fn new(name: String, links: Vec<AppLink>) -> (r: Self)
        ensures
            r@ == (ResourceItemView { name: name@, links: links.deep_view() }),
    {
        ResourceItem { name, links }
    }

    /// Whether some link of the resource belongs to `app`.
    pub fn has_app(&self, app: &str) -> (r: bool)
        ensures
            r == self@.has_app(app@),
    {
        let mut i: usize = 0;
        while i < self.links.len()
            invariant
                i <= self.links.len(),
                forall|j: int| 0 <= j < i ==> (#[trigger] self@.links[j]).app_name != app@,
            decreases self.links.len() - i,
        {
            if str_eq(self.links[i].app_name.as_str(), app) {
                assert(self@.links[i as int].app_name == app@);
                return true;
            }
            i += 1;
        }
        false
    }

    /// Whether some link of the resource belongs to `app` and carries `label`.
    pub fn has_link(&self, label: &str, app: &str) -> (r: bool)
        ensures
            r == self@.has_link(label@, app@),
    {
        let ghost wanted = AppLinkView { app_name: app@, label: label@ };
        let mut i: usize = 0;
        while i < self.links.len()
            invariant
                i <= self.links.len(),
                wanted == (AppLinkView { app_name: app@, label: label@ }),
                forall|j: int| 0 <= j < i ==> self@.links[j] != wanted,
            decreases self.links.len() - i,
        {
            let link = &self.links[i];
            if str_eq(link.label.as_str(), label) && str_eq(link.app_name.as_str(), app) {
                assert(self@.links[i as int] == wanted);
                return true;
            }
            i += 1;
        }
        false
    }
}

} // verus!
