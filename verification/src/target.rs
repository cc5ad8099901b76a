//! Addressing one resource: by its name, or by the label under which an app
//! refers to it.

use crate::error::{CommandError, CommandErrorView, ConfigurationProblem};
use crate::model::{ResourceItem, ResourceItemView, ResourceType};
use crate::text::str_eq;
use vstd::prelude::*;

verus! {

/// The way in which a command addresses the one resource that it works on.
#[derive(Debug, PartialEq, Eq)]
pub enum ResourceTarget {
    /// The resource with this name.
    ByName(String),
    /// The resource to which `app` refers under `label`.
    ByLabel { label: String, app: String },
}

/// What a [`ResourceTarget`] holds.
pub enum ResourceTargetView {
    ByName(Seq<char>),
    ByLabel { label: Seq<char>, app: Seq<char> },
}

impl View for ResourceTarget {
    type V = ResourceTargetView;

    open spec fn view(&self) -> ResourceTargetView {
        match self {
            ResourceTarget::ByName(name) => ResourceTargetView::ByName(name@),
            ResourceTarget::ByLabel { label, app } => ResourceTargetView::ByLabel {
                label: label@,
                app: app@,
            },
        }
    }
}

/// The names of the resources, in order.
pub open spec fn names_of(items: Seq<ResourceItemView>) -> Seq<Seq<char>> {
    items.map_values(|r: ResourceItemView| r.name)
}

impl ResourceTargetView {
    /// The target that the three selectors describe: a store alone, or a
    /// label together with its app, none of them empty. Any other
    /// combination describes none.
    pub open spec fn from_inputs(
        store: Option<Seq<char>>,
        label: Option<Seq<char>>,
        app: Option<Seq<char>>,
    ) -> Option<ResourceTargetView> {
        match (store, label, app) {
            (Some(s), None, None) => if s.len() > 0 {
                Some(ResourceTargetView::ByName(s))
            } else {
                None
            },
            (None, Some(l), Some(a)) => if l.len() > 0 && a.len() > 0 {
                Some(ResourceTargetView::ByLabel { label: l, app: a })
            } else {
                None
            },
            _ => None,
        }
    }

    /// The target addresses `item`.
    pub open spec fn selects(self, item: ResourceItemView) -> bool {
        match self {
            ResourceTargetView::ByName(name) => item.name == name,
            ResourceTargetView::ByLabel { label, app } => item.has_link(label, app),
        }
    }

    /// The resources that the target addresses, in the order of `items`.
    pub open spec fn candidates(self, items: Seq<ResourceItemView>) -> Seq<ResourceItemView> {
        items.filter(|r: ResourceItemView| self.selects(r))
    }

    /// The one resource among `items` that the target stands for, or the
    /// reason why there is none. A name stands for the first resource that
    /// carries it. A label stands for a resource only if it addresses
    /// exactly one.
    pub open spec fn resolve(
        self,
        items: Seq<ResourceItemView>,
        resource_type: ResourceType,
    ) -> Result<ResourceItemView, CommandErrorView> {
        let found = self.candidates(items);
        match self {
            ResourceTargetView::ByName(name) => if found.len() == 0 {
                Err(CommandErrorView::NotFound { resource_type, name })
            } else {
                Ok(found[0])
            },
            ResourceTargetView::ByLabel { label, app } => if found.len() == 0 {
                Err(CommandErrorView::NotFoundByLabel { resource_type, label, app })
            } else if found.len() == 1 {
                Ok(found[0])
            } else {
                Err(
                    CommandErrorView::Ambiguous {
                        resource_type,
                        label,
                        app,
                        names: names_of(found),
                    },
                )
            },
        }
    }
}

/// Adding a resource at the end adds it to the candidates exactly when the
/// target addresses it.
pub proof fn lemma_candidates_push(
    target: ResourceTargetView,
    items: Seq<ResourceItemView>,
    item: ResourceItemView,
)
    ensures
        target.candidates(items.push(item)) == if target.selects(item) {
            target.candidates(items).push(item)
        } else {
            target.candidates(items)
        },
{
    items.lemma_filter_push(item, |r: ResourceItemView| target.selects(r));
}

/// How the candidates relate to the places in `items`: none is a candidate
/// exactly when the target addresses no place; the first candidate is the
/// resource at the first place that the target addresses; and there are two
/// or more exactly when the target addresses two places.
pub proof fn lemma_candidates_by_place(target: ResourceTargetView, items: Seq<ResourceItemView>)
    ensures
        (target.candidates(items).len() == 0) <==> (forall|i: int|
            0 <= i < items.len() ==> !target.selects(#[trigger] items[i])),
        target.candidates(items).len() >= 1 ==> exists|i: int|
            0 <= i < items.len() && target.selects(#[trigger] items[i]) && target.candidates(
                items,
            )[0] == items[i] && (forall|j: int| 0 <= j < i ==> !target.selects(#[trigger] items[j])),
        (target.candidates(items).len() >= 2) <==> (exists|i: int, j: int|
            #![trigger items[i], items[j]]
            0 <= i < j < items.len() && target.selects(items[i]) && target.selects(items[j])),
    decreases items.len(),
{
    if items.len() == 0 {
        return ;
    }
    let prev = items.drop_last();
    let last = items.last();
    let n = prev.len() as int;
    assert(items =~= prev.push(last));
    lemma_candidates_push(target, prev, last);
    lemma_candidates_by_place(target, prev);
    let before = target.candidates(prev);
    let found = target.candidates(items);
    assert(forall|i: int| 0 <= i < n ==> items[i] == prev[i]);
    if found.len() >= 1 {
        if before.len() >= 1 {
            let i = choose|i: int|
                0 <= i < prev.len() && target.selects(#[trigger] prev[i]) && before[0] == prev[i]
                    && (forall|j: int| 0 <= j < i ==> !target.selects(#[trigger] prev[j]));
            assert(target.selects(items[i]) && found[0] == items[i]);
            assert(forall|j: int| 0 <= j < i ==> !target.selects(#[trigger] items[j]));
        } else {
            assert(target.selects(items[n]) && found[0] == items[n]);
            assert(forall|j: int| 0 <= j < n ==> !target.selects(#[trigger] items[j]));
        }
    }
    if found.len() >= 2 {
        if before.len() >= 2 {
            let (i, j) = choose|i: int, j: int|
                #![trigger prev[i], prev[j]]
                0 <= i < j < prev.len() && target.selects(prev[i]) && target.selects(prev[j]);
            assert(target.selects(items[i]) && target.selects(items[j]));
        } else {
            let i = choose|i: int| 0 <= i < prev.len() && target.selects(#[trigger] prev[i]);
            assert(target.selects(items[i]) && target.selects(items[n]));
        }
    }
    if exists|i: int, j: int|
        #![trigger items[i], items[j]]
        0 <= i < j < items.len() && target.selects(items[i]) && target.selects(items[j]) {
        let (i, j) = choose|i: int, j: int|
            #![trigger items[i], items[j]]
            0 <= i < j < items.len() && target.selects(items[i]) && target.selects(items[j]);
        assert(target.selects(prev[i]));
        if j < n {
            assert(target.selects(prev[i]) && target.selects(prev[j]));
        }
    }
}

/// A name stands for the first resource that carries it, which is the only
/// one where names are unique, and for none exactly when no resource
/// carries it.
pub proof fn lemma_resolve_by_name(
    items: Seq<ResourceItemView>,
    name: Seq<char>,
    resource_type: ResourceType,
)
    ensures
        ({
            let r = ResourceTargetView::ByName(name).resolve(items, resource_type);
            &&& (forall|i: int| 0 <= i < items.len() ==> (#[trigger] items[i]).name != name) <==> r
                == Err::<ResourceItemView, CommandErrorView>(
                CommandErrorView::NotFound { resource_type, name },
            )
            &&& forall|i: int|
                0 <= i < items.len() && (#[trigger] items[i]).name == name && (forall|j: int|
                    0 <= j < i ==> (#[trigger] items[j]).name != name) ==> r == Ok::<
                    ResourceItemView,
                    CommandErrorView,
                >(items[i])
        }),
{
    let target = ResourceTargetView::ByName(name);
    lemma_candidates_by_place(target, items);
    assert(forall|i: int| 0 <= i < items.len() ==> (target.selects(#[trigger] items[i]) <==> items[i].name == name));
}

/// A label with its app stands for a resource exactly when one resource is
/// linked so: with none the outcome is `NotFoundByLabel`, with two or more
/// it is `Ambiguous` and names them all, and no other outcome is `Ambiguous`
/// or `NotFoundByLabel`.
pub proof fn lemma_resolve_by_label(
    items: Seq<ResourceItemView>,
    label: Seq<char>,
    app: Seq<char>,
    resource_type: ResourceType,
)
    ensures
        ({
            let target = ResourceTargetView::ByLabel { label, app };
            let r = target.resolve(items, resource_type);
            &&& (r matches Err(CommandErrorView::Ambiguous { .. })) <==> (exists|i: int, j: int|
                #![trigger items[i], items[j]]
                0 <= i < j < items.len() && items[i].has_link(label, app) && items[j].has_link(
                    label,
                    app,
                ))
            &&& (r matches Err(CommandErrorView::NotFoundByLabel { .. })) <==> (forall|i: int|
                0 <= i < items.len() ==> !(#[trigger] items[i]).has_link(label, app))
            &&& forall|i: int|
                0 <= i < items.len() && (#[trigger] items[i]).has_link(label, app) && (forall|j: int|
                    0 <= j < items.len() && j != i ==> !(#[trigger] items[j]).has_link(label, app))
                    ==> r == Ok::<ResourceItemView, CommandErrorView>(items[i])
            &&& r is Ok ==> items.contains(r->Ok_0) && r->Ok_0.has_link(label, app)
            &&& r matches Err(CommandErrorView::Ambiguous { names, .. }) ==> names == names_of(
                target.candidates(items),
            )
        }),
{
    let target = ResourceTargetView::ByLabel { label, app };
    lemma_candidates_by_place(target, items);
    let found = target.candidates(items);
    assert(forall|i: int|
        0 <= i < items.len() ==> (target.selects(#[trigger] items[i]) <==> items[i].has_link(
            label,
            app,
        )));
    assert forall|i: int|
        0 <= i < items.len() && (#[trigger] items[i]).has_link(label, app) && (forall|j: int|
            0 <= j < items.len() && j != i ==> !(#[trigger] items[j]).has_link(
                label,
                app,
            )) implies target.resolve(items, resource_type) == Ok::<
        ResourceItemView,
        CommandErrorView,
    >(items[i]) by {
        assert(target.selects(items[i]));
        if found.len() >= 2 {
            let (a, b) = choose|a: int, b: int|
                #![trigger items[a], items[b]]
                0 <= a < b < items.len() && target.selects(items[a]) && target.selects(items[b]);
            assert(a != i || b != i);
            assert(items[a].has_link(label, app) && items[b].has_link(label, app));
        }
        let k = choose|k: int|
            0 <= k < items.len() && target.selects(#[trigger] items[k]) && found[0] == items[k];
        assert(items[k].has_link(label, app));
        assert(k == i);
    }
}

/// Whether some resource carries the name.
pub fn has_name(items: &Vec<ResourceItem>, name: &str) -> (r: bool)
    ensures
        r == names_of(items.deep_view()).contains(name@),
{
    let ghost names = names_of(items.deep_view());
    let mut i: usize = 0;
    while i < items.len()
        invariant
            i <= items.len(),
            names == names_of(items.deep_view()),
            forall|j: int| 0 <= j < i ==> names[j] != name@,
        decreases items.len() - i,
    {
        if str_eq(items[i].name.as_str(), name) {
            assert(names[i as int] == name@);
            return true;
        }
        i += 1;
    }
    false
}

impl ResourceTarget {
    /// Builds the target from the selectors that the user gave.
    pub fn from_inputs(store: &Option<String>, label: &Option<String>, app: &Option<String>) -> (r:
        Result<ResourceTarget, CommandError>)
        ensures
            match ResourceTargetView::from_inputs(
                store.deep_view(),
                label.deep_view(),
                app.deep_view(),
            ) {
                Some(target) => r matches Ok(t) && t@ == target,
                None => r matches Err(e) && e@ == CommandErrorView::Configuration(
                    ConfigurationProblem::TargetSelectors,
                ),
            },
    {
        match (store, label, app) {
            (Some(s), None, None) => {
                if !s.as_str().is_empty() {
                    return Ok(ResourceTarget::ByName(s.clone()));
                }
            },
            (None, Some(l), Some(a)) => {
                if !l.as_str().is_empty() && !a.as_str().is_empty() {
                    return Ok(ResourceTarget::ByLabel { label: l.clone(), app: a.clone() });
                }
            },
            _ => {},
        }
        Err(CommandError::Configuration(ConfigurationProblem::TargetSelectors))
    }

    /// Whether the target addresses `item`.
    pub fn selects(&self, item: &ResourceItem) -> (r: bool)
        ensures
            r == self@.selects(item@),
    {
        match self {
            ResourceTarget::ByName(name) => str_eq(item.name.as_str(), name.as_str()),
            ResourceTarget::ByLabel { label, app } => item.has_link(label.as_str(), app.as_str()),
        }
    }

    /// Finds among `resources` the one that the target stands for.
    pub fn find_in(&self, resources: Vec<ResourceItem>, resource_type: ResourceType) -> (r: Result<
        ResourceItem,
        CommandError,
    >)
        ensures
            match r {
                Ok(item) => self@.resolve(resources.deep_view(), resource_type) == Ok::<
                    ResourceItemView,
                    CommandErrorView,
                >(item@),
                Err(e) => self@.resolve(resources.deep_view(), resource_type) == Err::<
                    ResourceItemView,
                    CommandErrorView,
                >(e@),
            },
    {
        let mut resources = resources;
        let ghost all = resources.deep_view();
        let mut names: Vec<String> = Vec::new();
        let mut first: usize = 0;
        let mut i: usize = 0;
        while i < resources.len()
            invariant
                i <= resources.len(),
                resources.deep_view() == all,
                names.deep_view() == names_of(self@.candidates(all.take(i as int))),
                names.len() > 0 ==> first < i && all[first as int] == self@.candidates(
                    all.take(i as int),
                )[0],
            decreases resources.len() - i,
        {
            proof {
                lemma_candidates_push(self@, all.take(i as int), all[i as int]);
                assert(all.take(i + 1) =~= all.take(i as int).push(all[i as int]));
            }
            let ghost before = self@.candidates(all.take(i as int));
            if self.selects(&resources[i]) {
                if names.len() == 0 {
                    first = i;
                }
                let ghost old_names = names.deep_view();
                names.push(resources[i].name.clone());
                proof {
                    assert(names.deep_view() =~= old_names.push(all[i as int].name));
                    assert(names_of(before.push(all[i as int])) =~= names_of(before).push(
                        all[i as int].name,
                    ));
                }
            }
            i += 1;
        }
        assert(all.take(i as int) =~= all);
        if names.len() == 0 {
            return Err(
                match self {
                    ResourceTarget::ByName(name) => CommandError::NotFound {
                        resource_type,
                        name: name.clone(),
                    },
                    ResourceTarget::ByLabel { label, app } => CommandError::NotFoundByLabel {
                        resource_type,
                        label: label.clone(),
                        app: app.clone(),
                    },
                },
            );
        }
        match self {
            ResourceTarget::ByLabel { label, app } if names.len() > 1 => Err(
                CommandError::Ambiguous {
                    resource_type,
                    label: label.clone(),
                    app: app.clone(),
                    names,
                },
            ),
            _ => Ok(resources.remove(first)),
        }
    }
}

} // verus!
