//! Partitioning a list of resources for display.

use crate::grouping_laws::{lemma_app_grouping_entry_count, lemma_sorted_by_name_ascending};
use crate::model::{AppLinkView, ResourceItem, ResourceItemView, ResourceType};
use crate::text::{ascending, insert_name, lemma_ascending_unique, lex_less, str_less};
use vstd::prelude::*;

verus! {

/// The strategy by which a listing is partitioned.
#[derive(Clone, Copy, Debug, PartialEq, Eq, Structural)]
pub enum ResourceGroupBy {
    /// One group for each app that some resource is linked to.
    App,
    /// One group that holds every resource, headed by the kind's name.
    Resource(ResourceType),
}

/// What the resources of one group have in common.
#[derive(Debug, PartialEq, Eq)]
pub enum GroupKey {
    /// Every resource of the listing, in the order of the listing.
    All,
    /// Every resource of the listing, under the kind's name.
    Resource(ResourceType),
    /// The resources linked to the app of this name.
    App(String),
    /// The resources without any link.
    Unlinked,
}

/// What a [`GroupKey`] holds.
pub enum GroupKeyView {
    All,
    Resource(ResourceType),
    App(Seq<char>),
    Unlinked,
}

impl View for GroupKey {
    type V = GroupKeyView;

    open spec fn view(&self) -> GroupKeyView {
        match self {
            GroupKey::All => GroupKeyView::All,
            GroupKey::Resource(resource_type) => GroupKeyView::Resource(*resource_type),
            GroupKey::App(app) => GroupKeyView::App(app@),
            GroupKey::Unlinked => GroupKeyView::Unlinked,
        }
    }
}

impl GroupKeyView {
    /// The resource belongs to the group of this key.
    pub open spec fn holds(self, item: ResourceItemView) -> bool {
        match self {
            GroupKeyView::All => true,
            GroupKeyView::Resource(_) => true,
            GroupKeyView::App(app) => item.has_app(app),
            GroupKeyView::Unlinked => item.links.len() == 0,
        }
    }

    /// The resources that belong to the group of this key, in the order of
    /// `items`.
    pub open spec fn members(self, items: Seq<ResourceItemView>) -> Seq<ResourceItemView> {
        items.filter(|r: ResourceItemView| self.holds(r))
    }
}

impl GroupKey {
    /// Whether the resource belongs to the group of this key.
    pub fn holds(&self, item: &ResourceItem) -> (r: bool)
        ensures
            r == self@.holds(item@),
    {
        match self {
            GroupKey::All => true,
            GroupKey::Resource(_) => true,
            GroupKey::App(app) => item.has_app(app.as_str()),
            GroupKey::Unlinked => item.links.len() == 0,
        }
    }
}

/// Resources under the key that they share.
#[derive(Debug, PartialEq, Eq)]
pub struct ResourceGroup {
    pub key: GroupKey,
    pub resources: Vec<ResourceItem>,
}

/// What a [`ResourceGroup`] holds.
pub struct ResourceGroupView {
    pub key: GroupKeyView,
    pub resources: Seq<ResourceItemView>,
}

impl View for ResourceGroup {
    type V = ResourceGroupView;

    open spec fn view(&self) -> ResourceGroupView {
        ResourceGroupView { key: self.key@, resources: self.resources.deep_view() }
    }
}

impl DeepView for ResourceGroup {
    type V = ResourceGroupView;

    open spec fn deep_view(&self) -> ResourceGroupView {
        self@
    }
}

/// `sorted` with `item` put behind the last resource whose name does not
/// come after the item's.
pub open spec fn insert_by_name(
    sorted: Seq<ResourceItemView>,
    item: ResourceItemView,
) -> Seq<ResourceItemView>
    decreases sorted.len(),
{
    if sorted.len() > 0 && lex_less(item.name, sorted.last().name) {
        insert_by_name(sorted.drop_last(), item).push(sorted.last())
    } else {
        sorted.push(item)
    }
}

/// The resources in ascending order of their names; resources of one name
/// keep the order that they have in `items`.
pub open spec fn sorted_by_name(items: Seq<ResourceItemView>) -> Seq<ResourceItemView>
    decreases items.len(),
{
    if items.len() == 0 {
        Seq::empty()
    } else {
        insert_by_name(sorted_by_name(items.drop_last()), items.last())
    }
}

/// No name in `items` comes before the name of a resource that stands
/// earlier.
pub open spec fn ascending_by_name(items: Seq<ResourceItemView>) -> bool {
    forall|i: int, j: int|
        0 <= i < j < items.len() ==> !lex_less(
            (#[trigger] items[j]).name,
            (#[trigger] items[i]).name,
        )
}

/// `insert_by_name` puts the item at place `p` where every resource from
/// `p` on has a later name and the one before `p` has not.
pub proof fn lemma_insert_by_name_at(sorted: Seq<ResourceItemView>, item: ResourceItemView, p: int)
    requires
        0 <= p <= sorted.len(),
        forall|j: int| p <= j < sorted.len() ==> lex_less(item.name, (#[trigger] sorted[j]).name),
        p > 0 ==> !lex_less(item.name, sorted[p - 1].name),
    ensures
        insert_by_name(sorted, item) == sorted.insert(p, item),
    decreases sorted.len() - p,
{
    if p == sorted.len() {
        assert(sorted.insert(p, item) =~= sorted.push(item));
    } else {
        let rest = sorted.drop_last();
        lemma_insert_by_name_at(rest, item, p);
        assert(rest.insert(p, item).push(sorted.last()) =~= sorted.insert(p, item));
    }
}

/// Puts `item` into `out` behind the last resource whose name does not come
/// after the item's.
pub fn insert_sorted(out: &mut Vec<ResourceItem>, item: ResourceItem)
    ensures
        final(out).deep_view() == insert_by_name(old(out).deep_view(), item@),
{
    let ghost before = out.deep_view();
    let mut p: usize = out.len();
    while p > 0 && str_less(item.name.as_str(), out[p - 1].name.as_str())
        invariant
            p <= out.len(),
            out.deep_view() == before,
            forall|j: int| p <= j < before.len() ==> lex_less(item@.name, (#[trigger] before[j]).name),
        decreases p,
    {
        p -= 1;
    }
    let ghost shown = item@;
    out.insert(p, item);
    proof {
        lemma_insert_by_name_at(before, shown, p as int);
        assert(out.deep_view() =~= before.insert(p as int, shown));
    }
}

/// Gathers the resources that belong to the group of `key`, in ascending
/// order of their names.
pub fn collect_group(key: GroupKey, items: &Vec<ResourceItem>) -> (group: ResourceGroup)
    ensures
        group@ == (ResourceGroupView {
            key: key@,
            resources: sorted_by_name(key@.members(items.deep_view())),
        }),
        ascending_by_name(group@.resources),
{
    let ghost all = items.deep_view();
    proof {
        lemma_sorted_by_name_ascending(key@.members(all));
    }
    let mut resources: Vec<ResourceItem> = Vec::new();
    let mut i: usize = 0;
    while i < items.len()
        invariant
            i <= items.len(),
            all == items.deep_view(),
            resources.deep_view() == sorted_by_name(key@.members(all.take(i as int))),
        decreases items.len() - i,
    {
        proof {
            assert(all.take(i + 1) =~= all.take(i as int).push(all[i as int]));
            all.take(i as int).lemma_filter_push(all[i as int], |r: ResourceItemView| key@.holds(r));
            let found = key@.members(all.take(i as int));
            assert(found.push(all[i as int]).drop_last() =~= found);
        }
        if key.holds(&items[i]) {
            insert_sorted(&mut resources, items[i].clone());
        }
        i += 1;
    }
    assert(all.take(i as int) =~= all);
    ResourceGroup { key, resources }
}

/// Some resource is linked to the app.
pub open spec fn any_has_app(items: Seq<ResourceItemView>, app: Seq<char>) -> bool {
    exists|i: int| 0 <= i < items.len() && (#[trigger] items[i]).has_app(app)
}

/// The names of the apps to which some resource is linked, each once, in
/// ascending order.
pub fn app_names(items: &Vec<ResourceItem>) -> (names: Vec<String>)
    ensures
        ascending(names.deep_view()),
        forall|a: Seq<char>| names.deep_view().contains(a) <==> any_has_app(items.deep_view(), a),
{
    let ghost all = items.deep_view();
    let mut names: Vec<String> = Vec::new();
    let mut i: usize = 0;
    while i < items.len()
        invariant
            i <= items.len(),
            all == items.deep_view(),
            ascending(names.deep_view()),
            forall|a: Seq<char>|
                names.deep_view().contains(a) <==> any_has_app(all.take(i as int), a),
        decreases items.len() - i,
    {
        let links = &items[i].links;
        let ghost item = all[i as int];
        let mut j: usize = 0;
        while j < links.len()
            invariant
                j <= links.len(),
                i < items.len(),
                all == items.deep_view(),
                item == all[i as int],
                links.deep_view() == item.links,
                ascending(names.deep_view()),
                forall|a: Seq<char>|
                    names.deep_view().contains(a) <==> (any_has_app(all.take(i as int), a)
                        || exists|k: int| 0 <= k < j && (#[trigger] item.links[k]).app_name == a),
            decreases links.len() - j,
        {
            let ghost before = names.deep_view();
            insert_name(&mut names, links[j].app_name.as_str());
            proof {
                let added = item.links[j as int].app_name;
                assert forall|a: Seq<char>|
                    names.deep_view().contains(a) <==> (any_has_app(all.take(i as int), a)
                        || exists|k: int|
                        0 <= k < j + 1 && (#[trigger] item.links[k]).app_name == a) by {
                    if a == added {
                        assert(item.links[j as int].app_name == a);
                    }
                    if exists|k: int| 0 <= k < j + 1 && (#[trigger] item.links[k]).app_name == a {
                        let k = choose|k: int|
                            0 <= k < j + 1 && (#[trigger] item.links[k]).app_name == a;
                        if k < j {
                            assert(before.contains(a));
                        }
                    }
                }
            }
            j += 1;
        }
        proof {
            let next = all.take(i + 1);
            assert forall|a: Seq<char>|
                names.deep_view().contains(a) <==> any_has_app(next, a) by {
                if any_has_app(all.take(i as int), a) {
                    let k = choose|k: int|
                        0 <= k < i && (#[trigger] all.take(i as int)[k]).has_app(a);
                    assert(next[k].has_app(a));
                }
                if item.has_app(a) {
                    assert(next[i as int].has_app(a));
                }
                if any_has_app(next, a) {
                    let k = choose|k: int| 0 <= k < i + 1 && (#[trigger] next[k]).has_app(a);
                    if k < i {
                        assert(all.take(i as int)[k].has_app(a));
                    }
                }
            }
        }
        i += 1;
    }
    assert(all.take(i as int) =~= all);
    names
}

/// The group of the resources linked to `app`.
pub open spec fn app_group(items: Seq<ResourceItemView>, app: Seq<char>) -> ResourceGroupView {
    ResourceGroupView {
        key: GroupKeyView::App(app),
        resources: sorted_by_name(GroupKeyView::App(app).members(items)),
    }
}

/// The group of the resources without any link.
pub open spec fn unlinked_group(items: Seq<ResourceItemView>) -> ResourceGroupView {
    ResourceGroupView {
        key: GroupKeyView::Unlinked,
        resources: sorted_by_name(GroupKeyView::Unlinked.members(items)),
    }
}

/// How many of the groups stand for an app, where `groups` partition `items`
/// by app: all of them, but for the last where some resource has no link.
pub open spec fn app_group_count(
    items: Seq<ResourceItemView>,
    groups: Seq<ResourceGroupView>,
) -> int {
    if GroupKeyView::Unlinked.members(items).len() > 0 {
        groups.len() - 1
    } else {
        groups.len() as int
    }
}

/// `groups` partition `items` by app. There is one group for each app to
/// which some resource is linked, in ascending order of the apps' names, and
/// it holds every resource linked to the app, once, in ascending order of
/// the resources' names. Where some resource has no link, one more group
/// follows, which holds the resources without links in that same order.
pub open spec fn is_app_grouping(
    items: Seq<ResourceItemView>,
    groups: Seq<ResourceGroupView>,
) -> bool {
    let n = app_group_count(items, groups);
    &&& n >= 0
    &&& n < groups.len() ==> groups[n] == unlinked_group(items)
    &&& forall|i: int|
        0 <= i < n ==> (#[trigger] groups[i]).key is App && groups[i] == app_group(
            items,
            groups[i].key->App_0,
        )
    &&& forall|i: int, j: int|
        0 <= i < j < n ==> lex_less(
            (#[trigger] groups[i]).key->App_0,
            (#[trigger] groups[j]).key->App_0,
        )
    &&& forall|a: Seq<char>|
        any_has_app(items, a) <==> exists|i: int|
            0 <= i < n && (#[trigger] groups[i]).key == GroupKeyView::App(a)
}

/// The resources that a listing shows: all of them, or those linked to
/// `app` where one is given.
pub open spec fn shown(items: Seq<ResourceItemView>, app: Option<Seq<char>>) -> Seq<
    ResourceItemView,
> {
    match app {
        Some(a) => GroupKeyView::App(a).members(items),
        None => items,
    }
}

/// `groups` are what a listing of `items` shows: the resources linked to
/// `app`, where one is given, as one group in their given order, or
/// partitioned by app.
pub open spec fn is_grouping(
    items: Seq<ResourceItemView>,
    app: Option<Seq<char>>,
    group_by: Option<ResourceGroupBy>,
    groups: Seq<ResourceGroupView>,
) -> bool {
    match group_by {
        None => groups == seq![
            ResourceGroupView { key: GroupKeyView::All, resources: shown(items, app) },
        ],
        Some(ResourceGroupBy::Resource(resource_type)) => groups == seq![
            ResourceGroupView {
                key: GroupKeyView::Resource(resource_type),
                resources: shown(items, app),
            },
        ],
        Some(ResourceGroupBy::App) => is_app_grouping(shown(items, app), groups),
    }
}

/// How many resources the groups show, each counted once for every group
/// in which it stands.
pub open spec fn entry_count(groups: Seq<ResourceGroupView>) -> nat
    decreases groups.len(),
{
    if groups.len() == 0 {
        0
    } else {
        entry_count(groups.drop_last()) + groups.last().resources.len()
    }
}

/// The names of the apps to which the resource is linked.
pub open spec fn linked_apps(item: ResourceItemView) -> Set<Seq<char>> {
    item.links.map_values(|l: AppLinkView| l.app_name).to_set()
}

/// How often a partition by app shows the resource: once for each app to
/// which it is linked, and once if it is linked to none.
pub open spec fn places_of(item: ResourceItemView) -> int {
    vstd::math::max(1, linked_apps(item).len() as int)
}

/// How often a partition by app shows the resources, taken together.
pub open spec fn placements(items: Seq<ResourceItemView>) -> int
    decreases items.len(),
{
    if items.len() == 0 {
        0
    } else {
        placements(items.drop_last()) + places_of(items.last())
    }
}

/// The names of the apps for which the first `n` groups stand.
pub open spec fn app_keys(groups: Seq<ResourceGroupView>, n: int) -> Seq<Seq<char>> {
    Seq::new(n as nat, |i: int| groups[i].key->App_0)
}

/// The groups that a listing of `items` shows.
pub open spec fn grouping_of(
    items: Seq<ResourceItemView>,
    app: Option<Seq<char>>,
    group_by: Option<ResourceGroupBy>,
) -> Seq<ResourceGroupView> {
    choose|groups: Seq<ResourceGroupView>| is_grouping(items, app, group_by, groups)
}

/// The resources settle how they are partitioned by app.
pub proof fn lemma_app_grouping_unique(
    items: Seq<ResourceItemView>,
    first: Seq<ResourceGroupView>,
    second: Seq<ResourceGroupView>,
)
    requires
        is_app_grouping(items, first),
        is_app_grouping(items, second),
    ensures
        first == second,
{
    let n = app_group_count(items, first);
    let m = app_group_count(items, second);
    let a = app_keys(first, n);
    let b = app_keys(second, m);
    assert forall|x: Seq<char>| a.contains(x) <==> b.contains(x) by {
        if a.contains(x) {
            let i = choose|i: int| 0 <= i < a.len() && a[i] == x;
            assert(first[i].key == GroupKeyView::App(x));
            assert(any_has_app(items, x));
            let j = choose|j: int| 0 <= j < m && (#[trigger] second[j]).key == GroupKeyView::App(x);
            assert(b[j] == x);
        }
        if b.contains(x) {
            let i = choose|i: int| 0 <= i < b.len() && b[i] == x;
            assert(second[i].key == GroupKeyView::App(x));
            assert(any_has_app(items, x));
            let j = choose|j: int| 0 <= j < n && (#[trigger] first[j]).key == GroupKeyView::App(x);
            assert(a[j] == x);
        }
    }
    lemma_ascending_unique(a, b);
    assert(n == m);
    assert forall|i: int| 0 <= i < first.len() implies first[i] == second[i] by {
        if i < n {
            assert(a[i] == b[i]);
        }
    }
    assert(first =~= second);
}

/// The resources, the app and the strategy settle the groups of a listing.
pub proof fn lemma_grouping_unique(
    items: Seq<ResourceItemView>,
    app: Option<Seq<char>>,
    group_by: Option<ResourceGroupBy>,
    groups: Seq<ResourceGroupView>,
)
    requires
        is_grouping(items, app, group_by, groups),
    ensures
        groups == grouping_of(items, app, group_by),
{
    let chosen = grouping_of(items, app, group_by);
    assert(is_grouping(items, app, group_by, chosen));
    if group_by == Some(ResourceGroupBy::App) {
        lemma_app_grouping_unique(shown(items, app), groups, chosen);
    }
}

/// Sorting keeps the number of resources.
pub proof fn lemma_sorted_by_name_len(items: Seq<ResourceItemView>)
    ensures
        sorted_by_name(items).len() == items.len(),
    decreases items.len(),
{
    if items.len() > 0 {
        lemma_sorted_by_name_len(items.drop_last());
        lemma_insert_by_name_len(sorted_by_name(items.drop_last()), items.last());
    }
}

/// Inserting adds one resource.
pub proof fn lemma_insert_by_name_len(sorted: Seq<ResourceItemView>, item: ResourceItemView)
    ensures
        insert_by_name(sorted, item).len() == sorted.len() + 1,
    decreases sorted.len(),
{
    if sorted.len() > 0 && lex_less(item.name, sorted.last().name) {
        lemma_insert_by_name_len(sorted.drop_last(), item);
    }
}

/// Partitions the resources by the apps to which they are linked.
pub fn group_by_app(items: &Vec<ResourceItem>) -> (groups: Vec<ResourceGroup>)
    ensures
        is_app_grouping(items.deep_view(), groups.deep_view()),
        entry_count(groups.deep_view()) == placements(items.deep_view()),
{
    let ghost all = items.deep_view();
    let names = app_names(items);
    let mut groups: Vec<ResourceGroup> = Vec::new();
    let mut g: usize = 0;
    while g < names.len()
        invariant
            g <= names.len(),
            all == items.deep_view(),
            groups.len() == g,
            forall|i: int|
                0 <= i < g ==> (#[trigger] groups.deep_view()[i]) == app_group(
                    all,
                    names.deep_view()[i],
                ),
        decreases names.len() - g,
    {
        let ghost before = groups.deep_view();
        let group = collect_group(GroupKey::App(names[g].clone()), items);
        groups.push(group);
        proof {
            assert(groups.deep_view() =~= before.push(app_group(all, names.deep_view()[g as int])));
        }
        g += 1;
    }
    let ghost apps = groups.deep_view();
    let unlinked = collect_group(GroupKey::Unlinked, items);
    proof {
        lemma_sorted_by_name_len(GroupKeyView::Unlinked.members(all));
    }
    if unlinked.resources.len() > 0 {
        groups.push(unlinked);
        assert(groups.deep_view() =~= apps.push(unlinked_group(all)));
    }
    proof {
        let shown = groups.deep_view();
        let n = app_group_count(all, shown);
        assert(n == names.len());
        assert forall|i: int| 0 <= i < n implies shown[i] == app_group(all, names.deep_view()[i]) by {
            assert(shown[i] == apps[i]);
        }
        assert forall|a: Seq<char>|
            any_has_app(all, a) <==> exists|i: int|
                0 <= i < n && (#[trigger] shown[i]).key == GroupKeyView::App(a) by {
            if any_has_app(all, a) {
                assert(names.deep_view().contains(a));
                let k = choose|k: int| 0 <= k < names.len() && names.deep_view()[k] == a;
                assert(shown[k].key == GroupKeyView::App(a));
            }
            if exists|i: int| 0 <= i < n && (#[trigger] shown[i]).key == GroupKeyView::App(a) {
                let k = choose|k: int| 0 <= k < n && (#[trigger] shown[k]).key == GroupKeyView::App(a);
                assert(names.deep_view()[k] == a);
            }
        }
        lemma_app_grouping_entry_count(all, shown);
    }
    groups
}

/// Keeps the resources that a listing shows: all of them, or those linked
/// to `app` where one is given.
pub fn filter_by_app(items: Vec<ResourceItem>, app: Option<&str>) -> (kept: Vec<ResourceItem>)
    ensures
        kept.deep_view() == shown(items.deep_view(), app.deep_view()),
{
    match app {
        None => items,
        Some(a) => {
            let ghost all = items.deep_view();
            let ghost key = GroupKeyView::App(a@);
            let mut kept: Vec<ResourceItem> = Vec::new();
            let mut i: usize = 0;
            while i < items.len()
                invariant
                    i <= items.len(),
                    all == items.deep_view(),
                    key == GroupKeyView::App(a@),
                    kept.deep_view() == key.members(all.take(i as int)),
                decreases items.len() - i,
            {
                proof {
                    assert(all.take(i + 1) =~= all.take(i as int).push(all[i as int]));
                    all.take(i as int).lemma_filter_push(
                        all[i as int],
                        |r: ResourceItemView| key.holds(r),
                    );
                }
                if items[i].has_app(a) {
                    let ghost before = kept.deep_view();
                    kept.push(items[i].clone());
                    assert(kept.deep_view() =~= before.push(all[i as int]));
                }
                i += 1;
            }
            assert(all.take(i as int) =~= all);
            kept
        },
    }
}

/// Arranges the resources for a listing: those linked to `app`, where one
/// is given, as one group in their given order, or partitioned as
/// `group_by` says.
pub fn group_resources(
    items: Vec<ResourceItem>,
    app: Option<&str>,
    group_by: Option<ResourceGroupBy>,
) -> (groups: Vec<ResourceGroup>)
    ensures
        is_grouping(items.deep_view(), app.deep_view(), group_by, groups.deep_view()),
        groups.deep_view() == grouping_of(items.deep_view(), app.deep_view(), group_by),
        group_by == Some(ResourceGroupBy::App) ==> entry_count(groups.deep_view()) == placements(
            shown(items.deep_view(), app.deep_view()),
        ),
{
    let ghost given = items.deep_view();
    let kept = filter_by_app(items, app);
    let ghost resources = kept.deep_view();
    let groups = match group_by {
        None => {
            let groups = vec![ResourceGroup { key: GroupKey::All, resources: kept }];
            assert(groups.deep_view() =~= seq![
                ResourceGroupView { key: GroupKeyView::All, resources },
            ]);
            groups
        },
        Some(ResourceGroupBy::Resource(resource_type)) => {
            let groups = vec![ResourceGroup { key: GroupKey::Resource(resource_type), resources: kept }];
            assert(groups.deep_view() =~= seq![
                ResourceGroupView { key: GroupKeyView::Resource(resource_type), resources },
            ]);
            groups
        },
        Some(ResourceGroupBy::App) => group_by_app(&kept),
    };
    proof {
        lemma_grouping_unique(given, app.deep_view(), group_by, groups.deep_view());
    }
    groups
}

} // verus!
