//! What holds of every grouping: the order inside a group, and how often a
//! resource is shown.

use crate::grouping::{
    any_has_app, app_group, app_group_count, app_keys, entry_count, linked_apps, placements, ascending_by_name, insert_by_name, is_app_grouping,
    lemma_sorted_by_name_len, sorted_by_name, GroupKeyView, ResourceGroupView,
};
use crate::model::{AppLinkView, ResourceItemView};
use crate::text::{
    ascending, lemma_lex_irreflexive, lemma_lex_not_less_transitive, lemma_lex_transitive, lex_less,
};
use vstd::prelude::*;

verus! {

/// The place at which `insert_by_name` puts the item.
pub open spec fn insert_place(sorted: Seq<ResourceItemView>, item: ResourceItemView) -> int
    decreases sorted.len(),
{
    if sorted.len() > 0 && lex_less(item.name, sorted.last().name) {
        insert_place(sorted.drop_last(), item)
    } else {
        sorted.len() as int
    }
}

/// `insert_by_name` puts the item in front of the resources at the end
/// whose names come after the item's, and moves nothing else.
pub proof fn lemma_insert_place(sorted: Seq<ResourceItemView>, item: ResourceItemView)
    ensures
        0 <= insert_place(sorted, item) <= sorted.len(),
        insert_by_name(sorted, item) == sorted.insert(insert_place(sorted, item), item),
        forall|j: int|
            insert_place(sorted, item) <= j < sorted.len() ==> lex_less(
                item.name,
                (#[trigger] sorted[j]).name,
            ),
        insert_place(sorted, item) > 0 ==> !lex_less(
            item.name,
            sorted[insert_place(sorted, item) - 1].name,
        ),
    decreases sorted.len(),
{
    if sorted.len() > 0 && lex_less(item.name, sorted.last().name) {
        let rest = sorted.drop_last();
        lemma_insert_place(rest, item);
        let p = insert_place(rest, item);
        assert(rest.insert(p, item).push(sorted.last()) =~= sorted.insert(p, item));
        assert forall|j: int| p <= j < sorted.len() implies lex_less(
            item.name,
            (#[trigger] sorted[j]).name,
        ) by {
            if j < rest.len() {
                assert(sorted[j] == rest[j]);
            }
        }
    } else {
        assert(sorted.insert(sorted.len() as int, item) =~= sorted.push(item));
    }
}

/// Inserting into resources in ascending order of their names leaves them
/// in ascending order.
pub proof fn lemma_insert_by_name_ascending(sorted: Seq<ResourceItemView>, item: ResourceItemView)
    requires
        ascending_by_name(sorted),
    ensures
        ascending_by_name(insert_by_name(sorted, item)),
{
    lemma_insert_place(sorted, item);
    let p = insert_place(sorted, item);
    let after = sorted.insert(p, item);
    assert forall|i: int, j: int| 0 <= i < j < after.len() implies !lex_less(
        (#[trigger] after[j]).name,
        (#[trigger] after[i]).name,
    ) by {
        if j == p {
            assert(after[i] == sorted[i]);
            if i < p - 1 {
                assert(!lex_less(sorted[p - 1].name, sorted[i].name));
            } else {
                lemma_lex_irreflexive(sorted[i].name);
            }
            lemma_lex_not_less_transitive(sorted[i].name, sorted[p - 1].name, item.name);
        } else if i == p {
            assert(after[j] == sorted[j - 1]);
            if lex_less(sorted[j - 1].name, item.name) {
                lemma_lex_transitive(item.name, sorted[j - 1].name, item.name);
                lemma_lex_irreflexive(item.name);
            }
        } else if j < p {
            assert(after[i] == sorted[i] && after[j] == sorted[j]);
        } else if i < p {
            assert(after[i] == sorted[i] && after[j] == sorted[j - 1]);
        } else {
            assert(after[i] == sorted[i - 1] && after[j] == sorted[j - 1]);
        }
    }
}

/// The resources of a group stand in ascending order of their names.
pub proof fn lemma_sorted_by_name_ascending(items: Seq<ResourceItemView>)
    ensures
        ascending_by_name(sorted_by_name(items)),
    decreases items.len(),
{
    if items.len() > 0 {
        lemma_sorted_by_name_ascending(items.drop_last());
        lemma_insert_by_name_ascending(sorted_by_name(items.drop_last()), items.last());
    }
}

/// Sorting neither drops nor repeats a resource.
pub proof fn lemma_sorted_by_name_permutes(items: Seq<ResourceItemView>)
    ensures
        sorted_by_name(items).to_multiset() == items.to_multiset(),
    decreases items.len(),
{
    if items.len() > 0 {
        let rest = items.drop_last();
        lemma_sorted_by_name_permutes(rest);
        lemma_insert_place(sorted_by_name(rest), items.last());
        vstd::seq_lib::to_multiset_insert(
            sorted_by_name(rest),
            insert_place(sorted_by_name(rest), items.last()),
            items.last(),
        );
        vstd::seq_lib::to_multiset_build(rest, items.last());
        assert(items =~= rest.push(items.last()));
    } else {
        assert(sorted_by_name(items) =~= items);
    }
}

/// To how many of the apps named the resource is linked, an app counted as
/// often as it is named.
pub open spec fn hits(names: Seq<Seq<char>>, item: ResourceItemView) -> nat
    decreases names.len(),
{
    if names.len() == 0 {
        0
    } else {
        hits(names.drop_last(), item) + if item.has_app(names.last()) {
            1nat
        } else {
            0nat
        }
    }
}

/// How many resources the groups of the apps named hold, taken together.
pub open spec fn member_total(items: Seq<ResourceItemView>, names: Seq<Seq<char>>) -> nat
    decreases names.len(),
{
    if names.len() == 0 {
        0
    } else {
        member_total(items, names.drop_last()) + GroupKeyView::App(names.last()).members(
            items,
        ).len()
    }
}

/// The apps to which a resource is linked are finitely many, and they are
/// the apps of its links.
pub proof fn lemma_linked_apps(item: ResourceItemView)
    ensures
        linked_apps(item).finite(),
        forall|a: Seq<char>| linked_apps(item).contains(a) <==> item.has_app(a),
        item.links.len() == 0 <==> linked_apps(item).len() == 0,
{
    let names = item.links.map_values(|l: AppLinkView| l.app_name);
    vstd::seq_lib::seq_to_set_is_finite(names);
    assert forall|a: Seq<char>| linked_apps(item).contains(a) <==> item.has_app(a) by {
        if names.contains(a) {
            let k = choose|k: int| 0 <= k < names.len() && names[k] == a;
            assert(item.links[k].app_name == a);
        }
        if item.has_app(a) {
            let k = choose|k: int| 0 <= k < item.links.len() && (#[trigger] item.links[k]).app_name == a;
            assert(names[k] == a);
        }
    }
    if item.links.len() == 0 {
        assert(linked_apps(item) =~= Set::empty());
    } else {
        assert(names[0] == item.links[0].app_name);
        assert(linked_apps(item).contains(names[0]));
        if linked_apps(item).len() == 0 {
            linked_apps(item).lemma_len0_is_empty();
        }
    }
}

/// Among ascending names a resource hits as many as it is linked to.
pub proof fn lemma_hits(names: Seq<Seq<char>>, item: ResourceItemView)
    requires
        ascending(names),
    ensures
        hits(names, item) == linked_apps(item).intersect(names.to_set()).len(),
    decreases names.len(),
{
    lemma_linked_apps(item);
    let linked = linked_apps(item);
    if names.len() == 0 {
        assert(linked.intersect(names.to_set()) =~= Set::empty());
    } else {
        let rest = names.drop_last();
        let last = names.last();
        assert(forall|i: int| 0 <= i < rest.len() ==> rest[i] == names[i]);
        lemma_hits(rest, item);
        let common = linked.intersect(rest.to_set());
        assert(!rest.contains(last)) by {
            if rest.contains(last) {
                let k = choose|k: int| 0 <= k < rest.len() && rest[k] == last;
                assert(lex_less(names[k], names[names.len() - 1]));
                lemma_lex_irreflexive(last);
            }
        }
        assert forall|a: Seq<char>| names.contains(a) <==> (rest.contains(a) || a == last) by {
            if names.contains(a) {
                let k = choose|k: int| 0 <= k < names.len() && names[k] == a;
                if k < rest.len() {
                    assert(rest[k] == a);
                }
            }
            if rest.contains(a) {
                let k = choose|k: int| 0 <= k < rest.len() && rest[k] == a;
                assert(names[k] == a);
            }
            if a == last {
                assert(names[names.len() - 1] == a);
            }
        }
        if item.has_app(last) {
            assert(linked.intersect(names.to_set()) =~= common.insert(last));
        } else {
            assert(linked.intersect(names.to_set()) =~= common);
        }
    }
}

/// Without resources every group is empty.
pub proof fn lemma_member_total_empty(names: Seq<Seq<char>>)
    ensures
        member_total(Seq::empty(), names) == 0,
    decreases names.len(),
{
    if names.len() > 0 {
        lemma_member_total_empty(names.drop_last());
    }
}

/// One more resource adds one member to the group of each app that it hits.
pub proof fn lemma_member_total_push(
    items: Seq<ResourceItemView>,
    item: ResourceItemView,
    names: Seq<Seq<char>>,
)
    ensures
        member_total(items.push(item), names) == member_total(items, names) + hits(names, item),
    decreases names.len(),
{
    if names.len() > 0 {
        lemma_member_total_push(items, item, names.drop_last());
        let key = GroupKeyView::App(names.last());
        items.lemma_filter_push(item, |r: ResourceItemView| key.holds(r));
    }
}

/// Where the ascending `names` hold every app to which a resource is
/// linked, the groups of those apps and the resources without links make
/// up the placements.
pub proof fn lemma_placements_by_names(items: Seq<ResourceItemView>, names: Seq<Seq<char>>)
    requires
        ascending(names),
        forall|a: Seq<char>| any_has_app(items, a) ==> names.contains(a),
    ensures
        member_total(items, names) + GroupKeyView::Unlinked.members(items).len() == placements(
            items,
        ),
    decreases items.len(),
{
    if items.len() == 0 {
        lemma_member_total_empty(names);
        assert(items =~= Seq::empty());
    } else {
        let rest = items.drop_last();
        let last = items.last();
        assert(items =~= rest.push(last));
        assert forall|a: Seq<char>| any_has_app(rest, a) implies names.contains(a) by {
            let k = choose|k: int| 0 <= k < rest.len() && (#[trigger] rest[k]).has_app(a);
            assert(items[k].has_app(a));
        }
        lemma_placements_by_names(rest, names);
        lemma_member_total_push(rest, last, names);
        rest.lemma_filter_push(last, |r: ResourceItemView| GroupKeyView::Unlinked.holds(r));
        lemma_hits(names, last);
        lemma_linked_apps(last);
        assert(linked_apps(last).intersect(names.to_set()) =~= linked_apps(last)) by {
            assert forall|a: Seq<char>| linked_apps(last).contains(a) implies names.to_set().contains(
                a,
            ) by {
                assert(items[items.len() - 1].has_app(a));
                assert(any_has_app(items, a));
            }
        }
    }
}

/// The first `n` groups of a partition by app hold what the groups of
/// their apps hold.
pub proof fn lemma_entry_count_of_app_groups(
    items: Seq<ResourceItemView>,
    groups: Seq<ResourceGroupView>,
    n: int,
)
    requires
        0 <= n <= groups.len(),
        forall|i: int|
            0 <= i < n ==> (#[trigger] groups[i]).key is App && groups[i] == app_group(
                items,
                groups[i].key->App_0,
            ),
    ensures
        entry_count(groups.take(n)) == member_total(items, app_keys(groups, n)),
    decreases n,
{
    if n > 0 {
        lemma_entry_count_of_app_groups(items, groups, n - 1);
        assert(groups.take(n).drop_last() =~= groups.take(n - 1));
        assert(app_keys(groups, n).drop_last() =~= app_keys(groups, n - 1));
        assert(groups.take(n).last() == groups[n - 1]);
        assert(app_keys(groups, n).last() == groups[n - 1].key->App_0);
        lemma_sorted_by_name_len(GroupKeyView::App(groups[n - 1].key->App_0).members(items));
    }
}

/// A partition by app shows each resource once for every app to which it is
/// linked, and once if it is linked to none: the groups hold, taken
/// together, as many resources as that makes.
pub proof fn lemma_app_grouping_entry_count(
    items: Seq<ResourceItemView>,
    groups: Seq<ResourceGroupView>,
)
    requires
        is_app_grouping(items, groups),
    ensures
        entry_count(groups) == placements(items),
{
    let n = app_group_count(items, groups);
    let names = app_keys(groups, n);
    lemma_entry_count_of_app_groups(items, groups, n);
    assert(ascending(names));
    assert forall|a: Seq<char>| any_has_app(items, a) implies names.contains(a) by {
        let k = choose|k: int| 0 <= k < n && (#[trigger] groups[k]).key == GroupKeyView::App(a);
        assert(names[k] == a);
    }
    lemma_placements_by_names(items, names);
    if n < groups.len() {
        assert(groups.drop_last() =~= groups.take(n));
        lemma_sorted_by_name_len(GroupKeyView::Unlinked.members(items));
    } else {
        assert(groups.take(n) =~= groups);
    }
}

} // verus!
