//! Rendering a grouped listing as the lines of a table.

use crate::grouping::{GroupKey, GroupKeyView, ResourceGroup, ResourceGroupView};
use crate::model::{AppLink, AppLinkView, ResourceItem, ResourceItemView, ResourceType};
use crate::text::{join, join_strings};
use vstd::prelude::*;

verus! {

/// The form in which a listing is written.
#[derive(Clone, Copy, Debug, PartialEq, Eq, Structural)]
pub enum ListFormat {
    Table,
    Json,
}

/// A link as a table row shows it: the app, a colon, the label.
pub open spec fn link_text(link: AppLinkView) -> Seq<char> {
    link.app_name + ":"@ + link.label
}

/// The links of a resource as a table row shows them.
pub open spec fn link_texts(links: Seq<AppLinkView>) -> Seq<Seq<char>> {
    links.map_values(|l: AppLinkView| link_text(l))
}

/// The row of a resource: its name, indented, followed in brackets by its
/// links where it has any.
pub open spec fn row(item: ResourceItemView) -> Seq<char> {
    if item.links.len() == 0 {
        "  "@ + item.name
    } else {
        "  "@ + item.name + " ("@ + join(link_texts(item.links), ", "@) + ")"@
    }
}

/// The rows of the resources, in order.
pub open spec fn rows(items: Seq<ResourceItemView>) -> Seq<Seq<char>> {
    items.map_values(|r: ResourceItemView| row(r))
}

/// The line that heads a group.
pub open spec fn header(key: GroupKeyView) -> Seq<char> {
    match key {
        GroupKeyView::All => "All"@,
        GroupKeyView::Resource(resource_type) => resource_type.spec_title() + "s"@,
        GroupKeyView::App(app) => "App \""@ + app + "\""@,
        GroupKeyView::Unlinked => "Not linked to any app"@,
    }
}

/// The lines of the groups: for each group its header and then one row for
/// each of its resources.
pub open spec fn group_lines(groups: Seq<ResourceGroupView>) -> Seq<Seq<char>>
    decreases groups.len(),
{
    if groups.len() == 0 {
        Seq::empty()
    } else {
        group_lines(groups.drop_last()).push(header(groups.last().key)) + rows(
            groups.last().resources,
        )
    }
}

/// No group holds a resource.
pub open spec fn shows_nothing(groups: Seq<ResourceGroupView>) -> bool {
    forall|i: int| 0 <= i < groups.len() ==> (#[trigger] groups[i]).resources.len() == 0
}

/// The line that stands for a listing without resources.
pub open spec fn nothing_found(resource_type: ResourceType) -> Seq<char> {
    "No "@ + resource_type.spec_name() + "s found"@
}

/// The table of a listing: the lines of its groups, or a single line where
/// it shows no resource.
pub open spec fn table(groups: Seq<ResourceGroupView>, resource_type: ResourceType) -> Seq<
    Seq<char>,
> {
    if shows_nothing(groups) {
        seq![nothing_found(resource_type)]
    } else {
        group_lines(groups)
    }
}

/// Writes a link as a table row shows it.
pub fn render_link(link: &AppLink) -> (r: String)
    ensures
        r@ == link_text(link@),
{
    let mut out = link.app_name.clone();
    out.append(":");
    out.append(link.label.as_str());
    out
}

/// Writes the row of a resource.
pub fn render_row(item: &ResourceItem) -> (r: String)
    ensures
        r@ == row(item@),
{
    let mut out = String::from_str("  ");
    out.append(item.name.as_str());
    if item.links.len() > 0 {
        let mut shown: Vec<String> = Vec::new();
        let mut i: usize = 0;
        while i < item.links.len()
            invariant
                i <= item.links.len(),
                shown.deep_view() == link_texts(item@.links.take(i as int)),
            decreases item.links.len() - i,
        {
            let ghost before = shown.deep_view();
            shown.push(render_link(&item.links[i]));
            proof {
                assert(item@.links.take(i + 1) =~= item@.links.take(i as int).push(
                    item@.links[i as int],
                ));
                assert(shown.deep_view() =~= before.push(link_text(item@.links[i as int])));
                assert(link_texts(item@.links.take(i + 1)) =~= before.push(
                    link_text(item@.links[i as int]),
                ));
            }
            i += 1;
        }
        assert(item@.links.take(i as int) =~= item@.links);
        out.append(" (");
        out.append(join_strings(&shown, ", ").as_str());
        out.append(")");
    }
    out
}

/// Writes the header of a group.
pub fn render_header(key: &GroupKey) -> (r: String)
    ensures
        r@ == header(key@),
{
    match key {
        GroupKey::All => String::from_str("All"),
        GroupKey::Resource(resource_type) => {
            let mut out = String::from_str(resource_type.title());
            out.append("s");
            out
        },
        GroupKey::App(app) => {
            let mut out = String::from_str("App \"");
            out.append(app.as_str());
            out.append("\"");
            out
        },
        GroupKey::Unlinked => String::from_str("Not linked to any app"),
    }
}

/// Writes the table of a listing: for each group its header and one row for
/// each of its resources, or a single line where no group holds a resource.
pub fn render_table(groups: &Vec<ResourceGroup>, resource_type: ResourceType) -> (lines: Vec<
    String,
>)
    ensures
        lines.deep_view() == table(groups.deep_view(), resource_type),
{
    let ghost all = groups.deep_view();
    let mut lines: Vec<String> = Vec::new();
    let mut empty = true;
    let mut g: usize = 0;
    while g < groups.len()
        invariant
            g <= groups.len(),
            all == groups.deep_view(),
            lines.deep_view() == group_lines(all.take(g as int)),
            empty == shows_nothing(all.take(g as int)),
        decreases groups.len() - g,
    {
        let group = &groups[g];
        let ghost headed = group_lines(all.take(g as int)).push(header(all[g as int].key));
        proof {
            assert(all.take(g + 1).drop_last() =~= all.take(g as int));
            assert(all.take(g + 1).last() == all[g as int]);
        }
        let ghost before = lines.deep_view();
        lines.push(render_header(&group.key));
        assert(lines.deep_view() =~= headed);
        if group.resources.len() > 0 {
            empty = false;
        }
        let mut i: usize = 0;
        while i < group.resources.len()
            invariant
                i <= group.resources.len(),
                group@ == all[g as int],
                lines.deep_view() == headed + rows(group@.resources.take(i as int)),
            decreases group.resources.len() - i,
        {
            let ghost so_far = lines.deep_view();
            lines.push(render_row(&group.resources[i]));
            proof {
                let item = group@.resources[i as int];
                assert(lines.deep_view() =~= so_far.push(row(item)));
                assert(group@.resources.take(i + 1) =~= group@.resources.take(i as int).push(item));
                assert(rows(group@.resources.take(i + 1)) =~= rows(
                    group@.resources.take(i as int),
                ).push(row(item)));
                assert(headed + rows(group@.resources.take(i + 1)) =~= so_far.push(row(item)));
            }
            i += 1;
        }
        proof {
            assert(group@.resources.take(i as int) =~= group@.resources);
            assert forall|k: int| 0 <= k < g implies all.take(g + 1)[k] == all.take(g as int)[k] by {}
            if shows_nothing(all.take(g as int)) && group.resources.len() == 0 {
                assert forall|k: int| 0 <= k < g + 1 implies (#[trigger] all.take(
                    g + 1,
                )[k]).resources.len() == 0 by {
                    if k < g {
                        assert(all.take(g as int)[k].resources.len() == 0);
                    }
                }
            }
            if shows_nothing(all.take(g + 1)) {
                assert(all.take(g + 1)[g as int].resources.len() == 0);
                assert forall|k: int| 0 <= k < g implies (#[trigger] all.take(
                    g as int,
                )[k]).resources.len() == 0 by {
                    assert(all.take(g + 1)[k].resources.len() == 0);
                }
            }
        }
        g += 1;
    }
    assert(all.take(g as int) =~= all);
    if empty {
        let mut line = String::from_str("No ");
        line.append(resource_type.name());
        line.append("s found");
        let lines = vec![line];
        assert(lines.deep_view() =~= seq![nothing_found(resource_type)]);
        lines
    } else {
        lines
    }
}

} // verus!
