//! What always holds of the resolution of hooks and workspaces.

use vstd::prelude::*;
use crate::config::project::Project;
use crate::config::resolve::{
    contributes, is_resolution, lemma_resolution_exists, lemma_resolution_unique, pick_before,
    pick_of, pick_texts, picked, resolution, Pick, TagField,
};
use crate::config::settings::Tag;
use crate::config::{tag_texts, Config};
use crate::name_map::NameMap;
use crate::names::lemma_ascending_no_duplicates;
use crate::text::text_lt;

verus! {

/// Hooks of tags are applied in ascending order of priority, a tag without a
/// priority counting as 50; among tags of equal priority the order is that
/// of their names. Each hook is the one of its tag.
pub proof fn law_tag_order(
    names: Seq<Seq<char>>,
    tags: NameMap<Tag>,
    field: TagField,
    i: int,
    j: int,
)
    requires
        names.no_duplicates(),
        0 <= i < j < resolution(names, tags, field).len(),
    ensures
        ({
            let picks = resolution(names, tags, field);
            &&& picks[i].rank <= picks[j].rank
            &&& picks[i].rank == picks[j].rank ==> text_lt(picks[i].name, picks[j].name)
            &&& picks[i].rank == tags.lookup(picks[i].name).unwrap()@.rank()
            &&& picks[j].rank == tags.lookup(picks[j].name).unwrap()@.rank()
            &&& pick_texts(picks)[i] == picks[i].text
            &&& pick_texts(picks)[j] == picks[j].text
        }),
{
    lemma_resolution_exists(names, tags, field);
    let picks = resolution(names, tags, field);
    assert(pick_before(picks[i], picks[j]));
    assert(picks[i] == pick_of(tags, field, picks[i].name));
    assert(picks[j] == pick_of(tags, field, picks[j].name));
}

/// The project's own hook comes after all hooks of its tags.
pub proof fn law_own_hook_last(config: Config, project: Project, field: TagField)
    requires
        field != TagField::Workspace,
    ensures
        ({
            let own = if field == TagField::AfterClone {
                project@.after_clone
            } else {
                project@.after_workon
            };
            let from_tags = tag_texts(project.tags, config.settings.tags, field);
            let hooks = config.hooks(&project, field);
            &&& own is None ==> hooks == from_tags
            &&& own matches Some(hook) ==> hooks == from_tags.push(hook) && hooks.last() == hook
        }),
{
    let own = if field == TagField::AfterClone {
        project@.after_clone
    } else {
        project@.after_workon
    };
    let from_tags = tag_texts(project.tags, config.settings.tags, field);
    if let Some(hook) = own {
        assert(from_tags + seq![hook] =~= from_tags.push(hook));
    } else {
        assert(from_tags + Seq::<Seq<char>>::empty() =~= from_tags);
    }
}

/// Every contributing tag of the project is applied exactly once, and
/// nothing else is.
pub proof fn law_each_tag_once(
    names: Seq<Seq<char>>,
    tags: NameMap<Tag>,
    field: TagField,
    name: Seq<char>,
)
    requires
        names.no_duplicates(),
    ensures
        picked(resolution(names, tags, field), name) <==> (names.contains(name) && contributes(
            tags,
            field,
            name,
        )),
        forall|i: int, j: int|
            #![trigger resolution(names, tags, field)[i], resolution(names, tags, field)[j]]
            0 <= i < j < resolution(names, tags, field).len() ==> resolution(
                names,
                tags,
                field,
            )[i].name != resolution(names, tags, field)[j].name,
{
    lemma_resolution_exists(names, tags, field);
    let picks = resolution(names, tags, field);
    assert forall|i: int, j: int| 0 <= i < j < picks.len() implies picks[i].name
        != picks[j].name by {
        assert(picks[i] == pick_of(tags, field, picks[i].name));
        assert(picks[j] == pick_of(tags, field, picks[j].name));
        crate::config::resolve::lemma_in_order_distinct(picks, i, j);
    }
}

/// A name that the settings do not know changes nothing: the project
/// resolves as it would without that name.
pub proof fn law_unknown_tag_ignored(
    names: Seq<Seq<char>>,
    without: Seq<Seq<char>>,
    unknown: Seq<char>,
    tags: NameMap<Tag>,
    field: TagField,
)
    requires
        names.no_duplicates(),
        without.no_duplicates(),
        !tags.has(unknown),
        forall|x: Seq<char>| names.contains(x) <==> (x == unknown || without.contains(x)),
    ensures
        resolution(names, tags, field) == resolution(without, tags, field),
{
    lemma_resolution_exists(names, tags, field);
    lemma_resolution_exists(without, tags, field);
    let picks = resolution(without, tags, field);
    assert(is_resolution(picks, names, tags, field)) by {
        assert forall|x: Seq<char>|
            names.contains(x) && #[trigger] contributes(tags, field, x) implies picked(picks, x) by {
            assert(without.contains(x));
        }
    }
    lemma_resolution_unique(picks, resolution(names, tags, field), names, tags, field);
}

/// Where none of the project's tags contributes, because the settings do not
/// know it or because it has no value for the field, the tags contribute the
/// empty list.
pub proof fn law_nothing_resolvable(names: Seq<Seq<char>>, tags: NameMap<Tag>, field: TagField)
    requires
        names.no_duplicates(),
        forall|x: Seq<char>| names.contains(x) ==> !contributes(tags, field, x),
    ensures
        resolution(names, tags, field) == Seq::<Pick>::empty(),
        pick_texts(resolution(names, tags, field)) == Seq::<Seq<char>>::empty(),
{
    let none = Seq::<Pick>::empty();
    assert(is_resolution(none, names, tags, field));
    lemma_resolution_exists(names, tags, field);
    lemma_resolution_unique(none, resolution(names, tags, field), names, tags, field);
    assert(pick_texts(none) =~= Seq::<Seq<char>>::empty());
}

/// A project without tags, or settings without tags, leave only the project's
/// own hook.
pub proof fn law_no_tags(config: Config, project: Project, field: TagField)
    requires
        project.tags is None || config.settings.tags is None,
    ensures
        tag_texts(project.tags, config.settings.tags, field) == Seq::<Seq<char>>::empty(),
{
}

/// `winner` is a tag of `project` that names a workspace, and that is applied
/// after the tag `name` or is that tag.
pub open spec fn prevails(config: Config, project: Project, name: Seq<char>, winner: Seq<char>) -> bool {
    let tags = config.settings.tags.unwrap();
    &&& project.tags.unwrap()@.contains(winner)
    &&& contributes(tags, TagField::Workspace, winner)
    &&& (winner == name || pick_before(
        pick_of(tags, TagField::Workspace, name),
        pick_of(tags, TagField::Workspace, winner),
    ))
}

/// The workspace of a project is that of the tag that is applied last among
/// its tags that name a workspace: every other such tag has a lower
/// priority, or the same priority and an earlier name.
pub proof fn law_workspace_of_highest(config: Config, project: Project) -> (winner: Seq<char>)
    requires
        project.tags matches Some(names) && names.ordered(),
        config.settings.tags is Some,
        exists|x: Seq<char>|
            project.tags.unwrap()@.contains(x) && contributes(
                config.settings.tags.unwrap(),
                TagField::Workspace,
                x,
            ),
    ensures
        config.workspace_of(&project) == pick_of(
            config.settings.tags.unwrap(),
            TagField::Workspace,
            winner,
        ).text,
        forall|name: Seq<char>|
            project.tags.unwrap()@.contains(name) && #[trigger] contributes(
                config.settings.tags.unwrap(),
                TagField::Workspace,
                name,
            ) ==> prevails(config, project, name, winner),
{
    let names = project.tags.unwrap()@;
    let tags = config.settings.tags.unwrap();
    lemma_ascending_no_duplicates(names);
    lemma_resolution_exists(names, tags, TagField::Workspace);
    let picks = resolution(names, tags, TagField::Workspace);
    let some = choose|x: Seq<char>| names.contains(x) && contributes(tags, TagField::Workspace, x);
    assert(picked(picks, some));
    let last = picks.len() - 1;
    let winner = picks[last].name;
    assert(picks[last] == pick_of(tags, TagField::Workspace, winner));
    assert(pick_texts(picks).last() == picks[last].text);
    assert forall|name: Seq<char>|
        names.contains(name) && #[trigger] contributes(
            tags,
            TagField::Workspace,
            name,
        ) implies prevails(config, project, name, winner) by {
        assert(picked(picks, name));
        let k = choose|k: int| 0 <= k < picks.len() && (#[trigger] picks[k]).name == name;
        assert(picks[k] == pick_of(tags, TagField::Workspace, name));
        if k < last {
            assert(pick_before(picks[k], picks[last]));
        }
    }
    winner
}

/// Where no tag of the project names a workspace, the workspace is the one
/// of the settings.
pub proof fn law_workspace_fallback(config: Config, project: Project)
    requires
        project.tags matches Some(names) && names.ordered(),
        project.tags matches Some(names) && config.settings.tags matches Some(tags) ==> forall|
            x: Seq<char>,
        |
            names@.contains(x) ==> !contributes(tags, TagField::Workspace, x),
    ensures
        config.workspace_of(&project) == config.settings.workspace@,
{
    if config.settings.tags is Some {
        let names = project.tags.unwrap()@;
        lemma_ascending_no_duplicates(names);
        law_nothing_resolvable(names, config.settings.tags.unwrap(), TagField::Workspace);
    }
}

} // verus!
