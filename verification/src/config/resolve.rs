//! What a set of tags contributes to a project, and in which order.
//!
//! Each tag of a project that the settings know, and that has a value for the
//! field in question, contributes that value. Contributions are ordered by
//! the tag's priority, lowest first, and by the tag's name where priorities
//! are equal.

use vstd::prelude::*;
use crate::config::settings::{Tag, TagView};
use crate::name_map::NameMap;
use crate::text::{
    lemma_text_lt_asymmetric, lemma_text_lt_irreflexive, lemma_text_lt_transitive,
    lemma_trichotomy, text_lt,
};

verus! {

/// The fields of a tag that projects inherit.
#[derive(Clone, Copy, Debug, PartialEq, Eq)]
pub enum TagField {
    AfterClone,
    AfterWorkon,
    Workspace,
}

/// The value that `tag` has for `field`.
pub open spec fn field_of(tag: TagView, field: TagField) -> Option<Seq<char>> {
    match field {
        TagField::AfterClone => tag.after_clone,
        TagField::AfterWorkon => tag.after_workon,
        TagField::Workspace => tag.workspace,
    }
}

/// One contribution: the tag it comes from, that tag's priority, and the
/// value.
pub struct Pick {
    pub name: Seq<char>,
    pub rank: u8,
    pub text: Seq<char>,
}

/// `a` is applied before `b`: lower priority first, then by name.
pub open spec fn pick_before(a: Pick, b: Pick) -> bool {
    a.rank < b.rank || (a.rank == b.rank && text_lt(a.name, b.name))
}

/// Whether the tag called `name` is known and has a value for `field`.
pub open spec fn contributes(tags: NameMap<Tag>, field: TagField, name: Seq<char>) -> bool {
    tags.lookup(name) matches Some(tag) && field_of(tag@, field) is Some
}

/// What the tag called `name` contributes for `field`.
pub open spec fn pick_of(tags: NameMap<Tag>, field: TagField, name: Seq<char>) -> Pick {
    let tag = tags.lookup(name).unwrap();
    Pick { name, rank: tag@.rank(), text: field_of(tag@, field).unwrap() }
}

/// `picks` is in order of application.
pub open spec fn in_order(picks: Seq<Pick>) -> bool {
    forall|i: int, j: int|
        0 <= i < j < picks.len() ==> pick_before(#[trigger] picks[i], #[trigger] picks[j])
}

/// Some pick of `picks` comes from the tag called `name`.
pub open spec fn picked(picks: Seq<Pick>, name: Seq<char>) -> bool {
    exists|i: int| 0 <= i < picks.len() && (#[trigger] picks[i]).name == name
}

/// `picks` is what the tags `names` contribute for `field`: one pick for each
/// contributing tag, no other, in order of application.
pub open spec fn is_resolution(
    picks: Seq<Pick>,
    names: Seq<Seq<char>>,
    tags: NameMap<Tag>,
    field: TagField,
) -> bool {
    &&& in_order(picks)
    &&& forall|i: int|
        0 <= i < picks.len() ==> {
            &&& names.contains((#[trigger] picks[i]).name)
            &&& contributes(tags, field, picks[i].name)
            &&& picks[i] == pick_of(tags, field, picks[i].name)
        }
    &&& forall|name: Seq<char>|
        names.contains(name) && #[trigger] contributes(tags, field, name) ==> picked(picks, name)
}

/// What the tags `names` contribute for `field`, in order of application.
pub open spec fn resolution(names: Seq<Seq<char>>, tags: NameMap<Tag>, field: TagField) -> Seq<
    Pick,
> {
    choose|picks: Seq<Pick>| is_resolution(picks, names, tags, field)
}

/// The values of `picks`, in their order.
pub open spec fn pick_texts(picks: Seq<Pick>) -> Seq<Seq<char>> {
    picks.map_values(|p: Pick| p.text)
}

/// The order of application is transitive.
pub proof fn lemma_pick_before_transitive(a: Pick, b: Pick, c: Pick)
    requires
        pick_before(a, b),
        pick_before(b, c),
    ensures
        pick_before(a, c),
{
    if a.rank == b.rank && b.rank == c.rank {
        lemma_text_lt_transitive(a.name, b.name, c.name);
    }
}

/// No pick is applied before itself, and of two picks at most one is applied
/// before the other.
pub proof fn lemma_pick_before_asymmetric(a: Pick, b: Pick)
    requires
        pick_before(a, b),
    ensures
        !pick_before(b, a),
        a.name != b.name || a.rank != b.rank,
{
    if a.rank == b.rank {
        lemma_text_lt_asymmetric(a.name, b.name);
    }
}

/// Picks in order come from different tags.
pub proof fn lemma_in_order_distinct(picks: Seq<Pick>, i: int, j: int)
    requires
        in_order(picks),
        0 <= i < picks.len(),
        0 <= j < picks.len(),
        i != j,
    ensures
        picks[i] != picks[j],
{
    if i < j {
        lemma_pick_before_asymmetric(picks[i], picks[j]);
        if picks[i] == picks[j] {
            lemma_text_lt_irreflexive(picks[i].name);
        }
    } else {
        lemma_pick_before_asymmetric(picks[j], picks[i]);
        if picks[i] == picks[j] {
            lemma_text_lt_irreflexive(picks[i].name);
        }
    }
}

/// The contributions of a set of tags are fixed: two sequences that both
/// resolve the same names against the same tags are equal.
pub proof fn lemma_resolution_unique(
    a: Seq<Pick>,
    b: Seq<Pick>,
    names: Seq<Seq<char>>,
    tags: NameMap<Tag>,
    field: TagField,
)
    requires
        is_resolution(a, names, tags, field),
        is_resolution(b, names, tags, field),
    ensures
        a == b,
{
    lemma_same_picks(a, b, names, tags, field);
    lemma_same_picks(b, a, names, tags, field);
    lemma_ordered_unique(a, b);
}

/// Every pick of one resolution is a pick of any other.
proof fn lemma_same_picks(
    a: Seq<Pick>,
    b: Seq<Pick>,
    names: Seq<Seq<char>>,
    tags: NameMap<Tag>,
    field: TagField,
)
    requires
        is_resolution(a, names, tags, field),
        is_resolution(b, names, tags, field),
    ensures
        forall|x: Pick| a.contains(x) ==> b.contains(x),
{
    assert forall|x: Pick| a.contains(x) implies b.contains(x) by {
        let i = choose|i: int| 0 <= i < a.len() && a[i] == x;
        assert(names.contains(a[i].name));
        assert(contributes(tags, field, a[i].name));
        assert(picked(b, x.name));
        let j = choose|j: int| 0 <= j < b.len() && (#[trigger] b[j]).name == x.name;
        assert(b[j] == pick_of(tags, field, x.name));
    }
}

/// Two sequences in order of application with the same picks are equal.
proof fn lemma_ordered_unique(a: Seq<Pick>, b: Seq<Pick>)
    requires
        in_order(a),
        in_order(b),
        forall|x: Pick| a.contains(x) ==> b.contains(x),
        forall|x: Pick| b.contains(x) ==> a.contains(x),
    ensures
        a == b,
    decreases a.len(),
{
    if a.len() == 0 {
        if b.len() > 0 {
            assert(b.contains(b[0]));
        }
        assert(a =~= b);
    } else {
        assert(a.contains(a[0]));
        assert(b.contains(a[0]));
        assert(b.contains(b[0]));
        assert(a.contains(b[0]));
        if a[0] != b[0] {
            let i = choose|i: int| 0 <= i < b.len() && b[i] == a[0];
            let j = choose|j: int| 0 <= j < a.len() && a[j] == b[0];
            assert(pick_before(b[0], b[i]));
            assert(pick_before(a[0], a[j]));
            lemma_pick_before_asymmetric(a[0], b[0]);
        }
        let ta = a.drop_first();
        let tb = b.drop_first();
        assert forall|i: int, j: int| 0 <= i < j < ta.len() implies pick_before(
            #[trigger] ta[i],
            #[trigger] ta[j],
        ) by {
            assert(ta[i] == a[i + 1] && ta[j] == a[j + 1]);
        }
        assert forall|i: int, j: int| 0 <= i < j < tb.len() implies pick_before(
            #[trigger] tb[i],
            #[trigger] tb[j],
        ) by {
            assert(tb[i] == b[i + 1] && tb[j] == b[j + 1]);
        }
        assert forall|x: Pick| ta.contains(x) implies tb.contains(x) by {
            let i = choose|i: int| 0 <= i < ta.len() && ta[i] == x;
            assert(ta[i] == a[i + 1]);
            assert(a.contains(x));
            lemma_in_order_distinct(a, 0, i + 1);
            let j = choose|j: int| 0 <= j < b.len() && b[j] == x;
            assert(tb[j - 1] == x);
        }
        assert forall|x: Pick| tb.contains(x) implies ta.contains(x) by {
            let i = choose|i: int| 0 <= i < tb.len() && tb[i] == x;
            assert(tb[i] == b[i + 1]);
            assert(b.contains(x));
            lemma_in_order_distinct(b, 0, i + 1);
            let j = choose|j: int| 0 <= j < a.len() && a[j] == x;
            assert(ta[j - 1] == x);
        }
        lemma_ordered_unique(ta, tb);
        assert(a =~= seq![a[0]] + ta);
        assert(b =~= seq![b[0]] + tb);
    }
}

/// Where a new pick goes: after every pick that is applied before it.
pub open spec fn slot_for(picks: Seq<Pick>, new: Pick, at: int) -> bool {
    &&& 0 <= at <= picks.len()
    &&& forall|k: int| 0 <= k < at ==> pick_before(#[trigger] picks[k], new)
    &&& forall|k: int| at <= k < picks.len() ==> pick_before(new, #[trigger] picks[k])
}

/// Taking one more name into account: the resolution stays as it is where
/// the tag contributes nothing, and gains the tag's pick at its slot where it
/// does.
pub proof fn lemma_resolution_step(
    picks: Seq<Pick>,
    names: Seq<Seq<char>>,
    tags: NameMap<Tag>,
    field: TagField,
    name: Seq<char>,
    at: int,
)
    requires
        is_resolution(picks, names, tags, field),
        !names.contains(name),
        contributes(tags, field, name) ==> slot_for(picks, pick_of(tags, field, name), at),
    ensures
        !contributes(tags, field, name) ==> is_resolution(picks, names.push(name), tags, field),
        contributes(tags, field, name) ==> is_resolution(
            picks.insert(at, pick_of(tags, field, name)),
            names.push(name),
            tags,
            field,
        ),
{
    let more = names.push(name);
    assert forall|x: Seq<char>| more.contains(x) <==> (x == name || names.contains(x)) by {
        if more.contains(x) {
            let i = choose|i: int| 0 <= i < more.len() && more[i] == x;
            if i < names.len() {
                assert(names[i] == x);
            }
        }
        if x == name {
            assert(more[names.len() as int] == x);
        }
        if names.contains(x) {
            let i = choose|i: int| 0 <= i < names.len() && names[i] == x;
            assert(more[i] == x);
        }
    }
    if !contributes(tags, field, name) {
        assert forall|x: Seq<char>|
            more.contains(x) && #[trigger] contributes(tags, field, x) implies picked(picks, x) by {
            assert(names.contains(x));
        }
    } else {
        let new = pick_of(tags, field, name);
        let grown = picks.insert(at, new);
        assert forall|i: int, j: int| 0 <= i < j < grown.len() implies pick_before(
            #[trigger] grown[i],
            #[trigger] grown[j],
        ) by {
            if i == at {
                assert(grown[j] == picks[j - 1]);
            } else if j == at {
                assert(grown[i] == picks[i]);
            } else {
                let pi = if i < at { i } else { i - 1 };
                let pj = if j < at { j } else { j - 1 };
                assert(grown[i] == picks[pi]);
                assert(grown[j] == picks[pj]);
            }
        }
        assert forall|i: int| 0 <= i < grown.len() implies {
            &&& more.contains((#[trigger] grown[i]).name)
            &&& contributes(tags, field, grown[i].name)
            &&& grown[i] == pick_of(tags, field, grown[i].name)
        } by {
            if i != at {
                let pi = if i < at { i } else { i - 1 };
                assert(grown[i] == picks[pi]);
            }
        }
        assert forall|x: Seq<char>|
            more.contains(x) && #[trigger] contributes(tags, field, x) implies picked(grown, x) by {
            if x == name {
                assert(grown[at].name == x);
            } else {
                assert(names.contains(x));
                let i = choose|i: int| 0 <= i < picks.len() && (#[trigger] picks[i]).name == x;
                let gi = if i < at { i } else { i + 1 };
                assert(grown[gi] == picks[i]);
            }
        }
    }
}

/// In a sequence in order of application, every new pick from another tag
/// has a slot.
pub proof fn lemma_slot_exists(picks: Seq<Pick>, new: Pick) -> (at: int)
    requires
        in_order(picks),
        forall|i: int| 0 <= i < picks.len() ==> (#[trigger] picks[i]).name != new.name,
    ensures
        slot_for(picks, new, at),
    decreases picks.len(),
{
    if picks.len() == 0 {
        0
    } else {
        let last = picks.last();
        let front = picks.drop_last();
        assert forall|i: int, j: int| 0 <= i < j < front.len() implies pick_before(
            #[trigger] front[i],
            #[trigger] front[j],
        ) by {
            assert(front[i] == picks[i] && front[j] == picks[j]);
        }
        assert forall|i: int| 0 <= i < front.len() implies (#[trigger] front[i]).name
            != new.name by {
            assert(front[i] == picks[i]);
        }
        assert(last == picks[picks.len() - 1]);
        if pick_before(last, new) {
            assert forall|k: int| 0 <= k < picks.len() implies pick_before(
                #[trigger] picks[k],
                new,
            ) by {
                if k < picks.len() - 1 {
                    lemma_pick_before_transitive(picks[k], last, new);
                }
            }
            picks.len() as int
        } else {
            lemma_trichotomy(last.name, new.name);
            assert(pick_before(new, last));
            let at = lemma_slot_exists(front, new);
            assert forall|k: int| 0 <= k < at implies pick_before(#[trigger] picks[k], new) by {
                assert(front[k] == picks[k]);
            }
            assert forall|k: int| at <= k < picks.len() implies pick_before(
                new,
                #[trigger] picks[k],
            ) by {
                if k < picks.len() - 1 {
                    assert(front[k] == picks[k]);
                }
            }
            at
        }
    }
}

/// Every list of names without repetition has a resolution.
pub proof fn lemma_resolution_exists(names: Seq<Seq<char>>, tags: NameMap<Tag>, field: TagField)
    requires
        names.no_duplicates(),
    ensures
        is_resolution(resolution(names, tags, field), names, tags, field),
    decreases names.len(),
{
    if names.len() == 0 {
        let none = Seq::<Pick>::empty();
        assert(is_resolution(none, names, tags, field));
    } else {
        let front = names.drop_last();
        let name = names.last();
        assert(names =~= front.push(name));
        assert(front.no_duplicates()) by {
            assert forall|i: int, j: int|
                0 <= i < front.len() && 0 <= j < front.len() && i != j implies front[i]
                != front[j] by {
                assert(front[i] == names[i] && front[j] == names[j]);
            }
        }
        assert(!front.contains(name)) by {
            if front.contains(name) {
                let i = choose|i: int| 0 <= i < front.len() && front[i] == name;
                assert(names[i] == names[names.len() - 1]);
            }
        }
        lemma_resolution_exists(front, tags, field);
        let picks = resolution(front, tags, field);
        if contributes(tags, field, name) {
            let new = pick_of(tags, field, name);
            assert forall|i: int| 0 <= i < picks.len() implies (#[trigger] picks[i]).name
                != new.name by {
                assert(front.contains(picks[i].name));
            }
            let at = lemma_slot_exists(picks, new);
            lemma_resolution_step(picks, front, tags, field, name, at);
            assert(is_resolution(picks.insert(at, new), names, tags, field));
        } else {
            lemma_resolution_step(picks, front, tags, field, name, 0);
            assert(is_resolution(picks, names, tags, field));
        }
    }
}

} // verus!
