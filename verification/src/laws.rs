//! Laws of the engine: what holds of label resolution, of the order of
//! scenes, of the inventory and of a session that has ended, whatever the
//! script and the state.

use crate::engine::{Fault, Step, bump, past_end, run_command, settle, step};
use crate::filter::{eval, wrap};
use crate::resolve::{resolve_from, resolved};
use crate::script::{CommandView, FilterView, LineView, Ops, SceneView};
use crate::session::{MessageView, ignored, react, shown};
use crate::state::{StateView, Status, add_all, count, enter, one_more, visit_count};
use crate::table::{lemma_lookup_put, put};
use crate::text::{lemma_parent_label, parent_label, qualified};
use crate::zone::{ZoneView, find_index, is_branch, next_label, next_sibling};
use vstd::prelude::*;

verus! {

/// Whether `p` is `label` or one of its ancestors.
pub open spec fn ancestor_or_self(p: Seq<char>, label: Seq<char>) -> bool
    decreases label.len(),
{
    p == label || (label.len() > 0 && {
        proof {
            lemma_parent_label(label);
        }
        ancestor_or_self(p, parent_label(label))
    })
}

/// Seen from the top level, a reference stands for itself.
pub proof fn lemma_qualified_at_top(reference: Seq<char>)
    ensures
        qualified(Seq::empty(), reference) == reference,
{
    let joined = Seq::<char>::empty().push('.') + reference;
    assert(joined[0] == '.');
    assert(joined.skip(1) =~= reference);
}

/// A reference that names a scene resolves to itself from below `prefix`,
/// unless a scene nearer by answers to it.
pub proof fn lemma_resolve_from_known(
    prefix: Seq<char>,
    names: Seq<Seq<char>>,
    reference: Seq<char>,
)
    requires
        prefix.len() > 0,
        names.contains(reference),
        forall|p: Seq<char>|
            p.len() > 0 && #[trigger] ancestor_or_self(p, parent_label(prefix))
                ==> !names.contains(qualified(p, reference)),
    ensures
        resolve_from(prefix, names, reference) == reference,
    decreases prefix.len(),
{
    let up = parent_label(prefix);
    lemma_parent_label(prefix);
    if up.len() == 0 {
        lemma_qualified_at_top(reference);
        assert(up =~= Seq::<char>::empty());
    } else {
        assert(ancestor_or_self(up, up));
        assert forall|p: Seq<char>|
            p.len() > 0 && #[trigger] ancestor_or_self(p, parent_label(up)) implies !names.contains(
            qualified(p, reference),
        ) by {
            assert(ancestor_or_self(p, up));
        }
        lemma_resolve_from_known(up, names, reference);
    }
}

/// Resolution leaves a full label as it is: a reference that is the label
/// of a scene resolves to itself from any scene, provided that neither the
/// scene nor one of its ancestors has a scene below it that answers to the
/// reference.
pub proof fn lemma_resolve_full_label(
    label: Seq<char>,
    names: Seq<Seq<char>>,
    reference: Seq<char>,
)
    requires
        names.contains(reference),
        forall|p: Seq<char>|
            p.len() > 0 && #[trigger] ancestor_or_self(p, label) ==> !names.contains(
                qualified(p, reference),
            ),
    ensures
        resolved(label, names, reference) == reference,
{
    let start = label.push('.').push('1');
    assert(start.drop_last() =~= label.push('.'));
    assert(label.push('.').drop_last() =~= label);
    assert(parent_label(label.push('.')) == label);
    assert(parent_label(start) == label);
    lemma_resolve_from_known(start, names, reference);
}

/// `next_sibling` finds the first scene at or after `from` that has the
/// parent `up`, and finds none only when no scene from there on has it.
pub proof fn lemma_next_sibling(scenes: Seq<SceneView>, up: Seq<char>, from: int)
    requires
        0 <= from,
    ensures
        match next_sibling(scenes, up, from) {
            Some(j) => from <= j < scenes.len() && parent_label(scenes[j].label) == up
                && forall|k: int| from <= k < j ==> parent_label(scenes[k].label) != up,
            None => forall|k: int| from <= k < scenes.len() ==> parent_label(scenes[k].label) != up,
        },
    decreases scenes.len() - from,
{
    if from < scenes.len() && parent_label(scenes[from].label) != up {
        lemma_next_sibling(scenes, up, from + 1);
    }
}

/// The scene that follows a scene is its parent, where that is a branch, and
/// else the next scene in the list that has the same parent as the scene:
/// no scene between the two has that parent.
pub proof fn lemma_next_is_parent_or_sibling(scenes: Seq<SceneView>, last: Seq<char>)
    requires
        next_label(scenes, last) is Some,
    ensures
        ({
            let next = next_label(scenes, last).unwrap();
            let i = find_index(scenes, last).unwrap();
            ||| next == parent_label(last) && is_branch(scenes, next)
            ||| exists|j: int|
                i < j < scenes.len() && scenes[j].label == next && parent_label(next)
                    == parent_label(last) && forall|k: int|
                    i < k < j ==> parent_label(#[trigger] scenes[k].label) != parent_label(last)
        }),
{
    let i = find_index(scenes, last).unwrap();
    let up = parent_label(last);
    crate::zone::lemma_find_index(scenes, last);
    if !(up.len() > 0 && is_branch(scenes, up)) {
        lemma_next_sibling(scenes, up, i + 1);
        let j = next_sibling(scenes, up, i + 1).unwrap();
        assert(i < j < scenes.len() && scenes[j].label == next_label(scenes, last).unwrap());
    }
}

/// A scene whose parent is a branch is followed by its parent.
pub proof fn lemma_branch_return(scenes: Seq<SceneView>, last: Seq<char>)
    requires
        find_index(scenes, last) is Some,
        parent_label(last).len() > 0,
        is_branch(scenes, parent_label(last)),
    ensures
        next_label(scenes, last) == Some(parent_label(last)),
{
}

/// An item command adds to the count that is stored: after the command that
/// changes `key` by `amount`, the count of `key` is the old count plus
/// `amount`, and every other count is as before.
pub proof fn lemma_item_adds(st: StateView, key: Seq<char>, amount: i32, other: Seq<char>)
    ensures
        count(run_command(st, CommandView::Item(seq![(key, amount)])).inventory, other) == if other
            == key {
            wrap(count(st.inventory, key) + amount)
        } else {
            count(st.inventory, other)
        },
{
    let change = seq![(key, amount)];
    assert(change.drop_last() =~= Seq::<(Seq<char>, i32)>::empty());
    assert(add_all(st.inventory, change.drop_last()) == st.inventory);
    assert(change.last() == (key, amount));
    lemma_lookup_put(st.inventory, key, wrap(count(st.inventory, key) + amount), other);
}

/// The command that adds 1 to an item, carried out twice on a state in which
/// the item was never counted, leaves the count 2.
pub proof fn lemma_item_twice(st: StateView, key: Seq<char>)
    requires
        count(st.inventory, key) == 0,
    ensures
        count(
            run_command(
                run_command(st, CommandView::Item(seq![(key, 1i32)])),
                CommandView::Item(seq![(key, 1i32)]),
            ).inventory,
            key,
        ) == 2,
{
    let once = run_command(st, CommandView::Item(seq![(key, 1i32)]));
    lemma_item_adds(st, key, 1, key);
    lemma_item_adds(once, key, 1, key);
}

/// Past the last line of a scene whose parent is a branch, settling goes
/// back to the parent: the session is at line 0 of the parent, with one
/// more visit recorded for it, and nothing else has changed. One scene is
/// entered, so one must be allowed.
pub proof fn lemma_branch_return_settles(scenes: Seq<SceneView>, st: StateView, fuel: nat)
    requires
        fuel > 0,
        find_index(scenes, st.scene) is Some,
        !scenes[find_index(scenes, st.scene).unwrap()].branch,
        past_end(scenes[find_index(scenes, st.scene).unwrap()], st.line),
        parent_label(st.scene).len() > 0,
        is_branch(scenes, parent_label(st.scene)),
    ensures
        settle(scenes, st, fuel) == (enter(st, parent_label(st.scene)), None::<Fault>),
        enter(st, parent_label(st.scene)).scene == parent_label(st.scene),
        enter(st, parent_label(st.scene)).line == 0,
        enter(st, parent_label(st.scene)).status == st.status,
        visit_count(enter(st, parent_label(st.scene)).visits, parent_label(st.scene)) == one_more(
            visit_count(st.visits, parent_label(st.scene)),
        ),
{
    let up = parent_label(st.scene);
    let after = enter(st, up);
    lemma_branch_return(scenes, st.scene);
    assert(step(scenes, st) == Step::Enter(after));
    assert(step(scenes, after) == Step::Stop(after));
    assert(settle(scenes, after, (fuel - 1) as nat) == (after, None::<Fault>));
    assert(settle(scenes, st, fuel) == settle(scenes, after, (fuel - 1) as nat));
    lemma_lookup_put(st.visits, up, one_more(visit_count(st.visits, up)), up);
}

/// Whether the `n` lines from `from` on are all lines of text whose filter
/// fails in the state.
pub open spec fn hidden_run(lines: Seq<LineView>, st: StateView, from: int, n: nat) -> bool {
    forall|k: int|
        from <= k < from + n ==> (#[trigger] lines[k] matches LineView::Text(text)
            && text.filter is Some && eval(text.filter.unwrap(), st) == 0)
}

/// The state with the line index `n` further.
pub open spec fn moved_on(st: StateView, n: nat) -> StateView {
    StateView { line: (st.line + n) as usize, ..st }
}

/// A run of hidden lines is followed to its end, however long it is and
/// whatever the number of scenes that may be entered: where the scene holds,
/// from the session's line on, `n` lines whose filters fail and then a line
/// that is shown, settling ends on that line and changes nothing else.
pub proof fn lemma_hidden_run_is_followed(
    scenes: Seq<SceneView>,
    st: StateView,
    n: nat,
    fuel: nat,
)
    requires
        find_index(scenes, st.scene) is Some,
        !scenes[find_index(scenes, st.scene).unwrap()].branch,
        st.line + n < scenes[find_index(scenes, st.scene).unwrap()].lines.len(),
        st.line + n < usize::MAX,
        hidden_run(scenes[find_index(scenes, st.scene).unwrap()].lines, st, st.line as int, n),
        shown(scenes[find_index(scenes, st.scene).unwrap()].lines[st.line + n], st),
    ensures
        settle(scenes, st, fuel) == (moved_on(st, n), None::<Fault>),
    decreases n,
{
    let lines = scenes[find_index(scenes, st.scene).unwrap()].lines;
    if n == 0 {
        assert(moved_on(st, 0) == st);
        assert(step(scenes, st) == Step::Stop(st));
    } else {
        let next = bump(st);
        let _ = lines[st.line as int];
        assert(step(scenes, st) == Step::Next(next));
        assert(settle(scenes, st, fuel) == settle(scenes, next, fuel));
        assert forall|k: int| next.line <= k < next.line + (n - 1) implies (
        #[trigger] lines[k] matches LineView::Text(text) && text.filter is Some && eval(
            text.filter.unwrap(),
            next,
        ) == 0) by {
            match lines[k] {
                LineView::Text(text) => {
                    lemma_eval_ignores_line(text.filter.unwrap(), st, next);
                },
                LineView::Command(_) => {},
            }
        }
        match lines[st.line + n] {
            LineView::Text(text) => {
                if text.filter is Some {
                    lemma_eval_ignores_line(text.filter.unwrap(), st, next);
                }
            },
            LineView::Command(_) => {},
        }
        lemma_hidden_run_is_followed(scenes, next, (n - 1) as nat, fuel);
        assert(moved_on(next, (n - 1) as nat) == moved_on(st, n));
    }
}

/// The value of a filter does not depend on the place of the session in
/// the script or on its log and status.
pub proof fn lemma_eval_ignores_line(filter: FilterView, a: StateView, b: StateView)
    requires
        a.inventory == b.inventory,
        a.visits == b.visits,
        a.values == b.values,
    ensures
        eval(filter, a) == eval(filter, b),
    decreases filter,
{
    match filter {
        FilterView::Call(_, left, right) => {
            lemma_eval_ignores_line(*left, a, b);
            lemma_eval_ignores_line(*right, a, b);
        },
        _ => {},
    }
}

/// A state that settling has reached is settled: one more step leaves it
/// as it is.
pub proof fn lemma_settled_stays(scenes: Seq<SceneView>, st: StateView, fuel: nat)
    requires
        settle(scenes, st, fuel).1 is None,
    ensures
        step(scenes, settle(scenes, st, fuel).0) == Step::Stop(settle(scenes, st, fuel).0),
    decreases fuel, usize::MAX - st.line,
{
    match step(scenes, st) {
        Step::Stop(after) => {
            assert(step(scenes, after) == Step::Stop(after));
        },
        Step::Fail(_) => {},
        Step::Next(after) => {
            lemma_settled_stays(scenes, after, fuel);
        },
        Step::Enter(after) => {
            if fuel > 0 {
                lemma_settled_stays(scenes, after, (fuel - 1) as nat);
            }
        },
    }
}

/// Settling is idempotent: settling again from where settling ended changes
/// nothing, however many scenes may be entered.
pub proof fn lemma_settle_idempotent(scenes: Seq<SceneView>, st: StateView, fuel: nat, again: nat)
    requires
        settle(scenes, st, fuel).1 is None,
    ensures
        settle(scenes, settle(scenes, st, fuel).0, again) == (
            settle(scenes, st, fuel).0,
            None::<Fault>,
        ),
{
    lemma_settled_stays(scenes, st, fuel);
}

/// A session that no longer runs turns every intent away but the restart:
/// the state stays as it is, and nothing is shown anew or saved.
pub proof fn lemma_ended_session_ignores(zone: ZoneView, st: StateView, msg: MessageView)
    requires
        st.status != Status::Running,
        !(msg is Reset),
    ensures
        react(zone, st, msg) == (st, ignored(), None::<Fault>),
{
}

/// The filter `$gold >= 10 and #shop = 0`.
pub open spec fn rich_and_new() -> FilterView {
    FilterView::Call(
        Ops::And,
        Box::new(
            FilterView::Call(
                Ops::Gte,
                Box::new(FilterView::Items("gold"@)),
                Box::new(FilterView::Int(10)),
            ),
        ),
        Box::new(
            FilterView::Call(
                Ops::Eq,
                Box::new(FilterView::Visits("shop"@)),
                Box::new(FilterView::Int(0)),
            ),
        ),
    )
}

/// The filter `$gold >= 10 and #shop = 0` lets a line through exactly when
/// the count of `gold` is at least 10 and `shop` was never visited.
pub proof fn lemma_rich_and_new(st: StateView)
    ensures
        eval(rich_and_new(), st) != 0 <==> count(st.inventory, "gold"@) >= 10 && visit_count(
            st.visits,
            "shop"@,
        ) == 0,
{
    reveal_with_fuel(eval, 3);
}

/// Whatever the right operand of `or` is, a left operand that is not 0 is
/// the value: `1 or (1/0)` is 1 in every state.
pub proof fn lemma_or_needs_no_right_operand(st: StateView, right: FilterView)
    ensures
        eval(
            FilterView::Call(Ops::Or, Box::new(FilterView::Int(1)), Box::new(right)),
            st,
        ) == 1,
{
    reveal_with_fuel(eval, 2);
}

} // verus!
