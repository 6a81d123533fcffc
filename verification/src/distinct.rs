//! Why the labels of a compiled script differ: a label spells the way from a
//! top-level scene down to its scene, so two labels are the same only where
//! a block holds two scenes of the same name.

use crate::grammar::{
    Class, EntryView, SceneTree, block, entries, entry, flat, flatten, flatten_all, label,
    scene, scenes_from, scenes_of, script, symbol,
};
use crate::lexer::lemma_run_holds;
use crate::script::SceneView;
use crate::zone::{distinct_labels, labels, resolve_scenes};
use vstd::prelude::*;

verus! {

/// Whether no dot stands in the name.
pub open spec fn dot_free(name: Seq<char>) -> bool {
    forall|k: int| 0 <= k < name.len() ==> name[k] != '.'
}

/// Whether the scenes have names that all differ.
pub open spec fn apart(trees: Seq<SceneTree>) -> bool {
    forall|i: int, j: int| 0 <= i < j < trees.len() ==> trees[i].name != trees[j].name
}

/// Whether neither the block of the scene nor the block of a scene nested
/// in it holds two scenes of the same name.
pub open spec fn named_apart(tree: SceneTree) -> bool
    decreases tree,
{
    apart(tree.children) && forall|k: int|
        0 <= k < tree.children.len() ==> named_apart(#[trigger] tree.children[k])
}

/// Whether no two of the scenes, and no two scenes of one block below them,
/// have the same name.
pub open spec fn all_named_apart(trees: Seq<SceneTree>) -> bool {
    apart(trees) && forall|k: int| 0 <= k < trees.len() ==> named_apart(#[trigger] trees[k])
}

/// Whether the name of the scene and of every scene nested in it is free of
/// dots.
pub open spec fn plain_names(tree: SceneTree) -> bool
    decreases tree,
{
    dot_free(tree.name) && forall|k: int|
        0 <= k < tree.children.len() ==> plain_names(#[trigger] tree.children[k])
}

/// Whether the label is `root`, or begins with `root` and a dot.
pub open spec fn rooted(label: Seq<char>, root: Seq<char>) -> bool {
    label == root || (label.len() > root.len() && label.take(root.len() as int) == root
        && label[root.len() as int] == '.')
}

/// Labels under two different roots differ.
pub proof fn lemma_rooted_apart(x: Seq<char>, y: Seq<char>, r1: Seq<char>, r2: Seq<char>)
    requires
        rooted(x, r1),
        rooted(y, r2),
        r1 != r2,
        dot_free(r1),
        dot_free(r2),
    ensures
        x != y,
{
    if x == y {
        if x == r1 {
            if y != r2 {
                assert(r1[r2.len() as int] == '.');
            }
        } else if y == r2 {
            assert(r2[r1.len() as int] == '.');
        } else if r1.len() == r2.len() {
            assert(r1 == r2);
        } else if r1.len() < r2.len() {
            assert(y.take(r2.len() as int)[r1.len() as int] == y[r1.len() as int]);
            assert(r2[r1.len() as int] == '.');
        } else {
            assert(x.take(r1.len() as int)[r2.len() as int] == x[r2.len() as int]);
            assert(r1[r2.len() as int] == '.');
        }
    }
}

/// The scenes of a flattened list with the names apart have labels that
/// differ, each under the name of one of the scenes that were flattened.
pub proof fn lemma_flat_distinct(trees: Seq<SceneTree>, k: nat)
    requires
        k <= trees.len(),
        all_named_apart(trees),
        forall|j: int| 0 <= j < trees.len() ==> plain_names(#[trigger] trees[j]),
    ensures
        distinct_labels(flatten_all(trees, k)),
        forall|m: int|
            0 <= m < flatten_all(trees, k).len() ==> exists|j: int|
                0 <= j < k && rooted(#[trigger] flatten_all(trees, k)[m].label, trees[j].name),
    decreases trees, 0nat, k,
{
    if k > 0 {
        let front = flatten_all(trees, (k - 1) as nat);
        let last = flatten(trees[k - 1]);
        let all = flatten_all(trees, k);
        lemma_flat_distinct(trees, (k - 1) as nat);
        lemma_tree_distinct(trees[k - 1]);
        assert(all == front + last);
        assert forall|m: int| 0 <= m < all.len() implies exists|j: int|
            0 <= j < k && rooted(#[trigger] all[m].label, trees[j].name) by {
            if m < front.len() {
                assert(all[m] == front[m]);
                let j = choose|j: int| 0 <= j < k - 1 && rooted(front[m].label, trees[j].name);
                assert(rooted(all[m].label, trees[j].name));
            } else {
                assert(all[m] == last[m - front.len()]);
                assert(rooted(all[m].label, trees[k - 1].name));
            }
        }
        assert forall|a: int, b: int| 0 <= a < b < all.len() implies all[a].label
            != all[b].label by {
            if b < front.len() {
                assert(all[a] == front[a] && all[b] == front[b]);
            } else if a >= front.len() {
                assert(all[a] == last[a - front.len()] && all[b] == last[b - front.len()]);
            } else {
                assert(all[a] == front[a] && all[b] == last[b - front.len()]);
                let j = choose|j: int| 0 <= j < k - 1 && rooted(front[a].label, trees[j].name);
                assert(plain_names(trees[j]) && plain_names(trees[k - 1]));
                lemma_rooted_apart(
                    all[a].label,
                    all[b].label,
                    trees[j].name,
                    trees[k - 1].name,
                );
            }
        }
    }
}

/// The scenes of a flattened scene with the names apart have labels that
/// differ, each under the name of the scene.
pub proof fn lemma_tree_distinct(tree: SceneTree)
    requires
        named_apart(tree),
        plain_names(tree),
    ensures
        distinct_labels(flatten(tree)),
        forall|m: int|
            0 <= m < flatten(tree).len() ==> rooted(#[trigger] flatten(tree)[m].label, tree.name),
    decreases tree, 1nat,
{
    let nested = flatten_all(tree.children, tree.children.len());
    let all = flatten(tree);
    let head = tree.name.push('.');
    lemma_flat_distinct(tree.children, tree.children.len());
    assert forall|m: int| 1 <= m < all.len() implies all[m].label == head + nested[m - 1].label
        && all[m].label.len() > tree.name.len() && rooted(all[m].label, tree.name) by {
        let l = all[m].label;
        assert(l == head + nested[m - 1].label);
        assert(l.take(tree.name.len() as int) =~= tree.name);
        assert(l[tree.name.len() as int] == '.');
    }
    assert(all[0].label == tree.name);
    assert forall|a: int, b: int| 0 <= a < b < all.len() implies all[a].label
        != all[b].label by {
        if a > 0 {
            let x = nested[a - 1].label;
            let y = nested[b - 1].label;
            assert(x != y);
            if all[a].label == all[b].label {
                assert((head + x).skip(head.len() as int) =~= x);
                assert((head + y).skip(head.len() as int) =~= y);
            }
        }
    }
}

/// The name of a label is free of dots.
pub proof fn lemma_label_plain(s: Seq<char>, i: int)
    ensures
        label(s, i) matches Some((name, _)) ==> dot_free(name),
{
    if label(s, i) is Some {
        let (name, n) = symbol(s, i).unwrap();
        assert forall|k: int| 0 <= k < name.len() implies name[k] != '.' by {
            if k > 0 {
                lemma_run_holds(s, i + 1, Class::SymbolTail, k - 1);
            }
        }
    }
}

/// Whether every scene among the entries has plain names.
pub open spec fn plain_entries(list: Seq<EntryView>) -> bool {
    forall|k: int|
        0 <= k < list.len() ==> (#[trigger] list[k] matches EntryView::Scene(tree)
            ==> plain_names(tree))
}

/// The scenes among entries whose scenes have plain names have plain names.
pub proof fn lemma_scenes_of_plain(list: Seq<EntryView>)
    requires
        plain_entries(list),
    ensures
        forall|k: int| 0 <= k < scenes_of(list).len() ==> plain_names(#[trigger] scenes_of(list)[k]),
    decreases list.len(),
{
    if list.len() > 0 {
        let front = list.drop_last();
        assert forall|k: int| 0 <= k < front.len() implies (#[trigger] front[k] matches EntryView::Scene(
            tree,
        ) ==> plain_names(tree)) by {
            assert(front[k] == list[k]);
        }
        lemma_scenes_of_plain(front);
        let last = list[list.len() - 1];
        assert(last == list.last());
        match last {
            EntryView::Scene(tree) => {
                assert(plain_names(tree));
                let found = scenes_of(front);
                assert(scenes_of(list) == found.push(tree));
                assert forall|k: int| 0 <= k < scenes_of(list).len() implies plain_names(
                    #[trigger] scenes_of(list)[k],
                ) by {
                    if k < found.len() {
                        assert(scenes_of(list)[k] == found[k]);
                    }
                }
            },
            EntryView::Line(_) => {
                assert(scenes_of(list) == scenes_of(front));
            },
        }
    }
}

/// A scene that is read has plain names.
pub proof fn lemma_scene_plain(s: Seq<char>, i: int)
    ensures
        scene(s, i) matches Some((tree, _)) ==> plain_names(tree),
    decreases crate::grammar::left(s, i), 0nat,
{
    if scene(s, i) is Some {
        lemma_label_plain(s, i);
        let (name, n) = label(s, i).unwrap();
        let a = n + crate::grammar::run(s, i + n, Class::Space);
        let branch = crate::grammar::at(s, i + a, '?') && crate::grammar::at(s, i + a + 1, '?');
        let b = if branch {
            a + 2
        } else {
            a
        };
        let e = crate::grammar::line_ends1(s, i + b).unwrap();
        lemma_block_plain(s, i + b + e);
        lemma_scenes_of_plain(block(s, i + b + e).unwrap().0);
    }
}

/// The scenes of a block that is read have plain names.
pub proof fn lemma_block_plain(s: Seq<char>, i: int)
    ensures
        block(s, i) matches Some((list, _)) ==> plain_entries(list),
    decreases crate::grammar::left(s, i), 3nat,
{
    if block(s, i) is Some {
        let indent = crate::grammar::run(s, i, Class::Space);
        lemma_entry_plain(s, i + indent);
        let (first, n) = entry(s, i + indent).unwrap();
        lemma_entries_plain(s, i + indent + n, s.subrange(i, i + indent));
        let rest = entries(s, i + indent + n, s.subrange(i, i + indent)).0;
        let list = seq![first] + rest;
        assert forall|k: int| 0 <= k < list.len() implies (#[trigger] list[k] matches EntryView::Scene(
            tree,
        ) ==> plain_names(tree)) by {
            if k > 0 {
                assert(list[k] == rest[k - 1]);
            }
        }
    }
}

/// The scenes of the entries that are read have plain names.
pub proof fn lemma_entries_plain(s: Seq<char>, i: int, prefix: Seq<char>)
    ensures
        plain_entries(entries(s, i, prefix).0),
    decreases crate::grammar::left(s, i), 2nat,
{
    if prefix.len() > 0 && crate::grammar::word(s, i, prefix) && entry(s, i + prefix.len())
        is Some {
        lemma_entry_plain(s, i + prefix.len());
        let (first, n) = entry(s, i + prefix.len()).unwrap();
        lemma_entries_plain(s, i + prefix.len() + n, prefix);
        let rest = entries(s, i + prefix.len() + n, prefix).0;
        let list = seq![first] + rest;
        assert forall|k: int| 0 <= k < list.len() implies (#[trigger] list[k] matches EntryView::Scene(
            tree,
        ) ==> plain_names(tree)) by {
            if k > 0 {
                assert(list[k] == rest[k - 1]);
            }
        }
    }
}

/// The scene of an entry that is read has plain names.
pub proof fn lemma_entry_plain(s: Seq<char>, i: int)
    ensures
        entry(s, i) matches Some((EntryView::Scene(tree), _)) ==> plain_names(tree),
    decreases crate::grammar::left(s, i), 1nat,
{
    if scene(s, i) is Some {
        lemma_scene_plain(s, i);
    }
}

/// The scenes that are read in a row have plain names.
pub proof fn lemma_scenes_from_plain(s: Seq<char>, i: int)
    ensures
        scenes_from(s, i) matches Ok((trees, _)) ==> forall|k: int|
            0 <= k < trees.len() ==> plain_names(#[trigger] trees[k]),
    decreases crate::grammar::left(s, i),
{
    if label(s, i) is Some && scenes_from(s, i) is Ok {
        let (found, n) = scene(s, i).unwrap();
        lemma_scene_plain(s, i);
        lemma_scenes_from_plain(s, i + n);
        let rest = scenes_from(s, i + n)->Ok_0.0;
        let trees = seq![found] + rest;
        assert forall|k: int| 0 <= k < trees.len() implies plain_names(#[trigger] trees[k]) by {
            if k > 0 {
                assert(trees[k] == rest[k - 1]);
            }
        }
    }
}

/// The labels of a compiled script are all different, provided that neither
/// the script nor the block of one of its scenes holds two scenes of the
/// same name. Resolving the references changes no label.
pub proof fn lemma_compiled_labels_distinct(text: Seq<char>)
    requires
        script(text) is Ok,
        all_named_apart(script(text)->Ok_0.scenes),
    ensures
        distinct_labels(flat(script(text)->Ok_0.scenes)),
        distinct_labels(
            resolve_scenes(
                flat(script(text)->Ok_0.scenes),
                labels(flat(script(text)->Ok_0.scenes)),
            ),
        ),
{
    let trees = script(text)->Ok_0.scenes;
    let a = crate::grammar::line_ends(text, 0) as int;
    lemma_scenes_from_plain(text, a);
    if crate::grammar::header(text, a) is Some {
        lemma_scenes_from_plain(text, a + crate::grammar::header(text, a).unwrap().1);
    }
    lemma_flat_distinct(trees, trees.len());
    let scenes: Seq<SceneView> = flat(trees);
    let fixed = resolve_scenes(scenes, labels(scenes));
    assert forall|i: int, j: int| 0 <= i < j < fixed.len() implies fixed[i].label
        != fixed[j].label by {
        assert(fixed[i].label == scenes[i].label);
        assert(fixed[j].label == scenes[j].label);
    }
}

} // verus!
