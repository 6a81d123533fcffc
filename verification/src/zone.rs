//! The compiled script: the scenes in one flat list, the index from labels to
//! places in that list, and the commands that seed a new session.

use crate::resolve::{BadLink, bad_link_views, bad_links, resolve_scene};
use crate::script::{Command, CommandView, Scene, SceneView, command_views, scene_views};
use crate::table::{Table, lemma_lookup_put, lookup};
use crate::text::{parent, parent_label, string_views};
use vstd::prelude::*;

verus! {

/// The place of the scene that `label` names: the last scene with that label.
pub open spec fn find_index(scenes: Seq<SceneView>, label: Seq<char>) -> Option<int>
    decreases scenes.len(),
{
    if scenes.len() == 0 {
        None
    } else if scenes.last().label == label {
        Some(scenes.len() - 1)
    } else {
        find_index(scenes.drop_last(), label)
    }
}

/// `find_index` returns a place that holds the label, and returns none only
/// when no scene holds it.
pub proof fn lemma_find_index(scenes: Seq<SceneView>, label: Seq<char>)
    ensures
        match find_index(scenes, label) {
            Some(i) => 0 <= i < scenes.len() && scenes[i].label == label && forall|j: int|
                i < j < scenes.len() ==> scenes[j].label != label,
            None => forall|j: int| 0 <= j < scenes.len() ==> scenes[j].label != label,
        },
    decreases scenes.len(),
{
    if scenes.len() > 0 && scenes.last().label != label {
        let front = scenes.drop_last();
        lemma_find_index(front, label);
        assert(forall|j: int| 0 <= j < front.len() ==> front[j] == scenes[j]);
    }
}

/// The first place at or after `from` whose scene has the parent `up`.
pub open spec fn next_sibling(scenes: Seq<SceneView>, up: Seq<char>, from: int) -> Option<int>
    decreases scenes.len() - from,
{
    if from < 0 || from >= scenes.len() {
        None
    } else if parent_label(scenes[from].label) == up {
        Some(from)
    } else {
        next_sibling(scenes, up, from + 1)
    }
}

/// Whether `up` names a scene that is a branch.
pub open spec fn is_branch(scenes: Seq<SceneView>, up: Seq<char>) -> bool {
    match find_index(scenes, up) {
        Some(i) => scenes[i].branch,
        None => false,
    }
}

/// The label of the scene that follows the scene `last`: its parent where the
/// parent is a branch, else the next scene in the list that has the same
/// parent. `None` where `last` names no scene or nothing follows it.
pub open spec fn next_label(scenes: Seq<SceneView>, last: Seq<char>) -> Option<Seq<char>> {
    match find_index(scenes, last) {
        None => None,
        Some(i) => {
            let up = parent_label(last);
            if up.len() > 0 && is_branch(scenes, up) {
                Some(up)
            } else {
                match next_sibling(scenes, up, i + 1) {
                    Some(j) => Some(scenes[j].label),
                    None => None,
                }
            }
        },
    }
}

/// The labels of the scenes, in order.
pub open spec fn labels(scenes: Seq<SceneView>) -> Seq<Seq<char>> {
    Seq::new(scenes.len(), |i: int| scenes[i].label)
}

/// Whether no two scenes have the same label.
pub open spec fn distinct_labels(scenes: Seq<SceneView>) -> bool {
    forall|i: int, j: int| 0 <= i < j < scenes.len() ==> scenes[i].label != scenes[j].label
}

/// A label that names no scene, or a scene that nothing follows.
#[derive(Debug)]
pub struct BadSceneName {
    pub name: String,
}

/// A compiled script.
#[derive(Debug)]
pub struct Zone {
    scenes: Vec<Scene>,
    lookup: Table<usize>,
    pub initialize: Vec<Command>,
}

/// A compiled script as a value: its scenes in order, and the commands of
/// its header.
pub struct ZoneView {
    pub scenes: Seq<SceneView>,
    pub initialize: Seq<CommandView>,
}

impl View for Zone {
    type V = ZoneView;

    closed spec fn view(&self) -> ZoneView {
        ZoneView {
            scenes: scene_views(self.scenes@),
            initialize: command_views(self.initialize@),
        }
    }
}

impl Zone {
    /// The index agrees with the list: a label is indexed exactly when a scene
    /// holds it, and then under the place of the last such scene.
    pub closed spec fn wf(&self) -> bool {
        forall|label: Seq<char>|
            match #[trigger] lookup(self.lookup.pairs(), label) {
                Some(i) => find_index(scene_views(self.scenes@), label) == Some(i as int),
                None => find_index(scene_views(self.scenes@), label) is None,
            }
    }

    /// The place that the index holds for `label`.
    pub closed spec fn indexed(&self, label: Seq<char>) -> Option<usize> {
        lookup(self.lookup.pairs(), label)
    }

    /// Every entry of the index points at a scene with that very label, the
    /// last one in the list that has it, and every scene's label has an
    /// entry.
    pub proof fn lemma_index_consistent(&self, label: Seq<char>)
        requires
            self.wf(),
        ensures
            match self.indexed(label) {
                Some(i) => find_index(self@.scenes, label) == Some(i as int),
                None => find_index(self@.scenes, label) is None,
            },
            match self.indexed(label) {
                Some(i) => i < self@.scenes.len() && self@.scenes[i as int].label == label,
                None => forall|j: int| 0 <= j < self@.scenes.len() ==> self@.scenes[j].label != label,
            },
            self.indexed(label) is Some <==> labels(self@.scenes).contains(label),
    {
        lemma_find_index(self@.scenes, label);
        assert(lookup(self.lookup.pairs(), label) is Some ==> find_index(self@.scenes, label) is Some);
        if labels(self@.scenes).contains(label) {
            let j = choose|j: int| 0 <= j < labels(self@.scenes).len() && labels(self@.scenes)[j] == label;
            assert(self@.scenes[j].label == label);
        }
        if self.indexed(label) is Some {
            let i = self.indexed(label).unwrap() as int;
            assert(labels(self@.scenes)[i] == label);
        }
    }

    /// The zone of the given scenes, with its index built.
    pub fn new(scenes: Vec<Scene>, initialize: Vec<Command>) -> (r: Self)
        ensures
            r.wf(),
            r@.scenes == scene_views(scenes@),
            r@.initialize == command_views(initialize@),
    {
        let mut table: Table<usize> = Table::new();
        let mut i: usize = 0;
        while i < scenes.len()
            invariant
                i <= scenes@.len(),
                forall|label: Seq<char>|
                    match #[trigger] lookup(table.pairs(), label) {
                        Some(k) => find_index(scene_views(scenes@).take(i as int), label) == Some(
                            k as int,
                        ),
                        None => find_index(scene_views(scenes@).take(i as int), label) is None,
                    },
            decreases scenes@.len() - i,
        {
            let ghost before = table.pairs();
            let ghost views = scene_views(scenes@);
            table.insert(scenes[i].label.clone(), i);
            proof {
                assert(views.take(i + 1).drop_last() =~= views.take(i as int));
                assert(views.take(i + 1).last() == views[i as int]);
                assert forall|label: Seq<char>|
                    match #[trigger] lookup(table.pairs(), label) {
                        Some(k) => find_index(views.take(i + 1), label) == Some(k as int),
                        None => find_index(views.take(i + 1), label) is None,
                    } by {
                    lemma_lookup_put(before, scenes@[i as int].label@, i, label);
                    let _ = lookup(before, label);
                }
            }
            i += 1;
        }
        proof {
            assert(scene_views(scenes@).take(i as int) =~= scene_views(scenes@));
        }
        Zone { scenes, lookup: table, initialize }
    }

    /// The scenes, in order.
    pub fn scenes(&self) -> (r: &Vec<Scene>)
        ensures
            scene_views(r@) == self@.scenes,
    {
        &self.scenes
    }

    /// The commands that seed a new session.
    pub fn initial_commands(&self) -> (r: &Vec<Command>)
        ensures
            command_views(r@) == self@.initialize,
    {
        &self.initialize
    }

    /// The labels of the scenes, in order.
    pub fn scene_names(&self) -> (r: Vec<String>)
        ensures
            string_views(r@) == labels(self@.scenes),
    {
        let mut names: Vec<String> = Vec::new();
        let mut i: usize = 0;
        while i < self.scenes.len()
            invariant
                i <= self.scenes@.len(),
                names@.len() == i,
                forall|j: int| 0 <= j < i ==> names@[j]@ == self.scenes@[j].label@,
            decreases self.scenes@.len() - i,
        {
            names.push(self.scenes[i].label.clone());
            i += 1;
        }
        assert(string_views(names@) =~= labels(self@.scenes));
        names
    }

    /// The place of the first scene whose label an earlier scene has too;
    /// `None` where all labels differ.
    pub fn repeated_label(&self) -> (r: Option<usize>)
        ensures
            match r {
                Some(j) => j < self@.scenes.len() && exists|i: int|
                    0 <= i < j && self@.scenes[i].label == self@.scenes[j as int].label,
                None => distinct_labels(self@.scenes),
            },
    {
        let mut j: usize = 0;
        while j < self.scenes.len()
            invariant
                j <= self.scenes@.len(),
                forall|a: int, b: int|
                    0 <= a < b < j ==> self@.scenes[a].label != self@.scenes[b].label,
            decreases self.scenes@.len() - j,
        {
            let mut i: usize = 0;
            while i < j
                invariant
                    i <= j < self.scenes@.len(),
                    forall|a: int| 0 <= a < i ==> self@.scenes[a].label != self@.scenes[j as int].label,
                decreases j - i,
            {
                if self.scenes[i].label == self.scenes[j].label {
                    assert(self@.scenes[i as int].label == self@.scenes[j as int].label);
                    return Some(j);
                }
                i += 1;
            }
            j += 1;
        }
        None
    }

    /// The place of the scene that `name` names.
    pub fn find_place(&self, name: &String) -> (r: Option<usize>)
        requires
            self.wf(),
        ensures
            match r {
                Some(i) => find_index(self@.scenes, name@) == Some(i as int) && i
                    < self@.scenes.len(),
                None => find_index(self@.scenes, name@) is None,
            },
    {
        proof {
            lemma_find_index(self@.scenes, name@);
            let _ = lookup(self.lookup.pairs(), name@);
        }
        self.lookup.get(name)
    }

    /// The scene that `name` names, if there is one.
    pub fn find_scene(&self, name: &String) -> (r: Option<&Scene>)
        requires
            self.wf(),
        ensures
            match r {
                Some(scene) => find_index(self@.scenes, name@) is Some && scene@
                    == self@.scenes[find_index(self@.scenes, name@).unwrap()],
                None => find_index(self@.scenes, name@) is None,
            },
    {
        match self.find_place(name) {
            Some(i) => Some(&self.scenes[i]),
            None => None,
        }
    }

    /// The label of the scene that follows the scene `last`.
    pub fn next(&self, last: &String) -> (r: Result<String, BadSceneName>)
        requires
            self.wf(),
        ensures
            match r {
                Ok(label) => next_label(self@.scenes, last@) == Some(label@),
                Err(bad) => next_label(self@.scenes, last@) is None && bad.name@ == last@,
            },
    {
        let place = match self.find_place(last) {
            Some(i) => i,
            None => {
                return Err(BadSceneName { name: last.clone() });
            },
        };
        let up = parent(last);
        if up.as_str().unicode_len() > 0 {
            if let Some(above) = self.find_scene(&up) {
                if above.branch {
                    return Ok(up);
                }
            }
        }
        let count = self.scenes.len();
        assert(place < count);
        let mut j: usize = place + 1;
        while j < count
            invariant
                place < j <= self.scenes@.len(),
                count == self.scenes@.len(),
                up@ == parent_label(last@),
                find_index(self@.scenes, last@) == Some(place as int),
                !(up@.len() > 0 && is_branch(self@.scenes, up@)),
                next_sibling(self@.scenes, up@, place + 1) == next_sibling(
                    self@.scenes,
                    up@,
                    j as int,
                ),
            decreases self.scenes@.len() - j,
        {
            let here = parent(&self.scenes[j].label);
            assert(self@.scenes[j as int].label == self.scenes@[j as int].label@);
            if here == up {
                return Ok(self.scenes[j].label.clone());
            }
            j += 1;
        }
        Err(BadSceneName { name: last.clone() })
    }

    /// The references that name no scene: after `correct`, those for which
    /// no scene was found.
    pub fn unresolved(&self) -> (r: Vec<BadLink>)
        ensures
            bad_link_views(r@) == bad_links(self@.scenes, labels(self@.scenes)),
    {
        let names = self.scene_names();
        let mut out: Vec<BadLink> = Vec::new();
        let mut i: usize = 0;
        assert(self@.scenes.take(0) =~= Seq::<SceneView>::empty());
        assert(bad_link_views(out@) =~= Seq::<(Seq<char>, Seq<char>)>::empty());
        while i < self.scenes.len()
            invariant
                i <= self.scenes@.len(),
                string_views(names@) == labels(self@.scenes),
                bad_link_views(out@) == bad_links(
                    self@.scenes.take(i as int),
                    string_views(names@),
                ),
            decreases self.scenes@.len() - i,
        {
            proof {
                let all = self@.scenes;
                assert(all.take(i + 1).drop_last() =~= all.take(i as int));
                assert(all.take(i + 1).last() == self.scenes@[i as int]@);
            }
            self.scenes[i].collect_bad_links(&names, &mut out);
            i += 1;
        }
        assert(self@.scenes.take(i as int) =~= self@.scenes);
        out
    }

    /// Rewrites every link, visit count and jump of every scene to the full
    /// label of the scene it refers to.
    pub fn correct(&mut self)
        requires
            old(self).wf(),
        ensures
            final(self).wf(),
            final(self)@.initialize == old(self)@.initialize,
            final(self)@.scenes == resolve_scenes(old(self)@.scenes, labels(old(self)@.scenes)),
    {
        let names = self.scene_names();
        let mut fixed: Vec<Scene> = Vec::new();
        let mut i: usize = 0;
        while i < self.scenes.len()
            invariant
                i <= self.scenes@.len(),
                fixed@.len() == i,
                string_views(names@) == labels(scene_views(self.scenes@)),
                forall|j: int|
                    0 <= j < i ==> fixed@[j]@ == resolve_scene(
                        self.scenes@[j]@,
                        string_views(names@),
                    ),
            decreases self.scenes@.len() - i,
        {
            let mut scene = Scene {
                label: self.scenes[i].label.clone(),
                branch: self.scenes[i].branch,
                lines: Vec::new(),
            };
            let lines = scene.resolve_lines(&names, &self.scenes[i].lines);
            scene.lines = lines;
            assert(scene@.lines =~= resolve_scene(
                self.scenes@[i as int]@,
                string_views(names@),
            ).lines);
            fixed.push(scene);
            i += 1;
        }
        proof {
            let before = scene_views(self.scenes@);
            let after = scene_views(fixed@);
            assert(after =~= resolve_scenes(before, labels(before)));
            assert forall|label: Seq<char>|
                find_index(after, label) == find_index(before, label) by {
                lemma_find_same_labels(before, after, label);
            }
        }
        self.scenes = fixed;
    }
}

/// Scenes with all their references resolved against `names`.
pub open spec fn resolve_scenes(scenes: Seq<SceneView>, names: Seq<Seq<char>>) -> Seq<SceneView> {
    Seq::new(scenes.len(), |i: int| resolve_scene(scenes[i], names))
}

/// Two lists with the same labels in the same places index alike.
pub proof fn lemma_find_same_labels(a: Seq<SceneView>, b: Seq<SceneView>, label: Seq<char>)
    requires
        a.len() == b.len(),
        forall|i: int| 0 <= i < a.len() ==> a[i].label == b[i].label,
    ensures
        find_index(a, label) == find_index(b, label),
    decreases a.len(),
{
    if a.len() > 0 {
        lemma_find_same_labels(a.drop_last(), b.drop_last(), label);
    }
}

} // verus!
