//! Label resolution: a reference written inside a scene names the nearest
//! scene of that name, looking first among the scene's own children, then
//! among those of each ancestor, and last among the top-level scenes.

use crate::script::{
    Command, CommandView, FilterOperation, FilterView, Line, LineFilter, LineView, OperatorCall,
    PartView, Scene, SceneView, TextLine, TextLineView, TextLink, TextPart, line_views,
};
use crate::text::{
    lemma_parent_label, parent, parent_label, qualified, qualify, string_views,
};
use vstd::prelude::*;

verus! {

/// Whether `name` is one of `names`.
pub fn contains_name(names: &Vec<String>, name: &String) -> (r: bool)
    ensures
        r == string_views(names@).contains(name@),
{
    let mut i: usize = 0;
    while i < names.len()
        invariant
            i <= names@.len(),
            forall|j: int| 0 <= j < i ==> string_views(names@)[j] != name@,
        decreases names@.len() - i,
    {
        if names[i] == *name {
            assert(string_views(names@)[i as int] == name@);
            return true;
        }
        i += 1;
    }
    false
}

/// The reference as seen from the ancestors of `prefix`, nearest first: the
/// first candidate that is among `names`, or the reference itself when there
/// is none.
pub open spec fn resolve_from(
    prefix: Seq<char>,
    names: Seq<Seq<char>>,
    reference: Seq<char>,
) -> Seq<char>
    decreases prefix.len(),
{
    if prefix.len() == 0 {
        reference
    } else {
        let up = parent_label(prefix);
        let candidate = qualified(up, reference);
        if names.contains(candidate) {
            candidate
        } else {
            proof {
                lemma_parent_label(prefix);
            }
            resolve_from(up, names, reference)
        }
    }
}

/// The full label that `reference` stands for inside the scene `label`.
pub open spec fn resolved(label: Seq<char>, names: Seq<Seq<char>>, reference: Seq<char>) -> Seq<
    char,
> {
    resolve_from(label.push('.').push('1'), names, reference)
}

/// A filter expression with its visit counts resolved.
pub open spec fn resolve_filter(
    label: Seq<char>,
    names: Seq<Seq<char>>,
    filter: FilterView,
) -> FilterView
    decreases filter,
{
    match filter {
        FilterView::Call(op, left, right) => FilterView::Call(
            op,
            Box::new(resolve_filter(label, names, *left)),
            Box::new(resolve_filter(label, names, *right)),
        ),
        FilterView::Visits(scene) => FilterView::Visits(resolved(label, names, scene)),
        other => other,
    }
}

/// A part with its link resolved.
pub open spec fn resolve_part(label: Seq<char>, names: Seq<Seq<char>>, part: PartView) -> PartView {
    match part {
        PartView::Link(destination, text) => PartView::Link(
            resolved(label, names, destination),
            text,
        ),
        other => other,
    }
}

/// A line with its references resolved: the visit counts of its filter and
/// its links, or the target of its jump.
pub open spec fn resolve_line(label: Seq<char>, names: Seq<Seq<char>>, line: LineView) -> LineView {
    match line {
        LineView::Text(text) => LineView::Text(
            TextLineView {
                filter: match text.filter {
                    Some(f) => Some(resolve_filter(label, names, f)),
                    None => None,
                },
                include_in_summary: text.include_in_summary,
                parts: Seq::new(text.parts.len(), |i: int| resolve_part(label, names, text.parts[i])),
            },
        ),
        LineView::Command(CommandView::Next(target)) => LineView::Command(
            CommandView::Next(resolved(label, names, target)),
        ),
        other => other,
    }
}

/// A scene with the references of all its lines resolved.
pub open spec fn resolve_scene(scene: SceneView, names: Seq<Seq<char>>) -> SceneView {
    SceneView {
        label: scene.label,
        branch: scene.branch,
        lines: Seq::new(scene.lines.len(), |i: int| resolve_line(scene.label, names, scene.lines[i])),
    }
}

/// The scenes whose visits a filter counts, from left to right.
pub open spec fn filter_refs(filter: FilterView) -> Seq<Seq<char>>
    decreases filter,
{
    match filter {
        FilterView::Call(_, left, right) => filter_refs(*left) + filter_refs(*right),
        FilterView::Visits(scene) => seq![scene],
        _ => Seq::empty(),
    }
}

/// The scenes that the links among the parts lead to, in order.
pub open spec fn part_refs(parts: Seq<PartView>) -> Seq<Seq<char>>
    decreases parts.len(),
{
    if parts.len() == 0 {
        Seq::empty()
    } else {
        match parts.last() {
            PartView::Link(destination, _) => part_refs(parts.drop_last()).push(destination),
            PartView::Text(_) => part_refs(parts.drop_last()),
        }
    }
}

/// The scenes that a line refers to: those of its filter, then those of its
/// links; or the scene that it jumps to.
pub open spec fn line_refs(line: LineView) -> Seq<Seq<char>> {
    match line {
        LineView::Text(text) => (match text.filter {
            Some(f) => filter_refs(f),
            None => Seq::empty(),
        }) + part_refs(text.parts),
        LineView::Command(CommandView::Next(target)) => seq![target],
        _ => Seq::empty(),
    }
}

/// The scenes that the lines refer to, in order.
pub open spec fn lines_refs(lines: Seq<LineView>) -> Seq<Seq<char>>
    decreases lines.len(),
{
    if lines.len() == 0 {
        Seq::empty()
    } else {
        lines_refs(lines.drop_last()) + line_refs(lines.last())
    }
}

/// A reference that names no scene: the scene in which it is written, and
/// the reference.
#[derive(Debug)]
pub struct BadLink {
    pub scene: String,
    pub reference: String,
}

impl View for BadLink {
    type V = (Seq<char>, Seq<char>);

    open spec fn view(&self) -> (Seq<char>, Seq<char>) {
        (self.scene@, self.reference@)
    }
}

/// The views of a list of references that name no scene.
pub open spec fn bad_link_views(links: Seq<BadLink>) -> Seq<(Seq<char>, Seq<char>)> {
    Seq::new(links.len(), |i: int| links[i]@)
}

/// Those of the references, written in the scene `label`, that are not
/// among `names`.
pub open spec fn unknown(label: Seq<char>, refs: Seq<Seq<char>>, names: Seq<Seq<char>>) -> Seq<
    (Seq<char>, Seq<char>),
>
    decreases refs.len(),
{
    if refs.len() == 0 {
        Seq::empty()
    } else if names.contains(refs.last()) {
        unknown(label, refs.drop_last(), names)
    } else {
        unknown(label, refs.drop_last(), names).push((label, refs.last()))
    }
}

/// The references of all the scenes that are not among `names`, in the
/// order of the scenes and of the references in them.
pub open spec fn bad_links(scenes: Seq<SceneView>, names: Seq<Seq<char>>) -> Seq<
    (Seq<char>, Seq<char>),
>
    decreases scenes.len(),
{
    if scenes.len() == 0 {
        Seq::empty()
    } else {
        bad_links(scenes.drop_last(), names) + unknown(
            scenes.last().label,
            lines_refs(scenes.last().lines),
            names,
        )
    }
}

/// Adds to `out` the scenes whose visits the filter counts.
pub fn collect_filter_refs(op: &FilterOperation, out: &mut Vec<String>)
    ensures
        string_views(final(out)@) == string_views(old(out)@) + filter_refs(op@),
    decreases op,
{
    match op {
        FilterOperation::OperatorCall(call) => {
            collect_filter_refs(&call.left, out);
            collect_filter_refs(&call.right, out);
            assert(string_views(out@) =~= string_views(old(out)@) + (filter_refs(call.left@)
                + filter_refs(call.right@)));
        },
        FilterOperation::CountVisits(count) => {
            out.push(count.clone());
            assert(string_views(out@) =~= string_views(old(out)@) + seq![count@]);
        },
        _ => {
            assert(string_views(out@) =~= string_views(old(out)@) + Seq::<Seq<char>>::empty());
        },
    }
}

impl Scene {
    /// The scenes that the lines of this scene refer to, in order.
    pub fn references(&self) -> (r: Vec<String>)
        ensures
            string_views(r@) == lines_refs(self@.lines),
    {
        let mut out: Vec<String> = Vec::new();
        let mut i: usize = 0;
        assert(self@.lines.take(0) =~= Seq::<LineView>::empty());
        assert(string_views(out@) =~= Seq::<Seq<char>>::empty());
        while i < self.lines.len()
            invariant
                i <= self.lines@.len(),
                string_views(out@) == lines_refs(self@.lines.take(i as int)),
            decreases self.lines@.len() - i,
        {
            proof {
                let all = self@.lines;
                assert(all.take(i + 1).drop_last() =~= all.take(i as int));
                assert(all.take(i + 1).last() == self.lines@[i as int]@);
            }
            let ghost before = string_views(out@);
            match &self.lines[i] {
                Line::TextLine(text) => {
                    if let Some(filter) = &text.filter {
                        collect_filter_refs(&filter.operation, &mut out);
                    } else {
                        assert(before + Seq::<Seq<char>>::empty() =~= before);
                    }
                    let ghost with_filter = string_views(out@);
                    let mut j: usize = 0;
                    assert(text@.parts.take(0) =~= Seq::<PartView>::empty());
                    assert(with_filter + Seq::<Seq<char>>::empty() =~= with_filter);
                    while j < text.parts.len()
                        invariant
                            j <= text.parts@.len(),
                            string_views(out@) == with_filter + part_refs(text@.parts.take(j as int)),
                        decreases text.parts@.len() - j,
                    {
                        proof {
                            let all = text@.parts;
                            assert(all.take(j + 1).drop_last() =~= all.take(j as int));
                            assert(all.take(j + 1).last() == text.parts@[j as int]@);
                        }
                        if let TextPart::Link(link) = &text.parts[j] {
                            let ghost so_far = part_refs(text@.parts.take(j as int));
                            let ghost prior = string_views(out@);
                            out.push(link.destination.clone());
                            assert(string_views(out@) =~= prior.push(link.destination@));
                            assert(prior.push(link.destination@) =~= with_filter + so_far.push(
                                link.destination@,
                            ));
                        }
                        j += 1;
                    }
                    assert(text@.parts.take(j as int) =~= text@.parts);
                    assert(string_views(out@) =~= before + line_refs(self.lines@[i as int]@));
                },
                Line::CommandLine(Command::Next(target)) => {
                    out.push(target.clone());
                    assert(string_views(out@) =~= before + seq![target@]);
                },
                Line::CommandLine(_) => {
                    assert(before + Seq::<Seq<char>>::empty() =~= before);
                },
            }
            i += 1;
        }
        assert(self@.lines.take(i as int) =~= self@.lines);
        out
    }

    /// Adds to `out` the references of this scene that are not among
    /// `names`.
    pub fn collect_bad_links(&self, names: &Vec<String>, out: &mut Vec<BadLink>)
        ensures
            bad_link_views(final(out)@) == bad_link_views(old(out)@) + unknown(
                self.label@,
                lines_refs(self@.lines),
                string_views(names@),
            ),
    {
        let refs = self.references();
        let ghost before = bad_link_views(out@);
        let ghost all = string_views(refs@);
        let mut i: usize = 0;
        assert(all.take(0) =~= Seq::<Seq<char>>::empty());
        assert(before + Seq::<(Seq<char>, Seq<char>)>::empty() =~= before);
        while i < refs.len()
            invariant
                i <= refs@.len(),
                all == string_views(refs@),
                bad_link_views(out@) == before + unknown(
                    self.label@,
                    all.take(i as int),
                    string_views(names@),
                ),
            decreases refs@.len() - i,
        {
            proof {
                assert(all.take(i + 1).drop_last() =~= all.take(i as int));
                assert(all.take(i + 1).last() == refs@[i as int]@);
            }
            if !contains_name(names, &refs[i]) {
                let ghost so_far = unknown(self.label@, all.take(i as int), string_views(names@));
                let ghost prior = bad_link_views(out@);
                out.push(BadLink { scene: self.label.clone(), reference: refs[i].clone() });
                assert(bad_link_views(out@) =~= prior.push((self.label@, refs@[i as int]@)));
                assert(prior.push((self.label@, refs@[i as int]@)) =~= before + so_far.push(
                    (self.label@, refs@[i as int]@),
                ));
            }
            i += 1;
        }
        assert(all.take(i as int) =~= all);
    }

    /// The full label that the reference `old` stands for inside this scene;
    /// `old` itself where no scene answers to it.
    pub fn _fix_label(&self, names: &Vec<String>, old: &String) -> (r: String)
        ensures
            r@ == resolved(self.label@, string_views(names@), old@),
    {
        let mut prefix = self.label.clone();
        prefix.push('.');
        prefix.push('1');
        while prefix.as_str().unicode_len() > 0
            invariant
                resolved(self.label@, string_views(names@), old@) == resolve_from(
                    prefix@,
                    string_views(names@),
                    old@,
                ),
            decreases prefix@.len(),
        {
            proof {
                lemma_parent_label(prefix@);
            }
            prefix = parent(&prefix);
            let alt = qualify(&prefix, old);
            if contains_name(names, &alt) {
                return alt;
            }
        }
        old.clone()
    }

    /// A copy of `op` with its visit counts resolved.
    pub fn resolve_filter(&self, names: &Vec<String>, op: &FilterOperation) -> (r: FilterOperation)
        ensures
            r@ == resolve_filter(self.label@, string_views(names@), op@),
        decreases op,
    {
        match op {
            FilterOperation::OperatorCall(call) => FilterOperation::OperatorCall(
                Box::new(
                    OperatorCall {
                        operator: call.operator,
                        left: self.resolve_filter(names, &call.left),
                        right: self.resolve_filter(names, &call.right),
                    },
                ),
            ),
            FilterOperation::CountVisits(count) => FilterOperation::CountVisits(
                self._fix_label(names, count),
            ),
            other => other.clone(),
        }
    }

    /// Resolves the visit counts of `op` in place.
    pub fn _update_filter_operation_labels(&self, names: &Vec<String>, op: &mut FilterOperation)
        ensures
            final(op)@ == resolve_filter(self.label@, string_views(names@), old(op)@),
    {
        let fixed = self.resolve_filter(names, op);
        *op = fixed;
    }

    /// A copy of `line` with its references resolved.
    pub fn resolve_line(&self, names: &Vec<String>, line: &Line) -> (r: Line)
        ensures
            r@ == resolve_line(self.label@, string_views(names@), line@),
    {
        match line {
            Line::TextLine(text) => {
                let filter = match &text.filter {
                    Some(f) => Some(LineFilter { operation: self.resolve_filter(names, &f.operation) }),
                    None => None,
                };
                let mut parts: Vec<TextPart> = Vec::new();
                let mut i: usize = 0;
                while i < text.parts.len()
                    invariant
                        i <= text.parts@.len(),
                        parts@.len() == i,
                        forall|j: int|
                            0 <= j < i ==> parts@[j]@ == resolve_part(
                                self.label@,
                                string_views(names@),
                                text.parts@[j]@,
                            ),
                    decreases text.parts@.len() - i,
                {
                    let part = match &text.parts[i] {
                        TextPart::Link(link) => TextPart::Link(
                            TextLink {
                                destination: self._fix_label(names, &link.destination),
                                text: link.text.clone(),
                            },
                        ),
                        TextPart::Text(t) => TextPart::Text(t.clone()),
                    };
                    parts.push(part);
                    i += 1;
                }
                let fixed = TextLine { filter, include_in_summary: text.include_in_summary, parts };
                proof {
                    let want = resolve_line(self.label@, string_views(names@), line@);
                    assert(want matches LineView::Text(t) && t.parts =~= fixed@.parts);
                }
                Line::TextLine(fixed)
            },
            Line::CommandLine(Command::Next(value)) => Line::CommandLine(
                Command::Next(self._fix_label(names, value)),
            ),
            Line::CommandLine(command) => Line::CommandLine(command.clone()),
        }
    }

    /// Copies of `lines` with their references resolved.
    pub fn resolve_lines(&self, names: &Vec<String>, lines: &Vec<Line>) -> (r: Vec<Line>)
        ensures
            line_views(r@) == Seq::new(
                lines@.len(),
                |i: int| resolve_line(self.label@, string_views(names@), lines@[i]@),
            ),
    {
        let mut fixed: Vec<Line> = Vec::new();
        let mut i: usize = 0;
        while i < lines.len()
            invariant
                i <= lines@.len(),
                fixed@.len() == i,
                forall|j: int|
                    0 <= j < i ==> fixed@[j]@ == resolve_line(
                        self.label@,
                        string_views(names@),
                        lines@[j]@,
                    ),
            decreases lines@.len() - i,
        {
            fixed.push(self.resolve_line(names, &lines[i]));
            i += 1;
        }
        assert(line_views(fixed@) =~= Seq::new(
            lines@.len(),
            |i: int| resolve_line(self.label@, string_views(names@), lines@[i]@),
        ));
        fixed
    }

    /// Rewrites every link, visit count and jump of the scene to the full
    /// label of the scene it refers to.
    pub fn _update_labels(&mut self, names: &Vec<String>)
        ensures
            final(self)@ == resolve_scene(old(self)@, string_views(names@)),
    {
        let lines = self.resolve_lines(names, &self.lines);
        self.lines = lines;
        assert(self@.lines =~= resolve_scene(old(self)@, string_views(names@)).lines);
    }
}

} // verus!
