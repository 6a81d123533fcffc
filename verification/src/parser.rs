//! The parser of lines, commands and scenes.

use crate::expression::filter_expr;
use crate::grammar::{
    Class, EntryView, flat, flatten, flatten_all, last_field, lines_of, relabel, run, scenes_of,
    word,
};
use crate::lexer::{
    int_value, label, line_end, line_ends, line_ends1, parsed, peek, raw_text_fragment, skip_ws,
    symbol, tag, var_symbol, ws,
};
use crate::script::{
    Command, Item, ItemCommand, Line, LineFilter, PartView, Scene, SceneView, SetCommand,
    TextLine, TextLink, TextPart, line_views, opt_chars, part_views, scene_views,
};
use crate::state::add_all;
use crate::table::Table;
use vstd::prelude::*;
use vstd::string::StringExecFns;

verus! {

/// The filter of a line: an expression in parentheses.
pub fn line_filter(input: &[char], pos: usize) -> (r: Option<(LineFilter, usize)>)
    requires
        pos <= input@.len(),
    ensures
        parsed(r, pos, input@.len(), crate::grammar::line_filter(input@, pos as int)),
{
    proof {
        reveal(crate::grammar::line_filter);
    }
    if !peek(input, pos, '(') {
        return None;
    }
    let start = skip_ws(input, pos + 1);
    match filter_expr(input, start) {
        Some((filter, next)) => {
            let close = skip_ws(input, next);
            if peek(input, close, ')') {
                Some((LineFilter { operation: filter }, close + 1))
            } else {
                None
            }
        },
        None => None,
    }
}

/// A link: in square brackets, the symbol of a scene, a bar and a text.
pub fn link(input: &[char], pos: usize) -> (r: Option<(TextPart, usize)>)
    requires
        pos <= input@.len(),
    ensures
        parsed(r, pos, input@.len(), crate::grammar::link(input@, pos as int)),
{
    proof {
        reveal(crate::grammar::link);
    }
    if !peek(input, pos, '[') {
        return None;
    }
    let a = skip_ws(input, pos + 1);
    let (target, after_target) = match symbol(input, a) {
        Some(found) => found,
        None => {
            return None;
        },
    };
    let b = skip_ws(input, after_target);
    if !peek(input, b, '|') {
        return None;
    }
    let c = skip_ws(input, b + 1);
    let (body, after_body) = match raw_text_fragment(input, c) {
        Some(found) => found,
        None => {
            return None;
        },
    };
    let d = skip_ws(input, after_body);
    if peek(input, d, ']') {
        Some((TextPart::Link(TextLink { destination: target, text: body }), d + 1))
    } else {
        None
    }
}

/// A run of text as a part of a line.
pub fn text_fragment(input: &[char], pos: usize) -> (r: Option<(TextPart, usize)>)
    requires
        pos <= input@.len(),
    ensures
        match r {
            Some((part, next)) => {
                &&& pos <= next <= input@.len()
                &&& crate::grammar::raw_text_fragment(input@, pos as int) matches Some((body, n))
                &&& part@ == PartView::Text(body)
                &&& n == next - pos
            },
            None => crate::grammar::raw_text_fragment(input@, pos as int) is None,
        },
{
    match raw_text_fragment(input, pos) {
        Some((body, next)) => Some((TextPart::Text(body), next)),
        None => None,
    }
}

/// A part of a text line: a link, or a run of text.
pub fn text_part(input: &[char], pos: usize) -> (r: Option<(TextPart, usize)>)
    requires
        pos <= input@.len(),
    ensures
        parsed(r, pos, input@.len(), crate::grammar::text_part(input@, pos as int)),
{
    match link(input, pos) {
        Some(found) => Some(found),
        None => text_fragment(input, pos),
    }
}

/// As many parts as stand in a row at `pos`, and the position after them.
pub fn text_parts(input: &[char], pos: usize) -> (r: (Vec<TextPart>, usize))
    requires
        pos <= input@.len(),
    ensures
        pos <= r.1 <= input@.len(),
        crate::grammar::text_parts(input@, pos as int) == (part_views(r.0@), (r.1 - pos) as nat),
{
    let mut parts: Vec<TextPart> = Vec::new();
    let mut at: usize = pos;
    assert(part_views(parts@) + crate::grammar::text_parts(input@, pos as int).0
        =~= crate::grammar::text_parts(input@, pos as int).0);
    loop
        invariant
            pos <= at <= input@.len(),
            crate::grammar::text_parts(input@, pos as int) == (
                part_views(parts@) + crate::grammar::text_parts(input@, at as int).0,
                ((at - pos) + crate::grammar::text_parts(input@, at as int).1) as nat,
            ),
        decreases input@.len() - at,
    {
        match text_part(input, at) {
            Some((part, next)) => {
                if next == at {
                    assert(part_views(parts@) + Seq::<PartView>::empty() =~= part_views(parts@));
                    return (parts, at);
                }
                proof {
                    let rest = crate::grammar::text_parts(input@, next as int).0;
                    assert(part_views(parts@.push(part)) + rest =~= part_views(parts@) + (
                        seq![part@] + rest));
                }
                parts.push(part);
                at = next;
            },
            None => {
                assert(part_views(parts@) + Seq::<PartView>::empty() =~= part_views(parts@));
                return (parts, at);
            },
        }
    }
}

/// Whether a `?` stands at `pos`, and the position after it and its spaces.
pub fn include_operator(input: &[char], pos: usize) -> (r: (bool, usize))
    requires
        pos <= input@.len(),
    ensures
        pos <= r.1 <= input@.len(),
        r.0 == crate::grammar::at(input@, pos as int, '?'),
        r.1 - pos == if r.0 {
            1 + run(input@, pos + 1, Class::Space)
        } else {
            0
        },
{
    if peek(input, pos, '?') {
        (true, skip_ws(input, pos + 1))
    } else {
        (false, pos)
    }
}

/// A line of text.
pub fn text_line(input: &[char], pos: usize) -> (r: Option<(TextLine, usize)>)
    requires
        pos <= input@.len(),
    ensures
        parsed(r, pos, input@.len(), crate::grammar::text_line(input@, pos as int)),
{
    proof {
        reveal(crate::grammar::text_line);
    }
    let (keep, a) = include_operator(input, pos);
    let (filter, b) = match line_filter(input, a) {
        Some((filter, next)) => (Some(filter), next),
        None => (None, a),
    };
    let (parts, end) = text_parts(input, b);
    if parts.len() > 0 {
        Some((TextLine { filter, include_in_summary: keep, parts }, end))
    } else {
        None
    }
}

/// One change of an item command.
pub fn item_change(input: &[char], pos: usize) -> (r: Option<((String, i32), usize)>)
    requires
        pos <= input@.len(),
    ensures
        parsed(r, pos, input@.len(), crate::grammar::item_change(input@, pos as int)),
{
    proof {
        reveal(crate::grammar::item_change);
    }
    let a = skip_ws(input, pos);
    let plus = peek(input, a, '+');
    if !plus && !peek(input, a, '-') {
        return None;
    }
    let b = skip_ws(input, a + 1);
    match symbol(input, b) {
        Some((text, next)) => {
            let value: i32 = if plus {
                1
            } else {
                0
            };
            Some(((text, value), next))
        },
        None => None,
    }
}

/// An item command: the word `item` and its changes.
pub fn item_command(input: &[char], pos: usize) -> (r: Option<(Command, usize)>)
    requires
        pos <= input@.len(),
    ensures
        parsed(r, pos, input@.len(), crate::grammar::item_command(input@, pos as int)),
{
    proof {
        reveal(crate::grammar::item_command);
    }
    let start = match tag(input, pos, "item") {
        Some(next) => next,
        None => {
            return None;
        },
    };
    let mut change: Table<i32> = Table::new();
    let mut at: usize = start;
    let ghost mut done: Seq<(Seq<char>, i32)> = Seq::empty();
    assert(done + crate::grammar::item_changes(input@, start as int).0
        =~= crate::grammar::item_changes(input@, start as int).0);
    loop
        invariant
            pos <= start <= at <= input@.len(),
            word(input@, pos as int, "item"@),
            start == pos + "item"@.len(),
            change.pairs() == add_all(Seq::empty(), done),
            crate::grammar::item_changes(input@, start as int) == (
                done + crate::grammar::item_changes(input@, at as int).0,
                ((at - start) + crate::grammar::item_changes(input@, at as int).1) as nat,
            ),
        decreases input@.len() - at,
    {
        proof {
            reveal(crate::grammar::item_command);
        }
        match item_change(input, at) {
            Some(((name, value), next)) => {
                if next == at {
                    assert(done + Seq::<(Seq<char>, i32)>::empty() =~= done);
                    return Some((Command::Item(ItemCommand { change }), at));
                }
                proof {
                    let rest = crate::grammar::item_changes(input@, next as int).0;
                    assert(done.push((name@, value)) + rest =~= done + (seq![(name@, value)] + rest));
                    assert(done.push((name@, value)).drop_last() =~= done);
                }
                let have = match change.get(&name) {
                    Some(stored) => stored,
                    None => 0,
                };
                change.insert(name, have.wrapping_add(value));
                proof {
                    done = done.push((name@, value));
                }
                at = next;
            },
            None => {
                assert(done + Seq::<(Seq<char>, i32)>::empty() =~= done);
                return Some((Command::Item(ItemCommand { change }), at));
            },
        }
    }
}

/// One field of an item's description.
pub fn set_item_line(input: &[char], pos: usize) -> (r: Option<((String, String), usize)>)
    requires
        pos <= input@.len(),
    ensures
        parsed(r, pos, input@.len(), crate::grammar::set_item_line(input@, pos as int)),
{
    proof {
        reveal(crate::grammar::set_item_line);
    }
    let (field, after_field) = match symbol(input, pos) {
        Some(found) => found,
        None => {
            return None;
        },
    };
    let a = ws(input, after_field);
    if !peek(input, a, ':') {
        return None;
    }
    let b = ws(input, a + 1);
    let (body, after_body) = match raw_text_fragment(input, b) {
        Some(found) => found,
        None => {
            return None;
        },
    };
    match line_ends1(input, after_body) {
        Some(end) => Some(((field, body), end)),
        None => None,
    }
}

/// The position after the characters `input[from..from + width]`, where they
/// stand again at `pos`.
pub fn repeated(input: &[char], pos: usize, from: usize, width: usize) -> (r: Option<usize>)
    requires
        pos <= input@.len(),
        from + width <= input@.len(),
    ensures
        match r {
            Some(next) => next == pos + width && next <= input@.len() && word(
                input@,
                pos as int,
                input@.subrange(from as int, from + width),
            ),
            None => !word(input@, pos as int, input@.subrange(from as int, from + width)),
        },
{
    let len = input.len();
    if width > len - pos {
        return None;
    }
    let ghost prefix = input@.subrange(from as int, from + width);
    let mut k: usize = 0;
    while k < width
        invariant
            k <= width,
            pos + width <= input@.len() == len,
            from + width <= input@.len(),
            prefix == input@.subrange(from as int, from + width),
            forall|j: int|
                0 <= j < k ==> input@.subrange(pos as int, pos + width)[j] == #[trigger] prefix[j],
        decreases width - k,
    {
        if input[pos + k] != input[from + k] {
            assert(input@.subrange(pos as int, pos + width)[k as int] != prefix[k as int]);
            return None;
        }
        k += 1;
    }
    assert(input@.subrange(pos as int, pos + width) =~= prefix);
    Some(pos + width)
}

/// A description of an item: `set_item`, the item's symbol, and an indented
/// block of fields.
pub fn set_item_command(input: &[char], pos: usize) -> (r: Option<(Command, usize)>)
    requires
        pos <= input@.len(),
    ensures
        parsed(r, pos, input@.len(), crate::grammar::set_item_command(input@, pos as int)),
{
    proof {
        reveal(crate::grammar::set_item_command);
    }
    let a = ws(input, pos);
    let after_word = match tag(input, a, "set_item") {
        Some(next) => next,
        None => {
            return None;
        },
    };
    let b = ws(input, after_word);
    let (key, after_key) = match symbol(input, b) {
        Some(found) => found,
        None => {
            return None;
        },
    };
    let c = match line_end(input, after_key) {
        Some(next) => next,
        None => {
            return None;
        },
    };
    let d = skip_ws(input, c);
    if d == c {
        return None;
    }
    let ((first_field, first_body), after_first) = match set_item_line(input, d) {
        Some(found) => found,
        None => {
            return None;
        },
    };
    let name_key = "name".to_string();
    let details_key = "details".to_string();
    let mut name: Option<String> = None;
    let mut details: Option<String> = None;
    let mut at: usize = after_first;
    let ghost prefix = input@.subrange(c as int, d as int);
    let ghost mut done: Seq<(Seq<char>, Seq<char>)> = Seq::empty();
    assert(done + crate::grammar::set_item_lines(input@, after_first as int, prefix).0
        =~= crate::grammar::set_item_lines(input@, after_first as int, prefix).0);
    loop
        invariant
            pos <= a <= after_word <= b <= after_key <= c < d <= after_first <= at <= input@.len(),
            a - pos == run(input@, pos as int, Class::Blank),
            word(input@, a as int, "set_item"@),
            after_word == a + "set_item"@.len(),
            b - after_word == run(input@, after_word as int, Class::Blank),
            crate::grammar::symbol(input@, b as int) == Some((key@, (after_key - b) as nat)),
            crate::grammar::line_end(input@, after_key as int) == Some((c - after_key) as nat),
            d - c == run(input@, c as int, Class::Space),
            crate::grammar::set_item_line(input@, d as int) == Some(
                ((first_field@, first_body@), (after_first - d) as nat),
            ),
            prefix == input@.subrange(c as int, d as int),
            name_key@ == "name"@,
            details_key@ == "details"@,
            opt_chars(name) == last_field(done, "name"@),
            opt_chars(details) == last_field(done, "details"@),
            crate::grammar::set_item_lines(input@, after_first as int, prefix) == (
                done + crate::grammar::set_item_lines(input@, at as int, prefix).0,
                ((at - after_first) + crate::grammar::set_item_lines(
                    input@,
                    at as int,
                    prefix,
                ).1) as nat,
            ),
        decreases input@.len() - at,
    {
        proof {
            lemma_name_is_not_details();
            reveal(crate::grammar::set_item_command);
        }
        let found = match repeated(input, at, c, d - c) {
            Some(start) => set_item_line(input, start),
            None => None,
        };
        match found {
            Some(((field, body), next)) => {
                proof {
                    let rest = crate::grammar::set_item_lines(input@, next as int, prefix).0;
                    assert(done.push((field@, body@)) + rest =~= done + (seq![(field@, body@)]
                        + rest));
                    assert(done.push((field@, body@)).drop_last() =~= done);
                    done = done.push((field@, body@));
                }
                if field == name_key {
                    name = Some(body);
                } else if field == details_key {
                    details = Some(body);
                }
                at = next;
            },
            None => {
                assert(done + Seq::<(Seq<char>, Seq<char>)>::empty() =~= done);
                if first_field == name_key {
                    name = Some(first_body);
                } else if first_field == details_key {
                    details = Some(first_body);
                }
                return Some((Command::SetItem(Item { key, name, details }), at));
            },
        }
    }
}

/// The two fields of a description that count have different names.
proof fn lemma_name_is_not_details()
    ensures
        "name"@ != "details"@,
{
    reveal_strlit("name");
    reveal_strlit("details");
    assert("name"@.len() == 4);
    assert("details"@.len() == 7);
}

/// A jump: the word `next` and the symbol of a scene.
pub fn next_command(input: &[char], pos: usize) -> (r: Option<(Command, usize)>)
    requires
        pos <= input@.len(),
    ensures
        parsed(r, pos, input@.len(), crate::grammar::next_command(input@, pos as int)),
{
    proof {
        reveal(crate::grammar::next_command);
    }
    let after_word = match tag(input, pos, "next") {
        Some(next) => next,
        None => {
            return None;
        },
    };
    let a = skip_ws(input, after_word);
    match symbol(input, a) {
        Some((target, next)) => Some((Command::Next(target), next)),
        None => None,
    }
}

/// The value that a `set` command gives: after an equals sign, an integer.
pub fn assign_operator(input: &[char], pos: usize) -> (r: Option<(i32, usize)>)
    requires
        pos <= input@.len(),
    ensures
        parsed(r, pos, input@.len(), crate::grammar::assigned(input@, pos as int)),
{
    let a = skip_ws(input, pos);
    if !peek(input, a, '=') {
        return None;
    }
    let b = skip_ws(input, a + 1);
    int_value(input, b)
}

/// An assignment: the word `set`, a variable and, optionally, its value.
pub fn set_command(input: &[char], pos: usize) -> (r: Option<(Command, usize)>)
    requires
        pos <= input@.len(),
    ensures
        parsed(r, pos, input@.len(), crate::grammar::set_command(input@, pos as int)),
{
    proof {
        reveal(crate::grammar::set_command);
    }
    let after_word = match tag(input, pos, "set") {
        Some(next) => next,
        None => {
            return None;
        },
    };
    let a = skip_ws(input, after_word);
    match var_symbol(input, a) {
        Some((name, next)) => match assign_operator(input, next) {
            Some((value, end)) => Some((Command::Assign(SetCommand { name, value }), end)),
            None => Some((Command::Assign(SetCommand { name, value: 1 }), next)),
        },
        None => None,
    }
}

/// The word `end`: the command that ends the session.
pub fn end_command(input: &[char], pos: usize) -> (r: Option<(Command, usize)>)
    requires
        pos <= input@.len(),
    ensures
        match r {
            Some((c, next)) => word(input@, pos as int, "end"@) && c@ is End && next == pos
                + "end"@.len() && next <= input@.len(),
            None => !word(input@, pos as int, "end"@),
        },
{
    match tag(input, pos, "end") {
        Some(next) => Some((Command::End, next)),
        None => None,
    }
}

/// The word `reset`: the command that ends the session and offers a
/// restart.
pub fn reset_command(input: &[char], pos: usize) -> (r: Option<(Command, usize)>)
    requires
        pos <= input@.len(),
    ensures
        match r {
            Some((c, next)) => word(input@, pos as int, "reset"@) && c@ is Reset && next == pos
                + "reset"@.len() && next <= input@.len(),
            None => !word(input@, pos as int, "reset"@),
        },
{
    match tag(input, pos, "reset") {
        Some(next) => Some((Command::Reset, next)),
        None => None,
    }
}

/// What may follow the `*` of a command line in a scene.
pub fn command_body(input: &[char], pos: usize) -> (r: Option<(Command, usize)>)
    requires
        pos <= input@.len(),
    ensures
        parsed(r, pos, input@.len(), crate::grammar::command_body(input@, pos as int)),
{
    proof {
        reveal(crate::grammar::command_body);
    }
    if let Some(found) = set_item_command(input, pos) {
        return Some(found);
    }
    if let Some(found) = item_command(input, pos) {
        return Some(found);
    }
    if let Some(found) = next_command(input, pos) {
        return Some(found);
    }
    if let Some(found) = end_command(input, pos) {
        return Some(found);
    }
    if let Some(found) = reset_command(input, pos) {
        return Some(found);
    }
    set_command(input, pos)
}

/// A command line: a `*`, spaces, and a command.
pub fn command(input: &[char], pos: usize) -> (r: Option<(Command, usize)>)
    requires
        pos <= input@.len(),
    ensures
        parsed(r, pos, input@.len(), crate::grammar::command(input@, pos as int)),
{
    proof {
        reveal(crate::grammar::command);
    }
    if !peek(input, pos, '*') {
        return None;
    }
    let a = skip_ws(input, pos + 1);
    command_body(input, a)
}

/// A command of a script's header.
pub fn header_command(input: &[char], pos: usize) -> (r: Option<(Command, usize)>)
    requires
        pos <= input@.len(),
    ensures
        parsed(r, pos, input@.len(), crate::grammar::header_command(input@, pos as int)),
{
    proof {
        reveal(crate::grammar::header_command);
    }
    if !peek(input, pos, '*') {
        return None;
    }
    let a = skip_ws(input, pos + 1);
    match set_item_command(input, a) {
        Some(found) => Some(found),
        None => set_command(input, a),
    }
}

/// What stands in the block of a scene: a line, or a nested scene as the
/// list of itself and the scenes nested in it.
pub enum Entry {
    Line(Line),
    Scene(Vec<Scene>),
}

/// Whether the entry is what `view` describes: the same line, or the list
/// of the same scene.
pub open spec fn entry_is(entry: Entry, view: EntryView) -> bool {
    match entry {
        Entry::Line(line) => view == EntryView::Line(line@),
        Entry::Scene(scenes) => view matches EntryView::Scene(tree) && scene_views(scenes@)
            == flatten(tree),
    }
}

/// Puts `parent` and a dot before the label of each scene.
pub fn prefix_labels(parent: &String, scenes: &mut Vec<Scene>)
    ensures
        scene_views(final(scenes)@) == relabel(parent@, scene_views(old(scenes)@)),
{
    let mut k: usize = 0;
    while k < scenes.len()
        invariant
            k <= scenes@.len(),
            scenes@.len() == old(scenes)@.len(),
            forall|j: int|
                0 <= j < k ==> scene_views(scenes@)[j] == relabel(
                    parent@,
                    scene_views(old(scenes)@),
                )[j],
            forall|j: int| k <= j < scenes@.len() ==> scenes@[j] == old(scenes)@[j],
        decreases scenes@.len() - k,
    {
        let mut full = parent.clone();
        full.push('.');
        let full = crate::text::concat(&full, &scenes[k].label);
        let ghost before = scenes@;
        scenes[k].label = full;
        assert(scenes@.len() == old(scenes)@.len());
        assert(forall|j: int| 0 <= j < scenes@.len() && j != k ==> scenes@[j] == before[j]);
        assert(scenes@[k as int].lines == old(scenes)@[k as int].lines);
        assert(scenes@[k as int].branch == old(scenes)@[k as int].branch);
        assert(scenes@[k as int].label@ == parent@.push('.') + old(scenes)@[k as int].label@);
        assert forall|j: int| 0 <= j < k + 1 implies scene_views(scenes@)[j] == relabel(
            parent@,
            scene_views(old(scenes)@),
        )[j] by {
            if j < k {
                assert(scene_views(before)[j] == relabel(parent@, scene_views(old(scenes)@))[j]);
                assert(scenes@[j] == before[j]);
            }
        }
        k += 1;
    }
    assert(scene_views(scenes@) =~= relabel(parent@, scene_views(old(scenes)@)));
}

/// A scene, followed by the scenes nested in it.
#[verifier::rlimit(50)]
pub fn parse_scene(input: &[char], pos: usize) -> (r: Option<(Vec<Scene>, usize)>)
    requires
        pos <= input@.len(),
    ensures
        match r {
            Some((scenes, next)) => {
                &&& pos <= next <= input@.len()
                &&& crate::grammar::scene(input@, pos as int) matches Some((tree, n))
                &&& scene_views(scenes@) == flatten(tree)
                &&& n == next - pos
            },
            None => crate::grammar::scene(input@, pos as int) is None,
        },
    decreases input@.len() - pos, 0int,
{
    let len = input.len();
    let (name, after_label) = match label(input, pos) {
        Some(found) => found,
        None => {
            return None;
        },
    };
    let a = skip_ws(input, after_label);
    let branch = peek(input, a, '?') && peek(input, a + 1, '?');
    let b = if branch {
        a + 2
    } else {
        a
    };
    let c = match line_ends1(input, b) {
        Some(next) => next,
        None => {
            return None;
        },
    };
    assert(c > pos);
    match dialog_multiple_lines(input, c, &name) {
        Some((lines, mut sections, next)) => {
            let mut out: Vec<Scene> = Vec::new();
            let ghost nested = scene_views(sections@);
            out.push(Scene { label: name, branch, lines });
            out.append(&mut sections);
            proof {
                let entries = crate::grammar::block(input@, c as int).unwrap().0;
                assert(scene_views(out@) =~= seq![
                    SceneView { label: name@, branch, lines: lines_of(entries) },
                ] + nested);
            }
            Some((out, next))
        },
        None => None,
    }
}

/// The block of the scene `name`: its lines, and the scenes nested in it
/// in one list, their labels made to start with `name`.
pub fn dialog_multiple_lines(input: &[char], pos: usize, name: &String) -> (r: Option<
    (Vec<Line>, Vec<Scene>, usize),
>)
    requires
        pos <= input@.len(),
    ensures
        match r {
            Some((lines, sections, next)) => {
                &&& pos <= next <= input@.len()
                &&& crate::grammar::block(input@, pos as int) matches Some((entries, n))
                &&& n == next - pos
                &&& line_views(lines@) == lines_of(entries)
                &&& scene_views(sections@) == relabel(name@, flat(scenes_of(entries)))
            },
            None => crate::grammar::block(input@, pos as int) is None,
        },
    decreases input@.len() - pos, 4int,
{
    let start = skip_ws(input, pos);
    if start == pos {
        return None;
    }
    let (first, after_first) = match parse_entry(input, start) {
        Some(found) => found,
        None => {
            return None;
        },
    };
    let ghost prefix = input@.subrange(pos as int, start as int);
    let ghost first_view = crate::grammar::entry(input@, start as int).unwrap().0;
    let mut lines: Vec<Line> = Vec::new();
    let mut sections: Vec<Scene> = Vec::new();
    let ghost mut done: Seq<EntryView> = Seq::empty();
    let ghost mut pending: EntryView = first_view;
    let mut entry = first;
    let mut at: usize = after_first;
    assert(line_views(lines@) =~= lines_of(done));
    assert(scene_views(sections@) =~= relabel(name@, flat(scenes_of(done))));
    assert(seq![first_view] + crate::grammar::entries(input@, after_first as int, prefix).0
        =~= done.push(pending) + crate::grammar::entries(input@, at as int, prefix).0);
    loop
        invariant
            pos < start <= after_first <= at <= input@.len(),
            start - pos == run(input@, pos as int, Class::Space),
            prefix == input@.subrange(pos as int, start as int),
            crate::grammar::entry(input@, start as int) == Some(
                (first_view, (after_first - start) as nat),
            ),
            entry_is(entry, pending),
            line_views(lines@) == lines_of(done),
            scene_views(sections@) == relabel(name@, flat(scenes_of(done))),
            seq![first_view] + crate::grammar::entries(input@, after_first as int, prefix).0
                == done.push(pending) + crate::grammar::entries(input@, at as int, prefix).0,
            crate::grammar::entries(input@, after_first as int, prefix).1 == (at - after_first)
                + crate::grammar::entries(input@, at as int, prefix).1,
        decreases input@.len() - at,
    {
        proof {
            assert(done.push(pending).drop_last() =~= done);
        }
        match entry {
            Entry::Line(line) => {
                assert(line_views(lines@.push(line)) =~= line_views(lines@).push(line@));
                lines.push(line);
            },
            Entry::Scene(scenes) => {
                let mut scenes = scenes;
                let ghost before = scene_views(sections@);
                let ghost tree = pending->Scene_0;
                let ghost trees = scenes_of(done);
                prefix_labels(name, &mut scenes);
                let ghost added = scene_views(scenes@);
                sections.append(&mut scenes);
                proof {
                    assert(scene_views(sections@) =~= before + added);
                    let more = trees.push(tree);
                    assert(flatten_all(more, more.len()) == flatten_all(more, trees.len())
                        + flatten(tree));
                    crate::grammar::lemma_flatten_all_push(trees, tree, trees.len());
                    assert(before + added =~= relabel(name@, flat(more)));
                }
            },
        }
        proof {
            done = done.push(pending);
        }
        let found = match repeated(input, at, pos, start - pos) {
            Some(begin) => parse_entry(input, begin),
            None => None,
        };
        match found {
            Some((more, next)) => {
                proof {
                    let view = crate::grammar::entry(input@, at + (start - pos)).unwrap().0;
                    let rest = crate::grammar::entries(input@, next as int, prefix).0;
                    assert(done.push(view) + rest =~= done + (seq![view] + rest));
                    pending = view;
                }
                entry = more;
                at = next;
            },
            None => {
                proof {
                    assert(done + Seq::<EntryView>::empty() =~= done);
                }
                return Some((lines, sections, at));
            },
        }
    }
}

/// A nested scene as an entry of a block.
pub fn sub_block(input: &[char], pos: usize) -> (r: Option<(Entry, usize)>)
    requires
        pos <= input@.len(),
    ensures
        match r {
            Some((entry, next)) => {
                &&& pos <= next <= input@.len()
                &&& crate::grammar::scene(input@, pos as int) matches Some((tree, n))
                &&& entry_is(entry, EntryView::Scene(tree))
                &&& n == next - pos
            },
            None => crate::grammar::scene(input@, pos as int) is None,
        },
    decreases input@.len() - pos, 1int,
{
    match parse_scene(input, pos) {
        Some((scenes, next)) => Some((Entry::Scene(scenes), next)),
        None => None,
    }
}

/// An entry of a block: a nested scene, a command line or a line of text,
/// with the line ends that follow it.
pub fn parse_entry(input: &[char], pos: usize) -> (r: Option<(Entry, usize)>)
    requires
        pos <= input@.len(),
    ensures
        match r {
            Some((entry, next)) => {
                &&& pos <= next <= input@.len()
                &&& crate::grammar::entry(input@, pos as int) matches Some((view, n))
                &&& entry_is(entry, view)
                &&& n == next - pos
            },
            None => crate::grammar::entry(input@, pos as int) is None,
        },
    decreases input@.len() - pos, 2int,
{
    let found = match sub_block(input, pos) {
        Some(found) => Some(found),
        None => match command(input, pos) {
            Some((c, next)) => Some((Entry::Line(Line::CommandLine(c)), next)),
            None => match text_line(input, pos) {
                Some((text, next)) => Some((Entry::Line(Line::TextLine(text)), next)),
                None => None,
            },
        },
    };
    match found {
        Some((entry, next)) => Some((entry, line_ends(input, next))),
        None => None,
    }
}

} // verus!
