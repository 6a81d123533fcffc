//! What a session does on the reader's intents, and what it offers to be
//! shown: the log it keeps of what was read, the visible lines and the
//! inventory.

use crate::engine::{Display, EngineError, Fault, SCENE_LIMIT, bump, outcome, settle};
use crate::filter::eval;
use crate::script::{
    ItemView, Line, LineView, PartView, SceneView, TextLine, TextLink, TextPart, opt_chars,
    part_views,
};
use crate::state::{
    State, StateView, Status, enter, find_item, initial_state, item_place, item_views,
};
use crate::text::string_views;
use crate::zone::{ZoneView, find_index};
use vstd::prelude::*;
use vstd::string::StringExecFns;

verus! {

/// The markup of a link that can no longer be followed.
pub open spec fn inactive_link(text: Seq<char>) -> Seq<char> {
    "<span class=\"inline-disabled-button\">"@ + text + "</span>"@
}

/// The markup of the parts of a line that was read: texts as they are, links
/// as links that can no longer be followed.
pub open spec fn inactive_parts(parts: Seq<PartView>) -> Seq<char>
    decreases parts.len(),
{
    if parts.len() == 0 {
        Seq::empty()
    } else {
        inactive_parts(parts.drop_last()) + match parts.last() {
            PartView::Link(_, text) => inactive_link(text),
            PartView::Text(text) => text,
        }
    }
}

/// The markup of a line that was read; a command line leaves none.
pub open spec fn inactive_line(line: LineView) -> Seq<char> {
    match line {
        LineView::Text(text) => inactive_parts(text.parts),
        LineView::Command(_) => Seq::empty(),
    }
}

/// The markup of the lines of a menu that are kept when a choice is made.
pub open spec fn summary(lines: Seq<LineView>) -> Seq<Seq<char>>
    decreases lines.len(),
{
    if lines.len() == 0 {
        Seq::empty()
    } else {
        match lines.last() {
            LineView::Text(text) => if text.include_in_summary {
                summary(lines.drop_last()).push(inactive_parts(text.parts))
            } else {
                summary(lines.drop_last())
            },
            LineView::Command(_) => summary(lines.drop_last()),
        }
    }
}

/// The state after a click on a link with the text `text` has been logged:
/// in a menu the lines to keep are logged first. `None` where the session's
/// scene does not exist.
pub open spec fn published_link(scenes: Seq<SceneView>, st: StateView, text: Seq<char>) -> Option<
    StateView,
> {
    match find_index(scenes, st.scene) {
        None => None,
        Some(i) => {
            let kept = if scenes[i].branch {
                summary(scenes[i].lines)
            } else {
                Seq::empty()
            };
            Some(StateView { log: (st.log + kept).push(inactive_link(text)), ..st })
        },
    }
}

/// The state after the current line has been logged: nothing is logged in a
/// menu, past the last line, or for a line without markup. `None` where the
/// session's scene does not exist.
pub open spec fn published_current(scenes: Seq<SceneView>, st: StateView) -> Option<StateView> {
    match find_index(scenes, st.scene) {
        None => None,
        Some(i) => if scenes[i].branch || st.line >= scenes[i].lines.len() || inactive_line(
            scenes[i].lines[st.line as int],
        ).len() == 0 {
            Some(st)
        } else {
            Some(StateView { log: st.log.push(inactive_line(scenes[i].lines[st.line as int])), ..st })
        },
    }
}

/// What becomes of the state when the reader moves on: the current line is
/// logged, and the session settles on the next line to show.
pub open spec fn advanced(scenes: Seq<SceneView>, st: StateView) -> (StateView, Option<Fault>) {
    match published_current(scenes, st) {
        None => (st, Some(Fault::BadSceneName(st.scene))),
        Some(logged) => settle(scenes, bump(logged), SCENE_LIMIT as nat),
    }
}

/// What becomes of the state when the reader follows a link: the click is
/// logged, and the session settles in the scene the link leads to.
pub open spec fn followed(
    scenes: Seq<SceneView>,
    st: StateView,
    destination: Seq<char>,
    text: Seq<char>,
) -> (StateView, Option<Fault>) {
    match published_link(scenes, st, text) {
        None => (st, Some(Fault::BadSceneName(st.scene))),
        Some(logged) => settle(scenes, enter(logged, destination), SCENE_LIMIT as nat),
    }
}

/// An intent of the reader.
#[derive(Debug)]
pub enum Message {
    /// A click on a link.
    LinkClick(TextLink),
    /// The request for the next line.
    NextLine,
    /// The request to start again.
    Reset,
    /// A key was pressed; the string is the key's name.
    KeyboardEvent(String),
}

/// An intent as a value: a click as the destination and the text of its
/// link.
pub enum MessageView {
    LinkClick(Seq<char>, Seq<char>),
    NextLine,
    Reset,
    KeyboardEvent(Seq<char>),
}

impl View for Message {
    type V = MessageView;

    open spec fn view(&self) -> MessageView {
        match self {
            Message::LinkClick(link) => MessageView::LinkClick(link.destination@, link.text@),
            Message::NextLine => MessageView::NextLine,
            Message::Reset => MessageView::Reset,
            Message::KeyboardEvent(key) => MessageView::KeyboardEvent(key@),
        }
    }
}

/// What is to be done after an intent was handled: whether the session is
/// to be shown anew, and whether its state is to be saved.
#[derive(Debug, Clone, Copy, PartialEq, Eq, Structural)]
pub struct Reaction {
    pub render: bool,
    pub save: bool,
}

/// The reaction to an intent that was turned away.
pub open spec fn ignored() -> Reaction {
    Reaction { render: false, save: false }
}

/// What an intent does to the state, what is to be done after it, and the
/// fault it ran into, if any. A click and the request for the next line
/// count only while the session runs; the space key stands for the request
/// for the next line outside a menu, and is not saved; a restart always
/// counts.
pub open spec fn react(zone: ZoneView, st: StateView, msg: MessageView) -> (
    StateView,
    Reaction,
    Option<Fault>,
) {
    match msg {
        MessageView::LinkClick(destination, text) => if st.status == Status::Running {
            let (after, fault) = followed(zone.scenes, st, destination, text);
            (after, Reaction { render: true, save: true }, fault)
        } else {
            (st, ignored(), None)
        },
        MessageView::NextLine => if st.status == Status::Running {
            let (after, fault) = advanced(zone.scenes, st);
            (after, Reaction { render: true, save: true }, fault)
        } else {
            (st, ignored(), None)
        },
        MessageView::Reset => (
            initial_state(zone.initialize),
            Reaction { render: true, save: true },
            None,
        ),
        MessageView::KeyboardEvent(key) => if st.status == Status::Running {
            match find_index(zone.scenes, st.scene) {
                None => (st, ignored(), Some(Fault::BadSceneName(st.scene))),
                Some(i) => if !zone.scenes[i].branch && key == " "@ {
                    let (after, fault) = advanced(zone.scenes, st);
                    (after, Reaction { render: true, save: false }, fault)
                } else {
                    (st, ignored(), None)
                },
            }
        } else {
            (st, ignored(), None)
        },
    }
}

/// Whether a line is shown in the state: it is a line of text, and its
/// filter, if it has one, lets it through.
pub open spec fn shown(line: LineView, st: StateView) -> bool {
    match line {
        LineView::Text(text) => match text.filter {
            Some(filter) => eval(filter, st) != 0,
            None => true,
        },
        LineView::Command(_) => false,
    }
}

/// The places, among the first `k` lines, of the lines that are shown.
pub open spec fn shown_among(lines: Seq<LineView>, st: StateView, k: int) -> Seq<usize>
    decreases k,
{
    if k <= 0 {
        Seq::empty()
    } else if shown(lines[k - 1], st) {
        shown_among(lines, st, k - 1).push((k - 1) as usize)
    } else {
        shown_among(lines, st, k - 1)
    }
}

/// The places of the lines that are on offer: in a menu all lines that are
/// shown, elsewhere the current line if it is shown. `None` where the
/// session's scene does not exist.
pub open spec fn offered(scenes: Seq<SceneView>, st: StateView) -> Option<Seq<usize>> {
    match find_index(scenes, st.scene) {
        None => None,
        Some(i) => if scenes[i].branch {
            Some(shown_among(scenes[i].lines, st, scenes[i].lines.len() as int))
        } else if st.line < scenes[i].lines.len() && shown(scenes[i].lines[st.line as int], st) {
            Some(seq![st.line])
        } else {
            Some(Seq::empty())
        },
    }
}

/// How an item of the inventory is shown.
#[derive(Debug)]
pub struct InventoryEntry {
    /// The item's name, or its key where it has no name.
    pub title: String,
    /// The count, where it is shown.
    pub count: Option<i32>,
    /// The item's description, where it has one that is not empty.
    pub details: Option<String>,
}

/// An entry of the inventory as a value.
pub struct InventoryEntryView {
    pub title: Seq<char>,
    pub count: Option<i32>,
    pub details: Option<Seq<char>>,
}

impl View for InventoryEntry {
    type V = InventoryEntryView;

    open spec fn view(&self) -> InventoryEntryView {
        InventoryEntryView {
            title: self.title@,
            count: self.count,
            details: opt_chars(self.details),
        }
    }
}

/// How the item `key` is shown with the count `count`: an item with a name
/// under its name, with its count only above 1 and with its description if
/// that is not empty; any other item under its key, with its count.
pub open spec fn entry_for(items: Seq<ItemView>, key: Seq<char>, count: i32) -> InventoryEntryView {
    match item_place(items, key) {
        Some(i) => match items[i].name {
            Some(name) => InventoryEntryView {
                title: name,
                count: if count > 1 {
                    Some(count)
                } else {
                    None
                },
                details: match items[i].details {
                    Some(details) => if details.len() > 0 {
                        Some(details)
                    } else {
                        None
                    },
                    None => None,
                },
            },
            None => InventoryEntryView { title: key, count: Some(count), details: None },
        },
        None => InventoryEntryView { title: key, count: Some(count), details: None },
    }
}

/// The views of a list of entries.
pub open spec fn entry_views(entries: Seq<InventoryEntry>) -> Seq<InventoryEntryView> {
    Seq::new(entries.len(), |i: int| entries[i]@)
}

/// The markup of a link that can no longer be followed.
pub fn render_inactive_link(text: &String) -> (r: String)
    ensures
        r@ == inactive_link(text@),
{
    let mut out = "<span class=\"inline-disabled-button\">".to_string();
    out.append(text.as_str());
    out.append("</span>");
    out
}

/// The markup of the parts of a line that was read.
pub fn render_parts(parts: &Vec<TextPart>) -> (r: String)
    ensures
        r@ == inactive_parts(part_views(parts@)),
{
    let mut buffer = String::new();
    let mut i: usize = 0;
    assert(part_views(parts@).take(0) =~= Seq::<PartView>::empty());
    while i < parts.len()
        invariant
            i <= parts@.len(),
            buffer@ == inactive_parts(part_views(parts@).take(i as int)),
        decreases parts@.len() - i,
    {
        proof {
            let all = part_views(parts@);
            assert(all.take(i + 1).drop_last() =~= all.take(i as int));
            assert(all.take(i + 1).last() == parts@[i as int]@);
        }
        match &parts[i] {
            TextPart::Link(link) => {
                let piece = render_inactive_link(&link.text);
                buffer.append(piece.as_str());
            },
            TextPart::Text(text) => {
                buffer.append(text.as_str());
            },
        }
        i += 1;
    }
    assert(part_views(parts@).take(i as int) =~= part_views(parts@));
    buffer
}

/// The markup of a line that was read.
pub fn render_inactive(line: &Line) -> (r: String)
    ensures
        r@ == inactive_line(line@),
{
    match line {
        Line::TextLine(text) => render_parts(&text.parts),
        Line::CommandLine(_) => String::new(),
    }
}

impl State {
    /// The parts of the line, if the line's filter lets it through.
    pub fn render_text_line<'a>(&self, line: &'a TextLine) -> (r: Option<&'a Vec<TextPart>>)
        ensures
            r is Some == shown(LineView::Text(line@), self@),
            r matches Some(parts) ==> parts == &line.parts,
    {
        if let Some(filter) = &line.filter {
            if !self.check_filter(filter) {
                return None;
            }
        }
        Some(&line.parts)
    }

    /// The parts of the line, if it is a line of text that is shown.
    pub fn render_active<'a>(&self, line: &'a Line) -> (r: Option<&'a Vec<TextPart>>)
        ensures
            r is Some == shown(line@, self@),
            r matches Some(parts) ==> line matches Line::TextLine(text) && parts == &text.parts,
    {
        match line {
            Line::TextLine(text) => self.render_text_line(text),
            Line::CommandLine(_) => None,
        }
    }
}

impl Display {
    /// Logs a click on `link`: in a menu the lines to keep go to the log
    /// first.
    pub fn publish_link(&mut self, link: &TextLink) -> (r: Result<(), EngineError>)
        requires
            old(self).wf(),
        ensures
            final(self).zone == old(self).zone,
            final(self).session_key == old(self).session_key,
            match r {
                Ok(()) => published_link(old(self).zone@.scenes, old(self).state@, link.text@)
                    == Some(final(self).state@),
                Err(e) => published_link(old(self).zone@.scenes, old(self).state@, link.text@)
                    is None && e@ == Fault::BadSceneName(old(self).state@.scene) && final(self).state@ == old(self).state@,
            },
    {
        let scene = match self.zone.find_scene(&self.state.scene) {
            Some(scene) => scene,
            None => {
                return Err(EngineError::BadSceneName(self.state.scene.clone()));
            },
        };
        let ghost before = self.state@;
        if scene.branch {
            let mut i: usize = 0;
            assert(scene@.lines.take(0) =~= Seq::<LineView>::empty());
            assert(before.log + Seq::<Seq<char>>::empty() =~= before.log);
            while i < scene.lines.len()
                invariant
                    i <= scene.lines@.len(),
                    self.zone == old(self).zone,
                    self.session_key == old(self).session_key,
                    self.state@ == (StateView {
                        log: before.log + summary(scene@.lines.take(i as int)),
                        ..before
                    }),
                decreases scene.lines@.len() - i,
            {
                proof {
                    let all = scene@.lines;
                    assert(all.take(i + 1).drop_last() =~= all.take(i as int));
                    assert(all.take(i + 1).last() == scene.lines@[i as int]@);
                }
                if let Line::TextLine(text) = &scene.lines[i] {
                    if text.include_in_summary {
                        let ghost so_far = summary(scene@.lines.take(i as int));
                        let ghost prior = string_views(self.state.log@);
                        assert(prior == before.log + so_far);
                        let rendered = render_parts(&text.parts);
                        self.state.log.push_back(rendered);
                        assert(string_views(self.state.log@) =~= prior.push(rendered@));
                        assert(prior.push(rendered@) =~= before.log + so_far.push(
                            inactive_parts(text@.parts),
                        ));
                    }
                }
                i += 1;
            }
            assert(scene@.lines.take(i as int) =~= scene@.lines);
        } else {
            assert(before.log + Seq::<Seq<char>>::empty() =~= before.log);
        }
        let ghost kept = if scene@.branch {
            summary(scene@.lines)
        } else {
            Seq::empty()
        };
        assert(string_views(self.state.log@) == before.log + kept);
        self.state.log.push_back(render_inactive_link(&link.text));
        assert(string_views(self.state.log@) =~= (before.log + kept).push(inactive_link(link.text@)));
        Ok(())
    }

    /// Logs the current line, where there is one and it leaves markup.
    pub fn publish_current(&mut self) -> (r: Result<(), EngineError>)
        requires
            old(self).wf(),
        ensures
            final(self).zone == old(self).zone,
            final(self).session_key == old(self).session_key,
            match r {
                Ok(()) => published_current(old(self).zone@.scenes, old(self).state@) == Some(
                    final(self).state@,
                ),
                Err(e) => published_current(old(self).zone@.scenes, old(self).state@) is None
                    && e@ == Fault::BadSceneName(old(self).state@.scene) && final(self).state@
                    == old(self).state@,
            },
    {
        let scene = match self.zone.find_scene(&self.state.scene) {
            Some(scene) => scene,
            None => {
                return Err(EngineError::BadSceneName(self.state.scene.clone()));
            },
        };
        if scene.branch || self.state.line >= scene.lines.len() {
            return Ok(());
        }
        assert(scene@.lines[self.state.line as int] == scene.lines@[self.state.line as int]@);
        let line = render_inactive(&scene.lines[self.state.line]);
        if line.as_str().unicode_len() > 0 {
            let ghost before = string_views(self.state.log@);
            self.state.log.push_back(line);
            assert(string_views(self.state.log@) =~= before.push(line@));
        }
        Ok(())
    }

    /// Handles the request for the next line: logs the current line and
    /// settles on the next line to show.
    pub fn advance(&mut self) -> (r: Result<(), EngineError>)
        requires
            old(self).wf(),
        ensures
            final(self).zone == old(self).zone,
            final(self).session_key == old(self).session_key,
            outcome(final(self).state@, r) == advanced(
                old(self).zone@.scenes,
                old(self).state@,
            ),
    {
        match self.publish_current() {
            Ok(()) => self.advance_line(true),
            Err(e) => Err(e),
        }
    }

    /// Handles a click on a link: logs it and settles in the scene the link
    /// leads to.
    pub fn follow(&mut self, link: &TextLink) -> (r: Result<(), EngineError>)
        requires
            old(self).wf(),
        ensures
            final(self).zone == old(self).zone,
            final(self).session_key == old(self).session_key,
            outcome(final(self).state@, r) == followed(
                old(self).zone@.scenes,
                old(self).state@,
                link.destination@,
                link.text@,
            ),
    {
        match self.publish_link(link) {
            Ok(()) => self.follow_link(&link.destination),
            Err(e) => Err(e),
        }
    }

    /// Handles an intent of the reader. Where the engine cannot go on, the
    /// state is left as it was before the intent.
    pub fn update(&mut self, msg: Message) -> (r: Result<Reaction, EngineError>)
        requires
            old(self).wf(),
        ensures
            final(self).zone == old(self).zone,
            final(self).session_key == old(self).session_key,
            match r {
                Ok(reaction) => react(old(self).zone@, old(self).state@, msg@) == (
                    final(self).state@,
                    reaction,
                    None::<Fault>,
                ),
                Err(e) => react(old(self).zone@, old(self).state@, msg@).2 == Some(e@) && final(self).state@ == old(self).state@,
            },
    {
        let running = self.state.status == Status::Running;
        match msg {
            Message::LinkClick(target) => {
                if !running {
                    return Ok(Reaction { render: false, save: false });
                }
                let saved = self.state.clone();
                match self.follow(&target) {
                    Ok(()) => Ok(Reaction { render: true, save: true }),
                    Err(e) => {
                        self.state = saved;
                        Err(e)
                    },
                }
            },
            Message::NextLine => {
                if !running {
                    return Ok(Reaction { render: false, save: false });
                }
                let saved = self.state.clone();
                match self.advance() {
                    Ok(()) => Ok(Reaction { render: true, save: true }),
                    Err(e) => {
                        self.state = saved;
                        Err(e)
                    },
                }
            },
            Message::Reset => {
                self.state = State::new(self.zone.initial_commands());
                Ok(Reaction { render: true, save: true })
            },
            Message::KeyboardEvent(key) => {
                if !running {
                    return Ok(Reaction { render: false, save: false });
                }
                let branch = match self.zone.find_scene(&self.state.scene) {
                    Some(scene) => scene.branch,
                    None => {
                        return Err(EngineError::BadSceneName(self.state.scene.clone()));
                    },
                };
                let space = " ".to_string();
                if branch || key != space {
                    return Ok(Reaction { render: false, save: false });
                }
                let saved = self.state.clone();
                match self.advance() {
                    Ok(()) => Ok(Reaction { render: true, save: false }),
                    Err(e) => {
                        self.state = saved;
                        Err(e)
                    },
                }
            },
        }
    }

    /// The places, in the session's scene, of the lines that are on offer.
    pub fn build_control(&self) -> (r: Option<Vec<usize>>)
        requires
            self.wf(),
        ensures
            match r {
                Some(places) => offered(self.zone@.scenes, self.state@) == Some(places@),
                None => offered(self.zone@.scenes, self.state@) is None,
            },
    {
        let scene = match self.zone.find_scene(&self.state.scene) {
            Some(scene) => scene,
            None => {
                return None;
            },
        };
        let mut places: Vec<usize> = Vec::new();
        if scene.branch {
            let mut i: usize = 0;
            while i < scene.lines.len()
                invariant
                    i <= scene.lines@.len(),
                    places@ == shown_among(scene@.lines, self.state@, i as int),
                decreases scene.lines@.len() - i,
            {
                assert(scene@.lines[i as int] == scene.lines@[i as int]@);
                if self.state.render_active(&scene.lines[i]).is_some() {
                    places.push(i);
                }
                i += 1;
            }
        } else if self.state.line < scene.lines.len() {
            assert(scene@.lines[self.state.line as int] == scene.lines@[self.state.line as int]@);
            if self.state.render_active(&scene.lines[self.state.line]).is_some() {
                places.push(self.state.line);
                assert(places@ =~= seq![self.state.line]);
            }
        }
        Some(places)
    }

    /// How the inventory is shown: one entry for each item that was
    /// counted, in the order in which the items were first counted.
    pub fn build_inventory(&self) -> (r: Vec<InventoryEntry>)
        ensures
            entry_views(r@) == Seq::new(
                self.state@.inventory.len(),
                |i: int|
                    entry_for(
                        self.state@.items,
                        self.state@.inventory[i].0,
                        self.state@.inventory[i].1,
                    ),
            ),
    {
        let mut entries: Vec<InventoryEntry> = Vec::new();
        let mut i: usize = 0;
        while i < self.state.inventory.entries.len()
            invariant
                i <= self.state.inventory.entries@.len(),
                entries@.len() == i,
                forall|j: int|
                    0 <= j < i ==> entries@[j]@ == entry_for(
                        self.state@.items,
                        self.state@.inventory[j].0,
                        self.state@.inventory[j].1,
                    ),
            decreases self.state.inventory.entries@.len() - i,
        {
            let key = &self.state.inventory.entries[i].0;
            let count = self.state.inventory.entries[i].1;
            let plain = InventoryEntry { title: key.clone(), count: Some(count), details: None };
            let entry = match find_item(&self.state.items, key) {
                Some(place) => {
                    let item = &self.state.items[place];
                    assert(item_views(self.state.items@)[place as int] == item@);
                    match &item.name {
                        Some(name) => InventoryEntry {
                            title: name.clone(),
                            count: if count > 1 {
                                Some(count)
                            } else {
                                None
                            },
                            details: match &item.details {
                                Some(details) => if details.as_str().unicode_len() > 0 {
                                    Some(details.clone())
                                } else {
                                    None
                                },
                                None => None,
                            },
                        },
                        None => plain,
                    }
                },
                None => plain,
            };
            entries.push(entry);
            i += 1;
        }
        assert(entry_views(entries@) =~= Seq::new(
            self.state@.inventory.len(),
            |i: int|
                entry_for(self.state@.items, self.state@.inventory[i].0, self.state@.inventory[i].1),
        ));
        entries
    }

    /// Whether the request for the next line is taken up: the session runs
    /// and is not in a menu. `None` where the session's scene does not exist.
    pub fn accepts_next(&self) -> (r: Option<bool>)
        requires
            self.wf(),
        ensures
            r == match find_index(self.zone@.scenes, self.state@.scene) {
                Some(i) => Some(
                    !self.zone@.scenes[i].branch && self.state@.status == Status::Running,
                ),
                None => None,
            },
    {
        match self.zone.find_scene(&self.state.scene) {
            Some(scene) => Some(!scene.branch && self.state.status == Status::Running),
            None => None,
        }
    }
}

} // verus!
