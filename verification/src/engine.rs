//! The state machine that walks a session through a compiled script: it
//! settles on the next line to show, skipping lines whose filter fails and
//! carrying out commands on the way.

use crate::filter::eval;
use crate::script::{Command, CommandView, Line, LineView, Scene, SceneView};
use crate::state::{
    State, StateView, Status, add_all, enter, initial_state, upsert, upsert_item,
};
use crate::table::put;
use crate::zone::{Zone, find_index, next_label};
use std::rc::Rc;
use vstd::prelude::*;

verus! {

/// The number of scenes that may be entered in a row before a line to show
/// is reached. A script that asks for more is taken to run in circles.
/// Within a scene every run of hidden lines and of commands is followed to
/// its end, however long it is.
pub const SCENE_LIMIT: usize = 1_000_000;

/// Why the engine could not go on.
#[derive(Debug)]
pub enum EngineError {
    /// The label names no scene, or names a scene that nothing follows.
    BadSceneName(String),
    /// More than `SCENE_LIMIT` scenes were entered in a row without reaching
    /// a line to show.
    TooManyScenes,
}

/// An engine error as a value: the label as its characters.
pub enum Fault {
    BadSceneName(Seq<char>),
    TooManyScenes,
}

impl View for EngineError {
    type V = Fault;

    open spec fn view(&self) -> Fault {
        match self {
            EngineError::BadSceneName(name) => Fault::BadSceneName(name@),
            EngineError::TooManyScenes => Fault::TooManyScenes,
        }
    }
}

/// The state after the command has had its effect: counts are added to,
/// an item's description is brought up to date, a variable is assigned, the
/// session moves to the scene that a jump names, or its status changes.
pub open spec fn run_command(st: StateView, command: CommandView) -> StateView {
    match command {
        CommandView::Item(change) => StateView { inventory: add_all(st.inventory, change), ..st },
        CommandView::SetItem(item) => StateView { items: upsert_item(st.items, item), ..st },
        CommandView::Next(label) => enter(st, label),
        CommandView::End => StateView { status: Status::Finished, ..st },
        CommandView::Reset => StateView { status: Status::Reset, ..st },
        CommandView::Assign(name, value) => StateView { values: put(st.values, name, value), ..st },
    }
}

/// Whether the line after the command is to be taken next.
pub open spec fn auto_advance(command: CommandView) -> bool {
    match command {
        CommandView::Item(_) => true,
        CommandView::SetItem(_) => true,
        CommandView::Assign(_, _) => true,
        _ => false,
    }
}

/// The state with the line index one further.
pub open spec fn bump(st: StateView) -> StateView {
    StateView {
        line: if st.line < usize::MAX {
            (st.line + 1) as usize
        } else {
            st.line
        },
        ..st
    }
}

/// What one step of settling does.
pub enum Step {
    /// The state is settled: nothing more happens by itself.
    Stop(StateView),
    /// The session has moved one line on in its scene and settling goes on.
    Next(StateView),
    /// The session has entered a scene and settling goes on.
    Enter(StateView),
    /// The label names no scene, or a scene that nothing follows.
    Fail(Seq<char>),
}

/// Whether the line index is past the last line of the scene. The largest
/// index there is counts as past the last line of any scene.
pub open spec fn past_end(scene: SceneView, line: usize) -> bool {
    line >= scene.lines.len() || line == usize::MAX
}

/// One step of settling. A branch scene is settled as it is. Past the last
/// line of a scene the session enters the scene that follows. A text line
/// whose filter fails is stepped over, any other text line is settled on. A
/// command is carried out; the session then stays where a status change put
/// it, enters the scene it jumps to, or takes the next line.
pub open spec fn step(scenes: Seq<SceneView>, st: StateView) -> Step {
    match find_index(scenes, st.scene) {
        None => Step::Fail(st.scene),
        Some(i) => {
            let scene = scenes[i];
            if scene.branch {
                Step::Stop(st)
            } else if past_end(scene, st.line) {
                match next_label(scenes, st.scene) {
                    Some(label) => Step::Enter(enter(st, label)),
                    None => Step::Fail(st.scene),
                }
            } else {
                match scene.lines[st.line as int] {
                    LineView::Text(text) => if text.filter is Some && eval(text.filter.unwrap(), st)
                        == 0 {
                        Step::Next(bump(st))
                    } else {
                        Step::Stop(st)
                    },
                    LineView::Command(command) => {
                        let after = run_command(st, command);
                        if auto_advance(command) {
                            Step::Next(bump(after))
                        } else if command is Next {
                            Step::Enter(after)
                        } else {
                            Step::Stop(after)
                        }
                    },
                }
            }
        },
    }
}

/// The state that settling reaches from `st`, and the fault that stopped it,
/// if one did. Lines are stepped over and commands carried out without
/// limit; `fuel` is the number of scenes that may still be entered.
pub open spec fn settle(scenes: Seq<SceneView>, st: StateView, fuel: nat) -> (
    StateView,
    Option<Fault>,
)
    decreases fuel, usize::MAX - st.line,
{
    match step(scenes, st) {
        Step::Stop(after) => (after, None),
        Step::Fail(label) => (st, Some(Fault::BadSceneName(label))),
        Step::Next(after) => settle(scenes, after, fuel),
        Step::Enter(after) => if fuel == 0 {
            (after, Some(Fault::TooManyScenes))
        } else {
            settle(scenes, after, (fuel - 1) as nat)
        },
    }
}

/// A state together with the fault that an operation ended in, if any.
pub open spec fn outcome<T>(st: StateView, r: Result<T, EngineError>) -> (StateView, Option<Fault>) {
    match r {
        Ok(_) => (st, None),
        Err(e) => (st, Some(e@)),
    }
}

impl State {
    /// Carries out the command on the state. A jump only moves to the scene
    /// it names: settling there is the caller's part.
    pub fn apply(&mut self, command: &Command)
        ensures
            final(self)@ == run_command(old(self)@, command@),
    {
        match command {
            Command::Item(items) => {
                let mut i: usize = 0;
                assert(items.change.pairs().take(0) =~= Seq::<(Seq<char>, i32)>::empty());
                while i < items.change.entries.len()
                    invariant
                        i <= items.change.entries@.len(),
                        self@ == (StateView {
                            inventory: add_all(
                                old(self)@.inventory,
                                items.change.pairs().take(i as int),
                            ),
                            ..old(self)@
                        }),
                    decreases items.change.entries@.len() - i,
                {
                    proof {
                        let all = items.change.pairs();
                        assert(all.take(i + 1).drop_last() =~= all.take(i as int));
                        assert(all.take(i + 1).last() == all[i as int]);
                    }
                    let key = &items.change.entries[i].0;
                    let amount = items.change.entries[i].1;
                    let have = self.count_item(key);
                    self.inventory.insert(key.clone(), have.wrapping_add(amount));
                    i += 1;
                }
                proof {
                    let all = items.change.pairs();
                    assert(all.take(i as int) =~= all);
                }
            },
            Command::SetItem(item) => {
                upsert(&mut self.items, item);
            },
            Command::Next(link) => {
                self.enter(link);
            },
            Command::End => {
                self.status = Status::Finished;
            },
            Command::Reset => {
                self.status = Status::Reset;
            },
            Command::Assign(cmd) => {
                self.values.insert(cmd.name.clone(), cmd.value);
            },
        }
    }
}

/// What a session is made from: the compiled script and the key under which
/// its state is kept.
pub struct DisplayProperties {
    pub zone: Rc<Zone>,
    pub session_key: String,
}

/// A session: a compiled script and the state of its reader.
pub struct Display {
    pub zone: Rc<Zone>,
    pub state: State,
    pub session_key: String,
}

impl Display {
    /// The script's index is in order.
    pub open spec fn wf(&self) -> bool {
        self.zone.wf()
    }

    /// The session of the given script. It takes up the restored state where
    /// there is one, and starts anew where there is none.
    pub fn create(props: DisplayProperties, restored: Option<State>) -> (r: Self)
        requires
            props.zone.wf(),
        ensures
            r.wf(),
            r.zone == props.zone,
            r.session_key == props.session_key,
            r.state@ == match restored {
                Some(state) => state@,
                None => initial_state(props.zone@.initialize),
            },
    {
        let state = match restored {
            Some(state) => state,
            None => State::new(props.zone.initial_commands()),
        };
        Display { zone: props.zone, state, session_key: props.session_key }
    }

    /// The scene that the session is in, if its label names one.
    pub fn current_scene(&self) -> (r: Option<&Scene>)
        requires
            self.wf(),
        ensures
            match r {
                Some(scene) => find_index(self.zone@.scenes, self.state@.scene) is Some && scene@
                    == self.zone@.scenes[find_index(self.zone@.scenes, self.state@.scene).unwrap()],
                None => find_index(self.zone@.scenes, self.state@.scene) is None,
            },
    {
        self.zone.find_scene(&self.state.scene)
    }

    /// Settles on the next line to show, first moving one line on where
    /// `inc` is set.
    pub fn advance_line(&mut self, inc: bool) -> (r: Result<(), EngineError>)
        requires
            old(self).wf(),
        ensures
            final(self).zone == old(self).zone,
            final(self).session_key == old(self).session_key,
            outcome(final(self).state@, r) == settle(
                old(self).zone@.scenes,
                if inc {
                    bump(old(self).state@)
                } else {
                    old(self).state@
                },
                SCENE_LIMIT as nat,
            ),
    {
        if inc && self.state.line < usize::MAX {
            self.state.line += 1;
        }
        let ghost start = self.state@;
        let ghost scenes = self.zone@.scenes;
        let mut fuel: usize = SCENE_LIMIT;
        loop
            invariant
                self.wf(),
                self.zone == old(self).zone,
                self.session_key == old(self).session_key,
                scenes == self.zone@.scenes,
                start == if inc {
                    bump(old(self).state@)
                } else {
                    old(self).state@
                },
                settle(scenes, start, SCENE_LIMIT as nat) == settle(
                    scenes,
                    self.state@,
                    fuel as nat,
                ),
            decreases fuel, usize::MAX - self.state.line,
        {
            let scene = match self.zone.find_scene(&self.state.scene) {
                Some(scene) => scene,
                None => {
                    return Err(EngineError::BadSceneName(self.state.scene.clone()));
                },
            };
            if scene.branch {
                return Ok(());
            }
            let mut entered = false;
            if self.state.line >= scene.lines.len() {
                match self.zone.next(&self.state.scene) {
                    Ok(label) => {
                        self.state.enter(&label);
                        entered = true;
                    },
                    Err(bad) => {
                        return Err(EngineError::BadSceneName(bad.name));
                    },
                }
            } else {
                assert(scene@.lines[self.state.line as int] == scene.lines@[self.state.line as int]@);
                match &scene.lines[self.state.line] {
                    Line::TextLine(text) => {
                        let shown = match &text.filter {
                            Some(filter) => self.state.check_filter(filter),
                            None => true,
                        };
                        if shown {
                            return Ok(());
                        }
                        self.state.line += 1;
                    },
                    Line::CommandLine(command) => {
                        self.state.apply(command);
                        match command {
                            Command::Next(_) => {
                                entered = true;
                            },
                            Command::End => {
                                return Ok(());
                            },
                            Command::Reset => {
                                return Ok(());
                            },
                            _ => {
                                self.state.line += 1;
                            },
                        }
                    },
                }
            }
            if entered {
                if fuel == 0 {
                    return Err(EngineError::TooManyScenes);
                }
                fuel -= 1;
            }
        }
    }

    /// Moves to the scene `link` names, records the visit and settles there.
    pub fn follow_link(&mut self, link: &String) -> (r: Result<(), EngineError>)
        requires
            old(self).wf(),
        ensures
            final(self).zone == old(self).zone,
            final(self).session_key == old(self).session_key,
            outcome(final(self).state@, r) == settle(
                old(self).zone@.scenes,
                enter(old(self).state@, link@),
                SCENE_LIMIT as nat,
            ),
    {
        self.state.enter(link);
        self.advance_line(false)
    }

    /// Moves to the scene that follows the current one, records the visit
    /// and settles there.
    pub fn advance_scene(&mut self) -> (r: Result<(), EngineError>)
        requires
            old(self).wf(),
        ensures
            final(self).zone == old(self).zone,
            final(self).session_key == old(self).session_key,
            outcome(final(self).state@, r) == match next_label(
                old(self).zone@.scenes,
                old(self).state@.scene,
            ) {
                Some(label) => settle(
                    old(self).zone@.scenes,
                    enter(old(self).state@, label),
                    SCENE_LIMIT as nat,
                ),
                None => (old(self).state@, Some(Fault::BadSceneName(old(self).state@.scene))),
            },
    {
        match self.zone.next(&self.state.scene) {
            Ok(label) => self.follow_link(&label),
            Err(bad) => Err(EngineError::BadSceneName(bad.name)),
        }
    }

    /// Carries out the command and says whether the line after it is to be
    /// taken next. A jump settles in the scene it leads to.
    pub fn execute_command(&mut self, command: &Command) -> (r: Result<bool, EngineError>)
        requires
            old(self).wf(),
        ensures
            final(self).zone == old(self).zone,
            final(self).session_key == old(self).session_key,
            outcome(final(self).state@, r) == if command@ is Next {
                settle(
                    old(self).zone@.scenes,
                    run_command(old(self).state@, command@),
                    SCENE_LIMIT as nat,
                )
            } else {
                (run_command(old(self).state@, command@), None)
            },
            r matches Ok(go) ==> go == auto_advance(command@),
    {
        match command {
            Command::Next(link) => match self.follow_link(link) {
                Ok(()) => Ok(false),
                Err(e) => Err(e),
            },
            Command::End => {
                self.state.apply(command);
                Ok(false)
            },
            Command::Reset => {
                self.state.apply(command);
                Ok(false)
            },
            _ => {
                self.state.apply(command);
                Ok(true)
            },
        }
    }
}

} // verus!
