//! The compiler: from the text of a script to a zone whose references are
//! resolved.

use crate::grammar::{
    Expected, Parsed, SceneTree, flat, header_begins, header_commands, header_failure,
    scene_failure, scenes_from, script,
};
use crate::lexer::{label, line_ends, line_ends1, peek, skip_ws, tag};
use crate::parser::{header_command, parse_scene};
use crate::script::{Command, CommandView, Scene, command_views, scene_views};
use crate::text::chars_of;
use crate::zone::{Zone, labels, resolve_scenes};
use std::rc::Rc;
use vstd::prelude::*;

verus! {

/// Why a script could not be compiled: the position, counted in characters,
/// at which something else was expected, and what was expected there.
#[derive(Debug, Clone, Copy, PartialEq, Eq, Structural)]
pub struct CompileError {
    pub position: usize,
    pub expected: Expected,
}

impl View for CompileError {
    type V = (int, Expected);

    open spec fn view(&self) -> (int, Expected) {
        (self.position as int, self.expected)
    }
}

/// Says where the reading of a scene stops whose label ends before `pos`,
/// and what is missing there.
pub fn diagnose(input: &[char], pos: usize) -> (r: CompileError)
    requires
        pos <= input@.len(),
    ensures
        r@ == scene_failure(input@, pos as int),
{
    let a = skip_ws(input, pos);
    let b = if peek(input, a, '?') && peek(input, a + 1, '?') {
        a + 2
    } else {
        a
    };
    let c = match line_ends1(input, b) {
        Some(next) => next,
        None => {
            return CompileError { position: b, expected: Expected::LineEnd };
        },
    };
    let d = skip_ws(input, c);
    if d == c {
        CompileError { position: c, expected: Expected::Indentation }
    } else {
        CompileError { position: d, expected: Expected::Entry }
    }
}

/// The header of a script: its commands, and the position after the line
/// of dashes that ends it; or where the reading of the header stops and
/// what is missing there.
pub fn header(input: &[char], pos: usize) -> (r: Result<(Vec<Command>, usize), CompileError>)
    requires
        pos <= input@.len(),
    ensures
        match r {
            Ok((commands, next)) => pos <= next <= input@.len() && crate::grammar::header(
                input@,
                pos as int,
            ) == Some((command_views(commands@), (next - pos) as nat)),
            Err(e) => crate::grammar::header(input@, pos as int) is None && e@ == header_failure(
                input@,
                pos as int,
            ),
        },
{
    let mut commands: Vec<Command> = Vec::new();
    let mut at: usize = pos;
    assert(command_views(commands@) + header_commands(input@, pos as int).0 =~= header_commands(
        input@,
        pos as int,
    ).0);
    loop
        invariant
            pos <= at <= input@.len(),
            header_commands(input@, pos as int) == (
                command_views(commands@) + header_commands(input@, at as int).0,
                ((at - pos) + header_commands(input@, at as int).1) as nat,
            ),
        decreases input@.len() - at,
    {
        let found = match header_command(input, at) {
            Some((c, next)) => {
                let end = line_ends(input, next);
                if end > at {
                    Some((c, end))
                } else {
                    None
                }
            },
            None => None,
        };
        match found {
            Some((c, end)) => {
                proof {
                    let rest = header_commands(input@, end as int).0;
                    assert(command_views(commands@.push(c)) + rest =~= command_views(commands@) + (
                        seq![c@] + rest));
                }
                commands.push(c);
                at = end;
            },
            None => {
                assert(command_views(commands@) + Seq::<CommandView>::empty() =~= command_views(
                    commands@,
                ));
                let after_dashes = match tag(input, at, "---") {
                    Some(next) => next,
                    None => {
                        let expected = if peek(input, at, '*') {
                            Expected::HeaderCommand
                        } else {
                            Expected::HeaderEnd
                        };
                        return Err(CompileError { position: at, expected });
                    },
                };
                return match line_ends1(input, after_dashes) {
                    Some(end) => Ok((commands, end)),
                    None => Err(CompileError { position: after_dashes, expected: Expected::LineEnd }),
                };
            },
        }
    }
}

/// A whole script: its scenes in one list, with the index built over them,
/// the commands of its header, and the position at which the reading
/// stopped. The references of the scenes are as they were written.
#[verifier::rlimit(40)]
pub fn parse_zone(input: &[char]) -> (r: Result<(Zone, usize), CompileError>)
    ensures
        match r {
            Ok((zone, rest)) => {
                &&& zone.wf()
                &&& script(input@) matches Ok(p)
                &&& zone@.initialize == p.initialize
                &&& zone@.scenes == flat(p.scenes)
                &&& rest == p.rest
                &&& rest <= input@.len()
            },
            Err(e) => script(input@) == Err::<Parsed, (int, Expected)>(e@),
        },
{
    let a = line_ends(input, 0);
    let (init, b) = match header(input, a) {
        Ok(found) => found,
        Err(e) => {
            if peek(input, a, '*') || tag(input, a, "---").is_some() {
                return Err(e);
            }
            (Vec::new(), a)
        },
    };
    assert(command_views(init@) =~= match crate::grammar::header(input@, a as int) {
        Some((commands, _)) => commands,
        None => Seq::empty(),
    });
    let mut all: Vec<Scene> = Vec::new();
    let mut at: usize = b;
    let ghost mut done: Seq<SceneTree> = Seq::empty();
    proof {
        let from = scenes_from(input@, b as int);
        if from is Ok {
            assert(done + from->Ok_0.0 =~= from->Ok_0.0);
        }
    }
    assert(scene_views(all@) =~= flat(done));
    loop
        invariant
            a <= b <= at <= input@.len(),
            a == crate::grammar::line_ends(input@, 0),
            match crate::grammar::header(input@, a as int) {
                Some((commands, n)) => command_views(init@) == commands && b == a + n,
                None => !header_begins(input@, a as int) && command_views(init@)
                    == Seq::<CommandView>::empty() && b == a,
            },
            scene_views(all@) == flat(done),
            scenes_from(input@, b as int) == match scenes_from(input@, at as int) {
                Ok((rest, stop)) => Ok::<(Seq<SceneTree>, int), (int, Expected)>((done + rest, stop)),
                Err(flaw) => Err(flaw),
            },
        decreases input@.len() - at,
    {
        let after_label = match label(input, at) {
            Some((_, next)) => next,
            None => {
                assert(done + Seq::<SceneTree>::empty() =~= done);
                return Ok((Zone::new(all, init), at));
            },
        };
        match parse_scene(input, at) {
            Some((mut found, next)) => {
                if next == at {
                    return Err(diagnose(input, after_label));
                }
                let ghost tree = crate::grammar::scene(input@, at as int).unwrap().0;
                let ghost before = scene_views(all@);
                let ghost added = scene_views(found@);
                proof {
                    let rest = scenes_from(input@, next as int);
                    if rest is Ok {
                        assert(done.push(tree) + rest->Ok_0.0 =~= done + (seq![tree]
                            + rest->Ok_0.0));
                    }
                }
                all.append(&mut found);
                proof {
                    assert(scene_views(all@) =~= before + added);
                    crate::grammar::lemma_flatten_all_push(done, tree, done.len());
                    done = done.push(tree);
                }
                at = next;
            },
            None => {
                return Err(diagnose(input, after_label));
            },
        }
    }
}

/// A compiled script, and where the text goes on that is not part of it.
#[derive(Debug)]
pub struct Compiled {
    /// The script, its references resolved.
    pub zone: Zone,
    /// The position, counted in characters, of the text after the last
    /// scene that could not be read as a scene; `None` where the whole
    /// text was read.
    pub rest: Option<usize>,
}

/// Compiles a script: parses it and resolves the references of its scenes.
/// Text after the last scene at which no label stands is left unread, and
/// its position is handed back: it is to be reported, and is no failure.
pub fn compile(data: &str) -> (r: Result<Compiled, CompileError>)
    ensures
        match r {
            Ok(compiled) => {
                &&& compiled.zone.wf()
                &&& script(data@) matches Ok(p)
                &&& compiled.zone@.initialize == p.initialize
                &&& compiled.zone@.scenes == resolve_scenes(flat(p.scenes), labels(flat(p.scenes)))
                &&& match compiled.rest {
                    Some(rest) => rest == p.rest && rest < data@.len(),
                    None => p.rest == data@.len(),
                }
            },
            Err(e) => script(data@) == Err::<Parsed, (int, Expected)>(e@),
        },
{
    let input = chars_of(data);
    match parse_zone(&input) {
        Ok((zone, stop)) => {
            let mut zone = zone;
            zone.correct();
            let rest = if stop < input.len() {
                Some(stop)
            } else {
                None
            };
            Ok(Compiled { zone, rest })
        },
        Err(e) => Err(e),
    }
}

/// Compiles a script into a zone that sessions can share; `None` where the
/// text cannot be read as a script.
pub fn build_world(data: String) -> (r: Option<Rc<Zone>>)
    ensures
        match r {
            Some(zone) => {
                &&& zone.wf()
                &&& script(data@) matches Ok(p)
                &&& zone@.initialize == p.initialize
                &&& zone@.scenes == resolve_scenes(flat(p.scenes), labels(flat(p.scenes)))
            },
            None => script(data@) is Err,
        },
{
    match compile(data.as_str()) {
        Ok(compiled) => Some(Rc::new(compiled.zone)),
        Err(_) => None,
    }
}

} // verus!
