//! Execution of a scene script: statements are read one after the other, a
//! repeat count makes the statement that follows it run several times, and the
//! commands that result are collected in the order in which they take effect.

use crate::scene::command::{
    camera, camera_of, command_views, is_word, latest_material, lemma_latest_material_defines,
    material, material_of, rect, rect_of, resolved, resolved_at, sphere, sphere_of, uses, Command,
    CommandText, Fault,
};
use crate::scene::lexer::{line_texts, split_statements, statements, texts, Token};
use crate::scene::number::{count_of, parse_count};
use vstd::prelude::*;

verus! {

/// What one statement asks for.
#[derive(Debug, PartialEq, Eq)]
pub enum Action<C> {
    /// A command takes effect.
    Add(C),
    /// The next statement runs this many times.
    Repeat(usize),
    /// Nothing happens: the statement is a comment.
    Skip,
}

/// A statement that could not be executed.
#[derive(Debug, Clone, Copy, PartialEq, Eq, Structural)]
pub struct SceneError {
    /// Position of the statement among the statements of the script.
    pub line: usize,
    /// What is wrong with it.
    pub fault: Fault,
}

/// The view of an action.
pub open spec fn action_view(a: Action<Command>) -> Action<CommandText> {
    match a {
        Action::Add(c) => Action::Add(c@),
        Action::Repeat(n) => Action::Repeat(n),
        Action::Skip => Action::Skip,
    }
}

/// A command, or the fault that stands for it, as an action.
pub open spec fn added(r: Result<CommandText, Fault>) -> Result<Action<CommandText>, Fault> {
    match r {
        Ok(c) => Ok(Action::Add(c)),
        Err(f) => Err(f),
    }
}

/// What the statement `t` asks for after the commands `done`. Its first word
/// decides: `CAM`, `MAT` and `OBJ` give a command, `~` a repeat count, `//` a
/// comment.
pub open spec fn action_of(t: Seq<Seq<char>>, done: Seq<CommandText>) -> Result<
    Action<CommandText>,
    Fault,
> {
    if t.len() < 1 {
        Err(Fault::MissingField)
    } else if t[0] == "CAM"@ {
        added(camera_of(t))
    } else if t[0] == "MAT"@ {
        added(material_of(t))
    } else if t[0] == "OBJ"@ {
        if t.len() < 2 {
            Err(Fault::MissingField)
        } else if t[1] == "sphere"@ {
            added(sphere_of(t, done))
        } else if t[1] == "rect"@ {
            added(rect_of(t, done))
        } else {
            Err(Fault::UnknownObject)
        }
    } else if t[0] == "~"@ {
        if t.len() < 2 {
            Err(Fault::MissingField)
        } else {
            match count_of(t[1]) {
                Some(n) => Ok(Action::Repeat(n)),
                None => Err(Fault::BadCount),
            }
        }
    } else if t[0] == "//"@ {
        Ok(Action::Skip)
    } else {
        Err(Fault::UnknownCommand)
    }
}

/// The commands that have taken effect when execution, having reached
/// statement `pc` with `rep` repetitions of it still to follow and the
/// commands `done` behind it, comes to the end of the script; or the first
/// statement that cannot be executed.
///
/// A statement runs, and runs again while repetitions are left; then the next
/// one has its turn. A repeat count `n` hands the statement after it `n` runs
/// in all: none if `n` is zero.
pub open spec fn run_from(
    lines: Seq<Seq<Seq<char>>>,
    pc: nat,
    rep: nat,
    done: Seq<CommandText>,
) -> Result<Seq<CommandText>, SceneError>
    recommends
        lines.len() <= usize::MAX,
    decreases lines.len() + 1 - pc, rep,
{
    if pc >= lines.len() {
        Ok(done)
    } else {
        match action_of(lines[pc as int], done) {
            Err(fault) => Err(SceneError { line: pc as usize, fault }),
            Ok(Action::Repeat(n)) => if n > 0 {
                run_from(lines, pc + 1, (n - 1) as nat, done)
            } else {
                run_from(lines, pc + 2, 0, done)
            },
            Ok(Action::Add(c)) => if rep > 0 {
                run_from(lines, pc, (rep - 1) as nat, done.push(c))
            } else {
                run_from(lines, pc + 1, 0, done.push(c))
            },
            Ok(Action::Skip) => if rep > 0 {
                run_from(lines, pc, (rep - 1) as nat, done)
            } else {
                run_from(lines, pc + 1, 0, done)
            },
        }
    }
}

/// The commands that a script's statements give, from the first statement on.
pub open spec fn run_of(lines: Seq<Seq<Seq<char>>>) -> Result<Seq<CommandText>, SceneError>
    recommends
        lines.len() <= usize::MAX,
{
    run_from(lines, 0, 0, Seq::empty())
}

/// The commands that a script gives.
pub open spec fn scene_of(text: Seq<char>) -> Result<Seq<CommandText>, SceneError> {
    run_of(statements(text))
}

/// A command that a statement adds keeps every shape resolved: a new shape
/// refers to the latest definition of its material.
pub proof fn lemma_added_is_resolved(t: Seq<Seq<char>>, done: Seq<CommandText>, c: CommandText)
    requires
        resolved(done),
        done.len() <= usize::MAX,
        action_of(t, done) == Ok::<Action<CommandText>, Fault>(Action::Add(c)),
    ensures
        resolved(done.push(c)),
{
    let after = done.push(c);
    let n = done.len() as int;
    assert forall|i: int| 0 <= i < after.len() implies #[trigger] resolved_at(after, i) by {
        if i < n {
            assert(resolved_at(done, i));
            assert(after.take(i) == done.take(i));
        } else {
            assert(after.take(n) == done);
            if uses(c) is Some {
                lemma_latest_material_defines(done, t[2]);
            }
        }
    }
}

/// Execution only ever adds commands to those that have taken effect.
pub proof fn lemma_run_grows(lines: Seq<Seq<Seq<char>>>, pc: nat, rep: nat, done: Seq<CommandText>)
    requires
        run_from(lines, pc, rep, done) is Ok,
    ensures
        done.len() <= run_from(lines, pc, rep, done)->Ok_0.len(),
    decreases lines.len() + 1 - pc, rep,
{
    if pc < lines.len() {
        match action_of(lines[pc as int], done) {
            Err(_) => {},
            Ok(Action::Repeat(n)) => {
                if n > 0 {
                    lemma_run_grows(lines, pc + 1, (n - 1) as nat, done);
                } else {
                    lemma_run_grows(lines, pc + 2, 0, done);
                }
            },
            Ok(Action::Add(c)) => {
                if rep > 0 {
                    lemma_run_grows(lines, pc, (rep - 1) as nat, done.push(c));
                } else {
                    lemma_run_grows(lines, pc + 1, 0, done.push(c));
                }
            },
            Ok(Action::Skip) => {
                if rep > 0 {
                    lemma_run_grows(lines, pc, (rep - 1) as nat, done);
                } else {
                    lemma_run_grows(lines, pc + 1, 0, done);
                }
            },
        }
    }
}

/// In the commands that a script gives, every shape refers to the definition
/// of its material that was the latest when the shape was added.
pub proof fn lemma_run_is_resolved(
    lines: Seq<Seq<Seq<char>>>,
    pc: nat,
    rep: nat,
    done: Seq<CommandText>,
)
    requires
        resolved(done),
        run_from(lines, pc, rep, done) is Ok,
        run_from(lines, pc, rep, done)->Ok_0.len() <= usize::MAX,
    ensures
        resolved(run_from(lines, pc, rep, done)->Ok_0),
    decreases lines.len() + 1 - pc, rep,
{
    lemma_run_grows(lines, pc, rep, done);
    if pc < lines.len() {
        match action_of(lines[pc as int], done) {
            Err(_) => {},
            Ok(Action::Repeat(n)) => {
                if n > 0 {
                    lemma_run_is_resolved(lines, pc + 1, (n - 1) as nat, done);
                } else {
                    lemma_run_is_resolved(lines, pc + 2, 0, done);
                }
            },
            Ok(Action::Add(c)) => {
                lemma_added_is_resolved(lines[pc as int], done, c);
                if rep > 0 {
                    lemma_run_is_resolved(lines, pc, (rep - 1) as nat, done.push(c));
                } else {
                    lemma_run_is_resolved(lines, pc + 1, 0, done.push(c));
                }
            },
            Ok(Action::Skip) => {
                if rep > 0 {
                    lemma_run_is_resolved(lines, pc, (rep - 1) as nat, done);
                } else {
                    lemma_run_is_resolved(lines, pc + 1, 0, done);
                }
            },
        }
    }
}

/// `k` copies of a command.
pub open spec fn copies(c: CommandText, k: nat) -> Seq<CommandText> {
    Seq::new(k, |i: int| c)
}

/// A statement with `rep` repetitions left runs `rep + 1` times before the
/// next statement has its turn: if each of these runs adds the command `c`,
/// execution goes on after it with `rep + 1` copies of `c` added.
pub proof fn lemma_repeated_statement(
    lines: Seq<Seq<Seq<char>>>,
    pc: nat,
    rep: nat,
    done: Seq<CommandText>,
    c: CommandText,
)
    requires
        pc < lines.len(),
        forall|k: nat|
            k <= rep ==> #[trigger] action_of(lines[pc as int], done + copies(c, k)) == Ok::<
                Action<CommandText>,
                Fault,
            >(Action::Add(c)),
    ensures
        run_from(lines, pc, rep, done) == run_from(lines, pc + 1, 0, done + copies(c, rep + 1)),
    decreases rep,
{
    assert(done + copies(c, 0) == done);
    assert(action_of(lines[pc as int], done + copies(c, 0)) == Ok::<Action<CommandText>, Fault>(
        Action::Add(c),
    ));
    if rep > 0 {
        let next = done.push(c);
        assert forall|k: nat| k <= rep - 1 implies #[trigger] action_of(
            lines[pc as int],
            next + copies(c, k),
        ) == Ok::<Action<CommandText>, Fault>(Action::Add(c)) by {
            assert(next + copies(c, k) == done + copies(c, k + 1));
            assert(action_of(lines[pc as int], done + copies(c, k + 1)) == Ok::<
                Action<CommandText>,
                Fault,
            >(Action::Add(c)));
        }
        lemma_repeated_statement(lines, pc, (rep - 1) as nat, next, c);
        assert(next + copies(c, rep as nat) == done + copies(c, rep + 1));
    } else {
        assert(done.push(c) == done + copies(c, 1));
    }
}

/// A repeat count hands the statement after it as many runs as it says: a
/// count of `n`, before a statement that adds the command `c` each time it
/// runs, adds `n` copies of `c`.
pub proof fn lemma_repeat_count(
    lines: Seq<Seq<Seq<char>>>,
    pc: nat,
    rep: nat,
    done: Seq<CommandText>,
    n: usize,
    c: CommandText,
)
    requires
        pc + 1 < lines.len(),
        action_of(lines[pc as int], done) == Ok::<Action<CommandText>, Fault>(Action::Repeat(n)),
        forall|k: nat|
            k < n ==> #[trigger] action_of(lines[pc as int + 1], done + copies(c, k)) == Ok::<
                Action<CommandText>,
                Fault,
            >(Action::Add(c)),
    ensures
        run_from(lines, pc, rep, done) == run_from(lines, pc + 2, 0, done + copies(c, n as nat)),
{
    if n > 0 {
        lemma_repeated_statement(lines, pc + 1, (n - 1) as nat, done, c);
    } else {
        assert(done + copies(c, 0) == done);
    }
}

/// Reads one statement, after the commands `done`.
pub fn action(t: &[Token], done: &[Command]) -> (r: Result<Action<Command>, Fault>)
    ensures
        match r {
            Ok(a) => action_of(texts(t@), command_views(done@)) == Ok::<
                Action<CommandText>,
                Fault,
            >(action_view(a)),
            Err(f) => action_of(texts(t@), command_views(done@)) == Err::<
                Action<CommandText>,
                Fault,
            >(f),
        },
{
    if t.len() < 1 {
        return Err(Fault::MissingField);
    }
    let made = if is_word(t[0].as_slice(), "CAM") {
        camera(t)
    } else if is_word(t[0].as_slice(), "MAT") {
        material(t)
    } else if is_word(t[0].as_slice(), "OBJ") {
        if t.len() < 2 {
            return Err(Fault::MissingField);
        } else if is_word(t[1].as_slice(), "sphere") {
            sphere(t, done)
        } else if is_word(t[1].as_slice(), "rect") {
            rect(t, done)
        } else {
            return Err(Fault::UnknownObject);
        }
    } else if is_word(t[0].as_slice(), "~") {
        if t.len() < 2 {
            return Err(Fault::MissingField);
        }
        return match parse_count(t[1].as_slice()) {
            Some(n) => Ok(Action::Repeat(n)),
            None => Err(Fault::BadCount),
        };
    } else if is_word(t[0].as_slice(), "//") {
        return Ok(Action::Skip);
    } else {
        return Err(Fault::UnknownCommand);
    };
    match made {
        Ok(c) => Ok(Action::Add(c)),
        Err(f) => Err(f),
    }
}

/// Executes the statements of a script.
pub fn run(lines: &[Vec<Token>]) -> (r: Result<Vec<Command>, SceneError>)
    ensures
        match r {
            Ok(cs) => run_of(line_texts(lines@)) == Ok::<Seq<CommandText>, SceneError>(
                command_views(cs@),
            ),
            Err(e) => run_of(line_texts(lines@)) == Err::<Seq<CommandText>, SceneError>(e),
        },
        r matches Ok(cs) ==> resolved(command_views(cs@)),
{
    let ghost all = line_texts(lines@);
    let mut done: Vec<Command> = Vec::new();
    let mut pc: usize = 0;
    let mut rep: usize = 0;
    proof {
        assert(command_views(done@) == Seq::<CommandText>::empty());
    }
    while pc < lines.len()
        invariant
            pc <= lines.len(),
            all == line_texts(lines@),
            run_of(all) == run_from(all, pc as nat, rep as nat, command_views(done@)),
        decreases lines.len() + 1 - pc, rep,
    {
        let ghost before = command_views(done@);
        let ghost here = run_from(all, pc as nat, rep as nat, before);
        let ghost old_pc = pc as nat;
        proof {
            assert(all[pc as int] == texts(lines@[pc as int]@));
        }
        match action(lines[pc].as_slice(), done.as_slice()) {
            Err(fault) => {
                return Err(SceneError { line: pc, fault });
            },
            Ok(Action::Repeat(n)) => {
                if n > 0 {
                    rep = n - 1;
                    pc = pc + 1;
                } else {
                    rep = 0;
                    pc = if pc + 1 < lines.len() {
                        pc + 2
                    } else {
                        lines.len()
                    };
                    proof {
                        assert(here == run_from(all, old_pc + 2, 0, before));
                        assert(run_from(all, old_pc + 2, 0, before) == run_from(
                            all,
                            pc as nat,
                            0,
                            before,
                        ));
                    }
                }
            },
            Ok(Action::Add(c)) => {
                let ghost made = c@;
                done.push(c);
                proof {
                    assert(command_views(done@) == before.push(made));
                }
                if rep > 0 {
                    rep = rep - 1;
                } else {
                    pc = pc + 1;
                }
            },
            Ok(Action::Skip) => {
                if rep > 0 {
                    rep = rep - 1;
                } else {
                    pc = pc + 1;
                }
            },
        }
    }
    proof {
        assert(resolved(Seq::<CommandText>::empty()));
        assert(run_of(all) == Ok::<Seq<CommandText>, SceneError>(command_views(done@)));
        assert(command_views(done@).len() == done.len());
        lemma_run_is_resolved(all, 0, 0, Seq::empty());
    }
    Ok(done)
}

/// Reads a scene script and gives the commands that build its scene, in the
/// order in which they take effect.
pub fn parse(text: &str) -> (r: Result<Vec<Command>, SceneError>)
    ensures
        match r {
            Ok(cs) => scene_of(text@) == Ok::<Seq<CommandText>, SceneError>(command_views(cs@)),
            Err(e) => scene_of(text@) == Err::<Seq<CommandText>, SceneError>(e),
        },
        r matches Ok(cs) ==> resolved(command_views(cs@)),
{
    let lines = split_statements(text);
    run(lines.as_slice())
}

} // verus!
