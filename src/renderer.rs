//! Turns changesets into terminal commands and writes them to a sink.
use vstd::prelude::*;

use crate::framebuffer::diff::{Changeset, Changesets};
use crate::framebuffer::Cell;
use crate::terminal::{command_text, Command, Sink, Style, WriteError};
use crate::text::char_string;

verus! {

/// `c` writes exactly the text `t`.
pub open spec fn is_write_of(c: Command, t: Seq<char>) -> bool {
    match c {
        Command::Write(s) => s@ == t,
        _ => false,
    }
}

/// `cs` blanks the cell at `(x, y)`: move there, reset the style, write a
/// space.
pub open spec fn blanks(cs: Seq<Command>, x: u16, y: u16) -> bool {
    &&& cs.len() == 3
    &&& cs[0] == Command::MoveTo(x, y)
    &&& cs[1] == Command::ApplyStyle(Style::Reset)
    &&& is_write_of(cs[2], seq![' '])
}

/// `cs` draws `cell` at `(x, y)`: for a filled cell, move there, apply the
/// foreground, apply the background, write the character; an empty cell
/// is blanked.
pub open spec fn draws(cs: Seq<Command>, x: u16, y: u16, cell: Cell) -> bool {
    match cell {
        Cell::Empty => blanks(cs, x, y),
        Cell::Filled { character, foreground, background } => {
            &&& cs.len() == 4
            &&& cs[0] == Command::MoveTo(x, y)
            &&& cs[1] == Command::ApplyStyle(foreground)
            &&& cs[2] == Command::ApplyStyle(background)
            &&& is_write_of(cs[3], seq![character])
        },
    }
}

/// `cs` is the command sequence for one changeset. `Add` and `Update` are
/// drawn alike; `Remove` blanks the cell.
pub open spec fn renders(c: Changeset, cs: Seq<Command>) -> bool {
    match c {
        Changeset::Add { x, y, cell } => draws(cs, x, y, cell),
        Changeset::Remove { x, y } => blanks(cs, x, y),
        Changeset::Update { x, y, cell } => draws(cs, x, y, cell),
    }
}

/// `cmd` is the `j`-th command that renders `c`.
pub open spec fn command_at(c: Changeset, j: int, cmd: Command) -> bool {
    exists|cs: Seq<Command>| renders(c, cs) && 0 <= j < cs.len() && cs[j] == cmd
}

/// The text of each command, one entry per command.
pub open spec fn texts(cs: Seq<Command>) -> Seq<Seq<char>> {
    cs.map_values(|c: Command| command_text(c))
}

/// The writes that blank the cell at `(x, y)`, one per command.
pub open spec fn blank_writes(x: u16, y: u16) -> Seq<Seq<char>> {
    seq![
        command_text(Command::MoveTo(x, y)),
        command_text(Command::ApplyStyle(Style::Reset)),
        seq![' '],
    ]
}

/// The writes that draw `cell` at `(x, y)`, one per command.
pub open spec fn cell_writes(x: u16, y: u16, cell: Cell) -> Seq<Seq<char>> {
    match cell {
        Cell::Empty => blank_writes(x, y),
        Cell::Filled { character, foreground, background } => seq![
            command_text(Command::MoveTo(x, y)),
            command_text(Command::ApplyStyle(foreground)),
            command_text(Command::ApplyStyle(background)),
            seq![character],
        ],
    }
}

/// The writes that put one changeset on the screen, one per command.
pub open spec fn changeset_writes(c: Changeset) -> Seq<Seq<char>> {
    match c {
        Changeset::Add { x, y, cell } => cell_writes(x, y, cell),
        Changeset::Remove { x, y } => blank_writes(x, y),
        Changeset::Update { x, y, cell } => cell_writes(x, y, cell),
    }
}

/// The writes that put the changesets on the screen, in order.
pub open spec fn changesets_writes(cs: Seq<Changeset>) -> Seq<Seq<char>>
    decreases cs.len(),
{
    if cs.len() == 0 {
        Seq::empty()
    } else {
        changesets_writes(cs.drop_last()) + changeset_writes(cs.last())
    }
}

/// Writes that the sink accepted, as entries of a terminal's log.
pub open spec fn accepted(ts: Seq<Seq<char>>) -> Seq<(Seq<char>, bool)> {
    ts.map_values(|t: Seq<char>| (t, true))
}

proof fn lemma_accepted_concat(a: Seq<Seq<char>>, b: Seq<Seq<char>>)
    ensures
        accepted(a + b) == accepted(a) + accepted(b),
{
    assert(accepted(a + b) =~= accepted(a) + accepted(b));
}

fn empty_at(x: u16, y: u16) -> (r: Vec<Command>)
    ensures
        blanks(r@, x, y),
        texts(r@) == blank_writes(x, y),
{
    let r = vec![Command::MoveTo(x, y), Command::ApplyStyle(Style::Reset), Command::Write(char_string(' '))];
    assert(texts(r@) =~= blank_writes(x, y));
    r
}

fn draw_at(x: u16, y: u16, cell: Cell) -> (r: Vec<Command>)
    ensures
        draws(r@, x, y, cell),
        texts(r@) == cell_writes(x, y, cell),
{
    match cell {
        Cell::Empty => empty_at(x, y),
        Cell::Filled { character, foreground, background } => {
            let r = vec![
                Command::MoveTo(x, y),
                Command::ApplyStyle(foreground),
                Command::ApplyStyle(background),
                Command::Write(char_string(character)),
            ];
            assert(texts(r@) =~= cell_writes(x, y, cell));
            r
        },
    }
}

/// The commands that put one changeset on the screen. `Add` and `Update`
/// of a filled cell: `MoveTo(x, y)`, `ApplyStyle(foreground)`,
/// `ApplyStyle(background)`, `Write(character)`. `Remove`, or `Add` /
/// `Update` of an empty cell: `MoveTo(x, y)`, `ApplyStyle(Reset)`,
/// `Write(" ")`.
pub fn commands_for(change: Changeset) -> (r: Vec<Command>)
    ensures
        renders(change, r@),
        texts(r@) == changeset_writes(change),
{
    match change {
        Changeset::Add { x, y, cell } => draw_at(x, y, cell),
        Changeset::Remove { x, y } => empty_at(x, y),
        Changeset::Update { x, y, cell } => draw_at(x, y, cell),
    }
}

/// Something that puts changesets on a screen.
pub trait Renderer {
    /// Applies the changesets in the order given.
    fn submit(&mut self, changesets: Changesets) -> Result<(), WriteError>;
}

/// A renderer that writes ANSI commands to a sink, one write per command.
/// It keeps no state between changesets: every character written is
/// preceded by its own `MoveTo`.
pub struct Terminal<W> {
    out: W,
    log: Ghost<Seq<(Seq<char>, bool)>>,
}

impl<W: Sink> Terminal<W> {
    /// The sink written to.
    pub closed spec fn out(&self) -> W {
        self.out
    }

    /// Each write this terminal has handed to its sink, in order: the text
    /// handed over, and whether the sink answered `Ok`.
    pub closed spec fn log(&self) -> Seq<(Seq<char>, bool)> {
        self.log@
    }

    pub fn new(out: W) -> (t: Self)
        ensures
            t.out() == out,
            t.log() == Seq::<(Seq<char>, bool)>::empty(),
    {
        Self { out, log: Ghost(Seq::empty()) }
    }

    /// The sink written to.
    pub fn sink(&self) -> (r: &W)
        ensures
            *r == self.out(),
    {
        &self.out
    }

    /// Gives the sink back.
    pub fn into_sink(self) -> (r: W)
        ensures
            r == self.out(),
    {
        self.out
    }

    /// Puts one changeset on the screen, one write per command, stopping
    /// at the first write the sink refuses.
    fn render(&mut self, change: Changeset) -> (r: Result<(), WriteError>)
        ensures
            match r {
                Ok(()) => final(self).log() == old(self).log() + accepted(changeset_writes(change)),
                Err(e) => exists|j: int|
                    0 <= j < changeset_writes(change).len() && command_at(change, j, e.command)
                        && final(self).log() == old(self).log() + accepted(
                        changeset_writes(change).take(j),
                    ) + seq![(changeset_writes(change)[j], false)],
            },
    {
        let ops = commands_for(change);
        let ghost cs = ops@;
        let r = self.apply(ops);
        proof {
            if r is Err {
                let e = r->Err_0;
                let j = choose|j: int|
                    0 <= j < cs.len() && cs[j] == e.command && self.log() == old(self).log()
                        + accepted(texts(cs.take(j))) + seq![(command_text(cs[j]), false)];
                assert(texts(cs.take(j)) =~= changeset_writes(change).take(j));
                assert(texts(cs)[j] == command_text(cs[j]));
                assert(renders(change, cs) && 0 <= j < cs.len() && cs[j] == e.command);
                assert(command_at(change, j, e.command));
            }
        }
        r
    }

    /// Writes the commands in order, one write each, stopping at the first
    /// that the sink refuses.
    fn apply(&mut self, cmds: Vec<Command>) -> (r: Result<(), WriteError>)
        ensures
            match r {
                Ok(()) => final(self).log() == old(self).log() + accepted(texts(cmds@)),
                Err(e) => exists|i: int|
                    0 <= i < cmds@.len() && cmds@[i] == e.command && final(self).log() == old(
                        self,
                    ).log() + accepted(texts(cmds@.take(i))) + seq![(command_text(cmds@[i]), false)],
            },
    {
        let ghost all = cmds@;
        let mut ops = cmds;
        let mut i: usize = 0;
        while i < ops.len()
            invariant
                ops@ == all,
                all == cmds@,
                i <= ops.len(),
                self.log() == old(self).log() + accepted(texts(all.take(i as int))),
            decreases ops.len() - i,
        {
            let text = ops[i].encode();
            match self.out.write_str(text.as_str()) {
                Ok(()) => {
                    proof {
                        self.log@ = self.log@.push((text@, true));
                    }
                },
                Err(cause) => {
                    proof {
                        self.log@ = self.log@.push((text@, false));
                    }
                    let command = ops.remove(i);
                    assert(all[i as int] == command);
                    return Err(WriteError { command, cause });
                },
            }
            proof {
                assert(accepted(texts(all.take(i + 1))) =~= accepted(texts(all.take(i as int))).push(
                    (command_text(all[i as int]), true),
                ));
            }
            i += 1;
        }
        proof {
            assert(all.take(i as int) =~= all);
        }
        Ok(())
    }
}

impl<W: Sink> Renderer for Terminal<W> {
    /// Renders each changeset in turn, one write per command. On the first
    /// write the sink refuses, stops and returns the refused command with
    /// the sink's cause: the `j`-th command of the `i`-th changeset, after
    /// every write of the earlier changesets and the first `j` writes of
    /// that one were accepted. Nothing is written after it and nothing
    /// already written is taken back.
    fn submit(&mut self, changesets: Changesets) -> (r: Result<(), WriteError>)
        ensures
            match r {
                Ok(()) => final(self).log() == old(self).log() + accepted(
                    changesets_writes(changesets@),
                ),
                Err(e) => exists|i: int, j: int|
                    0 <= i < changesets@.len() && 0 <= j < changeset_writes(changesets@[i]).len()
                        && command_at(changesets@[i], j, e.command) && final(self).log() == old(
                        self,
                    ).log() + accepted(
                        changesets_writes(changesets@.take(i)) + changeset_writes(
                            changesets@[i],
                        ).take(j),
                    ) + seq![(changeset_writes(changesets@[i])[j], false)],
            },
    {
        let mut i: usize = 0;
        while i < changesets.len()
            invariant
                i <= changesets.len(),
                self.log() == old(self).log() + accepted(changesets_writes(changesets@.take(i as int))),
            decreases changesets.len() - i,
        {
            let ghost before = self.log();
            let r = self.render(changesets[i]);
            if let Err(e) = r {
                proof {
                    let c = changesets@[i as int];
                    let j = choose|j: int|
                        0 <= j < changeset_writes(c).len() && command_at(c, j, e.command)
                            && self.log() == before + accepted(changeset_writes(c).take(j))
                            + seq![(changeset_writes(c)[j], false)];
                    lemma_accepted_concat(
                        changesets_writes(changesets@.take(i as int)),
                        changeset_writes(c).take(j),
                    );
                    assert(self.log() == old(self).log() + accepted(
                        changesets_writes(changesets@.take(i as int)) + changeset_writes(c).take(j),
                    ) + seq![(changeset_writes(c)[j], false)]);
                }
                return Err(e);
            }
            proof {
                assert(changesets@.take(i + 1).drop_last() =~= changesets@.take(i as int));
                lemma_accepted_concat(
                    changesets_writes(changesets@.take(i as int)),
                    changeset_writes(changesets@[i as int]),
                );
            }
            i += 1;
        }
        proof {
            assert(changesets@.take(i as int) =~= changesets@);
        }
        Ok(())
    }
}

} // verus!
