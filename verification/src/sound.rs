//! The short melodies of the beeper, as programs of beeper commands; the
//! pulse-width output and the waiting happen elsewhere.
use vstd::prelude::*;

verus! {

/// The index of the note A4 (440 Hz) in the table of note frequencies.
pub const NOTE_A0: usize = 69;

/// The sounds the device makes.
#[derive(Debug, Clone, Copy, PartialEq, Eq, Structural)]
pub enum Chirp {
    Startup,
    Button,
    Measuring,
    Done,
}

/// One thing for the beeper to do.
#[derive(Debug, Clone, Copy, PartialEq, Eq, Structural)]
pub enum BeeperCommand {
    /// Set the duty cycle of the output, in percent.
    SetDuty(u8),
    /// Sound the note with this index in the table of note frequencies.
    Note(usize),
    /// Keep going for this many milliseconds.
    Wait(u32),
    /// Silence the output.
    Disable,
}

/// The index in the frequency table of the note `note` semitones from A4.
pub open spec fn note_index(note: int) -> usize {
    (NOTE_A0 + note) as usize
}

/// A note played for `duration_millis`: a soft 10 ms lead-in an octave
/// below, then the note itself at half duty, then silence.
pub open spec fn played(note: int, duration_millis: u32) -> Seq<BeeperCommand> {
    seq![
        BeeperCommand::SetDuty(10),
        BeeperCommand::Note(note_index(note - 12)),
        BeeperCommand::Wait(10),
        BeeperCommand::SetDuty(50),
        BeeperCommand::Note(note_index(note)),
        BeeperCommand::Wait(duration_millis),
        BeeperCommand::Disable,
    ]
}

/// The program of each sound.
pub open spec fn chirp_commands(c: Chirp) -> Seq<BeeperCommand> {
    match c {
        Chirp::Startup => played(10, 250) + played(17, 250) + played(21, 250) + seq![BeeperCommand::Wait(2000)],
        Chirp::Button => seq![
            BeeperCommand::Note(note_index(9)),
            BeeperCommand::Wait(50),
            BeeperCommand::Disable,
        ],
        Chirp::Measuring => played(22, 100) + played(20, 100),
        Chirp::Done => played(10, 100) + played(22, 100),
    }
}

/// Appends the commands that play `note` (semitones above A4) for
/// `duration_millis`.
pub fn play(program: &mut Vec<BeeperCommand>, note: usize, duration_millis: u32)
    requires
        NOTE_A0 + note <= usize::MAX,
    ensures
        final(program)@ == old(program)@ + played(note as int, duration_millis),
{
    program.push(BeeperCommand::SetDuty(10));
    program.push(BeeperCommand::Note(NOTE_A0 + note - 12));
    program.push(BeeperCommand::Wait(10));
    program.push(BeeperCommand::SetDuty(50));
    program.push(BeeperCommand::Note(NOTE_A0 + note));
    program.push(BeeperCommand::Wait(duration_millis));
    program.push(BeeperCommand::Disable);
    assert(final(program)@ =~= old(program)@ + played(note as int, duration_millis));
}

/// The beeper program of a sound.
pub fn chirp_program(c: Chirp) -> (p: Vec<BeeperCommand>)
    ensures
        p@ == chirp_commands(c),
{
    let mut p: Vec<BeeperCommand> = Vec::new();
    match c {
        Chirp::Startup => {
            play(&mut p, 12 - 2, 250);
            play(&mut p, 12 + 5, 250);
            play(&mut p, 12 + 9, 250);
            p.push(BeeperCommand::Wait(2000));
        },
        Chirp::Button => {
            p.push(BeeperCommand::Note(NOTE_A0 + 9));
            p.push(BeeperCommand::Wait(50));
            p.push(BeeperCommand::Disable);
        },
        Chirp::Measuring => {
            play(&mut p, 24 - 2, 100);
            play(&mut p, 20, 100);
        },
        Chirp::Done => {
            play(&mut p, 12 - 2, 100);
            play(&mut p, 24 - 2, 100);
        },
    }
    assert(p@ =~= chirp_commands(c));
    p
}

} // verus!
