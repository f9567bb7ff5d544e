use vstd::prelude::*;

verus! {

/// The abstract form of one output instruction, as the contracts speak of it:
/// text appears as a sequence of characters rather than an owned string.
pub enum Instr {
    /// No-op placeholder; contributes nothing to playback.
    Skip,
    /// Terminates playback; instructions after it are never executed.
    Halt,
    /// Emits a text fragment verbatim.
    PlaceString(Seq<char>),
    /// Emits the decimal rendering of an unsigned integer.
    PlaceNum(u32),
}

/// The decimal digit character for `d`, meaningful for `d < 10`.
pub open spec fn digit_char(d: nat) -> char {
    if d == 0 {
        '0'
    } else if d == 1 {
        '1'
    } else if d == 2 {
        '2'
    } else if d == 3 {
        '3'
    } else if d == 4 {
        '4'
    } else if d == 5 {
        '5'
    } else if d == 6 {
        '6'
    } else if d == 7 {
        '7'
    } else if d == 8 {
        '8'
    } else {
        '9'
    }
}

/// The decimal rendering of `n`: plain digits, no separators, no leading
/// zeros beyond the natural representation.
pub open spec fn decimal(n: nat) -> Seq<char>
    decreases n,
{
    if n < 10 {
        seq![digit_char(n)]
    } else {
        decimal(n / 10) + seq![digit_char(n % 10)]
    }
}

/// The text produced by playing a program back: instructions in order, `Skip`
/// contributing nothing, and the first `Halt` stopping playback so that
/// nothing after it is rendered.
pub open spec fn render(p: Seq<Instr>) -> Seq<char>
    decreases p.len(),
{
    if p.len() == 0 {
        Seq::empty()
    } else {
        match p[0] {
            Instr::Skip => render(p.drop_first()),
            Instr::Halt => Seq::empty(),
            Instr::PlaceString(s) => s + render(p.drop_first()),
            Instr::PlaceNum(n) => decimal(n as nat) + render(p.drop_first()),
        }
    }
}

/// Whether the program contains a `Halt` anywhere.
pub open spec fn has_halt(p: Seq<Instr>) -> bool {
    exists|i: int| 0 <= i < p.len() && p[i] == Instr::Halt
}

} // verus!
