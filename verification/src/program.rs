use vstd::prelude::*;
use vstd::string::StringExecFns;

use crate::instr::decimal;
use crate::instr::digit_char;
use crate::instr::render;
use crate::instr::Instr;

verus! {

/// One concrete output instruction, the executable counterpart of `Instr`.
#[derive(Debug, PartialEq)]
pub enum Cmd {
    Skip,
    Halt,
    PlaceString(String),
    PlaceNum(u32),
}

impl View for Cmd {
    type V = Instr;

    open spec fn view(&self) -> Instr {
        match self {
            Cmd::Skip => Instr::Skip,
            Cmd::Halt => Instr::Halt,
            Cmd::PlaceString(s) => Instr::PlaceString(s@),
            Cmd::PlaceNum(n) => Instr::PlaceNum(*n),
        }
    }
}

/// A finalized, ordered, playable sequence of instructions. Programs are
/// immutable once built: every composition produces a new value.
#[derive(Debug, PartialEq)]
pub struct Program {
    cmds: Vec<Cmd>,
}

impl View for Program {
    type V = Seq<Instr>;

    closed spec fn view(&self) -> Seq<Instr> {
        self.cmds@.map_values(|c: Cmd| c@)
    }
}

impl Program {
    /// The one-instruction program holding `cmd`.
    pub fn cmd(cmd: Cmd) -> (r: Program)
        ensures
            r@ == seq![cmd@],
    {
        let mut cmds: Vec<Cmd> = Vec::new();
        cmds.push(cmd);
        let r = Program { cmds };
        proof {
            assert(r@ =~= seq![cmd@]);
        }
        r
    }

    /// The one-instruction program that terminates playback.
    pub fn halt() -> (r: Program)
        ensures
            r@ == seq![Instr::Halt],
    {
        Program::cmd(Cmd::Halt)
    }

    /// The one-instruction program that does nothing.
    pub fn skip() -> (r: Program)
        ensures
            r@ == seq![Instr::Skip],
    {
        Program::cmd(Cmd::Skip)
    }

    /// The one-instruction program that emits `s` verbatim.
    pub fn place_string(s: String) -> (r: Program)
        ensures
            r@ == seq![Instr::PlaceString(s@)],
    {
        Program::cmd(Cmd::PlaceString(s))
    }

    /// The one-instruction program that emits `n` in decimal.
    pub fn place_num(n: u32) -> (r: Program)
        ensures
            r@ == seq![Instr::PlaceNum(n)],
    {
        Program::cmd(Cmd::PlaceNum(n))
    }

    /// Appends `other` after `self`: order-preserving, no instruction
    /// reordered, dropped or deduplicated.
    pub fn concat(self, other: Program) -> (r: Program)
        ensures
            r@ == self@ + other@,
    {
        let mut cmds = self.cmds;
        let mut rest = other.cmds;
        cmds.append(&mut rest);
        let r = Program { cmds };
        proof {
            assert(r@ =~= self@ + other@);
        }
        r
    }

    /// Renders the program to text: equivalent to playback into a string,
    /// stopping at the first `Halt` exactly as playback does.
    pub fn string(&self) -> (r: String)
        ensures
            r@ == render(self@),
    {
        let mut out = String::new();
        let mut i: usize = 0;
        let n = self.cmds.len();
        proof {
            assert(self@.subrange(0, n as int) =~= self@);
            assert(Seq::<char>::empty() + render(self@) =~= render(self@));
        }
        while i < n
            invariant
                n == self.cmds@.len(),
                i <= n,
                render(self@) == out@ + render(self@.subrange(i as int, n as int)),
            decreases n - i,
        {
            proof {
                assert(self@.subrange(i as int, n as int)[0] == self@[i as int]);
                assert(self@.subrange(i as int, n as int).drop_first() =~= self@.subrange(
                    i as int + 1,
                    n as int,
                ));
            }
            let c = &self.cmds[i];
            match c {
                Cmd::Skip => {},
                Cmd::Halt => {
                    proof {
                        assert(render(self@.subrange(i as int, n as int)) == Seq::<char>::empty());
                        assert(out@ + Seq::<char>::empty() =~= out@);
                    }
                    return out;
                },
                Cmd::PlaceString(s) => {
                    proof {
                        assert(out@ + (s@ + render(self@.subrange(i as int + 1, n as int))) =~= (
                        out@ + s@) + render(self@.subrange(i as int + 1, n as int)));
                    }
                    out.append(s.as_str());
                },
                Cmd::PlaceNum(v) => {
                    let digits = num_string(*v);
                    proof {
                        assert(out@ + (digits@ + render(self@.subrange(i as int + 1, n as int)))
                            =~= (out@ + digits@) + render(self@.subrange(i as int + 1, n as int)));
                    }
                    out.append(digits.as_str());
                },
            }
            i = i + 1;
        }
        proof {
            assert(self@.subrange(n as int, n as int) =~= Seq::<Instr>::empty());
            assert(out@ + Seq::<char>::empty() =~= out@);
        }
        out
    }
}

/// The one-character string slice holding the decimal digit for `d`.
fn digit_str(d: u32) -> (r: &'static str)
    requires
        d < 10,
    ensures
        r@ == seq![digit_char(d as nat)],
{
    proof {
        reveal_strlit("0");
        reveal_strlit("1");
        reveal_strlit("2");
        reveal_strlit("3");
        reveal_strlit("4");
        reveal_strlit("5");
        reveal_strlit("6");
        reveal_strlit("7");
        reveal_strlit("8");
        reveal_strlit("9");
        assert("0"@ =~= seq![digit_char(0)]);
        assert("1"@ =~= seq![digit_char(1)]);
        assert("2"@ =~= seq![digit_char(2)]);
        assert("3"@ =~= seq![digit_char(3)]);
        assert("4"@ =~= seq![digit_char(4)]);
        assert("5"@ =~= seq![digit_char(5)]);
        assert("6"@ =~= seq![digit_char(6)]);
        assert("7"@ =~= seq![digit_char(7)]);
        assert("8"@ =~= seq![digit_char(8)]);
        assert("9"@ =~= seq![digit_char(9)]);
    }
    if d == 0 {
        "0"
    } else if d == 1 {
        "1"
    } else if d == 2 {
        "2"
    } else if d == 3 {
        "3"
    } else if d == 4 {
        "4"
    } else if d == 5 {
        "5"
    } else if d == 6 {
        "6"
    } else if d == 7 {
        "7"
    } else if d == 8 {
        "8"
    } else {
        "9"
    }
}

/// Renders `n` in decimal: the executable counterpart of `decimal`.
pub fn num_string(n: u32) -> (r: String)
    ensures
        r@ == decimal(n as nat),
    decreases n,
{
    if n < 10 {
        let mut s = String::new();
        s.append(digit_str(n));
        proof {
            assert(s@ =~= decimal(n as nat));
        }
        s
    } else {
        let mut s = num_string(n / 10);
        s.append(digit_str(n % 10));
        proof {
            assert(s@ =~= decimal(n as nat));
        }
        s
    }
}

} // verus!
