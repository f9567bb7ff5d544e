use vstd::prelude::*;

use crate::hole::ProgramWithHole;
use crate::instr::Instr;
use crate::program::Program;
use crate::rules::satisfy;
use crate::rules::spec_satisfy;
use crate::rules::Rule;

verus! {

/// The fragments of the rules whose condition `n` satisfies, in rule order.
pub open spec fn matched_words(rules: Seq<Rule>, n: u32) -> Seq<Seq<char>>
    decreases rules.len(),
{
    if rules.len() == 0 {
        Seq::empty()
    } else {
        matched_words(rules.drop_last(), n) + if spec_satisfy(rules.last().0, n) {
            seq![rules.last().1@]
        } else {
            Seq::empty()
        }
    }
}

/// The instruction forms of the fragments, one `PlaceString` each.
pub open spec fn word_instrs(words: Seq<Seq<char>>) -> Seq<Instr> {
    words.map_values(|w: Seq<char>| Instr::PlaceString(w))
}

/// `k` halt instructions in a row.
pub open spec fn halt_run(k: nat) -> Seq<Instr> {
    Seq::new(k, |i: int| Instr::Halt)
}

/// The exact instruction sequence `Program::new` builds for `rules` and `n`:
/// a leading skip, the matched fragments in rule order, one halt per matched
/// rule, then the numeric fallback and its halt. Playback stops at the first
/// halt, so the fallback is rendered exactly when no rule matched.
pub open spec fn gen_program(rules: Seq<Rule>, n: u32) -> Seq<Instr> {
    seq![Instr::Skip] + word_instrs(matched_words(rules, n)) + halt_run(
        matched_words(rules, n).len(),
    ) + seq![Instr::PlaceNum(n), Instr::Halt]
}

/// Every condition in the list is well formed (a positive factor).
pub open spec fn rules_wf(rules: Seq<Rule>) -> bool {
    forall|i: int| 0 <= i < rules.len() ==> (#[trigger] rules[i]).0.wf()
}

impl Program {
    /// Compiles the rules against `n`: filters the rules by their conditions,
    /// folds the matching fragments into a holed program seeded with the
    /// numeric fallback, and closes the hole into an executable program.
    pub fn new(rules: &[Rule], n: u32) -> (r: Program)
        requires
            rules_wf(rules@),
        ensures
            r@ == gen_program(rules@, n),
    {
        let mut acc = ProgramWithHole::new(
            Program::skip(),
            Program::place_num(n).concat(Program::halt()),
        );
        let len = rules.len();
        proof {
            assert(rules@.subrange(0, 0) =~= Seq::<Rule>::empty());
            assert(word_instrs(matched_words(rules@.subrange(0, 0), n)) =~= Seq::<Instr>::empty());
            assert(acc@.0 =~= seq![Instr::Skip] + word_instrs(
                matched_words(rules@.subrange(0, 0), n),
            ));
            assert(halt_run(0) =~= Seq::<Instr>::empty());
            assert(acc@.1 =~= halt_run(matched_words(rules@.subrange(0, 0), n).len()) + seq![
                Instr::PlaceNum(n),
                Instr::Halt,
            ]);
        }
        let mut i: usize = 0;
        while i < len
            invariant
                len == rules@.len(),
                i <= len,
                rules_wf(rules@),
                acc@.0 == seq![Instr::Skip] + word_instrs(
                    matched_words(rules@.subrange(0, i as int), n),
                ),
                acc@.1 == halt_run(matched_words(rules@.subrange(0, i as int), n).len()) + seq![
                    Instr::PlaceNum(n),
                    Instr::Halt,
                ],
            decreases len - i,
        {
            let rule = &rules[i];
            if satisfy(&rule.0, n) {
                let word = rule.1.clone();
                acc = acc.combine(ProgramWithHole::new(Program::place_string(word), Program::halt()));
            }
            proof {
                let before = rules@.subrange(0, i as int);
                let upto = rules@.subrange(0, i as int + 1);
                assert(upto.drop_last() =~= before);
                assert(upto.last() == rules@[i as int]);
                if spec_satisfy(rules@[i as int].0, n) {
                    assert(matched_words(upto, n) =~= matched_words(before, n) + seq![
                        rules@[i as int].1@,
                    ]);
                    assert(word_instrs(matched_words(upto, n)) =~= word_instrs(
                        matched_words(before, n),
                    ) + seq![Instr::PlaceString(rules@[i as int].1@)]);
                    assert((seq![Instr::Skip] + word_instrs(matched_words(before, n))) + seq![
                        Instr::PlaceString(rules@[i as int].1@),
                    ] =~= seq![Instr::Skip] + word_instrs(matched_words(upto, n)));
                    assert(halt_run(matched_words(upto, n).len()) =~= seq![Instr::Halt] + halt_run(
                        matched_words(before, n).len(),
                    ));
                    assert(seq![Instr::Halt] + (halt_run(matched_words(before, n).len()) + seq![
                        Instr::PlaceNum(n),
                        Instr::Halt,
                    ]) =~= halt_run(matched_words(upto, n).len()) + seq![
                        Instr::PlaceNum(n),
                        Instr::Halt,
                    ]);
                } else {
                    assert(matched_words(upto, n) =~= matched_words(before, n));
                }
            }
            i = i + 1;
        }
        proof {
            assert(rules@.subrange(0, len as int) =~= rules@);
            assert(acc@.0 + acc@.1 =~= gen_program(rules@, n));
        }
        acc.close()
    }
}

} // verus!
