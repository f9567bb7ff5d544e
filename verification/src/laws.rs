use vstd::prelude::*;

use crate::compile::gen_program;
use crate::compile::halt_run;
use crate::compile::matched_words;
use crate::compile::word_instrs;
use crate::hole::spec_combine;
use crate::instr::decimal;
use crate::instr::has_halt;
use crate::instr::render;
use crate::instr::Instr;
use crate::rules::spec_satisfy;
use crate::rules::Rule;

verus! {

/// Concatenation of instruction sequences is associative over instruction
/// identity: any grouping of `concat` yields the same program.
pub proof fn lemma_concat_associative(a: Seq<Instr>, b: Seq<Instr>, c: Seq<Instr>)
    ensures
        (a + b) + c == a + (b + c),
{
    assert((a + b) + c =~= a + (b + c));
}

/// `combine` is associative over instruction identity: folding holed programs
/// in any grouping yields the same prefix and the same suffix, hence the same
/// closed program.
pub proof fn lemma_combine_associative(
    a: (Seq<Instr>, Seq<Instr>),
    b: (Seq<Instr>, Seq<Instr>),
    c: (Seq<Instr>, Seq<Instr>),
)
    ensures
        spec_combine(spec_combine(a, b), c) == spec_combine(a, spec_combine(b, c)),
{
    assert(spec_combine(spec_combine(a, b), c).0 =~= spec_combine(a, spec_combine(b, c)).0);
    assert(spec_combine(spec_combine(a, b), c).1 =~= spec_combine(a, spec_combine(b, c)).1);
}

/// Rendering is deterministic: the text of a program is a function of its
/// instructions alone, so rendering the same immutable program twice yields
/// the same text.
pub proof fn lemma_render_deterministic(p: Seq<Instr>, first: Seq<char>, second: Seq<char>)
    requires
        first == render(p),
        second == render(p),
    ensures
        first == second,
{
}

/// Playback stops at the first `Halt`: appending further instructions after a
/// halting program does not change what it renders.
pub proof fn lemma_halt_stops(p: Seq<Instr>, extra: Seq<Instr>)
    requires
        has_halt(p),
    ensures
        render(p + extra) == render(p),
    decreases p.len(),
{
    let w = choose|w: int| 0 <= w < p.len() && p[w] == Instr::Halt;
    assert((p + extra)[0] == p[0]);
    if p[0] == Instr::Halt {
    } else {
        assert(p.drop_first()[w - 1] == Instr::Halt);
        assert(has_halt(p.drop_first()));
        assert((p + extra).drop_first() =~= p.drop_first() + extra);
        lemma_halt_stops(p.drop_first(), extra);
    }
}

/// With a halt directly after them, the fragment instructions render to
/// exactly the fragments in order; nothing past the halt appears.
proof fn lemma_render_words(words: Seq<Seq<char>>, rest: Seq<Instr>)
    requires
        rest.len() > 0,
        rest[0] == Instr::Halt,
    ensures
        render(word_instrs(words) + rest) == words.flatten(),
    decreases words.len(),
{
    if words.len() == 0 {
        assert(word_instrs(words) + rest =~= rest);
    } else {
        let p = word_instrs(words) + rest;
        assert(p[0] == Instr::PlaceString(words[0]));
        assert(p.drop_first() =~= word_instrs(words.drop_first()) + rest);
        lemma_render_words(words.drop_first(), rest);
        assert(render(p) == words[0] + words.drop_first().flatten());
    }
}

/// What a compiled program renders: the matched fragments, concatenated in
/// rule order, or the decimal form of `n` when no rule matched.
pub open spec fn rendered_output(rules: Seq<Rule>, n: u32) -> Seq<char> {
    let words = matched_words(rules, n);
    if words.len() == 0 {
        decimal(n as nat)
    } else {
        words.flatten()
    }
}

/// The program built by `Program::new` renders to `rendered_output`: every
/// matched fragment in rule order, with the numeric fallback appearing
/// exactly when no rule matched.
pub proof fn lemma_generate_renders(rules: Seq<Rule>, n: u32)
    ensures
        render(gen_program(rules, n)) == rendered_output(rules, n),
{
    let words = matched_words(rules, n);
    let tail = seq![Instr::PlaceNum(n), Instr::Halt];
    let p = gen_program(rules, n);
    assert(p[0] == Instr::Skip);
    assert(p.len() > 0);
    assert(render(p) == render(p.drop_first()));
    if words.len() == 0 {
        assert(p.drop_first() =~= tail);
        assert(tail[0] == Instr::PlaceNum(n));
        assert(tail.drop_first() =~= seq![Instr::Halt]);
        assert(render(seq![Instr::Halt]) == Seq::<char>::empty());
        assert(render(tail) == decimal(n as nat) + Seq::<char>::empty());
        assert(decimal(n as nat) + Seq::<char>::empty() =~= decimal(n as nat));
    } else {
        let rest = halt_run(words.len()) + tail;
        assert(rest[0] == Instr::Halt);
        assert(p.drop_first() =~= word_instrs(words) + rest);
        lemma_render_words(words, rest);
        assert(render(p) == words.flatten());
    }
}

/// No satisfied condition, no matched fragment.
proof fn lemma_no_match_no_words(rules: Seq<Rule>, n: u32)
    requires
        forall|i: int| 0 <= i < rules.len() ==> !spec_satisfy((#[trigger] rules[i]).0, n),
    ensures
        matched_words(rules, n).len() == 0,
    decreases rules.len(),
{
    if rules.len() > 0 {
        assert forall|i: int|
            0 <= i < rules.drop_last().len() implies !spec_satisfy(
            (#[trigger] rules.drop_last()[i]).0,
            n,
        ) by {
            assert(rules.drop_last()[i] == rules[i]);
        }
        lemma_no_match_no_words(rules.drop_last(), n);
        assert(rules.last() == rules[rules.len() - 1]);
    }
}

/// At least one satisfied condition, at least one matched fragment.
proof fn lemma_match_gives_word(rules: Seq<Rule>, n: u32)
    requires
        exists|i: int| 0 <= i < rules.len() && spec_satisfy((#[trigger] rules[i]).0, n),
    ensures
        matched_words(rules, n).len() > 0,
    decreases rules.len(),
{
    let w = choose|w: int| 0 <= w < rules.len() && spec_satisfy((#[trigger] rules[w]).0, n);
    assert(rules.last() == rules[rules.len() - 1]);
    if w < rules.len() - 1 {
        assert(rules.drop_last()[w] == rules[w]);
        lemma_match_gives_word(rules.drop_last(), n);
    }
}

/// When no rule's condition is satisfied by `n`, the compiled program renders
/// exactly the decimal string of `n`.
pub proof fn lemma_generate_no_match(rules: Seq<Rule>, n: u32)
    requires
        forall|i: int| 0 <= i < rules.len() ==> !spec_satisfy((#[trigger] rules[i]).0, n),
    ensures
        render(gen_program(rules, n)) == decimal(n as nat),
{
    lemma_no_match_no_words(rules, n);
    lemma_generate_renders(rules, n);
}

/// When at least one rule's condition is satisfied by `n`, the compiled
/// program renders exactly the concatenation, in original rule order, of the
/// satisfied fragments; the numeric fallback never appears.
pub proof fn lemma_generate_matches(rules: Seq<Rule>, n: u32)
    requires
        exists|i: int| 0 <= i < rules.len() && spec_satisfy((#[trigger] rules[i]).0, n),
    ensures
        render(gen_program(rules, n)) == matched_words(rules, n).flatten(),
{
    lemma_match_gives_word(rules, n);
    lemma_generate_renders(rules, n);
}

} // verus!
