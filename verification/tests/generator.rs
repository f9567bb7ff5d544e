use fizzbuzz::hole::ProgramWithHole;
use fizzbuzz::program::num_string;
use fizzbuzz::program::Program;
use fizzbuzz::satisfy;
use fizzbuzz::Condition;
use fizzbuzz::Rule;

fn standard_rules() -> Vec<Rule> {
    vec![(3, "Fizz"), (5, "Buzz"), (7, "Hizz"), (11, "Howl")]
        .into_iter()
        .map(|(k, word)| Rule(Condition::HasAsFactor(k), word.to_string()))
        .collect()
}

#[test]
fn satisfy_decides_divisibility() {
    assert!(satisfy(&Condition::HasAsFactor(3), 0));
    assert!(satisfy(&Condition::HasAsFactor(3), 9));
    assert!(!satisfy(&Condition::HasAsFactor(3), 10));
    assert!(satisfy(&Condition::HasAsFactor(1), 17));
}

#[test]
fn decimal_rendering_exact() {
    assert_eq!(num_string(0), "0");
    assert_eq!(num_string(7), "7");
    assert_eq!(num_string(10), "10");
    assert_eq!(num_string(105), "105");
    assert_eq!(num_string(4294967295), "4294967295");
}

#[test]
fn renders_number_when_no_rule_matches() {
    let rules = standard_rules();
    assert_eq!(Program::new(&rules, 1).string(), "1");
    assert_eq!(Program::new(&rules, 2).string(), "2");
    assert_eq!(Program::new(&rules, 13).string(), "13");
}

#[test]
fn renders_number_with_empty_rule_list() {
    let rules: Vec<Rule> = Vec::new();
    assert_eq!(Program::new(&rules, 42).string(), "42");
}

#[test]
fn scenario_single_match() {
    let rules = standard_rules();
    assert_eq!(Program::new(&rules, 3).string(), "Fizz");
    assert_eq!(Program::new(&rules, 5).string(), "Buzz");
    assert_eq!(Program::new(&rules, 7).string(), "Hizz");
    assert_eq!(Program::new(&rules, 11).string(), "Howl");
}

#[test]
fn scenario_multiple_matches() {
    let rules = standard_rules();
    assert_eq!(Program::new(&rules, 15).string(), "FizzBuzz");
    assert_eq!(Program::new(&rules, 105).string(), "FizzBuzzHizz");
    // 1155 is the first integer matching all four rules.
    assert_eq!(Program::new(&rules, 1155).string(), "FizzBuzzHizzHowl");
}

#[test]
fn matched_fragments_keep_rule_order() {
    let rules = standard_rules();
    // 33 matches the first and last rules only; output follows rule order.
    assert_eq!(Program::new(&rules, 33).string(), "FizzHowl");
}

#[test]
fn fallback_never_appears_when_a_rule_matches() {
    let rules = standard_rules();
    let text = Program::new(&rules, 3).string();
    assert!(!text.contains('3'));
    assert_eq!(text, "Fizz");
}

#[test]
fn rules_with_equal_factors_both_contribute() {
    let rules = vec![
        Rule(Condition::HasAsFactor(3), "A".to_string()),
        Rule(Condition::HasAsFactor(3), "B".to_string()),
    ];
    assert_eq!(Program::new(&rules, 6).string(), "AB");
}

#[test]
fn concat_is_associative_over_instruction_identity() {
    let a = || Program::place_string("a".to_string());
    let b = || Program::place_num(2);
    let c = || Program::halt();
    assert_eq!(a().concat(b()).concat(c()), a().concat(b().concat(c())));
}

#[test]
fn combine_grouping_yields_identical_closed_program() {
    let a = || ProgramWithHole::new(Program::place_string("a".to_string()), Program::halt());
    let b = || ProgramWithHole::new(Program::place_string("b".to_string()), Program::halt());
    let c = || ProgramWithHole::new(Program::place_string("c".to_string()), Program::halt());
    let left_fold = a().combine(b()).combine(c()).close();
    let right_fold = a().combine(b().combine(c())).close();
    assert_eq!(left_fold, right_fold);
}

#[test]
fn close_concatenates_prefix_and_suffix() {
    let closed = ProgramWithHole::new(Program::place_string("x".to_string()), Program::place_num(1))
        .close();
    let direct = Program::place_string("x".to_string()).concat(Program::place_num(1));
    assert_eq!(closed, direct);
    assert_eq!(direct.string(), "x1");
}

#[test]
fn render_to_string_is_idempotent() {
    let rules = standard_rules();
    let program = Program::new(&rules, 15);
    let first = program.string();
    let second = program.string();
    assert_eq!(first, second);
    assert_eq!(first, "FizzBuzz");
}

#[test]
fn playback_stops_at_first_halt() {
    let after_halt = Program::halt().concat(Program::place_string("unreachable".to_string()));
    assert_eq!(after_halt.string(), "");

    let appended = Program::place_string("a".to_string())
        .concat(Program::halt())
        .concat(Program::place_string("b".to_string()))
        .concat(Program::place_num(9));
    assert_eq!(appended.string(), "a");
}

#[test]
fn skip_contributes_nothing() {
    let program = Program::skip()
        .concat(Program::place_string("x".to_string()))
        .concat(Program::halt());
    assert_eq!(program.string(), "x");
}

#[test]
fn program_without_halt_renders_everything() {
    let program = Program::place_num(3).concat(Program::place_string("x".to_string()));
    assert_eq!(program.string(), "3x");
}
