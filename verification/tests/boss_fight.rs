use trawnik::boss::{
    hp_pip_lit, question, round_pads, round_time_limit_ms, setup_boss_fight, shuffled_deck, BossBattle, BossInput,
    BossStep, RoundOutcome, QUESTION_COUNT,
};
use trawnik::state::{GameResult, GameState};

fn idle() -> BossInput {
    BossInput { start_pressed: false, pad: None, timed_out: false }
}

fn pad(correct: bool) -> BossInput {
    BossInput { start_pressed: false, pad: Some(correct), timed_out: false }
}

fn timeout() -> BossInput {
    BossInput { start_pressed: false, pad: None, timed_out: true }
}

fn started(battle: &mut BossBattle, result: &mut GameResult) -> (usize, bool, u32) {
    let before = battle.remaining_questions().clone();
    match battle.boss_fight(result, idle()) {
        BossStep::RoundStarted { question, correct_on_left, time_limit_ms } => {
            assert_eq!(Some(&question), before.last());
            assert_eq!(battle.remaining_questions()[..], before[..before.len() - 1]);
            assert!(battle.is_awaiting());
            (question, correct_on_left, time_limit_ms)
        }
        other => panic!("expected a new round, got {:?}", other),
    }
}

fn sorted(mut v: Vec<usize>) -> Vec<usize> {
    v.sort();
    v
}

#[test]
fn deck_holds_every_question_once() {
    for _ in 0..20 {
        assert_eq!(sorted(shuffled_deck()), (0..QUESTION_COUNT).collect::<Vec<_>>());
    }
}

#[test]
fn deck_is_actually_shuffled() {
    let ordered: Vec<usize> = (0..QUESTION_COUNT).collect();
    let shuffled = (0..10).filter(|_| shuffled_deck() != ordered).count();
    assert!(shuffled > 0);
}

#[test]
fn setup_starts_with_rules_and_full_lives() {
    let battle = setup_boss_fight();
    assert_eq!(battle.boss_hp(), 3);
    assert_eq!(battle.player_hp(), 3);
    assert!(battle.is_intro());
    assert!(!battle.is_awaiting());
    assert_eq!(battle.time_limit_ms(), 9000);
    assert_eq!(sorted(battle.remaining_questions().clone()), (0..8).collect::<Vec<_>>());
}

#[test]
fn intro_waits_for_enter_or_space() {
    let mut battle = setup_boss_fight();
    let mut result = GameResult::default();
    assert_eq!(battle.boss_fight(&mut result, idle()), BossStep::Waiting);
    assert!(battle.is_intro());
    let start = BossInput { start_pressed: true, pad: None, timed_out: false };
    assert_eq!(battle.boss_fight(&mut result, start), BossStep::IntroDismissed);
    assert!(!battle.is_intro());
    assert!(!battle.is_awaiting());
}

#[test]
fn round_waits_for_an_answer() {
    let mut battle = setup_boss_fight();
    let mut result = GameResult::default();
    battle.boss_fight(&mut result, BossInput { start_pressed: true, pad: None, timed_out: false });
    let (_, _, limit) = started(&mut battle, &mut result);
    assert_eq!(limit, 9000);
    assert_eq!(battle.boss_fight(&mut result, idle()), BossStep::Waiting);
    assert!(battle.is_awaiting());
    assert_eq!((battle.boss_hp(), battle.player_hp()), (3, 3));
}

#[test]
fn three_correct_answers_beat_the_dean() {
    let mut battle = setup_boss_fight();
    let mut result = GameResult::default();
    battle.boss_fight(&mut result, BossInput { start_pressed: true, pad: None, timed_out: false });
    let mut asked = Vec::new();
    let expected_limits = [9000, 8500, 8000];
    for (round, limit) in expected_limits.iter().enumerate() {
        let (q, _, l) = started(&mut battle, &mut result);
        assert_eq!(l, *limit);
        assert!(!asked.contains(&q));
        asked.push(q);
        let step = battle.boss_fight(&mut result, pad(true));
        if round < 2 {
            assert_eq!(step, BossStep::RoundResolved { outcome: RoundOutcome::Correct });
            assert_eq!(step.next_state(), None);
            assert!(!battle.is_awaiting());
        } else {
            assert_eq!(step, BossStep::BattleOver { won: true });
            assert_eq!(step.next_state(), Some(GameState::GameOver));
        }
    }
    assert_eq!((battle.boss_hp(), battle.player_hp()), (0, 3));
    assert!(result.won);
    assert_eq!(result.title, "ZALICZONE!");
    assert_eq!(result.subtitle, "Pokonales Dziekana Gajeckiego na egzaminie z informatyki!");
}

#[test]
fn wrong_answers_and_timeouts_fail_the_exam() {
    let mut battle = setup_boss_fight();
    let mut result = GameResult::default();
    battle.boss_fight(&mut result, BossInput { start_pressed: true, pad: None, timed_out: false });
    started(&mut battle, &mut result);
    assert_eq!(battle.boss_fight(&mut result, pad(false)), BossStep::RoundResolved { outcome: RoundOutcome::Wrong });
    started(&mut battle, &mut result);
    assert_eq!(battle.boss_fight(&mut result, timeout()), BossStep::RoundResolved { outcome: RoundOutcome::TimedOut });
    let (_, _, limit) = started(&mut battle, &mut result);
    assert_eq!(limit, 9000);
    assert_eq!(battle.boss_fight(&mut result, timeout()), BossStep::BattleOver { won: false });
    assert_eq!((battle.boss_hp(), battle.player_hp()), (3, 0));
    assert!(!result.won);
    assert_eq!(result.title, "EGZAMIN OBLANY!");
    assert_eq!(result.subtitle, "Dziekan Gajecki odeslal cie na poprawke...");
}

#[test]
fn a_pad_beats_the_timer() {
    let mut battle = setup_boss_fight();
    let mut result = GameResult::default();
    battle.boss_fight(&mut result, BossInput { start_pressed: true, pad: None, timed_out: false });
    started(&mut battle, &mut result);
    let both = BossInput { start_pressed: false, pad: Some(true), timed_out: true };
    assert_eq!(battle.boss_fight(&mut result, both), BossStep::RoundResolved { outcome: RoundOutcome::Correct });
}

#[test]
fn battle_is_decided_within_five_rounds() {
    let mut battle = setup_boss_fight();
    let mut result = GameResult::default();
    battle.boss_fight(&mut result, BossInput { start_pressed: true, pad: None, timed_out: false });
    let answers = [true, false, true, false, true];
    let mut asked = Vec::new();
    for (i, correct) in answers.iter().enumerate() {
        let (q, _, _) = started(&mut battle, &mut result);
        assert!(!asked.contains(&q));
        asked.push(q);
        let step = battle.boss_fight(&mut result, pad(*correct));
        assert_eq!(matches!(step, BossStep::BattleOver { .. }), i == 4);
    }
    assert_eq!((battle.boss_hp(), battle.player_hp()), (0, 1));
    assert!(result.won);
}

#[test]
fn correct_pad_lands_on_both_sides() {
    let mut lefts = 0;
    let mut rights = 0;
    for _ in 0..100 {
        let mut battle = setup_boss_fight();
        let mut result = GameResult::default();
        battle.boss_fight(&mut result, BossInput { start_pressed: true, pad: None, timed_out: false });
        let (_, left, _) = started(&mut battle, &mut result);
        if left { lefts += 1 } else { rights += 1 }
    }
    assert!(lefts > 0 && rights > 0);
}

#[test]
fn start_and_resolve_round_directly() {
    let mut battle = setup_boss_fight();
    let mut result = GameResult::default();
    battle.boss_fight(&mut result, BossInput { start_pressed: true, pad: None, timed_out: false });
    let last = *battle.remaining_questions().last().unwrap();
    assert_eq!(
        battle.start_round(false),
        BossStep::RoundStarted { question: last, correct_on_left: false, time_limit_ms: 9000 }
    );
    assert_eq!(battle.resolve_round(&mut result, None, false), BossStep::Waiting);
    assert_eq!(battle.resolve_round(&mut result, Some(false), false), BossStep::RoundResolved { outcome: RoundOutcome::Wrong });
    assert_eq!(battle.player_hp(), 2);
}

#[test]
fn time_limit_shrinks_as_the_dean_weakens() {
    assert_eq!(round_time_limit_ms(3), 9000);
    assert_eq!(round_time_limit_ms(2), 8500);
    assert_eq!(round_time_limit_ms(1), 8000);
    assert_eq!(round_time_limit_ms(0), 7500);
    assert_eq!(round_time_limit_ms(-3), 6000);
    assert_eq!(round_time_limit_ms(-100), 6000);
}

#[test]
fn questions_and_pads() {
    assert_eq!(question(0), ("1 + 1 w systemie binarnym to:", "10", "2"));
    assert_eq!(question(7), ("Operator AND w logice to:", "&&", "||"));
    let (l, r) = round_pads(1, true);
    assert_eq!((l.label, l.correct, r.label, r.correct), ("RUST", true, "PHP", false));
    let (l, r) = round_pads(5, false);
    assert_eq!((l.label, l.correct, r.label, r.correct), ("25", false, "80", true));
}

#[test]
fn hp_pips_light_below_hp() {
    assert!(hp_pip_lit(0, 1));
    assert!(!hp_pip_lit(1, 1));
    assert!(hp_pip_lit(2, 3));
    assert!(!hp_pip_lit(0, 0));
}
