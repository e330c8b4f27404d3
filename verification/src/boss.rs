//! The boss fight: a quiz against the dean. Each round asks a question and
//! offers two answer pads; standing on the right one hurts the dean, the
//! wrong one or running out of time hurts the player. Both start with three
//! lives.

use vstd::prelude::*;
use crate::rng;
use crate::state::{GameResult, GameState, allowed_transition};

verus! {

broadcast use {vstd::seq_lib::group_to_multiset_ensures, vstd::multiset::group_multiset_axioms};

/// Number of questions in the quiz.
pub const QUESTION_COUNT: usize = 8;

/// Lives of the dean and of the player when the fight starts.
pub const STARTING_HP: i32 = 3;

/// Time to answer while the dean is unhurt, in milliseconds.
pub const BASE_TIME_MS: u32 = 9000;

/// The answer time shrinks by this much for each life the dean has lost.
pub const TIME_STEP_MS: u32 = 500;

/// The answer time never drops below this.
pub const MIN_TIME_MS: u32 = 6000;

/// The quiz: question, correct answer, wrong answer.
pub open spec fn question_spec(index: int) -> (Seq<char>, Seq<char>, Seq<char>) {
    if index == 0 {
        ("1 + 1 w systemie binarnym to:"@, "10"@, "2"@)
    } else if index == 1 {
        ("Jezyk z borrow-checkerem to:"@, "RUST"@, "PHP"@)
    } else if index == 2 {
        ("0xFF w systemie dziesietnym to:"@, "255"@, "127"@)
    } else if index == 3 {
        ("Struktura danych typu LIFO to:"@, "STOS"@, "KOLEJKA"@)
    } else if index == 4 {
        ("Zlozonosc wyszukiwania binarnego:"@, "LOG N"@, "N^2"@)
    } else if index == 5 {
        ("Protokol HTTP dziala na porcie:"@, "80"@, "25"@)
    } else if index == 6 {
        ("8 bitow to:"@, "BAJT"@, "SLOWO"@)
    } else {
        ("Operator AND w logice to:"@, "&&"@, "||"@)
    }
}

/// Question `index` of the quiz: its text, the correct and the wrong answer.
pub fn question(index: usize) -> (q: (&'static str, &'static str, &'static str))
    requires
        index < QUESTION_COUNT,
    ensures
        (q.0@, q.1@, q.2@) == question_spec(index as int),
        index == 0 ==> q.0@ == "1 + 1 w systemie binarnym to:"@ && q.1@ == "10"@ && q.2@ == "2"@,
        index == 1 ==> q.0@ == "Jezyk z borrow-checkerem to:"@ && q.1@ == "RUST"@ && q.2@ == "PHP"@,
        index == 2 ==> q.0@ == "0xFF w systemie dziesietnym to:"@ && q.1@ == "255"@ && q.2@ == "127"@,
        index == 3 ==> q.0@ == "Struktura danych typu LIFO to:"@ && q.1@ == "STOS"@ && q.2@ == "KOLEJKA"@,
        index == 4 ==> q.0@ == "Zlozonosc wyszukiwania binarnego:"@ && q.1@ == "LOG N"@ && q.2@ == "N^2"@,
        index == 5 ==> q.0@ == "Protokol HTTP dziala na porcie:"@ && q.1@ == "80"@ && q.2@ == "25"@,
        index == 6 ==> q.0@ == "8 bitow to:"@ && q.1@ == "BAJT"@ && q.2@ == "SLOWO"@,
        index == 7 ==> q.0@ == "Operator AND w logice to:"@ && q.1@ == "&&"@ && q.2@ == "||"@,
{
    if index == 0 {
        ("1 + 1 w systemie binarnym to:", "10", "2")
    } else if index == 1 {
        ("Jezyk z borrow-checkerem to:", "RUST", "PHP")
    } else if index == 2 {
        ("0xFF w systemie dziesietnym to:", "255", "127")
    } else if index == 3 {
        ("Struktura danych typu LIFO to:", "STOS", "KOLEJKA")
    } else if index == 4 {
        ("Zlozonosc wyszukiwania binarnego:", "LOG N", "N^2")
    } else if index == 5 {
        ("Protokol HTTP dziala na porcie:", "80", "25")
    } else if index == 6 {
        ("8 bitow to:", "BAJT", "SLOWO")
    } else {
        ("Operator AND w logice to:", "&&", "||")
    }
}

/// An answer pad: its label and whether it holds the correct answer.
#[derive(Debug, Clone, Copy, PartialEq, Eq)]
pub struct Pad {
    pub label: &'static str,
    pub correct: bool,
}

/// The two pads of a round of question `index`, left then right.
pub fn round_pads(index: usize, correct_on_left: bool) -> (pads: (Pad, Pad))
    requires
        index < QUESTION_COUNT,
    ensures
        pads.0.correct == correct_on_left,
        pads.1.correct == !correct_on_left,
        pads.0.label@ == (if correct_on_left { question_spec(index as int).1 } else { question_spec(index as int).2 }),
        pads.1.label@ == (if correct_on_left { question_spec(index as int).2 } else { question_spec(index as int).1 }),
        ({
            let correct = if correct_on_left { pads.0.label@ } else { pads.1.label@ };
            let wrong = if correct_on_left { pads.1.label@ } else { pads.0.label@ };
            &&& index == 0 ==> correct == "10"@ && wrong == "2"@
            &&& index == 1 ==> correct == "RUST"@ && wrong == "PHP"@
            &&& index == 2 ==> correct == "255"@ && wrong == "127"@
            &&& index == 3 ==> correct == "STOS"@ && wrong == "KOLEJKA"@
            &&& index == 4 ==> correct == "LOG N"@ && wrong == "N^2"@
            &&& index == 5 ==> correct == "80"@ && wrong == "25"@
            &&& index == 6 ==> correct == "BAJT"@ && wrong == "SLOWO"@
            &&& index == 7 ==> correct == "&&"@ && wrong == "||"@
        }),
{
    let (_, correct, wrong) = question(index);
    if correct_on_left {
        (Pad { label: correct, correct: true }, Pad { label: wrong, correct: false })
    } else {
        (Pad { label: wrong, correct: false }, Pad { label: correct, correct: true })
    }
}

/// Questions drawn from one deck never repeat: the `i`-th and `j`-th draws
/// (each round asks the deck's last question) are different questions, and
/// a full deck asks all eight before it runs out.
pub proof fn lemma_deck_draws_distinct(deck: Seq<usize>, i: int, j: int)
    requires
        valid_deck(deck),
        0 <= i < j < deck.len(),
    ensures
        deck[deck.len() - 1 - i] != deck[deck.len() - 1 - j],
        is_full_deck(deck) ==> deck.len() == QUESTION_COUNT,
{
    if is_full_deck(deck) {
        lemma_full_deck(deck);
    }
}

/// The indices of all questions, in order.
pub open spec fn ordered_deck() -> Seq<usize> {
    Seq::new(QUESTION_COUNT as nat, |i: int| i as usize)
}

/// A deck that holds every question exactly once, in some order.
pub open spec fn is_full_deck(deck: Seq<usize>) -> bool {
    deck.to_multiset() == ordered_deck().to_multiset()
}

/// Questions not yet asked: no question twice, and each one exists.
pub open spec fn valid_deck(deck: Seq<usize>) -> bool {
    &&& deck.no_duplicates()
    &&& forall|i: int| 0 <= i < deck.len() ==> (#[trigger] deck[i]) < QUESTION_COUNT
}

/// A full deck has every question once: eight distinct questions, all of
/// them from the quiz, each of them in it.
pub proof fn lemma_full_deck(deck: Seq<usize>)
    requires
        is_full_deck(deck),
    ensures
        valid_deck(deck),
        deck.len() == QUESTION_COUNT,
        forall|q: usize| q < QUESTION_COUNT ==> deck.contains(q),
{
    let ordered = ordered_deck();
    assert(ordered.no_duplicates());
    ordered.lemma_multiset_has_no_duplicates();
    deck.lemma_multiset_has_no_duplicates_conv();
    assert forall|i: int| 0 <= i < deck.len() implies (#[trigger] deck[i]) < QUESTION_COUNT by {
        assert(deck.contains(deck[i]));
        assert(ordered.to_multiset().count(deck[i]) > 0);
        assert(ordered.contains(deck[i]));
    }
    assert forall|q: usize| q < QUESTION_COUNT implies deck.contains(q) by {
        assert(ordered[q as int] == q);
        assert(ordered.contains(q));
        assert(ordered.to_multiset().count(q) > 0);
        assert(deck.to_multiset().count(q) > 0);
    }
    assert(deck.to_multiset().len() == ordered.to_multiset().len());
}

/// A shuffled deck of all question indices, each exactly once.
pub fn shuffled_deck() -> (deck: Vec<usize>)
    ensures
        is_full_deck(deck@),
{
    let mut deck: Vec<usize> = Vec::new();
    let mut i: usize = 0;
    while i < QUESTION_COUNT
        invariant
            i <= QUESTION_COUNT,
            deck@ == ordered_deck().take(i as int),
        decreases QUESTION_COUNT - i,
    {
        deck.push(i);
        i = i + 1;
        assert(deck@ =~= ordered_deck().take(i as int));
    }
    assert(deck@ =~= ordered_deck());
    let mut rng = rng::thread_rng();
    rng::shuffle(&mut deck, &mut rng);
    deck
}

/// Answer time of a round, in milliseconds: nine seconds, half a second less
/// for each life the dean has lost, never under six seconds.
pub open spec fn round_time_limit_spec(boss_hp: int) -> int {
    let t = BASE_TIME_MS - (STARTING_HP - boss_hp) * TIME_STEP_MS;
    if t < MIN_TIME_MS {
        MIN_TIME_MS as int
    } else {
        t
    }
}

/// Answer time of a round while the dean has `boss_hp` lives (at most three).
pub fn round_time_limit_ms(boss_hp: i32) -> (ms: u32)
    requires
        boss_hp <= STARTING_HP,
    ensures
        ms == round_time_limit_spec(boss_hp as int),
        MIN_TIME_MS <= ms <= BASE_TIME_MS,
{
    let lost: i64 = STARTING_HP as i64 - boss_hp as i64;
    if lost >= 6 {
        MIN_TIME_MS
    } else {
        assert(0 <= lost < 6 ==> lost * 500 <= 2500) by (nonlinear_arith);
        (BASE_TIME_MS as i64 - lost * TIME_STEP_MS as i64) as u32
    }
}

/// The fewer lives the dean has, the less time a round gives.
pub proof fn lemma_time_limit_shrinks(weaker: int, stronger: int)
    requires
        weaker <= stronger <= STARTING_HP,
    ensures
        MIN_TIME_MS <= round_time_limit_spec(weaker) <= round_time_limit_spec(stronger) <= BASE_TIME_MS,
{
}

/// Whether HP pip `index` is lit while its owner has `hp` lives.
pub fn hp_pip_lit(index: i32, hp: i32) -> (lit: bool)
    ensures
        lit == (index < hp),
{
    index < hp
}

/// The plain-value model of a battle.
pub struct BattleView {
    pub boss_hp: int,
    pub player_hp: int,
    /// A question is on the board and the battle waits for an answer.
    pub awaiting: bool,
    /// The rules are still on screen.
    pub intro: bool,
    /// Questions not yet asked since the last shuffle; the next one is the last.
    pub remaining: Seq<usize>,
    /// Answer time of the current round.
    pub time_limit_ms: nat,
}

/// State of the quiz battle against the dean.
pub struct BossBattle {
    boss_hp: i32,
    player_hp: i32,
    awaiting: bool,
    intro: bool,
    remaining: Vec<usize>,
    time_limit_ms: u32,
}

impl View for BossBattle {
    type V = BattleView;

    closed spec fn view(&self) -> BattleView {
        BattleView {
            boss_hp: self.boss_hp as int,
            player_hp: self.player_hp as int,
            awaiting: self.awaiting,
            intro: self.intro,
            remaining: self.remaining@,
            time_limit_ms: self.time_limit_ms as nat,
        }
    }
}

/// The battle's invariant: each side has between none and three lives, the deck of
/// remaining questions without repeats, and a time limit the rules allow.
pub open spec fn battle_wf(b: BattleView) -> bool {
    &&& 0 <= b.boss_hp <= STARTING_HP
    &&& 0 <= b.player_hp <= STARTING_HP
    &&& valid_deck(b.remaining)
    &&& MIN_TIME_MS <= b.time_limit_ms <= BASE_TIME_MS
}

/// The battle is decided once either side has no lives left.
pub open spec fn battle_over(b: BattleView) -> bool {
    b.boss_hp <= 0 || b.player_hp <= 0
}

/// Rounds answered so far: each one costs exactly one side one life.
pub open spec fn answered_rounds(b: BattleView) -> int {
    (STARTING_HP - b.boss_hp) + (STARTING_HP - b.player_hp)
}

/// What the player did this frame.
#[derive(Debug, Clone, Copy, PartialEq, Eq, Structural)]
pub struct BossInput {
    /// Enter or Space was just pressed.
    pub start_pressed: bool,
    /// The pad the player stands on, if any: whether it holds the correct answer.
    pub pad: Option<bool>,
    /// The round's timer has run out.
    pub timed_out: bool,
}

/// How an answered round went.
#[derive(Debug, Clone, Copy, PartialEq, Eq, Structural)]
pub enum RoundOutcome {
    Correct,
    Wrong,
    TimedOut,
}

/// What the engine does after a step of the battle.
#[derive(Debug, Clone, Copy, PartialEq, Eq, Structural)]
pub enum BossStep {
    /// Nothing to do this frame.
    Waiting,
    /// Remove the rules overlay.
    IntroDismissed,
    /// Put the player back at the start, lay out the two pads (the correct
    /// answer on the left when `correct_on_left`), start a timer of
    /// `time_limit_ms` and show the question.
    RoundStarted { question: usize, correct_on_left: bool, time_limit_ms: u32 },
    /// Remove the pads; the next round starts on the next step.
    RoundResolved { outcome: RoundOutcome },
    /// Remove the pads; the game is over and the result has been recorded.
    BattleOver { won: bool },
}

/// The outcome of an answer: a pad, or the timer when no pad was chosen.
pub open spec fn outcome_of(pad: Option<bool>) -> RoundOutcome {
    match pad {
        Some(true) => RoundOutcome::Correct,
        Some(false) => RoundOutcome::Wrong,
        None => RoundOutcome::TimedOut,
    }
}

/// The questions a new round draws from: the remaining ones, or a fresh
/// deck once all have been asked.
pub open spec fn draw_source(remaining: Seq<usize>, fresh: Seq<usize>) -> Seq<usize> {
    if remaining.len() == 0 {
        fresh
    } else {
        remaining
    }
}

/// Whether `result` was left as `before`.
pub open spec fn result_kept(result: &GameResult, before: &GameResult) -> bool {
    &&& result.won == before.won
    &&& result.title@ == before.title@
    &&& result.subtitle@ == before.subtitle@
}

/// The effect of an answer (a pad, or the timer running out) on the round
/// on the board, from battle `b` and result `before` to battle `n`, step
/// `step` and result `after`.
pub open spec fn round_resolution(
    b: BattleView,
    pad: Option<bool>,
    timed_out: bool,
    n: BattleView,
    step: BossStep,
    before: &GameResult,
    after: &GameResult,
) -> bool {
    if pad is None && !timed_out {
        n == b && step == BossStep::Waiting && result_kept(after, before)
    } else {
        let outcome = outcome_of(pad);
        let boss_hp = if outcome == RoundOutcome::Correct { b.boss_hp - 1 } else { b.boss_hp };
        let player_hp = if outcome == RoundOutcome::Correct { b.player_hp } else { b.player_hp - 1 };
        &&& n.boss_hp == boss_hp
        &&& n.player_hp == player_hp
        &&& n.intro == b.intro
        &&& n.remaining == b.remaining
        &&& n.time_limit_ms == b.time_limit_ms
        &&& if boss_hp <= 0 {
            &&& step == BossStep::BattleOver { won: true }
            &&& n.awaiting
            &&& after.won
            &&& after.title@ == "ZALICZONE!"@
            &&& after.subtitle@ == "Pokonales Dziekana Gajeckiego na egzaminie z informatyki!"@
        } else if player_hp <= 0 {
            &&& step == BossStep::BattleOver { won: false }
            &&& n.awaiting
            &&& !after.won
            &&& after.title@ == "EGZAMIN OBLANY!"@
            &&& after.subtitle@ == "Dziekan Gajecki odeslal cie na poprawke..."@
        } else {
            &&& step == BossStep::RoundResolved { outcome }
            &&& !n.awaiting
            &&& result_kept(after, before)
        }
    }
}

/// A new round drawn from `source` (the remaining questions, refilled if
/// empty): the last question is asked and leaves the deck, the answer time
/// follows the dean's lives, and the correct answer goes left when `left`.
pub open spec fn round_start(b: BattleView, source: Seq<usize>, left: bool, n: BattleView, step: BossStep) -> bool {
    let q = source.last();
    &&& source.len() > 0
    &&& n.boss_hp == b.boss_hp
    &&& n.player_hp == b.player_hp
    &&& n.intro == b.intro
    &&& n.awaiting
    &&& n.remaining == source.drop_last()
    &&& n.time_limit_ms == round_time_limit_spec(b.boss_hp)
    &&& step == (BossStep::RoundStarted {
        question: q,
        correct_on_left: left,
        time_limit_ms: n.time_limit_ms as u32,
    })
    &&& q < QUESTION_COUNT
    &&& !n.remaining.contains(q)
}

/// Dismissing the rules (or keeping them up while no key is pressed).
pub open spec fn intro_step(b: BattleView, start_pressed: bool, n: BattleView, step: BossStep) -> bool {
    if start_pressed {
        n == BattleView { intro: false, ..b } && step == BossStep::IntroDismissed
    } else {
        n == b && step == BossStep::Waiting
    }
}

impl BossStep {
    /// The state the game moves to after this step: the game is over once
    /// the battle is decided.
    pub fn next_state(&self) -> (next: Option<GameState>)
        ensures
            next == (if self is BattleOver { Some(GameState::GameOver) } else { None }),
            next matches Some(s) ==> allowed_transition(GameState::BossFight, s),
    {
        match self {
            BossStep::BattleOver { .. } => Some(GameState::GameOver),
            _ => None,
        }
    }
}

/// Lives both sides start with, the rules on screen, a full shuffled deck and
/// the nine-second timer.
pub fn setup_boss_fight() -> (battle: BossBattle)
    ensures
        battle_wf(battle@),
        battle@.boss_hp == STARTING_HP,
        battle@.player_hp == STARTING_HP,
        battle@.intro,
        !battle@.awaiting,
        is_full_deck(battle@.remaining),
        battle@.time_limit_ms == BASE_TIME_MS,
{
    let remaining = shuffled_deck();
    proof {
        lemma_full_deck(remaining@);
    }
    BossBattle {
        boss_hp: STARTING_HP,
        player_hp: STARTING_HP,
        awaiting: false,
        intro: true,
        remaining,
        time_limit_ms: BASE_TIME_MS,
    }
}

/// While the battle is undecided each side still has a life, so at most
/// four rounds have been answered: the fifth answer decides it at the latest.
pub proof fn lemma_battle_decided_within_five_rounds(b: BattleView)
    requires
        battle_wf(b),
        !battle_over(b),
    ensures
        1 <= b.boss_hp <= STARTING_HP,
        1 <= b.player_hp <= STARTING_HP,
        0 <= answered_rounds(b) <= 4,
{
}

/// Every answer costs exactly one side one life, so it counts as one round.
pub proof fn lemma_answer_counts_one_round(
    b: BattleView,
    pad: Option<bool>,
    timed_out: bool,
    n: BattleView,
    step: BossStep,
    before: &GameResult,
    after: &GameResult,
)
    requires
        round_resolution(b, pad, timed_out, n, step, before, after),
        pad is Some || timed_out,
    ensures
        answered_rounds(n) == answered_rounds(b) + 1,
        n.boss_hp <= b.boss_hp,
        n.player_hp <= b.player_hp,
        step is BattleOver <==> battle_over(n),
        step == (BossStep::BattleOver { won: true }) <==> n.boss_hp <= 0,
{
}

/// Whether a step settled a round.
pub open spec fn answers_round(step: BossStep) -> bool {
    step is RoundResolved || step is BattleOver
}

/// What one frame of an undecided battle does, from `b` to `n` with `step`:
/// lives never grow and an answered round costs one of them; the battle is
/// decided exactly when a side is out of lives; a new round asks the last
/// remaining question, which leaves the deck.
pub open spec fn fight_call(b: BattleView, n: BattleView, step: BossStep) -> bool {
    &&& battle_wf(n)
    &&& n.boss_hp <= b.boss_hp
    &&& n.player_hp <= b.player_hp
    &&& answered_rounds(n) == answered_rounds(b) + (if answers_round(step) { 1int } else { 0int })
    &&& (step is BattleOver <==> battle_over(n))
    &&& match step {
        BossStep::RoundStarted { question, .. } => {
            &&& !b.awaiting
            &&& n.awaiting
            &&& b.remaining.len() > 0 ==> question == b.remaining.last() && n.remaining == b.remaining.drop_last()
            &&& !n.remaining.contains(question)
            &&& question < QUESTION_COUNT
        },
        BossStep::RoundResolved { .. } => b.awaiting && !n.awaiting && n.remaining == b.remaining,
        BossStep::BattleOver { .. } => n.remaining == b.remaining,
        _ => n.awaiting == b.awaiting && n.remaining == b.remaining,
    }
}

/// The questions a sequence of steps asked, in order.
pub open spec fn asked_questions(steps: Seq<BossStep>) -> Seq<usize>
    decreases steps.len(),
{
    if steps.len() == 0 {
        Seq::empty()
    } else {
        let before = asked_questions(steps.drop_last());
        match steps.last() {
            BossStep::RoundStarted { question, .. } => before.push(question),
            _ => before,
        }
    }
}

/// How many rounds a sequence of steps settled.
pub open spec fn answer_count(steps: Seq<BossStep>) -> int
    decreases steps.len(),
{
    if steps.len() == 0 {
        0
    } else {
        answer_count(steps.drop_last()) + (if answers_round(steps.last()) { 1int } else { 0int })
    }
}

/// A whole fight: from the battle as set up (three lives each, a full
/// deck), through the frames `steps`, each taken while the battle is
/// undecided (the game leaves the fight once it is decided). Lives stay
/// between none and three; the fight is decided only by the last step, if
/// at all, after at most five answered rounds; no question is asked twice.
pub proof fn lemma_fight_trace(trace: Seq<BattleView>, steps: Seq<BossStep>)
    requires
        trace.len() == steps.len() + 1,
        battle_wf(trace[0]),
        trace[0].boss_hp == STARTING_HP,
        trace[0].player_hp == STARTING_HP,
        !trace[0].awaiting,
        is_full_deck(trace[0].remaining),
        forall|i: int| 0 <= i < steps.len() ==> !battle_over(#[trigger] trace[i]),
        forall|i: int| 0 <= i < steps.len() ==> fight_call(#[trigger] trace[i], trace[i + 1], steps[i]),
    ensures
        forall|i: int| 0 <= i < trace.len() ==> battle_wf(#[trigger] trace[i]),
        forall|i: int| 0 <= i < steps.len() ==> ((#[trigger] steps[i]) is BattleOver ==> i == steps.len() - 1),
        answer_count(steps) == answered_rounds(trace.last()),
        0 <= answer_count(steps) <= 5,
        asked_questions(steps).no_duplicates(),
        forall|k: int| 0 <= k < asked_questions(steps).len() ==> #[trigger] asked_questions(steps)[k] < QUESTION_COUNT,
{
    lemma_fight_prefix(trace, steps);
    assert forall|i: int| 0 <= i < trace.len() implies battle_wf(#[trigger] trace[i]) by {
        if i > 0 {
            assert(fight_call(trace[i - 1], trace[i], steps[i - 1]));
        }
    }
    assert forall|i: int| 0 <= i < steps.len() && (#[trigger] steps[i]) is BattleOver implies i == steps.len() - 1 by {
        assert(fight_call(trace[i], trace[i + 1], steps[i]));
        if i + 1 < steps.len() {
            assert(!battle_over(trace[i + 1]));
        }
    }
}

/// The bookkeeping behind a fight: settled rounds match lost lives, and
/// while undecided, every asked question is out of the deck, the asked and
/// remaining questions make up the eight, and a round is on the board
/// exactly when one more question was asked than rounds settled.
proof fn lemma_fight_prefix(trace: Seq<BattleView>, steps: Seq<BossStep>)
    requires
        trace.len() == steps.len() + 1,
        battle_wf(trace[0]),
        trace[0].boss_hp == STARTING_HP,
        trace[0].player_hp == STARTING_HP,
        !trace[0].awaiting,
        is_full_deck(trace[0].remaining),
        forall|i: int| 0 <= i < steps.len() ==> !battle_over(#[trigger] trace[i]),
        forall|i: int| 0 <= i < steps.len() ==> fight_call(#[trigger] trace[i], trace[i + 1], steps[i]),
    ensures
        battle_wf(trace.last()),
        answer_count(steps) == answered_rounds(trace.last()),
        0 <= answer_count(steps) <= 5,
        asked_questions(steps).no_duplicates(),
        forall|k: int| 0 <= k < asked_questions(steps).len() ==> #[trigger] asked_questions(steps)[k] < QUESTION_COUNT,
        !battle_over(trace.last()) ==> {
            &&& asked_questions(steps).len() == answered_rounds(trace.last()) + (if trace.last().awaiting { 1int } else { 0int })
            &&& asked_questions(steps).len() + trace.last().remaining.len() == QUESTION_COUNT
            &&& forall|q: usize| asked_questions(steps).contains(q) ==> !trace.last().remaining.contains(q)
        },
    decreases steps.len(),
{
    if steps.len() == 0 {
        lemma_full_deck(trace[0].remaining);
        assert(trace.last() == trace[0]);
    } else {
        let k = steps.len() - 1;
        let tp = trace.drop_last();
        let sp = steps.drop_last();
        assert forall|i: int| 0 <= i < sp.len() implies !battle_over(#[trigger] tp[i]) by {
            assert(tp[i] == trace[i]);
        }
        assert forall|i: int| 0 <= i < sp.len() implies fight_call(#[trigger] tp[i], tp[i + 1], sp[i]) by {
            assert(tp[i] == trace[i] && tp[i + 1] == trace[i + 1] && sp[i] == steps[i]);
            assert(fight_call(trace[i], trace[i + 1], steps[i]));
        }
        assert(tp[0] == trace[0]);
        lemma_fight_prefix(tp, sp);
        let b = trace[k];
        let n = trace[k + 1];
        let step = steps[k];
        assert(tp.last() == b);
        assert(trace.last() == n);
        assert(steps.last() == step);
        assert(sp == steps.drop_last());
        assert(!battle_over(b));
        assert(fight_call(b, n, step));
        let asked = asked_questions(sp);
        match step {
            BossStep::RoundStarted { question, .. } => {
                assert(asked_questions(steps) == asked.push(question));
                assert(b.remaining.len() > 0);
                assert(question == b.remaining.last());
                assert(b.remaining.contains(question));
                assert(!asked.contains(question));
                assert forall|q: usize| asked_questions(steps).contains(q) implies !n.remaining.contains(q) by {
                    if q != question {
                        assert(asked.contains(q));
                        if n.remaining.contains(q) {
                            let j = choose|j: int| 0 <= j < n.remaining.len() && n.remaining[j] == q;
                            assert(b.remaining[j] == q);
                        }
                    }
                }
                assert forall|x: int, y: int| 0 <= x < y < asked_questions(steps).len() implies asked_questions(steps)[x]
                    != asked_questions(steps)[y] by {
                    if y == asked.len() {
                        assert(asked.contains(asked[x]));
                    }
                }
            },
            _ => {
                assert(asked_questions(steps) == asked);
            },
        }
    }
}

impl BossBattle {
    /// Lives the dean has left.
    pub fn boss_hp(&self) -> (hp: i32)
        ensures
            hp == self@.boss_hp,
    {
        self.boss_hp
    }

    /// Lives the player has left.
    pub fn player_hp(&self) -> (hp: i32)
        ensures
            hp == self@.player_hp,
    {
        self.player_hp
    }

    /// Whether a question is on the board.
    pub fn is_awaiting(&self) -> (b: bool)
        ensures
            b == self@.awaiting,
    {
        self.awaiting
    }

    /// Whether the rules are still on screen.
    pub fn is_intro(&self) -> (b: bool)
        ensures
            b == self@.intro,
    {
        self.intro
    }

    /// Answer time of the current round.
    pub fn time_limit_ms(&self) -> (ms: u32)
        ensures
            ms == self@.time_limit_ms,
    {
        self.time_limit_ms
    }

    /// Questions not yet asked since the last shuffle.
    pub fn remaining_questions(&self) -> (deck: &Vec<usize>)
        ensures
            deck@ == self@.remaining,
    {
        &self.remaining
    }

    /// Applies an answer to the round on the board. Decides nothing while
    /// no pad is chosen and time remains.
    pub fn resolve_round(&mut self, result: &mut GameResult, pad: Option<bool>, timed_out: bool) -> (step: BossStep)
        requires
            battle_wf(old(self)@),
            !battle_over(old(self)@),
            old(self)@.awaiting,
            !old(self)@.intro,
        ensures
            battle_wf(final(self)@),
            round_resolution(old(self)@, pad, timed_out, final(self)@, step, old(result), final(result)),
    {
        if pad.is_none() && !timed_out {
            return BossStep::Waiting;
        }
        let outcome = match pad {
            Some(true) => RoundOutcome::Correct,
            Some(false) => RoundOutcome::Wrong,
            None => RoundOutcome::TimedOut,
        };
        match outcome {
            RoundOutcome::Correct => {
                self.boss_hp = self.boss_hp - 1;
            },
            _ => {
                self.player_hp = self.player_hp - 1;
            },
        }
        if self.boss_hp <= 0 {
            result.set(true, "ZALICZONE!", "Pokonales Dziekana Gajeckiego na egzaminie z informatyki!");
            BossStep::BattleOver { won: true }
        } else if self.player_hp <= 0 {
            result.set(false, "EGZAMIN OBLANY!", "Dziekan Gajecki odeslal cie na poprawke...");
            BossStep::BattleOver { won: false }
        } else {
            self.awaiting = false;
            BossStep::RoundResolved { outcome }
        }
    }

    /// Starts a round: asks the last remaining question, lays out the pads
    /// with the correct answer on the left when `correct_on_left`, and sets
    /// the answer time from the dean's lives.
    pub fn start_round(&mut self, correct_on_left: bool) -> (step: BossStep)
        requires
            battle_wf(old(self)@),
            !old(self)@.intro,
            !old(self)@.awaiting,
            old(self)@.remaining.len() > 0,
        ensures
            battle_wf(final(self)@),
            round_start(old(self)@, old(self)@.remaining, correct_on_left, final(self)@, step),
    {
        let ghost source = self.remaining@;
        let question = self.remaining.pop().unwrap();
        proof {
            assert(source.drop_last() == self.remaining@);
            assert(source[source.len() - 1] == question);
            assert forall|i: int| 0 <= i < self.remaining@.len() implies self.remaining@[i] != question by {
                assert(self.remaining@[i] == source[i]);
            }
        }
        self.time_limit_ms = round_time_limit_ms(self.boss_hp);
        self.awaiting = true;
        BossStep::RoundStarted { question, correct_on_left, time_limit_ms: self.time_limit_ms }
    }

    /// One frame of the battle: dismisses the rules when Enter or Space is
    /// pressed; when no question is on the board, asks the next one (from a
    /// fresh shuffled deck once all have been asked) with the correct answer
    /// on a random side; otherwise settles the round once a pad is chosen
    /// or time is up, and records the result when the battle is decided.
    /// The fight runs only while it is undecided: once a side has no lives
    /// left the game leaves the boss fight.
    pub fn boss_fight(&mut self, result: &mut GameResult, input: BossInput) -> (step: BossStep)
        requires
            battle_wf(old(self)@),
            !battle_over(old(self)@),
        ensures
            battle_wf(final(self)@),
            final(self)@.boss_hp <= old(self)@.boss_hp,
            final(self)@.player_hp <= old(self)@.player_hp,
            fight_call(old(self)@, final(self)@, step),
            old(self)@.intro ==> intro_step(old(self)@, input.start_pressed, final(self)@, step)
                && result_kept(final(result), old(result)),
            !old(self)@.intro && !old(self)@.awaiting ==> (exists|fresh: Seq<usize>, left: bool|
                is_full_deck(fresh) && round_start(
                    old(self)@,
                    draw_source(old(self)@.remaining, fresh),
                    left,
                    final(self)@,
                    step,
                )) && result_kept(final(result), old(result)),
            !old(self)@.intro && old(self)@.awaiting ==> round_resolution(
                old(self)@,
                input.pad,
                input.timed_out,
                final(self)@,
                step,
                old(result),
                final(result),
            ),
    {
        if self.intro {
            if input.start_pressed {
                self.intro = false;
                return BossStep::IntroDismissed;
            }
            return BossStep::Waiting;
        }
        if !self.awaiting {
            let ghost before = self@;
            let ghost mut fresh: Seq<usize> = ordered_deck();
            if self.remaining.len() == 0 {
                self.remaining = shuffled_deck();
                proof {
                    fresh = self.remaining@;
                    lemma_full_deck(fresh);
                }
            }
            let mut rng = rng::thread_rng();
            let correct_on_left = rng::gen_ratio(&mut rng, 1, 2);
            let step = self.start_round(correct_on_left);
            proof {
                assert(is_full_deck(ordered_deck()));
                assert(is_full_deck(fresh));
                assert(round_start(before, draw_source(before.remaining, fresh), correct_on_left, self@, step));
            }
            return step;
        }
        self.resolve_round(result, input.pad, input.timed_out)
    }
}

} // verus!
