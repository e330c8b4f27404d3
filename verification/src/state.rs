//! The game's global state, its flow, and the game-over screen.

use vstd::prelude::*;

verus! {

/// Global state of the game.
#[derive(Debug, Clone, Copy, PartialEq, Eq, Structural, Hash)]
pub enum GameState {
    /// Waiting for the textures to load before the board is drawn.
    Loading,
    Playing,
    /// The quiz battle against the dean inside the club.
    BossFight,
    GameOver,
}

impl Default for GameState {
    fn default() -> (s: GameState)
        ensures
            s == GameState::Loading,
    {
        GameState::Loading
    }
}

/// The moves the game's flow allows: loading ends in play; play leads into
/// the club's boss fight or ends the game; the boss fight ends the game; a new
/// game starts from the game-over screen.
pub open spec fn allowed_transition(from: GameState, to: GameState) -> bool {
    match (from, to) {
        (GameState::Loading, GameState::Playing) => true,
        (GameState::Playing, GameState::BossFight) => true,
        (GameState::Playing, GameState::GameOver) => true,
        (GameState::BossFight, GameState::GameOver) => true,
        (GameState::GameOver, GameState::Playing) => true,
        _ => false,
    }
}

/// The shape of the game's flow: loading is left once and never returns;
/// a game ends only from play or the boss fight, and the boss fight only
/// from play; after a game ends the only way on is a new game.
pub proof fn lemma_game_flow(from: GameState, to: GameState)
    requires
        allowed_transition(from, to),
    ensures
        to != GameState::Loading,
        from == GameState::Loading ==> to == GameState::Playing,
        to == GameState::GameOver ==> (from == GameState::Playing || from == GameState::BossFight),
        to == GameState::BossFight ==> from == GameState::Playing,
        from == GameState::GameOver ==> to == GameState::Playing,
        from != to,
{
}

/// Whether the systems shared by the overworld and the boss fight (player
/// controls, movement, animation) run in `state`.
pub fn in_gameplay(state: GameState) -> (b: bool)
    ensures
        b <==> (state == GameState::Playing || state == GameState::BossFight),
{
    match state {
        GameState::Playing | GameState::BossFight => true,
        _ => false,
    }
}

/// Outcome of the last game; decides what the game-over screen shows.
/// Empty title and subtitle stand for the default messages.
#[derive(Debug)]
pub struct GameResult {
    pub won: bool,
    pub title: String,
    pub subtitle: String,
}

impl Default for GameResult {
    fn default() -> (r: GameResult)
        ensures
            !r.won,
            r.title@ == Seq::<char>::empty(),
            r.subtitle@ == Seq::<char>::empty(),
    {
        GameResult { won: false, title: String::new(), subtitle: String::new() }
    }
}

impl GameResult {
    /// Records a result with no message of its own: the game-over screen
    /// then shows the default texts for a win or a loss.
    pub fn set_outcome(&mut self, won: bool)
        ensures
            final(self).won == won,
            final(self).title@ == Seq::<char>::empty(),
            final(self).subtitle@ == Seq::<char>::empty(),
    {
        self.won = won;
        self.title = String::new();
        self.subtitle = String::new();
    }

    /// Records a result with its own title and subtitle.
    pub fn set(&mut self, won: bool, title: &str, subtitle: &str)
        ensures
            final(self).won == won,
            final(self).title@ == title@,
            final(self).subtitle@ == subtitle@,
    {
        self.won = won;
        self.title = String::from_str(title);
        self.subtitle = String::from_str(subtitle);
    }
}

/// Decides the move out of loading: play starts once every asset the board
/// needs has loaded (`loaded[i]` tells whether asset `i` has).
pub fn check_assets_ready(loaded: &Vec<bool>) -> (next: Option<GameState>)
    ensures
        next == (if forall|i: int| 0 <= i < loaded@.len() ==> #[trigger] loaded@[i] {
            Some(GameState::Playing)
        } else {
            None
        }),
        next matches Some(s) ==> allowed_transition(GameState::Loading, s),
{
    let mut i: usize = 0;
    while i < loaded.len()
        invariant
            i <= loaded@.len(),
            forall|j: int| 0 <= j < i ==> #[trigger] loaded@[j],
        decreases loaded@.len() - i,
    {
        if !loaded[i] {
            return None;
        }
        i = i + 1;
    }
    Some(GameState::Playing)
}

/// Default title of the game-over screen.
pub open spec fn default_title(won: bool) -> Seq<char> {
    if won {
        "WYGRANA!"@
    } else {
        "PRZEGRANA"@
    }
}

/// Default subtitle of the game-over screen.
pub open spec fn default_subtitle(won: bool) -> Seq<char> {
    if won {
        "Zdeptales caly swiezy trawnik!"@
    } else {
        "Jaguar cie dopadl..."@
    }
}

/// What the game-over screen shows: the gold theme for a win or the red one
/// for a loss, and the texts.
#[derive(Debug)]
pub struct GameOverScreen {
    pub won: bool,
    pub title: String,
    pub subtitle: String,
}

/// Chooses the texts of the game-over screen: the result's own message where
/// it carries one, else the default for a win or a loss.
pub fn game_over_screen(result: &GameResult) -> (screen: GameOverScreen)
    ensures
        screen.won == result.won,
        screen.title@ == (if result.title@.len() == 0 {
            default_title(result.won)
        } else {
            result.title@
        }),
        screen.subtitle@ == (if result.subtitle@.len() == 0 {
            default_subtitle(result.won)
        } else {
            result.subtitle@
        }),
{
    let (def_title, def_subtitle) = if result.won {
        ("WYGRANA!", "Zdeptales caly swiezy trawnik!")
    } else {
        ("PRZEGRANA", "Jaguar cie dopadl...")
    };
    let title = if result.title.as_str().is_empty() {
        String::from_str(def_title)
    } else {
        result.title.clone()
    };
    let subtitle = if result.subtitle.as_str().is_empty() {
        String::from_str(def_subtitle)
    } else {
        result.subtitle.clone()
    };
    GameOverScreen { won: result.won, title, subtitle }
}

/// How a button is being used this frame.
#[derive(Debug, Clone, Copy, PartialEq, Eq, Structural)]
pub enum ButtonInteraction {
    Pressed,
    Hovered,
    /// Neither pressed nor hovered.
    Idle,
}

/// Which of its three looks a button takes.
#[derive(Debug, Clone, Copy, PartialEq, Eq, Structural)]
pub enum ButtonLook {
    Normal,
    Hovered,
    Pressed,
}

/// Look of the "play again" button and the state the game moves to.
#[derive(Debug, Clone, Copy, PartialEq, Eq, Structural)]
pub struct PlayAgainResponse {
    pub look: ButtonLook,
    /// Whether the border takes its highlighted colour.
    pub highlighted_border: bool,
    pub next: Option<GameState>,
}

/// Reacts to the "play again" button: pressing it starts a new game.
pub fn play_again_button(interaction: ButtonInteraction) -> (r: PlayAgainResponse)
    ensures
        r == (match interaction {
            ButtonInteraction::Pressed => PlayAgainResponse {
                look: ButtonLook::Pressed,
                highlighted_border: true,
                next: Some(GameState::Playing),
            },
            ButtonInteraction::Hovered => PlayAgainResponse {
                look: ButtonLook::Hovered,
                highlighted_border: true,
                next: None,
            },
            ButtonInteraction::Idle => PlayAgainResponse {
                look: ButtonLook::Normal,
                highlighted_border: false,
                next: None,
            },
        }),
        r.next matches Some(s) ==> allowed_transition(GameState::GameOver, s),
{
    match interaction {
        ButtonInteraction::Pressed => PlayAgainResponse {
            look: ButtonLook::Pressed,
            highlighted_border: true,
            next: Some(GameState::Playing),
        },
        ButtonInteraction::Hovered => PlayAgainResponse {
            look: ButtonLook::Hovered,
            highlighted_border: true,
            next: None,
        },
        ButtonInteraction::Idle => PlayAgainResponse {
            look: ButtonLook::Normal,
            highlighted_border: false,
            next: None,
        },
    }
}

/// Look of the "exit" button and whether the application closes.
#[derive(Debug, Clone, Copy, PartialEq, Eq, Structural)]
pub struct ExitResponse {
    pub look: ButtonLook,
    pub exit: bool,
}

/// Reacts to the "exit" button: pressing it closes the game window.
pub fn exit_button(interaction: ButtonInteraction) -> (r: ExitResponse)
    ensures
        r == (match interaction {
            ButtonInteraction::Pressed => ExitResponse { look: ButtonLook::Pressed, exit: true },
            ButtonInteraction::Hovered => ExitResponse { look: ButtonLook::Hovered, exit: false },
            ButtonInteraction::Idle => ExitResponse { look: ButtonLook::Normal, exit: false },
        }),
{
    match interaction {
        ButtonInteraction::Pressed => ExitResponse { look: ButtonLook::Pressed, exit: true },
        ButtonInteraction::Hovered => ExitResponse { look: ButtonLook::Hovered, exit: false },
        ButtonInteraction::Idle => ExitResponse { look: ButtonLook::Normal, exit: false },
    }
}

} // verus!
