//! The club D17 and its bouncer, who lets the player in for enough coins.

use vstd::prelude::*;
use crate::coin::{REQUIRED_COINS, Wallet};
use crate::state::{GameState, allowed_transition};
use crate::text::{decimal, decimal_string};

verus! {

/// First part of the bouncer's line, before the coin count.
pub open spec fn dialog_head() -> Seq<char> {
    "OCHRONIARZ: Spokojnie... Masz "@
}

/// Last part of the bouncer's line, after the required count.
pub open spec fn dialog_tail() -> Seq<char> {
    " monet.\nWroc, gdy uzbierasz dosc kasy na wejscie do D17!"@
}

/// The bouncer's line for a player who has `coins` coins.
pub open spec fn dialog_text(coins: nat) -> Seq<char> {
    dialog_head() + decimal(coins) + "/"@ + decimal(REQUIRED_COINS as nat) + dialog_tail()
}

/// What the bouncer tells a player with `coins` coins.
pub fn dialog_message(coins: u32) -> (message: String)
    ensures
        message@ == dialog_text(coins as nat),
{
    let mut message = String::from_str("OCHRONIARZ: Spokojnie... Masz ");
    let count = decimal_string(coins);
    message.append(count.as_str());
    message.append("/");
    let required = decimal_string(REQUIRED_COINS);
    message.append(required.as_str());
    message.append(" monet.\nWroc, gdy uzbierasz dosc kasy na wejscie do D17!");
    message
}

/// Whether the bouncer stands in the player's way: until the player has the
/// required coins, he is an obstacle.
pub fn bouncer_blocks_player(wallet: &Wallet) -> (blocks: bool)
    ensures
        blocks == (wallet.coins < REQUIRED_COINS),
{
    wallet.coins < REQUIRED_COINS
}

/// What happens at the bouncer this frame.
#[derive(Debug, PartialEq, Eq)]
pub enum BouncerAction {
    /// Remove any dialog and start the boss fight in the club.
    LetIn,
    /// Show the dialog box with this message.
    OpenDialog { message: String },
    /// Replace the text of the open dialog with this message.
    RefreshDialog { message: String },
    /// The player walked away: remove any dialog.
    CloseDialog,
}

impl BouncerAction {
    /// The state the game moves to: the boss fight, once the player is let in.
    pub fn next_state(&self) -> (next: Option<GameState>)
        ensures
            next == (if *self is LetIn { Some(GameState::BossFight) } else { None }),
            next matches Some(s) ==> allowed_transition(GameState::Playing, s),
    {
        match self {
            BouncerAction::LetIn => Some(GameState::BossFight),
            _ => None,
        }
    }
}

/// Talking to the bouncer: within reach (`in_range`), a player with enough
/// coins is let in; one without is told how many coins they have, in a new
/// dialog or in the open one. Out of reach, the dialog closes.
pub fn bouncer_interaction(in_range: bool, wallet: &Wallet, dialog_open: bool) -> (action: BouncerAction)
    ensures
        !in_range ==> action == BouncerAction::CloseDialog,
        in_range && wallet.coins >= REQUIRED_COINS ==> action == BouncerAction::LetIn,
        in_range && wallet.coins < REQUIRED_COINS && !dialog_open ==> (action matches BouncerAction::OpenDialog { message }
            && message@ == dialog_text(wallet.coins as nat)),
        in_range && wallet.coins < REQUIRED_COINS && dialog_open ==> (action matches BouncerAction::RefreshDialog { message }
            && message@ == dialog_text(wallet.coins as nat)),
{
    if in_range {
        if wallet.coins >= REQUIRED_COINS {
            BouncerAction::LetIn
        } else if !dialog_open {
            BouncerAction::OpenDialog { message: dialog_message(wallet.coins) }
        } else {
            BouncerAction::RefreshDialog { message: dialog_message(wallet.coins) }
        }
    } else {
        BouncerAction::CloseDialog
    }
}

} // verus!
