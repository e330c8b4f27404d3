//! Coins: the player's wallet, picking coins up, and the on-screen counter.

use vstd::prelude::*;
use crate::contact::{lemma_touched, touched, touched_indices};
use crate::text::{decimal, decimal_string};

verus! {

/// Coins the bouncer asks for before letting the player into the club.
pub const REQUIRED_COINS: u32 = 10;

/// Coins the hidden test shortcut (key C) adds at once.
pub const CHEAT_COINS: u32 = 10;

/// The player's coins; kept across the club entrance, emptied for a new game.
#[derive(Debug, Clone, Copy, PartialEq, Eq, Structural)]
pub struct Wallet {
    pub coins: u32,
}

impl Default for Wallet {
    fn default() -> (w: Wallet)
        ensures
            w.coins == 0,
    {
        Wallet { coins: 0 }
    }
}

impl Wallet {
    /// A new game starts with an empty wallet.
    pub fn reset(&mut self)
        ensures
            final(self).coins == 0,
    {
        self.coins = 0;
    }
}

/// The test shortcut: a press of key C adds ten coins.
pub fn cheat_coins(wallet: &mut Wallet, key_c_just_pressed: bool)
    requires
        key_c_just_pressed ==> old(wallet).coins + CHEAT_COINS <= u32::MAX,
    ensures
        final(wallet).coins == old(wallet).coins + (if key_c_just_pressed { CHEAT_COINS } else { 0 }),
{
    if key_c_just_pressed {
        wallet.coins = wallet.coins + CHEAT_COINS;
    }
}

/// Picks up every coin that touches the player (`touching[i]` for coin `i`):
/// one coin each into the wallet. Returns the coins to remove from the map,
/// in increasing order.
pub fn handle_coin_collision(wallet: &mut Wallet, touching: &Vec<bool>) -> (collected: Vec<usize>)
    requires
        old(wallet).coins + touched(touching@).len() <= u32::MAX,
    ensures
        collected@ == touched(touching@),
        final(wallet).coins == old(wallet).coins + collected@.len(),
        forall|k: int| 0 <= k < collected@.len() ==> (#[trigger] collected@[k]) < touching@.len(),
        forall|k: int, l: int| 0 <= k < l < collected@.len() ==> (#[trigger] collected@[k]) < (#[trigger] collected@[l]),
        forall|i: int| 0 <= i < touching@.len() ==> (#[trigger] collected@.contains(i as usize) <==> touching@[i]),
{
    let collected = touched_indices(touching);
    let n = touching.len();
    proof {
        assert(touching@.len() == n);
        lemma_touched(touching@);
        assert forall|i: int| 0 <= i < touching@.len() implies (#[trigger] collected@.contains(i as usize) <==> touching@[i]) by {
            if collected@.contains(i as usize) {
                let k = choose|k: int| 0 <= k < collected@.len() && collected@[k] == i as usize;
                assert(touching@[collected@[k] as int]);
            }
        }
    }
    wallet.coins = wallet.coins + collected.len() as u32;
    collected
}

/// Text of the coin counter: "MONETY: <coins>/<required>".
pub fn coin_counter_text(coins: u32) -> (text: String)
    ensures
        text@ == "MONETY: "@ + decimal(coins as nat) + "/"@ + decimal(REQUIRED_COINS as nat),
{
    let mut text = String::from_str("MONETY: ");
    let count = decimal_string(coins);
    text.append(count.as_str());
    text.append("/");
    let required = decimal_string(REQUIRED_COINS);
    text.append(required.as_str());
    text
}

} // verus!
