//! Tokens that tell the current worker's messages from stale ones.

use vstd::prelude::*;

verus! {

/// Number of tokens: every `u32` but zero, which stands for "none".
pub open spec fn token_count() -> int {
    u32::MAX as int
}

/// The token drawn from a counter: its value, or one if it has wrapped
/// around to zero.
pub open spec fn token_at(counter: u32) -> u32 {
    if counter == 0 {
        1
    } else {
        counter
    }
}

/// The counter's value once `token` has been drawn.
pub open spec fn counter_after(token: u32) -> u32 {
    if token == u32::MAX {
        0
    } else {
        (token + 1) as u32
    }
}

/// The token drawn after `n` others.
pub open spec fn nth_token(counter: u32, n: nat) -> u32
    decreases n,
{
    if n == 0 {
        token_at(counter)
    } else {
        nth_token(counter_after(token_at(counter)), (n - 1) as nat)
    }
}

/// Draws a token. The counter wraps around; zero is skipped.
pub fn draw_token(counter: &mut u32) -> (token: u32)
    ensures
        token == token_at(*old(counter)),
        token != 0,
        *final(counter) == counter_after(token),
{
    let token: u32 = if *counter == 0 {
        1
    } else {
        *counter
    };
    *counter = token.wrapping_add(1);
    token
}

proof fn lemma_nth_token(counter: u32, n: nat)
    ensures
        nth_token(counter, n) == (token_at(counter) - 1 + n) % token_count() + 1,
    decreases n,
{
    if n > 0 {
        let next = counter_after(token_at(counter));
        lemma_nth_token(next, (n - 1) as nat);
        if token_at(counter) == u32::MAX {
            assert((token_count() - 1 + n) % token_count() == (n - 1) % token_count()) by {
                vstd::arithmetic::div_mod::lemma_mod_add_multiples_vanish(
                    n as int - 1,
                    token_count(),
                );
            }
        }
    }
}

/// Tokens are not drawn twice until all of them have been drawn: a
/// message that names another worker is never taken for the current
/// one's.
pub proof fn tokens_do_not_repeat(counter: u32, earlier: nat, later: nat)
    requires
        earlier < later < earlier + token_count(),
    ensures
        nth_token(counter, earlier) != nth_token(counter, later),
        nth_token(counter, earlier) != 0,
{
    lemma_nth_token(counter, earlier);
    lemma_nth_token(counter, later);
    let a = token_at(counter) - 1 + earlier;
    let b = token_at(counter) - 1 + later;
    if a % token_count() == b % token_count() {
        let m = token_count();
        assert(a == m * (a / m) + a % m) by {
            vstd::arithmetic::div_mod::lemma_fundamental_div_mod(a, m);
        }
        assert(b == m * (b / m) + b % m) by {
            vstd::arithmetic::div_mod::lemma_fundamental_div_mod(b, m);
        }
    }
}

/// The counter counts up: a token is its value, and it then stands one
/// higher. Behind the highest number it goes on at zero, for which one is
/// drawn.
pub proof fn tokens_count_up(counter: u32)
    ensures
        counter != 0 ==> token_at(counter) == counter,
        token_at(0) == 1,
        counter < u32::MAX ==> counter_after(counter) == counter + 1,
        counter_after(u32::MAX) == 0,
{
}

} // verus!
