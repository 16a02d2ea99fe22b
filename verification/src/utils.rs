//! Random tokens made of letters and digits.
use vstd::prelude::*;
use rand::Rng;

verus! {

/// `rand::thread_rng().gen::<usize>()`: a random `usize` from the thread's generator;
/// nothing about its value is stated.
#[verifier::external_body]
fn random_usize() -> usize {
    rand::thread_rng().gen::<usize>()
}

/// The `k`-th character (as a byte) of `a`..`z`, `A`..`Z`, `0`..`9`, for `k < 62`.
pub open spec fn alphabet_byte(k: nat) -> u8 {
    if k < 26 {
        (97 + k) as u8
    } else if k < 52 {
        (65 + k - 26) as u8
    } else {
        (48 + k - 52) as u8
    }
}

/// A token byte: an ASCII letter or digit.
pub open spec fn is_token_byte(b: u8) -> bool {
    (97 <= b <= 122) || (65 <= b <= 90) || (48 <= b <= 57)
}

/// The position in the endless repetition of the alphabet that the `i`-th draw lands
/// on: each draw `r` skips `r % 100` characters past the one after the previous pick.
pub open spec fn draw_position(draws: Seq<usize>, i: int) -> nat
    decreases i,
{
    if i <= 0 {
        (draws[0] % 100) as nat
    } else {
        draw_position(draws, i - 1) + 1 + (draws[i] % 100) as nat
    }
}

/// The token the random draws `draws` give: one alphabet character per draw.
pub open spec fn token_from_draws_spec(draws: Seq<usize>) -> Seq<u8> {
    Seq::new(draws.len(), |i: int| alphabet_byte(draw_position(draws, i) % 62))
}

fn alphabet_byte_exec(k: usize) -> (b: u8)
    requires
        k < 62,
    ensures
        b == alphabet_byte(k as nat),
        is_token_byte(b),
{
    if k < 26 {
        (97 + k) as u8
    } else if k < 52 {
        (65 + k - 26) as u8
    } else {
        (48 + k - 52) as u8
    }
}

/// The token that the random values `draws` select (one character per value).
pub fn token_from_draws<const N: usize>(draws: &[usize; N]) -> (res: [u8; N])
    ensures
        res@ == token_from_draws_spec(draws@),
        forall|i: int| 0 <= i < N ==> is_token_byte(#[trigger] res@[i]),
{
    let mut res = [0u8; N];
    let mut pos: usize = 0;
    let mut i: usize = 0;
    while i < N
        invariant
            i <= N,
            draws@.len() == N,
            res@.len() == N,
            i > 0 ==> pos as nat == draw_position(draws@, i - 1) % 62,
            pos < 62,
            forall|j: int| 0 <= j < i ==> res@[j] == token_from_draws_spec(draws@)[j],
            forall|j: int| 0 <= j < i ==> is_token_byte(#[trigger] res@[j]),
        decreases N - i,
    {
        let skip = draws[i] % 100;
        let next: usize = if i == 0 {
            skip % 62
        } else {
            (pos + 1 + skip) % 62
        };
        proof {
            if i > 0 {
                let prev = draw_position(draws@, i - 1);
                assert(draw_position(draws@, i as int) == prev + 1 + skip);
                vstd::arithmetic::div_mod::lemma_add_mod_noop(prev as int, (1 + skip) as int, 62);
                vstd::arithmetic::div_mod::lemma_mod_twice((1 + skip) as int, 62);
                vstd::arithmetic::div_mod::lemma_add_mod_noop(pos as int, (1 + skip) as int, 62);
            }
        }
        let b = alphabet_byte_exec(next);
        res[i] = b;
        i += 1;
        pos = next;
    }
    assert(res@ =~= token_from_draws_spec(draws@));
    res
}

/// A random token of `N` letters and digits: `N`
/// random values are drawn and turned into characters by `token_from_draws`.
pub fn get_rand_token<const N: usize>() -> (res: [u8; N])
    ensures
        exists|draws: Seq<usize>| draws.len() == N && res@ == token_from_draws_spec(draws),
        forall|i: int| 0 <= i < N ==> is_token_byte(#[trigger] res@[i]),
{
    let mut draws = [0usize; N];
    let mut i: usize = 0;
    while i < N
        invariant
            i <= N,
            draws@.len() == N,
        decreases N - i,
    {
        draws[i] = random_usize();
        i += 1;
    }
    token_from_draws(&draws)
}

} // verus!
