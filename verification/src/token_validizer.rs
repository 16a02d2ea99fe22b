//! The store of active login tokens: which user each token belongs to.
use vstd::prelude::*;
use std::collections::HashMap;
use vstd::std_specs::iter::IteratorSpec;
use std::time::SystemTime;
use crate::auth::{UserID, debug_user_id};
use crate::utils::{get_rand_token, is_token_byte, token_from_draws_spec};

verus! {

broadcast use vstd::std_specs::hash::group_hash_axioms;

#[verifier::external_type_specification]
#[verifier::external_body]
pub struct ExSystemTime(SystemTime);

/// `SystemTime::now()`: the current time; nothing about its value is stated.
#[verifier::external_body]
fn now() -> SystemTime {
    SystemTime::now()
}

/// A login token: `AUTH_TOKEN_LEN` ASCII letters and digits.
pub type Token = [u8; 16];

/// The number a token's bytes spell in base 256, most significant byte first.
pub open spec fn token_number(t: Seq<u8>) -> nat
    decreases t.len(),
{
    if t.len() == 0 {
        0
    } else {
        (token_number(t.drop_last()) * 256 + t.last()) as nat
    }
}

/// The key under which the store files a token: its bytes read as one base-256 number.
pub open spec fn token_key(t: Seq<u8>) -> u128 {
    token_number(t) as u128
}

/// `256` to the power `n`.
pub open spec fn pow256(n: nat) -> nat
    decreases n,
{
    if n == 0 {
        1
    } else {
        pow256((n - 1) as nat) * 256
    }
}

proof fn lemma_pow256_16()
    ensures
        pow256(16) == 0x1_0000_0000_0000_0000_0000_0000_0000_0000,
{
    reveal_with_fuel(pow256, 17);
}

/// The store key of a 16-byte token.
pub fn key_of(t: &[u8]) -> (k: u128)
    requires
        t@.len() == 16,
    ensures
        k == token_key(t@),
{
    let mut acc: u128 = 0;
    let mut i: usize = 0;
    while i < 16
        invariant
            i <= 16,
            t@.len() == 16,
            acc as nat == token_number(t@.take(i as int)),
            token_number(t@.take(i as int)) < pow256(i as nat),
        decreases 16 - i,
    {
        assert(t@.take(i + 1).drop_last() =~= t@.take(i as int));
        let b = t[i];
        proof {
            let v = token_number(t@.take(i as int));
            let p = pow256(i as nat);
            assert(v * 256 + b < p * 256) by (nonlinear_arith)
                requires
                    v < p,
                    b < 256,
            ;
            assert(pow256((i + 1) as nat) == p * 256);
            lemma_pow256_16();
            if i + 1 < 16 {
                lemma_pow256_monotone((i + 1) as nat, 16);
            }
        }
        acc = acc * 256 + b as u128;
        i += 1;
    }
    assert(t@.take(16) =~= t@);
    acc
}

proof fn lemma_pow256_monotone(a: nat, b: nat)
    requires
        a <= b,
    ensures
        pow256(a) <= pow256(b),
    decreases b - a,
{
    if a < b {
        lemma_pow256_monotone(a, (b - 1) as nat);
        assert(pow256(b) == pow256((b - 1) as nat) * 256);
    }
}

/// The bytes of the debug access token, `0123456789abcdef`.
pub open spec fn debug_token() -> Seq<u8> {
    seq![48u8, 49, 50, 51, 52, 53, 54, 55, 56, 57, 97, 98, 99, 100, 101, 102]
}

/// The active tokens, each with the time it was issued and the user it belongs to.
pub struct ActiveTokenStorage {
    user_tokens: HashMap<u128, (SystemTime, UserID)>,
}

impl View for ActiveTokenStorage {
    type V = Map<u128, (SystemTime, UserID)>;

    closed spec fn view(&self) -> Self::V {
        self.user_tokens@
    }
}

impl ActiveTokenStorage {
    /// A store without tokens.
    pub fn empty() -> (res: Self)
        ensures
            res@ == Map::<u128, (SystemTime, UserID)>::empty(),
    {
        ActiveTokenStorage { user_tokens: HashMap::new() }
    }

    /// All active tokens, by key.
    pub fn inner(&self) -> (res: &HashMap<u128, (SystemTime, UserID)>)
        ensures
            res@ == self@,
    {
        &self.user_tokens
    }

    /// A store holding only the debug token `0123456789abcdef`, which logs in as the
    /// debug user.
    pub fn with_debug_access_token() -> (res: Self)
        ensures
            res@.dom() == set![token_key(debug_token())],
            res@[token_key(debug_token())].1.0@ == debug_user_id(),
    {
        let mut hm: HashMap<u128, (SystemTime, UserID)> = HashMap::new();
        let dat: [u8; 16] = [48u8, 49, 50, 51, 52, 53, 54, 55, 56, 57, 97, 98, 99, 100, 101, 102];
        assert(dat@ =~= debug_token());
        let k = key_of(&dat);
        hm.insert(k, (now(), UserID::debug_access()));
        assert(hm@.dom() =~= set![token_key(debug_token())]);
        ActiveTokenStorage { user_tokens: hm }
    }

    /// The issue time and user of `token`, if it is an active token (tokens that are not
    /// exactly 16 bytes long are never active).
    pub fn get_user_data(&self, token: &[u8]) -> (res: Option<(SystemTime, UserID)>)
        ensures
            res == (if token@.len() == 16 && self@.contains_key(token_key(token@)) {
                Some(self@[token_key(token@)])
            } else {
                None
            }),
    {
        if token.len() != 16 {
            return None;
        }
        let k = key_of(token);
        match self.user_tokens.get(&k) {
            Some(v) => Some((v.0, v.1.clone())),
            None => None,
        }
    }

    /// Issues a new random token for `user_id` and returns it; the token is filed under
    /// its key, replacing whatever was filed there, and every other entry stays.
    pub fn new_user_token(&mut self, user_id: UserID) -> (token: Token)
        ensures
            forall|i: int| 0 <= i < 16 ==> is_token_byte(#[trigger] token@[i]),
            exists|draws: Seq<usize>| draws.len() == 16 && token@ == token_from_draws_spec(draws),
            exists|t: SystemTime| final(self)@ == old(self)@.insert(token_key(token@), (t, user_id)),
    {
        let token: Token = get_rand_token::<16>();
        let k = key_of(&token);
        let t = now();
        self.user_tokens.insert(k, (t, user_id));
        assert(self@ == old(self)@.insert(token_key(token@), (t, user_id)));
        token
    }
}

/// The store `m` with every token of the user with id `user` taken out.
pub open spec fn without_user(
    m: Map<u128, (SystemTime, UserID)>,
    user: Seq<char>,
) -> Map<u128, (SystemTime, UserID)> {
    Map::new(|k: u128| m.contains_key(k) && m[k].1.0@ != user, |k: u128| m[k])
}

impl ActiveTokenStorage {
    /// Ends every session of `user`: all tokens issued for that user are taken out, and
    /// every token of another user stays as it was.
    pub fn remove_user(&mut self, user: &UserID)
        ensures
            final(self)@ == without_user(old(self)@, user.0@),
    {
        let ghost m = self.user_tokens@;
        let mut kept: HashMap<u128, (SystemTime, UserID)> = HashMap::new();
        let ghost all = vstd::std_specs::hash::spec_hash_map_iter(&self.user_tokens).remaining();
        let ghost mut n: int = 0;
        for e in it: self.user_tokens.iter()
            invariant
                m == self.user_tokens@,
                all == it.seq(),
                n == it.index(),
                forall|k: u128| #[trigger] m.contains_key(k) ==> all.contains((&k, &m[k])),
                forall|i: int|
                    0 <= i < all.len() ==> m.contains_key(*#[trigger] all[i].0) && m[*all[i].0]
                        == *all[i].1,
                forall|k: u128|
                    #[trigger] kept@.contains_key(k) ==> m.contains_key(k) && m[k].1.0@ != user.0@
                        && kept@[k] == m[k],
                forall|i: int|
                    0 <= i < n && m[*all[i].0].1.0@ != user.0@ ==> #[trigger] kept@.contains_key(
                        *all[i].0,
                    ),
        {
            if !(e.1.1 == *user) {
                kept.insert(*e.0, (e.1.0, e.1.1.clone()));
            }
            proof {
                n = n + 1;
            }
        }
        assert(n == all.len());
        assert forall|k: u128| #[trigger] m.contains_key(k) && m[k].1.0@ != user.0@ implies kept@.contains_key(k) by {
            let i = choose|i: int| 0 <= i < all.len() && all[i] == (&k, &m[k]);
            assert(*all[i].0 == k);
        }
        self.user_tokens = kept;
        assert(self@ =~= without_user(old(self)@, user.0@));
    }
}

/// The number a token spells is below `256` to the power of its length.
proof fn lemma_token_number_bound(t: Seq<u8>)
    ensures
        token_number(t) < pow256(t.len()),
    decreases t.len(),
{
    if t.len() > 0 {
        lemma_token_number_bound(t.drop_last());
        let v = token_number(t.drop_last());
        let p = pow256(t.drop_last().len());
        let last = t.last();
        assert(v * 256 + last < p * 256) by (nonlinear_arith)
            requires
                v < p,
                last < 256,
        ;
    }
}

/// Tokens of one length that spell the same number are the same token.
proof fn lemma_token_number_injective(a: Seq<u8>, b: Seq<u8>)
    requires
        a.len() == b.len(),
        token_number(a) == token_number(b),
    ensures
        a == b,
    decreases a.len(),
{
    if a.len() > 0 {
        let x = token_number(a.drop_last());
        let y = token_number(b.drop_last());
        let r = a.last();
        let q = b.last();
        assert(r == q && x == y) by (nonlinear_arith)
            requires
                x * 256 + r == y * 256 + q,
                0 <= r < 256,
                0 <= q < 256,
                x >= 0,
                y >= 0,
        ;
        lemma_token_number_injective(a.drop_last(), b.drop_last());
        assert(a =~= a.drop_last().push(r));
        assert(b =~= b.drop_last().push(q));
    } else {
        assert(a =~= b);
    }
}

/// Different tokens are filed under different keys: the key of a 16-byte token is
/// one-to-one.
pub proof fn lemma_token_key_injective(a: Seq<u8>, b: Seq<u8>)
    requires
        a.len() == 16,
        b.len() == 16,
        token_key(a) == token_key(b),
    ensures
        a == b,
{
    lemma_token_number_bound(a);
    lemma_token_number_bound(b);
    lemma_pow256_16();
    lemma_token_number_injective(a, b);
}

/// A token just issued for a user authenticates as that user: after `new_user_token`,
/// looking the returned token up gives the user it was issued for, and every other
/// 16-byte token gives what it gave before.
pub proof fn lemma_issued_token_authenticates(
    before: Map<u128, (SystemTime, UserID)>,
    after: Map<u128, (SystemTime, UserID)>,
    token: Seq<u8>,
    user: UserID,
    t: SystemTime,
)
    requires
        token.len() == 16,
        after == before.insert(token_key(token), (t, user)),
    ensures
        crate::auth::token_user(after, token) == Some(user),
        forall|other: Seq<u8>|
            other.len() == 16 && other != token ==> crate::auth::token_user(after, other)
                == #[trigger] crate::auth::token_user(before, other),
{
    assert forall|other: Seq<u8>| other.len() == 16 && other != token implies crate::auth::token_user(
        after,
        other,
    ) == #[trigger] crate::auth::token_user(before, other) by {
        if token_key(other) == token_key(token) {
            lemma_token_key_injective(other, token);
        }
    }
}

} // verus!
