//! Users, passwords and authentication tokens.
use vstd::prelude::*;
use vstd::string::StringSliceAdditionalSpecFns;
use sha3::Digest;
use crate::database::DBUser;
use crate::text::{chars_of, string_of};
use crate::token_validizer::{ActiveTokenStorage, token_key, without_user};
use crate::utils::is_token_byte;
use vstd::std_specs::cmp::PartialEqSpecImpl;
use vstd::std_specs::convert::TryFromSpecImpl;

pub mod jwt;

verus! {

/// The id of a user (eight characters in the user table).
#[derive(Debug)]
pub struct UserID(pub String);

impl Clone for UserID {
    fn clone(&self) -> (res: Self)
        ensures
            res == *self,
    {
        UserID(self.0.clone())
    }
}

impl PartialEq for UserID {
    fn eq(&self, other: &Self) -> (r: bool) {
        self.0 == other.0
    }
}

impl PartialEqSpecImpl for UserID {
    open spec fn obeys_eq_spec() -> bool {
        true
    }

    open spec fn eq_spec(&self, other: &Self) -> bool {
        self.0@ == other.0@
    }
}

/// A user id is accepted from the user table only when it is exactly 8 bytes long.
impl TryFrom<String> for UserID {
    type Error = ();

    fn try_from(value: String) -> (res: Result<Self, Self::Error>) {
        if value.as_str().as_bytes().len() != 8 {
            return Err(());
        }
        Ok(UserID(value))
    }
}

impl TryFromSpecImpl<String> for UserID {
    open spec fn obeys_try_from_spec() -> bool {
        true
    }

    open spec fn try_from_spec(value: String) -> Result<Self, Self::Error> {
        if vstd::utf8::encode_utf8(value@).len() != 8 {
            Err(())
        } else {
            Ok(UserID(value))
        }
    }
}

/// The id under which the debug access token logs in.
pub open spec fn debug_user_id() -> Seq<char> {
    seq!['D', 'E', 'B', 'U', 'G', '_', 'I', 'D']
}

impl UserID {
    /// The id of the debug user, `DEBUG_ID`.
    pub fn debug_access() -> (res: Self)
        ensures
            res.0@ == debug_user_id(),
    {
        let mut s = String::new();
        s.push('D');
        s.push('E');
        s.push('B');
        s.push('U');
        s.push('G');
        s.push('_');
        s.push('I');
        s.push('D');
        assert(s@ =~= debug_user_id());
        UserID(s)
    }

    /// The text `UserId:<id>`, how a user id is shown in log lines.
    pub fn to_display_string(&self) -> (res: String)
        ensures
            res@ == seq!['U', 's', 'e', 'r', 'I', 'd', ':'] + self.0@,
    {
        let mut s = String::new();
        s.push('U');
        s.push('s');
        s.push('e');
        s.push('r');
        s.push('I');
        s.push('d');
        s.push(':');
        crate::text::push_str(&mut s, self.0.as_str());
        assert(s@ =~= seq!['U', 's', 'e', 'r', 'I', 'd', ':'] + self.0@);
        s
    }
}

/// Length in bytes of an authentication token.
pub const AUTH_TOKEN_LEN: usize = 16;

/// The lower-case hexadecimal digit for a value below 16 (digits past `f` for larger values).
pub open spec fn quad_char(b: u8) -> char {
    if b < 10 {
        (b + 48) as char
    } else {
        (b + 87) as char
    }
}

/// The character for the hex digit `b`: `0`-`9` for values below 10, `a` onwards after.
pub fn quad_to_char(b: u8) -> (c: char)
    requires
        b <= 168,
    ensures
        c == quad_char(b),
{
    if b < 10 {
        return (b + 0x30) as char;
    }
    (b + 0x57) as char
}

/// Two lower-case hex digits per byte, high nibble first.
pub open spec fn hex_lower(bytes: Seq<u8>) -> Seq<char>
    decreases bytes.len(),
{
    if bytes.len() == 0 {
        Seq::<char>::empty()
    } else {
        hex_lower(bytes.drop_last()) + seq![
            quad_char((bytes.last() / 16) as u8),
            quad_char((bytes.last() % 16) as u8),
        ]
    }
}

/// The SHA3-256 digest of a byte sequence.
pub uninterp spec fn sha3_256_spec(data: Seq<u8>) -> Seq<u8>;

/// `sha3::Sha3_256::digest` (the `Digest` trait): the SHA3-256 digest of `data`, named
/// `sha3_256_spec`; it is 32 bytes long, the output size of `Sha3_256`.
#[verifier::external_body]
pub(crate) fn sha3_256(data: &[u8]) -> (res: Vec<u8>)
    ensures
        res@ == sha3_256_spec(data@),
        res@.len() == 32,
{
    sha3::Sha3_256::digest(data).to_vec()
}

/// The lower-case hexadecimal text of `bytes`.
pub fn to_hex(bytes: &[u8]) -> (res: String)
    ensures
        res@ == hex_lower(bytes@),
        res@.len() == 2 * bytes@.len(),
{
    let mut res = String::new();
    let mut i: usize = 0;
    while i < bytes.len()
        invariant
            i <= bytes.len(),
            res@ == hex_lower(bytes@.take(i as int)),
            res@.len() == 2 * i,
        decreases bytes.len() - i,
    {
        let e = bytes[i];
        assert(e >> 4 == e / 16) by (bit_vector);
        assert(e & 0x0f == e % 16) by (bit_vector);
        res.push(quad_to_char(e >> 4));
        res.push(quad_to_char(e & 0x0f));
        assert(bytes@.take(i + 1).drop_last() =~= bytes@.take(i as int));
        i += 1;
        assert(res@ =~= hex_lower(bytes@.take(i as int)));
    }
    assert(bytes@.take(bytes@.len() as int) =~= bytes@);
    res
}

/// Hex text is ASCII, two characters per byte.
pub proof fn lemma_hex_lower_ascii(bytes: Seq<u8>)
    ensures
        vstd::utf8::is_ascii_chars(hex_lower(bytes)),
        hex_lower(bytes).len() == 2 * bytes.len(),
    decreases bytes.len(),
{
    if bytes.len() > 0 {
        let init = bytes.drop_last();
        lemma_hex_lower_ascii(init);
        let h = hex_lower(init);
        let b = bytes.last();
        let tail = seq![quad_char((b / 16) as u8), quad_char((b % 16) as u8)];
        assert(hex_lower(bytes) == h + tail);
        assert forall|i: int| 0 <= i < (h + tail).len() implies '\0' <= #[trigger] (h + tail)[i] <= '\u{7f}' by {
            if i < h.len() {
                assert((h + tail)[i] == h[i]);
            } else {
                assert((h + tail)[i] == tail[i - h.len()]);
            }
        }
    }
}

/// The SHA3-256 digest of the UTF-8 bytes of `strng`, as 64 lower-case hex digits.
pub fn hash_str_to_hex(strng: &str) -> (res: String)
    ensures
        res@ == hex_lower(sha3_256_spec(strng.spec_bytes())),
        res@.len() == 64,
        vstd::utf8::is_ascii_chars(res@),
{
    let digest = sha3_256(strng.as_bytes());
    proof {
        lemma_hex_lower_ascii(digest@);
    }
    to_hex(digest.as_slice())
}

/// Login data sent by a client.
#[derive(Debug)]
pub struct UserLogin {
    pub name: String,
    pub password_base64: String,
}

/// What a successful token login answers.
#[derive(Debug)]
pub struct UserLoginResponse {
    pub name: String,
    pub profile_picture_url: Option<String>,
    pub auth_token: String,
    pub user_id: UserID,
}

/// The password of `login` matches the stored hash of `user`.
pub open spec fn password_matches(login: UserLogin, user: DBUser) -> bool {
    user.hashed_pw@ == hex_lower(sha3_256_spec(vstd::utf8::encode_utf8(login.password_base64@)))
}

/// The characters of a token, one per byte (`b as char`).
pub open spec fn token_text(token: Seq<u8>) -> Seq<char> {
    token.map_values(|b: u8| b as char)
}

/// Token login: `user` is the account the database holds under the login's name, if any.
/// When the password's hash matches the account's, a new token is issued for it and
/// the response carries the login's name, the token and the user's id; otherwise the
/// login is refused with "Username or password unknown" and no token is issued.
pub fn login(storage: &mut ActiveTokenStorage, login_data: UserLogin, user: Option<DBUser>) -> (res:
    Result<UserLoginResponse, &'static str>)
    ensures
        match user {
            Some(u) if password_matches(login_data, u) => {
                &&& res is Ok
                &&& res->Ok_0.name == login_data.name
                &&& res->Ok_0.profile_picture_url is None
                &&& res->Ok_0.user_id == u.id
                &&& exists|tok: Seq<u8>, t: std::time::SystemTime|
                    {
                        &&& tok.len() == AUTH_TOKEN_LEN
                        &&& (forall|i: int| 0 <= i < tok.len() ==> is_token_byte(#[trigger] tok[i]))
                        &&& res->Ok_0.auth_token@ == token_text(tok)
                        &&& final(storage)@ == old(storage)@.insert(token_key(tok), (t, u.id))
                    }
            },
            _ => res == Err::<UserLoginResponse, &'static str>("Username or password unknown")
                && final(storage)@ == old(storage)@,
        },
{
    let hashed_pw = hash_str_to_hex(login_data.password_base64.as_str());
    match user {
        Some(user) => {
            if user.hashed_pw == hashed_pw {
                let token = storage.new_user_token(user.id.clone());
                let mut text = String::new();
                let mut i: usize = 0;
                while i < token.len()
                    invariant
                        i <= token.len(),
                        text@ == token_text(token@).take(i as int),
                    decreases token.len() - i,
                {
                    text.push(token[i] as char);
                    i += 1;
                    assert(text@ =~= token_text(token@).take(i as int));
                }
                assert(token_text(token@).take(token@.len() as int) =~= token_text(token@));
                Ok(
                    UserLoginResponse {
                        name: login_data.name,
                        profile_picture_url: None,
                        auth_token: text,
                        user_id: user.id,
                    },
                )
            } else {
                Err("Username or password unknown")
            }
        },
        None => Err("Username or password unknown"),
    }
}

/// Logs `user` out: every token issued for that user stops being active.
pub fn logout(storage: &mut ActiveTokenStorage, user: UserID)
    ensures
        final(storage)@ == without_user(old(storage)@, user.0@),
{
    storage.remove_user(&user);
}

/// The bytes of `Bearer `.
pub open spec fn bearer_prefix() -> Seq<u8> {
    seq![66u8, 101u8, 97u8, 114u8, 101u8, 114u8, 32u8]
}

/// What follows `Bearer ` in an `Authorization` header, if it starts with it.
pub open spec fn bearer_rest(header: Seq<u8>) -> Option<Seq<u8>> {
    if bearer_prefix().is_prefix_of(header) {
        Some(header.skip(7))
    } else {
        None
    }
}

/// The bytes after `Bearer ` in the header text `header`, if it starts with `Bearer `.
pub fn bearer_token_bytes(header: &str) -> (res: Option<Vec<u8>>)
    ensures
        match bearer_rest(header.spec_bytes()) {
            Some(t) => res is Some && res->0@ == t,
            None => res is None,
        },
{
    let b = header.as_bytes();
    let prefix: [u8; 7] = [66u8, 101u8, 97u8, 114u8, 101u8, 114u8, 32u8];
    assert(prefix@ =~= bearer_prefix());
    if b.len() < 7 {
        assert(bearer_prefix().len() == 7);
        return None;
    }
    let mut i: usize = 0;
    while i < 7
        invariant
            i <= 7 <= b.len(),
            b@ == header.spec_bytes(),
            prefix@ == bearer_prefix(),
            forall|j: int| 0 <= j < i ==> b@[j] == bearer_prefix()[j],
        decreases 7 - i,
    {
        if b[i] != prefix[i] {
            assert(b@.subrange(0, 7)[i as int] != bearer_prefix()[i as int]);
            return None;
        }
        i += 1;
    }
    assert(b@.subrange(0, 7) =~= bearer_prefix());
    let mut rest: Vec<u8> = Vec::new();
    let mut k: usize = 7;
    while k < b.len()
        invariant
            7 <= k <= b.len(),
            rest@ == b@.subrange(7, k as int),
            b@ == header.spec_bytes(),
        decreases b.len() - k,
    {
        rest.push(b[k]);
        k += 1;
        assert(rest@ =~= b@.subrange(7, k as int));
    }
    assert(b@.subrange(7, b@.len() as int) =~= b@.skip(7));
    Some(rest)
}

/// The user a token (its bytes) belongs to, in `storage`: only tokens of exactly
/// `AUTH_TOKEN_LEN` bytes are looked up.
pub open spec fn token_user(storage: Map<u128, (std::time::SystemTime, UserID)>, token: Seq<u8>) -> Option<UserID> {
    if token.len() == AUTH_TOKEN_LEN && storage.contains_key(token_key(token)) {
        Some(storage[token_key(token)].1)
    } else {
        None
    }
}

/// The user an `Authorization` header authenticates with a token: the header must be
/// `Bearer ` followed by a token of `AUTH_TOKEN_LEN` bytes that `storage` knows.
pub fn user_from_auth_header(storage: &ActiveTokenStorage, header: Option<&str>) -> (res: Option<UserID>)
    ensures
        res == match header {
            Some(h) => match bearer_rest(h.spec_bytes()) {
                Some(t) => token_user(storage@, t),
                None => None,
            },
            None => None,
        },
{
    match header {
        Some(h) => match bearer_token_bytes(h) {
            Some(t) => {
                if t.len() == AUTH_TOKEN_LEN {
                    match storage.get_user_data(t.as_slice()) {
                        Some(ud) => Some(ud.1),
                        None => None,
                    }
                } else {
                    None
                }
            },
            None => None,
        },
        None => None,
    }
}

/// The user a token given as a form value stands for (its UTF-8 bytes are the token).
pub fn user_from_form_value(storage: &ActiveTokenStorage, token: &str) -> (res: Option<UserID>)
    ensures
        res == token_user(storage@, token.spec_bytes()),
{
    if token.len() == AUTH_TOKEN_LEN {
        match storage.get_user_data(token.as_bytes()) {
            Some(ud) => Some(ud.1),
            None => None,
        }
    } else {
        None
    }
}

/// The JSON Web Token in an `Authorization` header: the text after `Bearer `.
pub fn bearer_jwt(header: &str) -> (res: Option<String>)
    ensures
        match res {
            Some(t) => header@ == seq!['B', 'e', 'a', 'r', 'e', 'r', ' '] + t@,
            None => !(seq!['B', 'e', 'a', 'r', 'e', 'r', ' '].is_prefix_of(header@)),
        },
{
    let cs = chars_of(header);
    let p: [char; 7] = ['B', 'e', 'a', 'r', 'e', 'r', ' '];
    let ghost pre = seq!['B', 'e', 'a', 'r', 'e', 'r', ' '];
    assert(p@ =~= pre);
    if cs.len() < 7 {
        return None;
    }
    let mut i: usize = 0;
    while i < 7
        invariant
            i <= 7 <= cs.len(),
            cs@ == header@,
            pre == seq!['B', 'e', 'a', 'r', 'e', 'r', ' '],
            p@ == pre,
            forall|j: int| 0 <= j < i ==> cs@[j] == pre[j],
        decreases 7 - i,
    {
        if cs[i] != p[i] {
            assert(cs@.subrange(0, 7)[i as int] != pre[i as int]);
            return None;
        }
        i += 1;
    }
    let mut rest: Vec<char> = Vec::new();
    let mut k: usize = 7;
    while k < cs.len()
        invariant
            7 <= k <= cs.len(),
            rest@ == cs@.subrange(7, k as int),
            cs@ == header@,
        decreases cs.len() - k,
    {
        rest.push(cs[k]);
        k += 1;
        assert(rest@ =~= cs@.subrange(7, k as int));
    }
    assert(cs@ =~= pre + cs@.subrange(7, cs@.len() as int));
    Some(string_of(rest.as_slice()))
}

} // verus!

verus! {

/// After a successful token login (the store gained the issued token `tok` for `user`),
/// the header `Bearer <token>` authenticates as `user`.
pub proof fn lemma_login_token_authenticates(
    before: Map<u128, (std::time::SystemTime, UserID)>,
    after: Map<u128, (std::time::SystemTime, UserID)>,
    tok: Seq<u8>,
    t: std::time::SystemTime,
    user: UserID,
)
    requires
        tok.len() == AUTH_TOKEN_LEN,
        forall|i: int| 0 <= i < tok.len() ==> is_token_byte(#[trigger] tok[i]),
        after == before.insert(token_key(tok), (t, user)),
    ensures
        bearer_rest(vstd::utf8::encode_utf8(seq!['B', 'e', 'a', 'r', 'e', 'r', ' '] + token_text(tok)))
            == Some(tok),
        token_user(after, tok) == Some(user),
{
    let header = seq!['B', 'e', 'a', 'r', 'e', 'r', ' '] + token_text(tok);
    assert(vstd::utf8::is_ascii_chars(header)) by {
        assert forall|i: int| 0 <= i < header.len() implies '\0' <= #[trigger] header[i] <= '\u{7f}' by {
            if i >= 7 {
                assert(header[i] == tok[i - 7] as char);
                assert(is_token_byte(tok[i - 7]));
            }
        }
    }
    vstd::utf8::is_ascii_chars_encode_utf8(header);
    let bytes = vstd::utf8::encode_utf8(header);
    assert(bytes.subrange(0, 7) =~= bearer_prefix());
    assert(bytes.skip(7) =~= tok) by {
        assert forall|i: int| 0 <= i < tok.len() implies bytes.skip(7)[i] == tok[i] by {
            assert(header[i + 7] == tok[i] as char);
            assert(is_token_byte(tok[i]));
        }
    }
}

/// After `user` logs out, no token authenticates as `user` any more, and every token
/// that authenticated as another user still does.
pub proof fn lemma_logout_ends_sessions(
    before: Map<u128, (std::time::SystemTime, UserID)>,
    after: Map<u128, (std::time::SystemTime, UserID)>,
    user: UserID,
    tok: Seq<u8>,
)
    requires
        after == without_user(before, user.0@),
    ensures
        token_user(after, tok) matches Some(u) ==> u.0@ != user.0@,
        token_user(before, tok) matches Some(u) && u.0@ != user.0@ ==> token_user(after, tok)
            == token_user(before, tok),
{
}

} // verus!
