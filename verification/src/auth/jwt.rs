//! The claims that the server puts into a JSON Web Token.
use vstd::prelude::*;
use crate::auth::{hash_str_to_hex, password_matches, UserID, UserLogin};
use crate::database::{DBUser, UserRoll};

verus! {

/// The private claims of a login token.
#[derive(Debug)]
pub struct JWT {
    pub profile_picture_url: Option<String>,
    pub user_name: String,
    pub user_id: UserID,
    pub user_roll: UserRoll,
}

/// How long a token is valid: seven days, in seconds.
pub const TOKEN_LIFETIME_SECS: i64 = 604800;

/// The expiry (`exp`) of a token issued at the UNIX time `now`: seven days later, as a
/// `u64`.
pub fn token_expiry(now: i64) -> (exp: u64)
    requires
        now + TOKEN_LIFETIME_SECS <= i64::MAX,
    ensures
        exp == (now + TOKEN_LIFETIME_SECS) as u64,
{
    (now + TOKEN_LIFETIME_SECS) as u64
}

/// The claims of the token a login with `login_data` is answered with, where `user` is
/// the account the database holds under the login's name: when the password's hash
/// matches the account's, the login's name, the user's id and role; otherwise the login
/// is refused with "Username or password unknown".
pub fn login_claims(login_data: UserLogin, user: Option<DBUser>) -> (res: Result<JWT, &'static str>)
    ensures
        match user {
            Some(u) if password_matches(login_data, u) => res matches Ok(c) && c.profile_picture_url
                is None && c.user_name == login_data.name && c.user_id == u.id && c.user_roll == u.roll,
            _ => res == Err::<JWT, &'static str>("Username or password unknown"),
        },
{
    let hashed_pw = hash_str_to_hex(login_data.password_base64.as_str());
    match user {
        Some(user) => {
            if user.hashed_pw == hashed_pw {
                Ok(
                    JWT {
                        profile_picture_url: None,
                        user_name: login_data.name,
                        user_id: user.id,
                        user_roll: user.roll,
                    },
                )
            } else {
                Err("Username or password unknown")
            }
        },
        None => Err("Username or password unknown"),
    }
}

} // verus!
