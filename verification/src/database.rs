//! Users as the user table stores them.
use vstd::prelude::*;
use crate::auth::UserID;
use vstd::std_specs::convert::TryFromSpecImpl;

verus! {

/// How a user is looked up.
pub enum GetUserQuery<'a> {
    ByName(&'a str),
    ByID(&'a UserID),
}

/// The role of a user; the table stores it as 0 (guest), 1 (user) or 2 (admin).
#[derive(Debug, Clone, Copy, PartialEq, Eq, Structural)]
pub enum UserRoll {
    Guest,
    User,
    Admin,
}

/// The role stored as `value`, if `value` is 0, 1 or 2.
pub open spec fn roll_of(value: u32) -> Option<UserRoll> {
    if value == 0 {
        Some(UserRoll::Guest)
    } else if value == 1 {
        Some(UserRoll::User)
    } else if value == 2 {
        Some(UserRoll::Admin)
    } else {
        None
    }
}

/// The number a role is stored as.
pub open spec fn roll_number(r: UserRoll) -> u32 {
    match r {
        UserRoll::Guest => 0,
        UserRoll::User => 1,
        UserRoll::Admin => 2,
    }
}

impl TryFrom<u32> for UserRoll {
    type Error = ();

    fn try_from(value: u32) -> (res: Result<Self, Self::Error>) {
        match value {
            0 => Ok(UserRoll::Guest),
            1 => Ok(UserRoll::User),
            2 => Ok(UserRoll::Admin),
            _ => Err(()),
        }
    }
}

impl TryFromSpecImpl<u32> for UserRoll {
    open spec fn obeys_try_from_spec() -> bool {
        true
    }

    open spec fn try_from_spec(value: u32) -> Result<Self, Self::Error> {
        match roll_of(value) {
            Some(r) => Ok(r),
            None => Err(()),
        }
    }
}

impl UserRoll {
    /// The number the user table stores for this role.
    pub fn as_number(&self) -> (n: u32)
        ensures
            n == roll_number(*self),
    {
        match self {
            UserRoll::Guest => 0,
            UserRoll::User => 1,
            UserRoll::Admin => 2,
        }
    }
}

/// Reading a role back from the number it is stored as gives the role.
pub proof fn lemma_roll_number_roundtrip(r: UserRoll)
    ensures
        roll_of(roll_number(r)) == Some(r),
{
}

/// A user as the user table stores it.
#[derive(Debug)]
pub struct DBUser {
    pub name: String,
    pub id: UserID,
    pub hashed_pw: String,
    pub roll: UserRoll,
}

/// The user a table row holds: refused when the id is not exactly 8 bytes long; a role
/// column that is missing or not 0, 1 or 2 reads as `Guest`.
pub fn user_from_row(id: String, name: String, hashed_pw: String, roll: Option<u32>) -> (res: Option<DBUser>)
    ensures
        match res {
            Some(u) => {
                &&& vstd::utf8::encode_utf8(id@).len() == 8
                &&& u.id.0@ == id@
                &&& u.name@ == name@
                &&& u.hashed_pw@ == hashed_pw@
                &&& u.roll == (match roll {
                    Some(v) => match roll_of(v) {
                        Some(r) => r,
                        None => UserRoll::Guest,
                    },
                    None => UserRoll::Guest,
                })
            },
            None => vstd::utf8::encode_utf8(id@).len() != 8,
        },
{
    let ghost id_view = id@;
    let uid: UserID = match UserID::try_from(id) {
        Ok(u) => u,
        Err(_) => {
            return None;
        },
    };
    let r: UserRoll = match roll {
        Some(v) => match UserRoll::try_from(v) {
            Ok(r) => r,
            Err(_) => UserRoll::Guest,
        },
        None => UserRoll::Guest,
    };
    Some(DBUser { name, id: uid, hashed_pw, roll: r })
}

} // verus!
