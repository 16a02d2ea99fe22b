//! Shared folders: the id under which a folder is shared and what it points to.
use vstd::prelude::*;
use crate::auth::UserID;
use crate::text::string_of;
use crate::utils::{get_rand_token, is_token_byte};

verus! {

/// The id under which a folder is shared.
#[derive(Debug)]
pub struct SharedID(String);

impl View for SharedID {
    type V = Seq<char>;

    closed spec fn view(&self) -> Seq<char> {
        self.0@
    }
}

impl SharedID {
    /// The id `id`, taken as it is.
    pub fn from_string_unchecked(id: String) -> (res: Self)
        ensures
            res@ == id@,
    {
        Self(id)
    }

    /// The id `id` if the database reports it as the id of an active share
    /// (`is_active`), `None` otherwise.
    pub fn from_string_checked(id: String, is_active: bool) -> (res: Option<Self>)
        ensures
            is_active ==> res is Some && res->0@ == id@,
            !is_active ==> res is None,
    {
        if is_active {
            Some(Self(id))
        } else {
            None
        }
    }

    /// The id as text.
    pub fn as_str(&self) -> (res: &str)
        ensures
            res@ == self@,
    {
        self.0.as_str()
    }
}

/// A share: its id, the user who shares, and the shared folder (a path below that
/// user's folder).
#[derive(Debug)]
pub struct SharedEntry {
    pub share_id: SharedID,
    pub user: UserID,
    pub path: String,
}

/// Folders and files are shared alike; only a path that does not exist is refused.
pub fn may_share_path(exists: bool) -> (r: bool)
    ensures
        r == exists,
{
    exists
}

/// How many share ids are tried before giving up on finding a free one.
pub const SHARE_ID_ATTEMPTS: u32 = 100;

/// The upload limit a share is stored with: a limit of 0 means none.
pub fn normalize_upload_limit(limit: Option<u32>) -> (res: Option<u32>)
    ensures
        res == (match limit {
            Some(0) => None,
            other => other,
        }),
{
    match limit {
        Some(0) => None,
        other => other,
    }
}

/// A random candidate share id: 16 ASCII letters and digits.
pub fn random_share_id() -> (id: String)
    ensures
        id@.len() == 16,
        forall|i: int| 0 <= i < 16 ==> is_token_byte(#[trigger] id@[i] as u8) && (id@[i] as u32) < 128,
{
    let token: [u8; 16] = get_rand_token::<16>();
    let mut cs: Vec<char> = Vec::new();
    let mut i: usize = 0;
    while i < 16
        invariant
            i <= 16,
            cs@.len() == i,
            forall|j: int| 0 <= j < 16 ==> is_token_byte(#[trigger] token@[j]),
            forall|j: int| 0 <= j < i ==> cs@[j] == token@[j] as char,
        decreases 16 - i,
    {
        cs.push(token[i] as char);
        i += 1;
    }
    let id = string_of(cs.as_slice());
    assert forall|j: int| 0 <= j < 16 implies is_token_byte(#[trigger] id@[j] as u8) && (id@[j] as u32) < 128 by {
        assert(id@[j] == token@[j] as char);
        assert(is_token_byte(token@[j]));
    }
    id
}

/// What the database said about a candidate share id.
#[derive(Debug, Clone, Copy, PartialEq, Eq, Structural)]
pub enum IdCheck {
    /// No share has this id.
    Free,
    /// A share already has this id.
    Taken,
    /// The query failed.
    Failed,
}

/// What the search for a free share id does next.
#[derive(Debug)]
pub enum SearchStep {
    /// Check this new candidate.
    TryCandidate(String),
    /// This id is free.
    Found(SharedID),
    /// No free id was found.
    GiveUp,
}

/// The search for a new share id, after the candidate of attempt `attempt` (from 1)
/// was checked: a free candidate is taken; a failed query ends the search; a taken
/// one is followed by a new random candidate, up to `SHARE_ID_ATTEMPTS` attempts.
pub fn share_id_search_step(attempt: u32, candidate: String, check: IdCheck) -> (step: SearchStep)
    ensures
        match check {
            IdCheck::Free => step matches SearchStep::Found(id) && id@ == candidate@,
            IdCheck::Failed => step matches SearchStep::GiveUp,
            IdCheck::Taken => if attempt < SHARE_ID_ATTEMPTS {
                step matches SearchStep::TryCandidate(c) && c@.len() == 16 && forall|i: int|
                    0 <= i < 16 ==> is_token_byte(#[trigger] c@[i] as u8) && (c@[i] as u32) < 128
            } else {
                step matches SearchStep::GiveUp
            },
        },
{
    match check {
        IdCheck::Free => SearchStep::Found(SharedID::from_string_unchecked(candidate)),
        IdCheck::Failed => SearchStep::GiveUp,
        IdCheck::Taken => {
            if attempt < SHARE_ID_ATTEMPTS {
                SearchStep::TryCandidate(random_share_id())
            } else {
                SearchStep::GiveUp
            }
        },
    }
}

/// What updating a share writes to the database.
#[derive(Debug)]
pub enum ShareUpdate {
    /// Insert, or replace, the share with this id and upload limit.
    Store(SharedID, Option<u32>),
    /// Delete the share this user has of this path (and no other).
    Delete(UserID, String),
}

/// The write that sets the share state of `path` for `user`: with a share id (the
/// path's existing one, or a new one, when sharing is enabled) it is stored with the
/// normalised upload limit; without one (sharing disabled, or no free id found) the
/// user's share of the path is deleted.
pub fn share_write(user: &UserID, path: &str, share_id: Option<SharedID>, upload_limit: Option<u32>) -> (w:
    ShareUpdate)
    ensures
        match share_id {
            Some(id) => w matches ShareUpdate::Store(i, l) && i@ == id@ && l == (match upload_limit {
                Some(0) => None,
                other => other,
            }),
            None => w matches ShareUpdate::Delete(u, p) && u == *user && p@ == path@,
        },
{
    match share_id {
        Some(id) => ShareUpdate::Store(id, normalize_upload_limit(upload_limit)),
        None => ShareUpdate::Delete(user.clone(), string_of(crate::text::chars_of(path).as_slice())),
    }
}

/// A row of the share table: share id, user id, path.
pub type ShareRow = (Seq<char>, Seq<char>, Seq<char>);

/// The share table after a write: a store puts the row `(id, user, path)` in place of any
/// row with that id; a delete takes out exactly the rows of that user and path.
pub open spec fn rows_after_write(rows: Seq<ShareRow>, user: Seq<char>, path: Seq<char>, w: ShareUpdate) -> Seq<ShareRow> {
    match w {
        ShareUpdate::Store(id, _) => rows.filter(|r: ShareRow| r.0 != id@).push((id@, user, path)),
        ShareUpdate::Delete(u, p) => rows.filter(|r: ShareRow| !(r.1 == u.0@ && r.2 == p@)),
    }
}

/// Disabling a share takes out only the caller's share of the path: every row of another
/// user, or of another path, stays; no row of the caller for that path is left.
pub proof fn lemma_unshare_keeps_other_rows(rows: Seq<ShareRow>, user: UserID, path: Seq<char>, w: ShareUpdate)
    requires
        w matches ShareUpdate::Delete(u, p) && u == user && p@ == path,
    ensures
        forall|r: ShareRow|
            rows.contains(r) && (r.1 != user.0@ || r.2 != path) ==> #[trigger] rows_after_write(
                rows,
                user.0@,
                path,
                w,
            ).contains(r),
        forall|r: ShareRow|
            #[trigger] rows_after_write(rows, user.0@, path, w).contains(r) ==> rows.contains(r) && !(r.1
                == user.0@ && r.2 == path),
{
    let pred = |r: ShareRow| !(r.1 == user.0@ && r.2 == path);
    let (u, p) = match w {
        ShareUpdate::Delete(u, p) => (u, p),
        ShareUpdate::Store(_, _) => (user, user.0),
    };
    let q = |r: ShareRow| !(r.1 == u.0@ && r.2 == p@);
    assert(q =~= pred);
    assert(rows_after_write(rows, user.0@, path, w) == rows.filter(pred));
    broadcast use vstd::seq_lib::group_filter_ensures;
    assert forall|r: ShareRow| rows.contains(r) && (r.1 != user.0@ || r.2 != path) implies #[trigger] rows.filter(
        pred,
    ).contains(r) by {
        let i = choose|i: int| 0 <= i < rows.len() && rows[i] == r;
        assert(pred(rows[i]));
    }
    assert forall|r: ShareRow| #[trigger] rows.filter(pred).contains(r) implies rows.contains(r) && pred(r) by {
        rows.lemma_filter_contains_rev(pred, r);
        let i = choose|i: int| 0 <= i < rows.filter(pred).len() && rows.filter(pred)[i] == r;
        assert(pred(rows.filter(pred)[i]));
    }
}

} // verus!
