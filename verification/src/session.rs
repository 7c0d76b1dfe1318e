//! Session validation: from a token to the user it stands for.

use crate::error::Error;
use crate::seqs::{lemma_filter_empty, lemma_filter_kept, lemma_filter_take_step, lemma_first_kept};
use crate::store::{SessionRow, SessionRowView};
use crate::text::text_eq;
use crate::time::Timestamp;
use vstd::prelude::*;

verus! {

/// The sessions that let `token` in at `now`: those with that key that expire
/// strictly after `now`.
pub open spec fn admits(token: Seq<char>, now: int) -> spec_fn(SessionRowView) -> bool {
    |row: SessionRowView| row.session_key == token && row.expire_at > now
}

/// The user that `token` stands for at `now`: the user of the first session
/// that admits it, if there is one.
pub open spec fn validated_user(sessions: Seq<SessionRowView>, token: Seq<char>, now: int) -> Option<
    i32,
> {
    let admitting = sessions.filter(admits(token, now));
    if admitting.len() > 0 {
        Some(admitting.first().user_id)
    } else {
        None
    }
}

/// A token whose sessions have all expired, however lately, stands for
/// nobody.
pub proof fn lemma_expired_session_is_refused(
    sessions: Seq<SessionRowView>,
    token: Seq<char>,
    now: int,
)
    requires
        forall|i: int|
            0 <= i < sessions.len() && (#[trigger] sessions[i]).session_key == token
                ==> sessions[i].expire_at <= now,
    ensures
        validated_user(sessions, token, now) is None,
{
    if sessions.filter(admits(token, now)).len() > 0 {
        lemma_filter_kept(sessions, admits(token, now), 0);
    }
}

/// A token is let in exactly if some session has its key and has not expired.
pub proof fn lemma_validated_iff_admitted(sessions: Seq<SessionRowView>, token: Seq<char>, now: int)
    ensures
        validated_user(sessions, token, now) is Some <==> exists|i: int|
            0 <= i < sessions.len() && (#[trigger] sessions[i]).session_key == token
                && sessions[i].expire_at > now,
{
    let keep = admits(token, now);
    if sessions.filter(keep).len() > 0 {
        lemma_filter_kept(sessions, keep, 0);
    }
    if exists|i: int|
        0 <= i < sessions.len() && (#[trigger] sessions[i]).session_key == token
            && sessions[i].expire_at > now {
        let i = choose|i: int|
            0 <= i < sessions.len() && (#[trigger] sessions[i]).session_key == token
                && sessions[i].expire_at > now;
        sessions.lemma_filter_contains(keep, i);
    }
}

/// Checks `token` against the sessions at the instant `now`.
///
/// Fails with `Unauthenticated` where no session has the token's key, and
/// where those that have it expire at `now` or earlier.
pub fn validate(sessions: &Vec<SessionRow>, token: &str, now: Timestamp) -> (result: Result<
    i32,
    Error,
>)
    ensures
        result == match validated_user(sessions.deep_view(), token@, now@) {
            Some(user_id) => Ok::<i32, Error>(user_id),
            None => Err::<i32, Error>(Error::Unauthenticated),
        },
        (forall|i: int|
            0 <= i < sessions.len() && (#[trigger] sessions.deep_view()[i]).session_key == token@
                ==> sessions.deep_view()[i].expire_at <= now@) ==> result == Err::<i32, Error>(
            Error::Unauthenticated,
        ),
{
    let ghost rows = sessions.deep_view();
    let ghost keep = admits(token@, now@);
    proof {
        if forall|i: int|
            0 <= i < rows.len() && (#[trigger] rows[i]).session_key == token@ ==> rows[i].expire_at
                <= now@ {
            lemma_expired_session_is_refused(rows, token@, now@);
        }
        lemma_filter_empty(keep);
    }
    let mut i: usize = 0;
    while i < sessions.len()
        invariant
            i <= sessions.len(),
            rows == sessions.deep_view(),
            keep == admits(token@, now@),
            rows.take(i as int).filter(keep).len() == 0,
        decreases sessions.len() - i,
    {
        let row = &sessions[i];
        if text_eq(row.session_key.as_str(), token) && row.expire_at.is_after(&now) {
            proof {
                lemma_first_kept(rows, keep, i as int);
            }
            return Ok(row.user_id);
        }
        proof {
            lemma_filter_take_step(rows, i as int, keep);
        }
        i += 1;
    }
    proof {
        assert(rows.take(i as int) =~= rows);
    }
    Err(Error::Unauthenticated)
}

} // verus!
