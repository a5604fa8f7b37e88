//! Rules behind the HTTP handlers: input checks, paging, how an upstream
//! beatmap fetch maps to an error, and which searched users are shown.
use crate::errors::{Error, ErrorCode};
use vstd::prelude::*;

verus! {

/// A calculation request must give exactly one of an accuracy or the full
/// triple of hit counts.
pub open spec fn calculate_inputs_ok(
    has_accuracy: bool,
    count_300: Option<i32>,
    count_100: Option<i32>,
    count_50: Option<i32>,
) -> bool {
    has_accuracy != (count_300 is Some && count_100 is Some && count_50 is Some)
}

pub fn check_calculate_inputs(
    has_accuracy: bool,
    count_300: Option<i32>,
    count_100: Option<i32>,
    count_50: Option<i32>,
) -> (r: Result<(), Error>)
    ensures
        r is Ok <==> calculate_inputs_ok(has_accuracy, count_300, count_100, count_50),
        r matches Err(e) ==> e.error_code == ErrorCode::BadRequest,
{
    let have_hits = count_300.is_some() && count_100.is_some() && count_50.is_some();
    if has_accuracy != have_hits {
        Ok(())
    } else {
        Err(Error::new(ErrorCode::BadRequest, "you must pass accuracy OR hit results"))
    }
}

/// A ruleset must be one of the four known ones.
pub fn check_mode(mode: i32) -> (r: Result<(), Error>)
    ensures
        r is Ok <==> 0 <= mode <= 3,
        r matches Err(e) ==> e.error_code == ErrorCode::BadRequest,
{
    if 0 <= mode && mode <= 3 {
        Ok(())
    } else {
        Err(Error::new(ErrorCode::BadRequest, "Invalid mode"))
    }
}

/// The rows a leaderboard page covers: pages count from 1 (lower pages read
/// as the first), each `amount` rows long.
pub open spec fn page_offset_of(page: i32, amount: i32) -> int {
    (if page < 1 {
        0
    } else {
        page - 1
    }) * amount
}

/// The offset of the first row of a leaderboard page.
pub fn page_offset(page: i32, amount: i32) -> (r: i64)
    ensures
        r == page_offset_of(page, amount),
{
    let index: i64 = if page < 1 {
        0
    } else {
        page as i64 - 1
    };
    proof {
        assert(-2147483648 * 2147483647 <= index * amount <= 2147483647 * 2147483647)
            by (nonlinear_arith)
            requires
                0 <= index <= 2147483646,
                -2147483648 <= amount <= 2147483647,
        ;
    }
    index * amount as i64
}

/// The error an upstream beatmap fetch ends in: `status` is the HTTP status
/// (`None` when no answer came), `body_read` whether the body was read. Only
/// a success status (200 to 299) with a readable body succeeds; a 404 means
/// the beatmap does not exist; any other status, a network failure or an
/// unreadable body is a failed dependency.
pub open spec fn fetch_error_of(status: Option<u16>, body_read: bool) -> Option<ErrorCode> {
    match status {
        None => Some(ErrorCode::DependencyFailed),
        Some(s) => if s == 404 {
            Some(ErrorCode::NotFound)
        } else if !(200 <= s <= 299) {
            Some(ErrorCode::DependencyFailed)
        } else if !body_read {
            Some(ErrorCode::DependencyFailed)
        } else {
            None
        },
    }
}

/// Maps the outcome of an upstream beatmap fetch as `fetch_error_of` states:
/// success only for a 2xx status with a readable body, "not found" for a
/// 404, a failed dependency otherwise.
pub fn beatmap_fetch_result(status: Option<u16>, body_read: bool) -> (r: Result<(), Error>)
    ensures
        match fetch_error_of(status, body_read) {
            None => r is Ok,
            Some(code) => r matches Err(e) && e.error_code == code,
        },
{
    match status {
        None => Err(Error::new(ErrorCode::DependencyFailed, "Network error while fetching beatmap")),
        Some(s) => {
            if s == 404 {
                Err(Error::new(ErrorCode::NotFound, "Beatmap not found"))
            } else if !(200 <= s && s <= 299) {
                Err(Error::new(ErrorCode::DependencyFailed, "Failed to fetch beatmap osu file"))
            } else if !body_read {
                Err(Error::new(ErrorCode::DependencyFailed, "Failed to read response bytes"))
            } else {
                Ok(())
            }
        },
    }
}

/// The positions, in order, of the searched users that have stats under the
/// rework.
pub open spec fn kept_positions(in_rework: Seq<bool>) -> Seq<usize>
    decreases in_rework.len(),
{
    if in_rework.len() == 0 {
        Seq::empty()
    } else if in_rework.last() {
        kept_positions(in_rework.drop_last()).push((in_rework.len() - 1) as usize)
    } else {
        kept_positions(in_rework.drop_last())
    }
}

/// Keeps the searched users that appear in the rework: `in_rework[i]` tells
/// whether user `i` of the search has stats under it.
pub fn users_in_rework(in_rework: &Vec<bool>) -> (r: Vec<usize>)
    ensures
        r@ == kept_positions(in_rework@),
{
    let mut out: Vec<usize> = Vec::new();
    let mut i: usize = 0;
    while i < in_rework.len()
        invariant
            i <= in_rework@.len(),
            out@ == kept_positions(in_rework@.subrange(0, i as int)),
        decreases in_rework@.len() - i,
    {
        proof {
            let next = in_rework@.subrange(0, i + 1);
            assert(next.drop_last() == in_rework@.subrange(0, i as int));
            assert(next.last() == in_rework@[i as int]);
        }
        if in_rework[i] {
            out.push(i);
        }
        i = i + 1;
    }
    proof {
        assert(in_rework@.subrange(0, in_rework@.len() as int) == in_rework@);
    }
    out
}

} // verus!
