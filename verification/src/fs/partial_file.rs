//! A part of a file sent as a `206 Partial Content` answer: which bytes, the
//! `Content-Range` header, and how reads and seeks inside the part map onto the file.
use vstd::prelude::*;
use vstd::string::StringExecFns;
use crate::text::{decimal, push_decimal, push_str};

verus! {

/// The bytes of the part: from `start` up to (inclusive) `start` plus the shorter of the
/// range's length and what the file holds from `start` on.
pub fn partial_range(start: u64, end: u64, total_size: u64) -> (res: (u64, u64))
    requires
        start <= end,
        end - start + 1 <= u64::MAX,
        start <= total_size,
    ensures
        res.0 == start,
        res.1 == start + if end - start + 1 < total_size - start {
            end - start + 1
        } else {
            total_size - start
        },
{
    let len = end - start + 1;
    let avail = total_size - start;
    let take = if len < avail {
        len
    } else {
        avail
    };
    (start, start + take)
}

/// The `Content-Range` header value `bytes <start>-<end>/<total>`.
pub open spec fn content_range_spec(start: u64, end: u64, total_size: u64) -> Seq<char> {
    "bytes "@ + decimal(start as nat) + "-"@ + decimal(end as nat) + "/"@ + decimal(total_size as nat)
}

/// The `Content-Range` header value of a part.
pub fn content_range(start: u64, end: u64, total_size: u64) -> (res: String)
    ensures
        res@ == content_range_spec(start, end, total_size),
{
    let mut res = String::from_str("bytes ");
    push_decimal(&mut res, start);
    push_str(&mut res, "-");
    push_decimal(&mut res, end);
    push_str(&mut res, "/");
    push_decimal(&mut res, total_size);
    res
}

/// The size of the answer body of a part: `(end - start) as usize + 1`.
pub fn body_size(start: u64, end: u64) -> (n: usize)
    requires
        start <= end,
        ((end - start) as usize) < usize::MAX,
    ensures
        n == ((end - start) as usize) + 1,
{
    (end - start) as usize + 1
}

/// How one read of the part proceeds.
#[derive(Debug, Clone, Copy, PartialEq, Eq, Structural)]
pub enum ReadPlan {
    /// The whole part was read; nothing more is read.
    Finished,
    /// Read at most this many bytes, through a buffer of that size.
    Limited(usize),
    /// Read straight into the caller's buffer.
    Direct,
}

/// The plan of a read after `bytes_read` bytes of the part `start..=end`, into a buffer
/// with room for `room` bytes (see `plan_partial_read`).
pub open spec fn read_plan_spec(start: u64, end: u64, bytes_read: int, room: usize) -> ReadPlan {
    let total = 1 + end - start;
    if bytes_read >= total {
        ReadPlan::Finished
    } else if room > ((total - bytes_read) as usize) {
        ReadPlan::Limited((total - bytes_read) as usize)
    } else {
        ReadPlan::Direct
    }
}

/// How a read proceeds after `bytes_read` bytes of the part `start..=end`, into a
/// buffer with room for `buf_remaining` bytes: finished once the whole part was read;
/// limited to what is left of the part when the buffer has room for more.
pub fn plan_partial_read(start: u64, end: u64, bytes_read: u64, buf_remaining: usize) -> (plan: ReadPlan)
    requires
        start <= end,
        end < u64::MAX,
    ensures
        plan == read_plan_spec(start, end, bytes_read as int, buf_remaining),
{
    let total_range = 1 + end - start;
    if bytes_read >= total_range {
        return ReadPlan::Finished;
    }
    let total_remaining = (total_range - bytes_read) as usize;
    if buf_remaining > total_remaining {
        ReadPlan::Limited(total_remaining)
    } else {
        ReadPlan::Direct
    }
}

/// The count of bytes read after a read that left `filled_after` bytes in the caller's
/// buffer, which held `filled_before` before; a limited read counts everything in the
/// buffer, including what it held before.
pub fn account_read(bytes_read: u64, limited: bool, filled_before: usize, filled_after: usize) -> (res: u64)
    requires
        limited || filled_before <= filled_after,
        bytes_read + filled_after <= u64::MAX,
    ensures
        res == bytes_read + filled_after - (if limited {
            0
        } else {
            filled_before as int
        }),
{
    let before: u64 = if limited {
        0
    } else {
        filled_before as u64
    };
    bytes_read + (filled_after as u64 - before)
}

/// A seek position, as `std::io::SeekFrom`.
#[derive(Debug, Clone, Copy, PartialEq, Eq, Structural)]
pub enum SeekTarget {
    Start(u64),
    End(i64),
    Current(i64),
}

/// The file position a seek inside the part `start..=end` of a file of `total_size`
/// bytes goes to: from the start of the part, from its end, or unchanged relative to
/// the current position (`end` and `total_size` taken as `i64`).
pub open spec fn map_seek_spec(pos: SeekTarget, start: u64, end: u64, total_size: u64) -> SeekTarget {
    match pos {
        SeekTarget::Start(s) => SeekTarget::Start((s + start) as u64),
        SeekTarget::End(e) => SeekTarget::End(((end as i64) - (total_size as i64) + 1 + e) as i64),
        SeekTarget::Current(c) => SeekTarget::Current(c),
    }
}

/// Maps a seek inside the part onto the file.
pub fn map_seek(pos: SeekTarget, start: u64, end: u64, total_size: u64) -> (res: SeekTarget)
    requires
        pos matches SeekTarget::Start(s) ==> s + start <= u64::MAX,
        pos matches SeekTarget::End(e) ==> {
            let d = (end as i64) - (total_size as i64);
            &&& i64::MIN <= d <= i64::MAX
            &&& i64::MIN <= d + 1 <= i64::MAX
            &&& i64::MIN <= d + 1 + e <= i64::MAX
        },
    ensures
        res == map_seek_spec(pos, start, end, total_size),
{
    match pos {
        SeekTarget::Start(s) => SeekTarget::Start(s + start),
        SeekTarget::End(e) => SeekTarget::End(end as i64 - total_size as i64 + 1 + e),
        SeekTarget::Current(c) => SeekTarget::Current(c),
    }
}

/// The position inside the part once a seek to file offset `ofs` completed.
pub fn completed_offset(ofs: u64, start: u64) -> (res: u64)
    requires
        start <= ofs,
    ensures
        res == ofs - start,
{
    ofs - start
}

/// A seek to position `s` inside the part goes to file offset `start + s`, and that
/// offset is reported back as position `s` once the seek completed.
pub proof fn lemma_seek_start_roundtrip(s: u64, start: u64, end: u64, total_size: u64)
    requires
        s + start <= u64::MAX,
    ensures
        map_seek_spec(SeekTarget::Start(s), start, end, total_size) matches SeekTarget::Start(ofs) && start
            <= ofs && ofs - start == s,
{
}

/// The bytes one read appends keep to its plan: none once the part was read, at most
/// the limit of a limited read, at most the room of the buffer otherwise. A read is
/// given as (room in the buffer, bytes the buffer held, bytes appended).
pub open spec fn read_keeps_to_plan(plan: ReadPlan, step: (usize, usize, usize)) -> bool {
    match plan {
        ReadPlan::Finished => step.2 == 0,
        ReadPlan::Limited(m) => step.2 <= m,
        ReadPlan::Direct => step.2 <= step.0,
    }
}

/// The count of bytes read after one read (as `account_read` counts it).
pub open spec fn bytes_read_after(plan: ReadPlan, bytes_read: int, step: (usize, usize, usize)) -> int {
    match plan {
        ReadPlan::Finished => bytes_read,
        ReadPlan::Limited(_) => bytes_read + step.1 + step.2,
        ReadPlan::Direct => bytes_read + step.2,
    }
}

/// Every read of the series `steps`, starting after `bytes_read` bytes, keeps to its plan.
pub open spec fn reads_keep_to_plan(start: u64, end: u64, bytes_read: int, steps: Seq<(usize, usize, usize)>) -> bool
    decreases steps.len(),
{
    if steps.len() == 0 {
        true
    } else {
        let plan = read_plan_spec(start, end, bytes_read, steps[0].0);
        read_keeps_to_plan(plan, steps[0]) && reads_keep_to_plan(
            start,
            end,
            bytes_read_after(plan, bytes_read, steps[0]),
            steps.drop_first(),
        )
    }
}

/// The bytes a series of reads appends, all reads together.
pub open spec fn appended_total(steps: Seq<(usize, usize, usize)>) -> int
    decreases steps.len(),
{
    if steps.len() == 0 {
        0
    } else {
        steps[0].2 + appended_total(steps.drop_first())
    }
}

/// A `usize` taken from a `u64` is never larger.
proof fn lemma_usize_of_u64(x: u64)
    ensures
        (x as usize) as int <= x as int,
{
    assert((x as usize) as u64 <= x) by (bit_vector);
}

/// Over any series of reads of a part, the reads together append no more than what was
/// left of the part when the series began (the whole part, for a new one); once the
/// whole part was read, reads append nothing.
pub proof fn lemma_reads_stay_within_part(start: u64, end: u64, bytes_read: int, steps: Seq<(usize, usize, usize)>)
    requires
        start <= end,
        end < u64::MAX,
        0 <= bytes_read,
        reads_keep_to_plan(start, end, bytes_read, steps),
    ensures
        appended_total(steps) <= if bytes_read >= 1 + end - start {
            0
        } else {
            1 + end - start - bytes_read
        },
    decreases steps.len(),
{
    if steps.len() > 0 {
        let total = 1 + end - start;
        let step = steps[0];
        let plan = read_plan_spec(start, end, bytes_read, step.0);
        if bytes_read < total {
            let left = (total - bytes_read) as u64;
            lemma_usize_of_u64(left);
        }
        lemma_reads_stay_within_part(start, end, bytes_read_after(plan, bytes_read, step), steps.drop_first());
    }
}

/// A read of a part is planned as finished exactly when the whole part was read: while
/// bytes of the part remain, a limited read may bring all that remain (at least one
/// byte), and a direct read may fill the caller's buffer, which has no more room than
/// remains. (What remains must fit a `usize`, which it always does where `usize` has 64
/// bits.)
pub proof fn lemma_reads_finish_only_when_part_was_read(start: u64, end: u64, bytes_read: int, room: usize)
    requires
        start <= end,
        end < u64::MAX,
        0 <= bytes_read,
        bytes_read < 1 + end - start ==> 1 + end - start - bytes_read <= usize::MAX,
    ensures
        (read_plan_spec(start, end, bytes_read, room) == ReadPlan::Finished) <==> bytes_read >= 1 + end
            - start,
        forall|m: usize|
            read_plan_spec(start, end, bytes_read, room) == ReadPlan::Limited(m) ==> 1 <= m && m == 1
                + end - start - bytes_read && m < room,
        read_plan_spec(start, end, bytes_read, room) == ReadPlan::Direct ==> bytes_read < 1 + end - start
            && room <= 1 + end - start - bytes_read,
{
}

} // verus!
