//! Downloads: the byte range a client asks for with a `Range` header, and the part
//! of a file that is sent for it.
use vstd::prelude::*;
use vstd::string::StringExecFns;
use crate::text::{chars_of, parse_unsigned, parse_unsigned_exec};

verus! {

/// What `regex::Regex::new(pattern)` and `Regex::captures(text)` give: for the first
/// match of `pattern` in `text`, the text of each capture group (group 0 is the whole
/// match; `None` for a group that did not take part); `None` when nothing matches.
pub uninterp spec fn regex_captures(pattern: Seq<char>, text: Seq<char>) -> Option<Seq<Option<Seq<char>>>>;

/// `regex::Regex::new(pattern)` then `captures(text)`: the capture groups of the first
/// match, named `regex_captures(pattern, text)`. A pattern that does not compile gives
/// `None`; the only pattern passed in compiles.
#[verifier::external_body]
fn first_captures(pattern: &str, text: &str) -> (res: Option<Vec<Option<String>>>)
    ensures
        match regex_captures(pattern@, text@) {
            Some(groups) => res is Some && res->0.deep_view() == groups,
            None => res is None,
        },
{
    let re = match regex::Regex::new(pattern) {
        Ok(re) => re,
        Err(_) => return None,
    };
    let caps = re.captures(text)?;
    let mut groups: Vec<Option<String>> = Vec::new();
    for m in caps.iter() {
        groups.push(match m {
            Some(m) => Some(m.as_str().to_string()),
            None => None,
        });
    }
    Some(groups)
}

/// The pattern a `Range` header value is matched against.
pub open spec fn range_pattern() -> Seq<char> {
    "bytes=(\\d+)-(\\d+)?"@
}

/// A byte range a client asked for: from `start` to `end` (inclusive), or to the end of
/// the file (as far as one partial answer goes) when `end` is `None`.
#[derive(Debug, Clone, Copy, PartialEq, Eq, Structural)]
pub struct RequestedRange {
    pub start: u64,
    pub end: Option<u64>,
}

/// The value of an optional group as a `u64`, as `parse::<u64>().ok()` gives it.
pub open spec fn group_u64(g: Option<Seq<char>>) -> Option<u64> {
    match g {
        Some(text) => match parse_unsigned(text, 10, u64::MAX as nat) {
            Some(v) => Some(v as u64),
            None => None,
        },
        None => None,
    }
}

/// The range that the capture groups of the range pattern describe: the start must
/// parse as a `u64`; an end that does not parse is dropped; a range whose end lies
/// before its start is refused.
pub open spec fn range_from_groups(groups: Seq<Option<Seq<char>>>) -> Option<RequestedRange> {
    let from = if groups.len() > 1 {
        group_u64(groups[1])
    } else {
        None
    };
    let to = if groups.len() > 2 {
        group_u64(groups[2])
    } else {
        None
    };
    match from {
        None => None,
        Some(f) => match to {
            Some(t) if t < f => None,
            _ => Some(RequestedRange { start: f, end: to }),
        },
    }
}

/// The range a `Range` header value asks for (`None`: the request is passed on to the
/// next handler).
pub open spec fn range_from_header_spec(header: Option<Seq<char>>) -> Option<RequestedRange> {
    match header {
        None => None,
        Some(h) => match regex_captures(range_pattern(), h) {
            None => None,
            Some(groups) => range_from_groups(groups),
        },
    }
}

fn group_to_u64(g: &Option<String>) -> (res: Option<u64>)
    ensures
        res == group_u64(g.deep_view()),
{
    match g {
        Some(text) => {
            let cs = chars_of(text.as_str());
            parse_unsigned_exec(cs.as_slice(), 10, u64::MAX)
        },
        None => None,
    }
}

impl RequestedRange {
    /// The range that the capture groups `groups` of the range pattern describe.
    pub fn from_groups(groups: &Vec<Option<String>>) -> (res: Option<Self>)
        ensures
            res == range_from_groups(groups.deep_view()),
    {
        let from = if groups.len() > 1 {
            group_to_u64(&groups[1])
        } else {
            None
        };
        let to = if groups.len() > 2 {
            group_to_u64(&groups[2])
        } else {
            None
        };
        match from {
            None => None,
            Some(f) => match to {
                Some(t) if t < f => None,
                _ => Some(RequestedRange { start: f, end: to }),
            },
        }
    }

    /// The range asked for by the value of a `Range` header: the value is matched against `bytes=(\d+)-(\d+)?`, and the groups of the
    /// first match are read as `from_groups` says.
    pub fn from_header(header: Option<&str>) -> (res: Option<Self>)
        ensures
            res == range_from_header_spec(match header {
                Some(h) => Some(h@),
                None => None,
            }),
    {
        match header {
            None => None,
            Some(raw) => {
                let pattern = String::from_str("bytes=(\\d+)-(\\d+)?");
                match first_captures(pattern.as_str(), raw) {
                    None => None,
                    Some(groups) => Self::from_groups(&groups),
                }
            },
        }
    }
}

/// The most that one partial answer sends when the client gave no end: one MiB.
pub const PARTIAL_MAX_SIZE: u64 = 1048576;

/// The last byte sent for a range: its end, or `PARTIAL_MAX_SIZE` bytes after its start
/// when it has none, but never past the last byte of the file.
pub open spec fn partial_end(range: RequestedRange, total_size: u64) -> int {
    let wanted: int = match range.end {
        Some(e) => e as int,
        None => range.start + PARTIAL_MAX_SIZE - 1,
    };
    if wanted < total_size - 1 {
        wanted
    } else {
        total_size - 1
    }
}

/// The first and last byte sent for `range` of a file of `total_size` bytes; `None`
/// (not found) when the range starts at or past the end of the file.
pub fn partial_bounds(range: &RequestedRange, total_size: u64) -> (res: Option<(u64, u64)>)
    requires
        total_size > range.start && range.end is None ==> range.start + PARTIAL_MAX_SIZE
            <= u64::MAX,
    ensures
        total_size <= range.start ==> res is None,
        total_size > range.start ==> res == Some((range.start, partial_end(*range, total_size) as u64)),
{
    let start = range.start;
    if total_size <= start {
        return None;
    }
    let wanted = match range.end {
        Some(e) => e,
        None => start + PARTIAL_MAX_SIZE - 1,
    };
    let end = if wanted < total_size - 1 {
        wanted
    } else {
        total_size - 1
    };
    Some((start, end))
}

/// A range read from a header has its end at or after its start.
pub proof fn lemma_header_range_ordered(header: Option<Seq<char>>)
    requires
        range_from_header_spec(header) is Some,
    ensures
        ({
            let r = range_from_header_spec(header)->0;
            r.end matches Some(e) ==> r.start <= e
        }),
{
}

/// The part sent for a range lies inside the file and starts at the range's start;
/// without an explicit end it is at most `PARTIAL_MAX_SIZE` bytes long.
pub proof fn lemma_partial_bounds_inside(range: RequestedRange, total_size: u64)
    requires
        total_size > range.start,
        range.end matches Some(e) ==> range.start <= e,
    ensures
        range.start <= partial_end(range, total_size) < total_size,
        range.end is None ==> partial_end(range, total_size) - range.start + 1 <= PARTIAL_MAX_SIZE,
{
}

/// The last byte sent for a range: with an end `e` given by the client, `e` itself, or the
/// last byte of the file when `e` lies past it; the one-MiB limit applies only to a
/// range without an end, which runs `PARTIAL_MAX_SIZE` bytes from its start, or to the
/// end of the file when that comes first.
pub proof fn lemma_partial_end_follows_the_client(range: RequestedRange, total_size: u64)
    requires
        total_size > range.start,
    ensures
        forall|e: u64|
            range.end == Some(e) && range.start <= e ==> partial_end(range, total_size) == if e
                <= total_size - 1 {
                e as int
            } else {
                total_size - 1
            },
        range.end is None ==> partial_end(range, total_size) == if range.start + PARTIAL_MAX_SIZE
            <= total_size {
            range.start + PARTIAL_MAX_SIZE - 1
        } else {
            total_size - 1
        },
{
}

/// A range is refused only when it has no start that reads as a `u64`, or when its end
/// lies strictly before its start: a start `f` and an end `t >= f` (one byte, `t == f`,
/// included) give the range from `f` to `t`; a start without a readable end gives the
/// range from `f` on.
pub proof fn lemma_range_refused_only_when_reversed(groups: Seq<Option<Seq<char>>>, f: u64, t: u64)
    requires
        groups.len() > 2,
        group_u64(groups[1]) == Some(f),
    ensures
        group_u64(groups[2]) == Some(t) && f <= t ==> range_from_groups(groups) == Some(
            RequestedRange { start: f, end: Some(t) },
        ),
        group_u64(groups[2]) == Some(t) && t < f ==> range_from_groups(groups) is None,
        group_u64(groups[2]) is None ==> range_from_groups(groups) == Some(
            RequestedRange { start: f, end: None },
        ),
        range_from_groups(groups) is None <==> (exists|e: u64| group_u64(groups[2]) == Some(e) && e < f),
{
}

} // verus!
