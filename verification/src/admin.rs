//! The admin pages: the user list, and the size and cleanup of the preview cache.
use vstd::prelude::*;
use vstd::string::StringExecFns;
use crate::database::{DBUser, UserRoll};
use crate::fs::previews::before_underscore;
use crate::text::{chars_of, decimal, occurs_at, parse_unsigned, parse_unsigned_exec, push_chars, push_decimal, push_str, string_of};

verus! {

/// Only admins may see the admin pages.
pub fn may_see_admin_pages(roll: UserRoll) -> (r: bool)
    ensures
        r == (roll == UserRoll::Admin),
{
    roll == UserRoll::Admin
}

/// The table row of one user on the admin page (with a trailing line break).
pub open spec fn user_row(name: Seq<char>, id: Seq<char>) -> Seq<char> {
    "\n            <tr>\n                <td>"@ + name
        + "</td>\n                <td class=\"pw-change\">\n                    <input type=\"text\"></input>\n                    <button onclick=\"changePassword('"@
        + id + "')\">Change</button>\n                </td>\n            </tr>"@ + "\n"@
}

/// The rows of all users, in order.
pub open spec fn user_rows(users: Seq<DBUser>) -> Seq<char>
    decreases users.len(),
{
    if users.len() == 0 {
        Seq::<char>::empty()
    } else {
        user_rows(users.drop_last()) + user_row(users.last().name@, users.last().id.0@)
    }
}

/// `s` with every occurrence of `pat` (a non-empty text) replaced by `rep`, the
/// occurrences taken from left to right without overlapping (as `str::replace`).
pub open spec fn replace_all(s: Seq<char>, pat: Seq<char>, rep: Seq<char>) -> Seq<char>
    decreases s.len(),
{
    if pat.len() == 0 || s.len() < pat.len() {
        s
    } else if s.take(pat.len() as int) == pat {
        rep + replace_all(s.skip(pat.len() as int), pat, rep)
    } else {
        seq![s[0]] + replace_all(s.drop_first(), pat, rep)
    }
}

/// `s` with every occurrence of the non-empty text `pat` replaced by `rep`.
pub fn replace_all_exec(s: &str, pat: &str, rep: &str) -> (res: String)
    requires
        pat@.len() > 0,
    ensures
        res@ == replace_all(s@, pat@, rep@),
{
    let sc = chars_of(s);
    let pc = chars_of(pat);
    let rc = chars_of(rep);
    let mut out = String::new();
    let mut i: usize = 0;
    assert(sc@.skip(0) =~= sc@);
    while i < sc.len()
        invariant
            i <= sc.len(),
            sc@ == s@,
            pc@ == pat@,
            rc@ == rep@,
            pat@.len() > 0,
            replace_all(s@, pat@, rep@) == out@ + replace_all(sc@.skip(i as int), pat@, rep@),
        decreases sc.len() - i,
    {
        let ghost rest = sc@.skip(i as int);
        if pc.len() <= sc.len() - i && crate::text::occurs_at_exec(sc.as_slice(), pc.as_slice(), i) {
            assert(rest.take(pat@.len() as int) =~= sc@.subrange(i as int, i + pat@.len()));
            assert(rest.skip(pat@.len() as int) =~= sc@.skip(i + pc@.len()));
            let ghost old_out = out@;
            push_chars(&mut out, rc.as_slice());
            assert(old_out + (rep@ + replace_all(sc@.skip(i + pc@.len()), pat@, rep@)) =~= out@
                + replace_all(sc@.skip(i + pc@.len()), pat@, rep@));
            i = i + pc.len();
        } else {
            proof {
                if rest.len() >= pat@.len() {
                    assert(rest.take(pat@.len() as int) =~= sc@.subrange(i as int, i + pat@.len()));
                }
            }
            assert(rest.drop_first() =~= sc@.skip(i + 1));
            assert(rest[0] == sc@[i as int]);
            let ghost old_out = out@;
            out.push(sc[i]);
            assert(old_out + (seq![sc@[i as int]] + replace_all(sc@.skip(i + 1), pat@, rep@)) =~= out@
                + replace_all(sc@.skip(i + 1), pat@, rep@));
            i += 1;
        }
    }
    assert(sc@.skip(i as int) =~= Seq::<char>::empty());
    assert(out@ + Seq::<char>::empty() =~= out@);
    out
}

/// The user rows of the admin page.
pub fn render_user_rows(users: &Vec<DBUser>) -> (res: String)
    ensures
        res@ == user_rows(users@),
{
    let mut res = String::new();
    let mut i: usize = 0;
    while i < users.len()
        invariant
            i <= users.len(),
            res@ == user_rows(users@.take(i as int)),
        decreases users.len() - i,
    {
        assert(users@.take(i + 1).drop_last() =~= users@.take(i as int));
        let ghost before = res@;
        push_str(&mut res, "\n            <tr>\n                <td>");
        push_str(&mut res, users[i].name.as_str());
        push_str(
            &mut res,
            "</td>\n                <td class=\"pw-change\">\n                    <input type=\"text\"></input>\n                    <button onclick=\"changePassword('",
        );
        push_str(&mut res, users[i].id.0.as_str());
        push_str(&mut res, "')\">Change</button>\n                </td>\n            </tr>");
        push_str(&mut res, "\n");
        assert(res@ =~= before + user_row(users@[i as int].name@, users@[i as int].id.0@));
        i += 1;
    }
    assert(users@.take(users@.len() as int) =~= users@);
    res
}

/// The admin page: the page template with `{{users}}` replaced by the user rows.
pub fn render_admin_page(template: &str, users: &Vec<DBUser>) -> (res: String)
    ensures
        res@ == replace_all(template@, "{{users}}"@, user_rows(users@)),
{
    let rows = render_user_rows(users);
    proof {
        reveal_strlit("{{users}}");
    }
    replace_all_exec(template, "{{users}}", rows.as_str())
}

/// The resolution a cached preview file name starts with, read as a `usize`; 0 when
/// it does not start with one.
pub open spec fn cache_file_resolution(name: Seq<char>) -> nat {
    match parse_unsigned(before_underscore(name), 10, usize::MAX as nat) {
        Some(v) => v,
        None => 0,
    }
}

/// The size (in bytes) of all files in the preview cache.
pub open spec fn cache_total(sizes: Seq<u64>) -> nat
    decreases sizes.len(),
{
    if sizes.len() == 0 {
        0
    } else {
        cache_total(sizes.drop_last()) + sizes.last() as nat
    }
}

/// The page that reports the size of the preview cache.
pub open spec fn image_cache_page(total_size: nat, count: nat) -> Seq<char> {
    "\n    <html>\n        <body>\n            <p>\n                Total image bytes cached: "@ + decimal(
        total_size,
    ) + " ("@ + decimal(count) + " images)\n            </p>\n        </body>\n    </html>\n    "@
}

/// The size report of the preview cache, from the names and sizes of its files. Every
/// file name must start with a resolution of at most 2048 or with none (the files are
/// tallied by resolution in a table of 2049 slots), the
/// sizes must add up within a `u64`, and there must be fewer than 2^31 files.
pub fn image_cache_report(names: &Vec<String>, sizes: &Vec<u64>) -> (page: String)
    requires
        names@.len() == sizes@.len(),
        names@.len() < 0x8000_0000,
        cache_total(sizes@) <= u64::MAX,
        forall|i: int| 0 <= i < names@.len() ==> cache_file_resolution(#[trigger] names@[i]@) <= 2048,
    ensures
        page@ == image_cache_page(cache_total(sizes@), sizes@.len() as nat),
{
    let mut total: u64 = 0;
    let mut i: usize = 0;
    while i < sizes.len()
        invariant
            i <= sizes.len(),
            cache_total(sizes@) <= u64::MAX,
            total == cache_total(sizes@.take(i as int)),
        decreases sizes.len() - i,
    {
        assert(sizes@.take(i + 1).drop_last() =~= sizes@.take(i as int));
        proof {
            lemma_cache_total_prefix(sizes@, i + 1);
        }
        total = total + sizes[i];
        i += 1;
    }
    assert(sizes@.take(sizes@.len() as int) =~= sizes@);
    let mut page = String::from_str(
        "\n    <html>\n        <body>\n            <p>\n                Total image bytes cached: ",
    );
    push_decimal(&mut page, total);
    push_str(&mut page, " (");
    push_decimal(&mut page, sizes.len() as u64);
    push_str(&mut page, " images)\n            </p>\n        </body>\n    </html>\n    ");
    page
}

proof fn lemma_cache_total_prefix(sizes: Seq<u64>, i: int)
    requires
        0 <= i <= sizes.len(),
    ensures
        cache_total(sizes.take(i)) <= cache_total(sizes),
    decreases sizes.len() - i,
{
    if i < sizes.len() {
        lemma_cache_total_prefix(sizes, i + 1);
        assert(sizes.take(i + 1).drop_last() =~= sizes.take(i));
    } else {
        assert(sizes.take(i) =~= sizes);
    }
}

/// The most the preview cache may keep, in bytes: `max_size_mb` megabytes, 100 when not
/// given.
pub fn cleanup_limit(max_size_mb: Option<u64>) -> (limit: u64)
    requires
        (match max_size_mb {
            Some(m) => m,
            None => 100,
        }) * 1048576 <= u64::MAX,
    ensures
        limit == (match max_size_mb {
            Some(m) => m,
            None => 100,
        }) * 1048576,
{
    let mb = match max_size_mb {
        Some(m) => m,
        None => 100,
    };
    mb * 1024 * 1024
}

/// `order` lists the indices of `ages` from the newest (smallest age) to the oldest,
/// files of equal age in the order they were listed: a stable sort by age.
pub open spec fn is_age_order(ages: Seq<u64>, order: Seq<usize>) -> bool {
    &&& order.len() == ages.len()
    &&& forall|i: int| 0 <= i < order.len() ==> #[trigger] order[i] < ages.len()
    &&& forall|i: int, j: int| 0 <= i < j < order.len() ==> order[i] != order[j]
    &&& forall|i: int, j: int|
        0 <= i < j < order.len() ==> ages[#[trigger] order[i] as int] <= ages[#[trigger] order[j] as int]
    &&& forall|i: int, j: int|
        0 <= i < j < order.len() && ages[order[i] as int] == ages[order[j] as int] ==> #[trigger] order[i]
            < #[trigger] order[j]
}

/// The indices of the files ordered by age, newest first, equal ages in the order they
/// were listed (a stable `sort_by_key(age)`).
pub fn order_by_age(ages: &Vec<u64>) -> (order: Vec<usize>)
    ensures
        is_age_order(ages@, order@),
{
    let mut order: Vec<usize> = Vec::new();
    let mut k: usize = 0;
    while k < ages.len()
        invariant
            k <= ages.len(),
            order@.len() == k,
            forall|i: int| 0 <= i < order@.len() ==> #[trigger] order@[i] < k,
            forall|i: int, j: int| 0 <= i < j < order@.len() ==> order@[i] != order@[j],
            forall|i: int, j: int|
                0 <= i < j < order@.len() ==> ages@[#[trigger] order@[i] as int] <= ages@[#[trigger] order@[j] as int],
            forall|i: int, j: int|
                0 <= i < j < order@.len() && ages@[order@[i] as int] == ages@[order@[j] as int]
                    ==> #[trigger] order@[i] < #[trigger] order@[j],
        decreases ages.len() - k,
    {
        let a = ages[k];
        let mut p: usize = 0;
        while p < order.len() && ages[order[p]] <= a
            invariant
                p <= order@.len(),
                order@.len() == k,
                k < ages@.len(),
                a == ages@[k as int],
                forall|i: int| 0 <= i < order@.len() ==> #[trigger] order@[i] < k,
                forall|i: int| 0 <= i < p ==> ages@[#[trigger] order@[i] as int] <= a,
            decreases order@.len() - p,
        {
            p += 1;
        }
        let ghost before = order@;
        assert(p < before.len() ==> ages@[before[p as int] as int] > a);
        assert forall|i: int| p <= i < before.len() implies ages@[#[trigger] before[i] as int] > a by {
            if i > p {
                assert(ages@[before[p as int] as int] <= ages@[before[i] as int]);
            }
        }
        order.insert(p, k);
        assert(order@ =~= before.insert(p as int, k));
        assert forall|i: int, j: int| 0 <= i < j < order@.len() implies order@[i] != order@[j] by {
            if i < p && j == p {
                assert(order@[i] == before[i]);
            } else if i == p {
                assert(order@[j] == before[j - 1]);
            } else if i < p && j > p {
                assert(order@[i] == before[i] && order@[j] == before[j - 1]);
            } else if j < p {
                assert(order@[i] == before[i] && order@[j] == before[j]);
            } else {
                assert(order@[i] == before[i - 1] && order@[j] == before[j - 1]);
            }
        }
        assert forall|i: int, j: int|
            0 <= i < j < order@.len() implies ages@[#[trigger] order@[i] as int] <= ages@[#[trigger] order@[j] as int] by {
            if i < p && j == p {
                assert(order@[i] == before[i]);
            } else if i == p {
                assert(order@[j] == before[j - 1]);
            } else if i < p && j > p {
                assert(order@[i] == before[i] && order@[j] == before[j - 1]);
            } else if j < p {
                assert(order@[i] == before[i] && order@[j] == before[j]);
            } else {
                assert(order@[i] == before[i - 1] && order@[j] == before[j - 1]);
            }
        }
        assert forall|i: int, j: int|
            0 <= i < j < order@.len() && ages@[order@[i] as int] == ages@[order@[j] as int] implies #[trigger] order@[i]
            < #[trigger] order@[j] by {
            if i < p && j == p {
                assert(order@[i] == before[i]);
            } else if i == p {
                assert(order@[j] == before[j - 1]);
            } else if i < p && j > p {
                assert(order@[i] == before[i] && order@[j] == before[j - 1]);
            } else if j < p {
                assert(order@[i] == before[i] && order@[j] == before[j]);
            } else {
                assert(order@[i] == before[i - 1] && order@[j] == before[j - 1]);
            }
        }
        k += 1;
    }
    order
}

/// The sum of the sizes of the first `k` files in `order`.
pub open spec fn ordered_prefix_size(sizes: Seq<u64>, order: Seq<usize>, k: int) -> nat
    decreases k,
{
    if k <= 0 {
        0
    } else {
        ordered_prefix_size(sizes, order, k - 1) + sizes[order[k - 1] as int] as nat
    }
}

/// What a cleanup of the preview cache keeps and deletes.
#[derive(Debug)]
pub struct CleanupPlan {
    /// The file indices, newest first.
    pub order: Vec<usize>,
    /// How many files of `order`, from its start, are kept; the rest are deleted.
    pub retain: usize,
    /// The total size of the kept files.
    pub retained_size: u64,
}

/// Cleanup plans keep adding the next-newest file while the kept size stays within
/// `max_size`; this step (the first file that does not fit) must be computable without
/// overflowing a `u64`, as the sizes are added before they are compared.
pub open spec fn cleanup_fits_u64(sizes: Seq<u64>, order: Seq<usize>, max_size: u64) -> bool {
    forall|k: int|
        0 <= k < order.len() && ordered_prefix_size(sizes, order, k) <= max_size ==> #[trigger] ordered_prefix_size(
            sizes,
            order,
            k,
        ) + sizes[order[k] as int] <= u64::MAX
}

/// The files to keep when the preview cache may hold `max_size` bytes: the files are
/// ordered by age (newest first, stable); the newest ones are kept as long as their
/// total size stays within `max_size`, the others are deleted.
pub fn plan_cleanup(ages: &Vec<u64>, sizes: &Vec<u64>, max_size: u64) -> (plan: CleanupPlan)
    requires
        ages@.len() == sizes@.len(),
        forall|order: Seq<usize>| is_age_order(ages@, order) ==> cleanup_fits_u64(sizes@, order, max_size),
    ensures
        is_age_order(ages@, plan.order@),
        plan.retain <= ages@.len(),
        plan.retained_size == ordered_prefix_size(sizes@, plan.order@, plan.retain as int),
        plan.retained_size <= max_size,
        plan.retain < ages@.len() ==> plan.retained_size + sizes@[plan.order@[plan.retain as int] as int]
            > max_size,
{
    let order = order_by_age(ages);
    assert(cleanup_fits_u64(sizes@, order@, max_size));
    let mut retain: usize = 0;
    let mut retained: u64 = 0;
    while retain < order.len()
        invariant
            retain <= order@.len(),
            order@.len() == ages@.len(),
            ages@.len() == sizes@.len(),
            forall|i: int| 0 <= i < order@.len() ==> #[trigger] order@[i] < ages@.len(),
            cleanup_fits_u64(sizes@, order@, max_size),
            retained == ordered_prefix_size(sizes@, order@, retain as int),
            retained <= max_size,
        ensures
            retained == ordered_prefix_size(sizes@, order@, retain as int),
            retained <= max_size,
            retain <= order@.len(),
            retain < order@.len() ==> retained + sizes@[order@[retain as int] as int] > max_size,
        decreases order@.len() - retain,
    {
        let s = sizes[order[retain]];
        assert(ordered_prefix_size(sizes@, order@, retain as int) + sizes@[order@[retain as int] as int]
            <= u64::MAX);
        if retained + s > max_size {
            break;
        }
        retained = retained + s;
        retain += 1;
    }
    CleanupPlan { order, retain, retained_size: retained }
}

/// A cleanup keeps newer files than it deletes, and keeps no more than the limit.
pub proof fn lemma_cleanup_keeps_newest(
    ages: Seq<u64>,
    sizes: Seq<u64>,
    order: Seq<usize>,
    retain: int,
    retained_size: nat,
    max_size: nat,
)
    requires
        is_age_order(ages, order),
        0 <= retain <= order.len(),
        retained_size == ordered_prefix_size(sizes, order, retain),
        retained_size <= max_size,
    ensures
        forall|i: int, j: int|
            0 <= i < retain <= j < order.len() ==> ages[#[trigger] order[i] as int] <= ages[#[trigger] order[j] as int],
        ordered_prefix_size(sizes, order, retain) <= max_size,
{
}

/// The page answered after a cleanup: the counts and kept megabytes when every delete
/// succeeded, a failure notice otherwise.
pub open spec fn cleanup_page_spec(successful: bool, deleted: nat, remaining: nat, remaining_bytes: nat) -> Seq<char> {
    if successful {
        "\n        <html>\n            <body>\n                <h1>Cleanup successfull!</h1>\n                <p>\n                    Files deleted: "@
            + decimal(deleted) + "\n                    Files remaining: "@ + decimal(remaining) + " ("@
            + decimal(remaining_bytes / 1048576) + "mb)\n                </p>\n            </body>\n        </html>\n        "@
    } else {
        "\n        <html>\n            <body>\n                <h1>Cleanup failed. Have a look at the logs!</h1>\n            </body>\n        </html>\n        "@
    }
}

/// The page answered after a cleanup.
pub fn cleanup_page(successful: bool, deleted: usize, remaining: usize, remaining_bytes: u64) -> (page: String)
    ensures
        page@ == cleanup_page_spec(successful, deleted as nat, remaining as nat, remaining_bytes as nat),
{
    if successful {
        let mut page = String::from_str(
            "\n        <html>\n            <body>\n                <h1>Cleanup successfull!</h1>\n                <p>\n                    Files deleted: ",
        );
        push_decimal(&mut page, deleted as u64);
        push_str(&mut page, "\n                    Files remaining: ");
        push_decimal(&mut page, remaining as u64);
        push_str(&mut page, " (");
        push_decimal(&mut page, remaining_bytes / (1024 * 1024));
        push_str(&mut page, "mb)\n                </p>\n            </body>\n        </html>\n        ");
        page
    } else {
        String::from_str(
            "\n        <html>\n            <body>\n                <h1>Cleanup failed. Have a look at the logs!</h1>\n            </body>\n        </html>\n        ",
        )
    }
}

} // verus!
