//! Size, kind, age and share state of a folder or file.
use vstd::prelude::*;

verus! {

/// Size, kind and age of a folder or file, and its share id if it is shared.
#[derive(Debug)]
pub struct NodeMetadata {
    /// `folder` or `file`.
    pub node_type: &'static str,
    /// Bytes; for a folder, the sum of the sizes of the files directly in it.
    pub size: u64,
    /// Last modification, in seconds since the UNIX epoch.
    pub last_modified: i64,
    pub shared: Option<String>,
}

/// The sum of `sizes`.
pub open spec fn sum_sizes(sizes: Seq<u64>) -> nat
    decreases sizes.len(),
{
    if sizes.len() == 0 {
        0
    } else {
        sum_sizes(sizes.drop_last()) + sizes.last() as nat
    }
}

proof fn lemma_sum_sizes_prefix(sizes: Seq<u64>, i: int)
    requires
        0 <= i <= sizes.len(),
    ensures
        sum_sizes(sizes.take(i)) <= sum_sizes(sizes),
    decreases sizes.len() - i,
{
    if i < sizes.len() {
        lemma_sum_sizes_prefix(sizes, i + 1);
        assert(sizes.take(i + 1).drop_last() =~= sizes.take(i));
    } else {
        assert(sizes.take(i) =~= sizes);
    }
}

/// The sum of `sizes`, which must fit in a `u64`.
pub fn total_size(sizes: &Vec<u64>) -> (total: u64)
    requires
        sum_sizes(sizes@) <= u64::MAX,
    ensures
        total == sum_sizes(sizes@),
{
    let mut total: u64 = 0;
    let mut i: usize = 0;
    while i < sizes.len()
        invariant
            i <= sizes.len(),
            sum_sizes(sizes@) <= u64::MAX,
            total == sum_sizes(sizes@.take(i as int)),
        decreases sizes.len() - i,
    {
        assert(sizes@.take(i + 1).drop_last() =~= sizes@.take(i as int));
        proof {
            lemma_sum_sizes_prefix(sizes@, i + 1);
        }
        total = total + sizes[i];
        i += 1;
    }
    assert(sizes@.take(sizes@.len() as int) =~= sizes@);
    total
}

/// The metadata of a node: a folder (`is_dir`) is of type `folder` and as big as the
/// files directly in it (`child_file_sizes`) together; a file is of type `file` and
/// `len` bytes big.
pub fn node_metadata(
    is_dir: bool,
    len: u64,
    child_file_sizes: &Vec<u64>,
    last_modified: i64,
    shared: Option<String>,
) -> (res: NodeMetadata)
    requires
        is_dir ==> sum_sizes(child_file_sizes@) <= u64::MAX,
    ensures
        res.node_type@ == (if is_dir { "folder"@ } else { "file"@ }),
        res.size == (if is_dir { sum_sizes(child_file_sizes@) } else { len as nat }),
        res.last_modified == last_modified,
        res.shared == shared,
{
    if is_dir {
        NodeMetadata { node_type: "folder", size: total_size(child_file_sizes), last_modified, shared }
    } else {
        NodeMetadata { node_type: "file", size: len, last_modified, shared }
    }
}

} // verus!
