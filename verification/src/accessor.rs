use vstd::prelude::*;

use crate::message::PieceMessage;

verus! {

/// One contiguous slice of a block window inside a single file: bytes
/// `[begin, end)` of the block live at `offset` inside file
/// `file_index`.
#[derive(Copy, Clone, PartialEq, Eq, Structural, Debug)]
pub struct FileRegion {
    pub file_index: usize,
    pub offset: u64,
    pub begin: usize,
    pub end: usize,
}

/// Total size of the first `i` files.
pub open spec fn prefix_sum(sizes: Seq<u64>, i: int) -> int
    decreases i,
{
    if i <= 0 {
        0
    } else {
        prefix_sum(sizes, i - 1) + sizes[i - 1]
    }
}

/// Total size of all files, the length of their conceptual
/// concatenation.
pub open spec fn total_size(sizes: Seq<u64>) -> int {
    prefix_sum(sizes, sizes.len() as int)
}

/// The absolute offset of the block window inside the concatenation of
/// all files.
pub open spec fn block_start(piece_length: int, m: PieceMessage) -> int {
    m.piece_index * piece_length + m.block_offset
}

/// Whether one region is the exact intersection of the block window
/// with file `f`.
pub open spec fn region_exact(
    sizes: Seq<u64>,
    start: int,
    blen: int,
    region: FileRegion,
) -> bool {
    let f = region.file_index as int;
    let pre = prefix_sum(sizes, f);
    let lo = if start >= pre {
        start
    } else {
        pre
    };
    let hi = if start + blen <= pre + sizes[f] {
        start + blen
    } else {
        pre + sizes[f]
    };
    &&& 0 <= f < sizes.len()
    &&& sizes[f] > 0
    &&& lo < hi
    &&& region.offset == lo - pre
    &&& region.begin == lo - start
    &&& region.end == hi - start
}

/// Sums the file sizes.
pub fn total_file_size(file_sizes: &Vec<u64>) -> (r: u64)
    requires
        total_size(file_sizes@) <= 0xFFFF_FFFF_FFFF_FFFF,
    ensures
        r == total_size(file_sizes@),
{
    let mut sum: u64 = 0;
    let mut i: usize = 0;
    while i < file_sizes.len()
        invariant
            0 <= i <= file_sizes@.len(),
            sum == prefix_sum(file_sizes@, i as int),
            total_size(file_sizes@) <= 0xFFFF_FFFF_FFFF_FFFF,
        decreases file_sizes.len() - i,
    {
        proof {
            assert(prefix_sum(file_sizes@, i as int + 1) == prefix_sum(file_sizes@, i as int)
                + file_sizes@[i as int]);
            lemma_prefix_sum_monotone(file_sizes@, i as int + 1, file_sizes@.len() as int);
        }
        sum = sum + file_sizes[i];
        i = i + 1;
    }
    sum
}

/// Prefix sums of non-negative sizes grow with the index.
proof fn lemma_prefix_sum_monotone(sizes: Seq<u64>, i: int, j: int)
    requires
        0 <= i <= j <= sizes.len(),
    ensures
        prefix_sum(sizes, i) <= prefix_sum(sizes, j),
    decreases j - i,
{
    if j > i {
        lemma_prefix_sum_monotone(sizes, i, j - 1);
    }
}

/// Maps a block window onto the regions of the torrent's files it
/// spans: walking the files in order, the window's bytes are split at
/// every file boundary. The regions come back in file order; their
/// `begin`/`end` windows tile `[0, block_length)` gaplessly; a
/// zero-length file never yields a region.
#[verifier::rlimit(100)]
pub fn file_regions(file_sizes: &Vec<u64>, piece_length: u64, m: &PieceMessage) -> (r: Vec<
    FileRegion,
>)
    requires
        piece_length >= 1,
        block_start(piece_length as int, *m) + m.block_length <= total_size(file_sizes@),
        total_size(file_sizes@) <= 0xFFFF_FFFF_FFFF_FFFF,
    ensures
        forall|k: int|
            0 <= k < r@.len() ==> region_exact(
                file_sizes@,
                block_start(piece_length as int, *m),
                m.block_length as int,
                #[trigger] r@[k],
            ),
        forall|k1: int, k2: int|
            0 <= k1 < k2 < r@.len() ==> (#[trigger] r@[k1]).file_index < (
            #[trigger] r@[k2]).file_index,
        r@.len() > 0 ==> r@[0].begin == 0 && r@[r@.len() - 1].end == m.block_length,
        forall|k: int| 0 <= k < r@.len() - 1 ==> (#[trigger] r@[k]).end == r@[k + 1].begin,
        m.block_length > 0 ==> r@.len() > 0,
        m.block_length == 0 ==> r@.len() == 0,
{
    let start: u64 = (m.piece_index as u64) * piece_length + (m.block_offset as u64);
    let blen: u64 = m.block_length as u64;
    let ghost s = start as int;
    let ghost bl = blen as int;
    let mut r: Vec<FileRegion> = Vec::new();
    let mut bytes_to_skip: u64 = start;
    let mut accessed: u64 = 0;
    let mut f: usize = 0;
    let n = file_sizes.len();
    while f < n
        invariant
            0 <= f <= n,
            n == file_sizes@.len(),
            s == block_start(piece_length as int, *m),
            bl == m.block_length,
            blen == m.block_length,
            start == s,
            s + bl <= total_size(file_sizes@),
            total_size(file_sizes@) <= 0xFFFF_FFFF_FFFF_FFFF,
            prefix_sum(file_sizes@, f as int) <= total_size(file_sizes@),
            bytes_to_skip == (if s >= prefix_sum(file_sizes@, f as int) {
                s - prefix_sum(file_sizes@, f as int)
            } else {
                0int
            }),
            accessed == (if prefix_sum(file_sizes@, f as int) <= s {
                0int
            } else if prefix_sum(file_sizes@, f as int) >= s + bl {
                bl
            } else {
                prefix_sum(file_sizes@, f as int) - s
            }),
            forall|k: int|
                0 <= k < r@.len() ==> region_exact(file_sizes@, s, bl, #[trigger] r@[k])
                    && r@[k].file_index < f,
            forall|k1: int, k2: int|
                0 <= k1 < k2 < r@.len() ==> (#[trigger] r@[k1]).file_index < (
                #[trigger] r@[k2]).file_index,
            r@.len() > 0 ==> r@[0].begin == 0 && r@[r@.len() - 1].end == accessed,
            forall|k: int| 0 <= k < r@.len() - 1 ==> (#[trigger] r@[k]).end == r@[k + 1].begin,
            r@.len() == 0 ==> accessed == 0,
        decreases n - f,
    {
        let ghost pre_f = prefix_sum(file_sizes@, f as int);
        proof {
            assert(prefix_sum(file_sizes@, f as int + 1) == pre_f + file_sizes@[f as int]);
            lemma_prefix_sum_monotone(file_sizes@, f as int + 1, n as int);
        }
        let total_file_size: u64 = file_sizes[f];
        let ghost size = total_file_size as int;
        let min_skip: u64 = if bytes_to_skip <= total_file_size {
            bytes_to_skip
        } else {
            total_file_size
        };
        bytes_to_skip = bytes_to_skip - min_skip;
        let avail: u64 = total_file_size - min_skip;
        if avail > 0 && accessed < blen {
            proof {
                if s >= pre_f {
                    assert(avail == pre_f + size - s);
                    assert(accessed == 0);
                } else {
                    assert(avail == size);
                    if pre_f >= s + bl {
                        assert(accessed == bl);
                        assert(false);
                    }
                    assert(accessed == pre_f - s);
                }
            }
            let take: u64 = if blen - accessed <= avail {
                blen - accessed
            } else {
                avail
            };
            let offset: u64 = total_file_size - avail;
            let region = FileRegion {
                file_index: f,
                offset,
                begin: accessed as usize,
                end: (accessed + take) as usize,
            };
            let ghost rold = r@;
            r.push(region);
            accessed = accessed + take;
            proof {
                let lo = if s >= pre_f {
                    s
                } else {
                    pre_f
                };
                let hi = if s + bl <= pre_f + size {
                    s + bl
                } else {
                    pre_f + size
                };
                assert(avail == pre_f + size - lo);
                assert(region.begin == lo - s);
                assert(take == (if bl - (lo - s) <= pre_f + size - lo {
                    bl - (lo - s)
                } else {
                    pre_f + size - lo
                }));
                assert(region.offset == lo - pre_f);
                assert(accessed == hi - s);
                assert(region.end == hi - s);
                assert(region_exact(file_sizes@, s, bl, region));
                assert(forall|k: int| 0 <= k < rold.len() ==> r@[k] == rold[k]);
                assert(accessed == (if prefix_sum(file_sizes@, f as int + 1) <= s {
                    0int
                } else if prefix_sum(file_sizes@, f as int + 1) >= s + bl {
                    bl
                } else {
                    prefix_sum(file_sizes@, f as int + 1) - s
                }));
            }
        } else {
            proof {
                assert(prefix_sum(file_sizes@, f as int + 1) == pre_f + size);
                if avail == 0 {
                    if s >= pre_f {
                        assert(accessed == 0);
                    }
                } else {
                    assert(accessed >= bl);
                }
            }
        }
        f = f + 1;
    }
    r
}

} // verus!
