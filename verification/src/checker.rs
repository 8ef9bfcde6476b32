use vstd::prelude::*;

use crate::message::PieceMessage;

verus! {

/// Classification of one piece after hashing it.
#[derive(Copy, Clone, PartialEq, Eq, Hash, Debug, Structural)]
pub enum PieceState {
    /// Piece was discovered as good.
    Good(u32),
    /// Piece was discovered as bad.
    Bad(u32),
}

/// A block window that fits the 32-bit piece coordinate space.
pub open spec fn pm_wf(m: PieceMessage) -> bool {
    m.block_offset + m.block_length <= 0xFFFF_FFFF
}

/// The byte just past the end of the window.
pub open spec fn pm_end(m: PieceMessage) -> int {
    m.block_offset + m.block_length
}

/// Strictly ordered by offset, with a gap between consecutive windows:
/// no overlap and no adjacency.
pub open spec fn sorted_disjoint(l: Seq<PieceMessage>) -> bool {
    forall|k: int|
        0 <= k < l.len() - 1 ==> pm_end(#[trigger] l[k]) < l[k + 1].block_offset
}

/// Every window in the list belongs to piece `idx` and stays inside the
/// 32-bit coordinate space.
pub open spec fn list_wf(l: Seq<PieceMessage>, idx: int) -> bool {
    forall|j: int|
        0 <= j < l.len() ==> (#[trigger] l[j]).piece_index == idx && pm_wf(l[j])
}

/// Accumulates pending block writes per piece and hands out diffs of
/// freshly classified good and bad pieces.
pub struct PieceCheckerState {
    /// Freshly classified pieces awaiting dispatch, oldest first.
    pub new_states: Vec<PieceState>,
    /// Already dispatched classifications; membership is what matters.
    pub old_states: Vec<PieceState>,
    /// In-progress block writes, one list per piece index.
    pub pending_blocks: Vec<Vec<PieceMessage>>,
    /// Number of pieces in the torrent.
    pub total_blocks: usize,
    /// Size of the final, possibly short, piece; zero when the torrent
    /// divides evenly.
    pub last_block_size: usize,
}

impl PieceCheckerState {
    /// One pending-block list per piece, each entry filed under its own
    /// piece index, and no duplicate classification remembered twice.
    pub open spec fn wf(self) -> bool {
        &&& self.pending_blocks@.len() == self.total_blocks
        &&& forall|i: int|
            0 <= i < self.pending_blocks@.len() ==> list_wf(
                (#[trigger] self.pending_blocks@[i])@,
                i,
            )
        &&& forall|a: int, b: int|
            0 <= a < b < self.old_states@.len() ==> self.old_states@[a] != self.old_states@[b]
    }

    /// Whether piece `idx` was already dispatched as good.
    pub open spec fn has_old_good(self, idx: u32) -> bool {
        self.old_states@.contains(PieceState::Good(idx))
    }

    /// Create a new PieceCheckerState.
    pub fn new(total_blocks: usize, last_block_size: usize) -> (r: PieceCheckerState)
        ensures
            r.wf(),
            r.new_states@.len() == 0,
            r.old_states@.len() == 0,
            r.total_blocks == total_blocks,
            r.last_block_size == last_block_size,
            forall|i: int| 0 <= i < total_blocks ==> (#[trigger] r.pending_blocks@[i])@.len() == 0,
    {
        let mut pending_blocks: Vec<Vec<PieceMessage>> = Vec::new();
        let mut i: usize = 0;
        while i < total_blocks
            invariant
                0 <= i <= total_blocks,
                pending_blocks@.len() == i,
                forall|j: int| 0 <= j < i ==> (#[trigger] pending_blocks@[j])@.len() == 0,
            decreases total_blocks - i,
        {
            pending_blocks.push(Vec::new());
            i = i + 1;
        }
        PieceCheckerState {
            new_states: Vec::new(),
            old_states: Vec::new(),
            pending_blocks,
            total_blocks,
            last_block_size,
        }
    }

    /// Add a pending piece block to the current pending blocks.
    pub fn add_pending_block(&mut self, msg: PieceMessage)
        requires
            old(self).wf(),
            (msg.piece_index as int) < old(self).total_blocks,
            pm_wf(msg),
        ensures
            final(self).wf(),
            final(self).pending_blocks@ == old(self).pending_blocks@.update(
                msg.piece_index as int,
                final(self).pending_blocks@[msg.piece_index as int],
            ),
            final(self).pending_blocks@[msg.piece_index as int]@ == old(
                self,
            ).pending_blocks@[msg.piece_index as int]@.push(msg),
            final(self).new_states == old(self).new_states,
            final(self).old_states == old(self).old_states,
            final(self).total_blocks == old(self).total_blocks,
            final(self).last_block_size == old(self).last_block_size,
    {
        let idx = msg.piece_index as usize;
        let mut list = self.pending_blocks.remove(idx);
        list.push(msg);
        self.pending_blocks.insert(idx, list);
        assert(final(self).pending_blocks@ =~= old(self).pending_blocks@.update(
            idx as int,
            final(self).pending_blocks@[idx as int],
        ));
    }

    /// Records the classification of a freshly hashed piece.
    pub fn record_piece_result(&mut self, piece_index: u32, good: bool)
        requires
            old(self).wf(),
        ensures
            final(self).wf(),
            final(self).new_states@ == old(self).new_states@.push(
                if good {
                    PieceState::Good(piece_index)
                } else {
                    PieceState::Bad(piece_index)
                },
            ),
            final(self).old_states == old(self).old_states,
            final(self).pending_blocks == old(self).pending_blocks,
            final(self).total_blocks == old(self).total_blocks,
            final(self).last_block_size == old(self).last_block_size,
    {
        if good {
            self.new_states.push(PieceState::Good(piece_index));
        } else {
            self.new_states.push(PieceState::Bad(piece_index));
        }
    }

    /// Drains the freshly classified pieces, in classification order, and
    /// remembers every one of them, good or bad, as already dispatched.
    pub fn run_with_diff(&mut self) -> (diff: Vec<PieceState>)
        requires
            old(self).wf(),
        ensures
            final(self).wf(),
            diff@ == old(self).new_states@,
            final(self).new_states@.len() == 0,
            forall|i: int|
                0 <= i < old(self).new_states@.len() ==> final(self).old_states@.contains(
                    old(self).new_states@[i],
                ),
            forall|x: PieceState|
                old(self).old_states@.contains(x) ==> final(self).old_states@.contains(x),
            forall|x: PieceState|
                final(self).old_states@.contains(x) ==> (old(self).old_states@.contains(x) || old(
                    self,
                ).new_states@.contains(x)),
            final(self).pending_blocks == old(self).pending_blocks,
            final(self).total_blocks == old(self).total_blocks,
            final(self).last_block_size == old(self).last_block_size,
    {
        let mut drained: Vec<PieceState> = Vec::new();
        while self.new_states.len() > 0
            invariant
                self.wf(),
                drained@ + self.new_states@ == old(self).new_states@,
                self.old_states == old(self).old_states,
                self.pending_blocks == old(self).pending_blocks,
                self.total_blocks == old(self).total_blocks,
                self.last_block_size == old(self).last_block_size,
            decreases self.new_states.len(),
        {
            let s = self.new_states.remove(0);
            drained.push(s);
        }
        assert(drained@ =~= old(self).new_states@);
        let mut k: usize = 0;
        while k < drained.len()
            invariant
                self.wf(),
                0 <= k <= drained@.len(),
                drained@ == old(self).new_states@,
                self.new_states@.len() == 0,
                forall|i: int| 0 <= i < k ==> self.old_states@.contains(#[trigger] drained@[i]),
                forall|x: PieceState|
                    old(self).old_states@.contains(x) ==> self.old_states@.contains(x),
                forall|x: PieceState|
                    self.old_states@.contains(x) ==> (old(self).old_states@.contains(x)
                        || drained@.contains(x)),
                self.pending_blocks == old(self).pending_blocks,
                self.total_blocks == old(self).total_blocks,
                self.last_block_size == old(self).last_block_size,
            decreases drained.len() - k,
        {
            let s = drained[k];
            let ghost so = self.old_states@;
            let had = contains_state(&self.old_states, s);
            if !had {
                self.old_states.push(s);
            }
            proof {
                assert(drained@.contains(s));
                if !had {
                    assert(self.old_states@[so.len() as int] == s);
                    assert(self.old_states@.contains(s));
                    assert forall|x: PieceState| so.contains(x) implies self.old_states@.contains(
                        x,
                    ) by {
                        let w = choose|w: int| 0 <= w < so.len() && so[w] == x;
                        assert(self.old_states@[w] == x);
                    }
                    assert forall|x: PieceState| self.old_states@.contains(x) implies (so.contains(
                        x,
                    ) || x == s) by {
                        let w = choose|w: int|
                            0 <= w < self.old_states@.len() && self.old_states@[w] == x;
                        if w < so.len() {
                            assert(so[w] == x);
                        }
                    }
                }
                assert forall|i: int| 0 <= i < k + 1 implies self.old_states@.contains(
                    #[trigger] drained@[i],
                ) by {
                    if i < k {
                        assert(so.contains(drained@[i]));
                        if !had {
                            let w = choose|w: int| 0 <= w < so.len() && so[w] == drained@[i];
                            assert(self.old_states@[w] == drained@[i]);
                        }
                    }
                }
            }
            k = k + 1;
        }
        drained
    }
}

/// Whether the classification is already recorded.
pub fn contains_state(states: &Vec<PieceState>, x: PieceState) -> (r: bool)
    ensures
        r == states@.contains(x),
{
    let mut i: usize = 0;
    while i < states.len()
        invariant
            0 <= i <= states@.len(),
            forall|j: int| 0 <= j < i ==> states@[j] != x,
        decreases states.len() - i,
    {
        if states[i] == x {
            assert(states@.contains(x));
            return true;
        }
        i = i + 1;
    }
    assert(!states@.contains(x));
    false
}

/// True if the piece is ready to be hashed and checked (full) as good or
/// not: a single pending window whose length is the full piece length,
/// or, for the final piece, the final piece's length.
pub fn piece_is_complete(
    total_blocks: usize,
    last_block_size: usize,
    piece_length: usize,
    messages: &Vec<PieceMessage>,
) -> (r: bool)
    requires
        total_blocks >= 1,
    ensures
        r == (messages@.len() == 1 && (messages@[0].block_length == piece_length
            || (messages@[0].piece_index == total_blocks - 1 && messages@[0].block_length
                == last_block_size))),
{
    if messages.len() != 1 {
        return false;
    }
    let m = messages[0];
    let is_piece_length = m.block_length == piece_length;
    let is_last_block = (m.piece_index as u64) == (total_blocks as u64 - 1);
    let is_last_block_length = m.block_length == last_block_size;
    is_piece_length || (is_last_block && is_last_block_length)
}

/// Whether the list is already in merged form: sorted with a gap
/// between consecutive windows.
pub fn is_sorted_disjoint(list: &Vec<PieceMessage>) -> (r: bool)
    requires
        forall|j: int| 0 <= j < list@.len() ==> pm_wf(#[trigger] list@[j]),
    ensures
        r == sorted_disjoint(list@),
{
    let n = list.len();
    if n == 0 {
        return true;
    }
    let mut i: usize = 0;
    while i < n - 1
        invariant
            n == list@.len(),
            n >= 1,
            0 <= i <= n - 1,
            forall|j: int| 0 <= j < list@.len() ==> pm_wf(#[trigger] list@[j]),
            forall|k: int| 0 <= k < i ==> pm_end(#[trigger] list@[k]) < list@[k + 1].block_offset,
        decreases n - i,
    {
        let e = list[i];
        let f = list[i + 1];
        if (e.block_offset as u64) + (e.block_length as u64) >= (f.block_offset as u64) {
            return false;
        }
        i = i + 1;
    }
    true
}

/// Merge a piece message `a` with a piece message `b` if their windows
/// overlap or touch, producing one window that spans both.
pub fn merge_piece_messages(message_a: &PieceMessage, message_b: &PieceMessage) -> (r: Option<
    PieceMessage,
>)
    requires
        message_a.piece_index == message_b.piece_index,
        pm_wf(*message_a),
        pm_wf(*message_b),
    ensures
        (r is Some) <==> (message_a.block_offset <= pm_end(*message_b)
            && message_b.block_offset <= pm_end(*message_a)),
        r matches Some(m) ==> {
            &&& m.piece_index == message_a.piece_index
            &&& m.block_offset == (if message_a.block_offset <= message_b.block_offset {
                message_a.block_offset as int
            } else {
                message_b.block_offset as int
            })
            &&& pm_end(m) == (if pm_end(*message_a) >= pm_end(*message_b) {
                pm_end(*message_a)
            } else {
                pm_end(*message_b)
            })
            &&& pm_wf(m)
        },
{
    let start_a = message_a.block_offset as u64;
    let end_a = start_a + message_a.block_length as u64;
    let start_b = message_b.block_offset as u64;
    let end_b = start_b + message_b.block_length as u64;
    let end_to_take = if end_a >= end_b {
        end_a
    } else {
        end_b
    };
    assert(end_a == pm_end(*message_a) && end_b == pm_end(*message_b));
    if start_b >= start_a && start_b <= end_a {
        let length = end_to_take - start_a;
        let m = PieceMessage::new(message_a.piece_index, message_a.block_offset, length as usize);
        assert(m.block_length == end_to_take - start_a && pm_end(m) == end_to_take);
        Some(m)
    } else if start_a >= start_b && start_a <= end_b {
        let length = end_to_take - start_b;
        let m = PieceMessage::new(message_b.piece_index, message_b.block_offset, length as usize);
        assert(m.block_length == end_to_take - start_b && pm_end(m) == end_to_take);
        Some(m)
    } else {
        None
    }
}

/// In a merged list the windows of any two positions, not only of
/// consecutive ones, are separated by a gap.
proof fn lemma_sorted_gap(l: Seq<PieceMessage>, j: int, k: int)
    requires
        sorted_disjoint(l),
        0 <= j < k < l.len(),
    ensures
        pm_end(l[j]) < l[k].block_offset,
    decreases k - j,
{
    if k > j + 1 {
        lemma_sorted_gap(l, j, k - 1);
        assert(pm_end(l[k - 1]) >= l[k - 1].block_offset);
    }
}

/// Appends the suffix of a merged list, starting at `from`, to a merged
/// accumulator whose last window ends before that suffix begins.
fn append_tail(r: &mut Vec<PieceMessage>, list: &Vec<PieceMessage>, from: usize, Ghost(idx): Ghost<
    int,
>)
    requires
        old(r)@.len() >= 1,
        sorted_disjoint(old(r)@),
        list_wf(old(r)@, idx),
        sorted_disjoint(list@),
        list_wf(list@, idx),
        from <= list@.len(),
        from < list@.len() ==> pm_end(old(r)@[old(r)@.len() - 1]) < list@[from as int].block_offset,
    ensures
        sorted_disjoint(final(r)@),
        list_wf(final(r)@, idx),
        final(r)@.len() == old(r)@.len() + (list@.len() - from),
{
    let n = list.len();
    let mut i: usize = from;
    while i < n
        invariant
            from <= i <= n,
            n == list@.len(),
            sorted_disjoint(list@),
            list_wf(list@, idx),
            sorted_disjoint(r@),
            list_wf(r@, idx),
            r@.len() == old(r)@.len() + (i - from),
            r@.len() >= 1,
            i < n ==> pm_end(r@[r@.len() - 1]) < list@[i as int].block_offset,
        decreases n - i,
    {
        let ghost rold = r@;
        r.push(list[i]);
        proof {
            assert forall|k: int| 0 <= k < r@.len() - 1 implies pm_end(#[trigger] r@[k]) < r@[k
                + 1].block_offset by {
                if k < rold.len() - 1 {
                    assert(r@[k] == rold[k] && r@[k + 1] == rold[k + 1]);
                }
            }
        }
        i = i + 1;
    }
}

/// Inserts one window into a merged list, coalescing it with every
/// window it overlaps or touches.
fn insert_message(list: &Vec<PieceMessage>, m: PieceMessage, Ghost(idx): Ghost<int>) -> (r: Vec<
    PieceMessage,
>)
    requires
        sorted_disjoint(list@),
        list_wf(list@, idx),
        m.piece_index == idx,
        pm_wf(m),
    ensures
        sorted_disjoint(r@),
        list_wf(r@, idx),
        r@.len() >= 1,
{
    let n = list.len();
    let mut r: Vec<PieceMessage> = Vec::new();
    let mut i: usize = 0;
    while i < n && ((list[i].block_offset as u64) + (list[i].block_length as u64) < (m.block_offset
        as u64))
        invariant
            0 <= i <= n,
            n == list@.len(),
            sorted_disjoint(list@),
            list_wf(list@, idx),
            pm_wf(m),
            r@ == list@.take(i as int),
            i > 0 ==> pm_end(list@[i as int - 1]) < m.block_offset,
        decreases n - i,
    {
        r.push(list[i]);
        assert(r@ =~= list@.take(i as int + 1));
        i = i + 1;
    }
    let ghost first_touch = i as int;
    let mut cur = m;
    while i < n && ((list[i].block_offset as u64) <= (cur.block_offset as u64) + (cur.block_length
        as u64))
        invariant
            first_touch <= i <= n,
            n == list@.len(),
            sorted_disjoint(list@),
            list_wf(list@, idx),
            r@ == list@.take(first_touch),
            cur.piece_index == idx,
            pm_wf(cur),
            cur.block_offset <= m.block_offset,
            pm_end(cur) >= pm_end(m),
            first_touch > 0 ==> pm_end(list@[first_touch - 1]) < cur.block_offset,
            i > first_touch ==> pm_end(cur) >= pm_end(list@[i as int - 1]),
        decreases n - i,
    {
        let e = list[i];
        proof {
            if first_touch > 0 {
                lemma_sorted_gap(list@, first_touch - 1, i as int);
            }
        }
        let start: u32 = if e.block_offset <= cur.block_offset {
            e.block_offset
        } else {
            cur.block_offset
        };
        let end_e = (e.block_offset as u64) + (e.block_length as u64);
        let end_c = (cur.block_offset as u64) + (cur.block_length as u64);
        let end: u64 = if end_e >= end_c {
            end_e
        } else {
            end_c
        };
        cur = PieceMessage::new(cur.piece_index, start, (end - start as u64) as usize);
        i = i + 1;
    }
    proof {
        if i < n {
            assert(pm_end(cur) < list@[i as int].block_offset);
        }
    }
    r.push(cur);
    proof {
        assert forall|k: int| 0 <= k < r@.len() - 1 implies pm_end(#[trigger] r@[k]) < r@[k
            + 1].block_offset by {
            if k < r@.len() - 2 {
                assert(r@[k] == list@[k] && r@[k + 1] == list@[k + 1]);
            }
        }
    }
    append_tail(&mut r, list, i, Ghost(idx));
    r
}

/// Canonicalizes one pending list: sorted by offset, overlapping or
/// touching windows coalesced. A list already in merged form comes back
/// unchanged.
fn merge_message_list(list: Vec<PieceMessage>, Ghost(idx): Ghost<int>) -> (r: Vec<PieceMessage>)
    requires
        list_wf(list@, idx),
    ensures
        list_wf(r@, idx),
        sorted_disjoint(r@),
        sorted_disjoint(list@) ==> r@ == list@,
        r@.len() == 0 <==> list@.len() == 0,
{
    if is_sorted_disjoint(&list) {
        return list;
    }
    let mut r: Vec<PieceMessage> = Vec::new();
    let mut i: usize = 0;
    while i < list.len()
        invariant
            0 <= i <= list@.len(),
            list_wf(list@, idx),
            list_wf(r@, idx),
            sorted_disjoint(r@),
            i >= 1 ==> r@.len() >= 1,
        decreases list.len() - i,
    {
        r = insert_message(&r, list[i], Ghost(idx));
        i = i + 1;
    }
    r
}

/// What merging does to a checker state: every pending list comes out in
/// merged form, a list already merged is untouched, no list appears or
/// vanishes, and nothing else changes.
pub open spec fn merge_post(pre: PieceCheckerState, post: PieceCheckerState) -> bool {
    &&& post.new_states == pre.new_states
    &&& post.old_states == pre.old_states
    &&& post.total_blocks == pre.total_blocks
    &&& post.last_block_size == pre.last_block_size
    &&& post.pending_blocks@.len() == pre.pending_blocks@.len()
    &&& forall|i: int|
        0 <= i < pre.pending_blocks@.len() ==> {
            &&& sorted_disjoint((#[trigger] post.pending_blocks@[i])@)
            &&& (sorted_disjoint(pre.pending_blocks@[i]@) ==> post.pending_blocks@[i]@
                == pre.pending_blocks@[i]@)
            &&& (post.pending_blocks@[i]@.len() == 0 <==> pre.pending_blocks@[i]@.len() == 0)
        }
}

/// Merging is idempotent: a second merge right after a first one leaves
/// every pending list exactly as the first left it.
pub proof fn lemma_merge_idempotent(
    s0: PieceCheckerState,
    s1: PieceCheckerState,
    s2: PieceCheckerState,
)
    requires
        merge_post(s0, s1),
        merge_post(s1, s2),
    ensures
        forall|i: int|
            0 <= i < s1.pending_blocks@.len() ==> (#[trigger] s2.pending_blocks@[i])@
                == s1.pending_blocks@[i]@,
{
}

impl PieceCheckerState {
    /// Merges all pending piece messages into a single message if
    /// possible: each piece's list comes out sorted by offset with a gap
    /// between consecutive windows, and a list already in that form is
    /// left exactly as it was.
    pub fn merge_pieces(&mut self)
        requires
            old(self).wf(),
        ensures
            final(self).wf(),
            merge_post(*old(self), *final(self)),
    {
        let ghost snap = self.pending_blocks@;
        let n = self.pending_blocks.len();
        let mut done: Vec<Vec<PieceMessage>> = Vec::new();
        while self.pending_blocks.len() > 0
            invariant
                done@.len() + self.pending_blocks@.len() == n,
                n == snap.len(),
                snap.len() == self.total_blocks,
                forall|j: int|
                    0 <= j < self.pending_blocks@.len() ==> #[trigger] self.pending_blocks@[j]
                        == snap[done@.len() + j],
                forall|j: int|
                    0 <= j < done@.len() ==> {
                        &&& list_wf((#[trigger] done@[j])@, j)
                        &&& sorted_disjoint(done@[j]@)
                        &&& (sorted_disjoint(snap[j]@) ==> done@[j]@ == snap[j]@)
                        &&& (done@[j]@.len() == 0 <==> snap[j]@.len() == 0)
                    },
                forall|j: int| 0 <= j < snap.len() ==> list_wf((#[trigger] snap[j])@, j),
                self.new_states == old(self).new_states,
                self.old_states == old(self).old_states,
                self.total_blocks == old(self).total_blocks,
                self.last_block_size == old(self).last_block_size,
            decreases self.pending_blocks.len(),
        {
            let list = self.pending_blocks.remove(0);
            let ghost j = done@.len() as int;
            assert(list == snap[j]);
            let merged = merge_message_list(list, Ghost(j));
            done.push(merged);
        }
        self.pending_blocks = done;
    }
}

/// Whether some window in the list belongs to piece `i`.
pub open spec fn reported_in(ready: Seq<PieceMessage>, i: int) -> bool {
    exists|k: int| 0 <= k < ready.len() && ready[k].piece_index == i
}

/// A pending list from which the piece can be hashed whole: one window
/// whose length is the full piece length or, for the final piece, the
/// final piece's length.
pub open spec fn is_ready_list(l: Seq<PieceMessage>, total: int, last: int, pl: int) -> bool {
    l.len() == 1 && (l[0].block_length == pl || (l[0].piece_index == total - 1 && l[0].block_length
        == last))
}

/// What the selection pass over already-merged lists does: it hands out
/// exactly the single full-length window of each piece that is whole and
/// not recorded good, clears those lists, and touches nothing else.
pub open spec fn take_post(
    pre: PieceCheckerState,
    post: PieceCheckerState,
    ready: Seq<PieceMessage>,
    piece_length: int,
) -> bool {
    &&& post.new_states == pre.new_states
    &&& post.old_states == pre.old_states
    &&& post.total_blocks == pre.total_blocks
    &&& post.last_block_size == pre.last_block_size
    &&& post.pending_blocks@.len() == pre.pending_blocks@.len()
    &&& pre.pending_blocks@.len() == pre.total_blocks
    &&& forall|k: int|
        0 <= k < ready.len() ==> {
            let i = (#[trigger] ready[k]).piece_index as int;
            &&& 0 <= i < pre.total_blocks
            &&& ready[k] == pre.pending_blocks@[i]@[0]
            &&& is_ready_list(
                pre.pending_blocks@[i]@,
                pre.total_blocks as int,
                pre.last_block_size as int,
                piece_length,
            )
            &&& !pre.has_old_good(ready[k].piece_index)
            &&& post.pending_blocks@[i]@.len() == 0
        }
    &&& forall|k1: int, k2: int|
        0 <= k1 < k2 < ready.len() ==> (#[trigger] ready[k1]).piece_index < (
        #[trigger] ready[k2]).piece_index
    &&& forall|i: int|
        0 <= i < pre.total_blocks && !reported_in(ready, i) ==> {
            &&& #[trigger] post.pending_blocks@[i] == pre.pending_blocks@[i]
            &&& !(is_ready_list(
                pre.pending_blocks@[i]@,
                pre.total_blocks as int,
                pre.last_block_size as int,
                piece_length,
            ) && !pre.has_old_good(pre.pending_blocks@[i]@[0].piece_index))
        }
}

/// What one whole-piece pass does from an arbitrary state: the lists are
/// first brought into merged form, then the selection pass runs.
pub open spec fn run_whole_post(
    pre: PieceCheckerState,
    post: PieceCheckerState,
    ready: Seq<PieceMessage>,
    piece_length: int,
) -> bool {
    exists|mid: PieceCheckerState|
        #[trigger] merge_post(pre, mid) && take_post(mid, post, ready, piece_length)
}

/// A piece handed out by one pass is not handed out again by the next
/// pass when no block was added in between: the first pass empties its
/// pending list, and a piece with an empty list is never whole.
pub proof fn lemma_whole_piece_not_rereported(
    s0: PieceCheckerState,
    s1: PieceCheckerState,
    r1: Seq<PieceMessage>,
    s2: PieceCheckerState,
    r2: Seq<PieceMessage>,
    piece_length: int,
    i: int,
)
    requires
        run_whole_post(s0, s1, r1, piece_length),
        run_whole_post(s1, s2, r2, piece_length),
        reported_in(r1, i),
    ensures
        !reported_in(r2, i),
{
    let mid1 = choose|m: PieceCheckerState|
        #[trigger] merge_post(s0, m) && take_post(m, s1, r1, piece_length);
    let mid2 = choose|m: PieceCheckerState|
        #[trigger] merge_post(s1, m) && take_post(m, s2, r2, piece_length);
    let k1 = choose|k: int| 0 <= k < r1.len() && r1[k].piece_index == i;
    assert(s1.pending_blocks@[i]@.len() == 0);
    assert(mid2.pending_blocks@[i]@.len() == 0);
    if reported_in(r2, i) {
        let k2 = choose|k: int| 0 <= k < r2.len() && r2[k].piece_index == i;
        assert(mid2.pending_blocks@[i]@.len() == 1);
    }
}

impl PieceCheckerState {
    /// The selection pass over lists already in merged form.
    #[verifier::rlimit(50)]
    fn take_ready_merged(&mut self, piece_length: usize) -> (ready: Vec<PieceMessage>)
        requires
            old(self).wf(),
            old(self).total_blocks >= 1,
        ensures
            final(self).wf(),
            take_post(*old(self), *final(self), ready@, piece_length as int),
    {
        let ghost pre = *old(self);
        let mut ready: Vec<PieceMessage> = Vec::new();
        let n = self.pending_blocks.len();
        let mut i: usize = 0;
        while i < n
            invariant
                self.wf(),
                0 <= i <= n,
                n == self.pending_blocks@.len(),
                n == pre.pending_blocks@.len(),
                n == pre.total_blocks,
                n >= 1,
                self.new_states == pre.new_states,
                self.old_states == pre.old_states,
                self.total_blocks == pre.total_blocks,
                self.last_block_size == pre.last_block_size,
                forall|j: int|
                    i <= j < n ==> #[trigger] self.pending_blocks@[j] == pre.pending_blocks@[j],
                forall|j: int|
                    0 <= j < i && !reported_in(ready@, j) ==> #[trigger] self.pending_blocks@[j]
                        == pre.pending_blocks@[j],
                forall|k: int|
                    0 <= k < ready@.len() ==> {
                        let j = (#[trigger] ready@[k]).piece_index as int;
                        &&& 0 <= j < i
                        &&& ready@[k] == pre.pending_blocks@[j]@[0]
                        &&& is_ready_list(
                            pre.pending_blocks@[j]@,
                            pre.total_blocks as int,
                            pre.last_block_size as int,
                            piece_length as int,
                        )
                        &&& !pre.has_old_good(ready@[k].piece_index)
                        &&& self.pending_blocks@[j]@.len() == 0
                    },
                forall|k1: int, k2: int|
                    0 <= k1 < k2 < ready@.len() ==> (#[trigger] ready@[k1]).piece_index < (
                    #[trigger] ready@[k2]).piece_index,
                forall|j: int|
                    0 <= j < i && !reported_in(ready@, j) ==> !(is_ready_list(
                        pre.pending_blocks@[j]@,
                        pre.total_blocks as int,
                        pre.last_block_size as int,
                        piece_length as int,
                    ) && !pre.has_old_good(pre.pending_blocks@[j]@[0].piece_index)),
            decreases n - i,
        {
            let ghost ready_before = ready@;
            let complete = piece_is_complete(
                self.total_blocks,
                self.last_block_size,
                piece_length,
                &self.pending_blocks[i],
            );
            if complete {
                let m = self.pending_blocks[i][0];
                assert(m.piece_index == i);
                if !contains_state(&self.old_states, PieceState::Good(m.piece_index)) {
                    ready.push(m);
                    let _ = self.pending_blocks.remove(i);
                    self.pending_blocks.insert(i, Vec::new());
                    proof {
                        assert(ready@[ready@.len() - 1].piece_index == i as int);
                        assert(reported_in(ready@, i as int));
                        assert(forall|k: int|
                            0 <= k < ready_before.len() ==> ready@[k] == ready_before[k]);
                        assert forall|j: int|
                            0 <= j < i && !reported_in(ready@, j) implies !reported_in(
                            ready_before,
                            j,
                        ) by {
                            if reported_in(ready_before, j) {
                                let w = choose|w: int|
                                    0 <= w < ready_before.len() && ready_before[w].piece_index == j;
                                assert(ready@[w].piece_index == j);
                            }
                        }
                        assert(self.pending_blocks@[i as int]@.len() == 0);
                    }
                }
            }
            proof {
                if ready@ =~= ready_before {
                } else {
                    assert(ready@.len() == ready_before.len() + 1);
                }
                assert forall|j: int|
                    0 <= j < i + 1 && !reported_in(ready@, j) implies !(is_ready_list(
                    pre.pending_blocks@[j]@,
                    pre.total_blocks as int,
                    pre.last_block_size as int,
                    piece_length as int,
                ) && !pre.has_old_good(pre.pending_blocks@[j]@[0].piece_index)) by {
                    if j < i {
                        if reported_in(ready_before, j) {
                            let w = choose|w: int|
                                0 <= w < ready_before.len() && ready_before[w].piece_index == j;
                            assert(ready@[w].piece_index == j);
                            assert(reported_in(ready@, j));
                        }
                    } else {
                        if !reported_in(ready@, i as int) {
                            assert(!complete || pre.has_old_good(
                                pre.pending_blocks@[j]@[0].piece_index,
                            ));
                        }
                    }
                }
            }
            i = i + 1;
        }
        ready
    }

    /// Merges the pending lists, then hands out, in ascending piece
    /// order, the single full-piece window of every piece that is whole
    /// and was not already dispatched as good; the pending list of every
    /// piece handed out is cleared.
    pub fn take_ready_pieces(&mut self, piece_length: usize) -> (ready: Vec<PieceMessage>)
        requires
            old(self).wf(),
            old(self).total_blocks >= 1,
        ensures
            final(self).wf(),
            run_whole_post(*old(self), *final(self), ready@, piece_length as int),
    {
        self.merge_pieces();
        let ghost mid = *self;
        let ready = self.take_ready_merged(piece_length);
        proof {
            assert(merge_post(*old(self), mid) && take_post(
                mid,
                *self,
                ready@,
                piece_length as int,
            ));
        }
        ready
    }
}

} // verus!
