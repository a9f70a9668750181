use vstd::prelude::*;

verus! {

/// Number of pitch bins of the hidden Markov model; each bin exists once
/// unvoiced and once voiced, so the model has `2 * NUM_BINS` states.
pub const NUM_BINS: usize = 345;

/// A decoded HMM state: a pitch bin and whether the frame is voiced.
#[derive(Debug, Clone, Copy, PartialEq, Eq, Structural)]
pub struct HmmState {
    pub bin: usize,
    pub voiced: bool,
}

/// Flat index of a state: unvoiced bins come first, voiced bins after them.
pub open spec fn spec_state_index(bin: int, voiced: bool) -> int {
    if voiced { NUM_BINS + bin } else { bin }
}

/// The state stored at a flat index.
pub open spec fn spec_state_from_index(idx: int) -> HmmState {
    if idx >= NUM_BINS {
        HmmState { bin: (idx - NUM_BINS) as usize, voiced: true }
    } else {
        HmmState { bin: idx as usize, voiced: false }
    }
}

pub fn state_index(bin: usize, voiced: bool) -> (idx: usize)
    requires
        voiced ==> bin + NUM_BINS <= usize::MAX,
    ensures
        idx == spec_state_index(bin as int, voiced),
{
    if voiced {
        NUM_BINS + bin
    } else {
        bin
    }
}

pub fn state_from_index(idx: usize) -> (s: HmmState)
    ensures
        s == spec_state_from_index(idx as int),
{
    if idx >= NUM_BINS {
        HmmState { bin: idx - NUM_BINS, voiced: true }
    } else {
        HmmState { bin: idx, voiced: false }
    }
}

/// Indexing a state and reading it back gives the same state, for every bin
/// of the model.
pub proof fn lemma_state_index_roundtrip(bin: usize, voiced: bool)
    requires
        bin < NUM_BINS,
    ensures
        0 <= spec_state_index(bin as int, voiced) < 2 * NUM_BINS,
        spec_state_from_index(spec_state_index(bin as int, voiced)) == (HmmState { bin, voiced }),
{
}

/// Every flat index below `2 * NUM_BINS` is the index of the state read from it.
pub proof fn lemma_state_from_index_roundtrip(idx: usize)
    requires
        idx < 2 * NUM_BINS,
    ensures
        spec_state_from_index(idx as int).bin < NUM_BINS,
        spec_state_index(
            spec_state_from_index(idx as int).bin as int,
            spec_state_from_index(idx as int).voiced,
        ) == idx,
{
}

/// Widest pitch jump, in bins, that one frame-to-frame transition may make.
pub const MAX_TRANSITION: usize = 25;

/// Position of the pitch jump `delta` in a transition table that lists the
/// jumps `-MAX_TRANSITION ..= MAX_TRANSITION` in order; `None` outside it.
pub fn delta_index(delta: i32) -> (r: Option<usize>)
    ensures
        -25 <= delta <= 25 ==> r == Some((delta + 25) as usize),
        !(-25 <= delta <= 25) ==> r is None,
{
    if -25 <= delta && delta <= 25 {
        Some((delta + 25) as usize)
    } else {
        None
    }
}

/// The previous bins `lo ..= hi` from which the bin `next_bin` can be reached
/// in one transition.
pub fn transition_window(next_bin: usize) -> (r: (usize, usize))
    requires
        next_bin + MAX_TRANSITION <= usize::MAX,
    ensures
        r.0 == (if next_bin >= MAX_TRANSITION { next_bin - MAX_TRANSITION } else { 0 }),
        r.1 == (if next_bin + MAX_TRANSITION <= NUM_BINS - 1 { next_bin + MAX_TRANSITION } else { NUM_BINS - 1 }),
{
    let lo = if next_bin >= MAX_TRANSITION { next_bin - MAX_TRANSITION } else { 0 };
    let hi = if next_bin + MAX_TRANSITION <= NUM_BINS - 1 { next_bin + MAX_TRANSITION } else { NUM_BINS - 1 };
    (lo, hi)
}

/// Flat index of the state occupied at frame `t` when the path ends in
/// state `last` and each earlier state is read from the backpointer row of
/// the frame after it.
pub open spec fn trace(rows: Seq<Seq<usize>>, last: usize, t: int) -> usize
    decreases rows.len() - t,
{
    if t < 0 || t >= rows.len() - 1 {
        last
    } else {
        rows[t + 1][trace(rows, last, t + 1) as int]
    }
}

/// The states of frames `start ..` of the path that ends in state `last`.
pub open spec fn decoded_path(rows: Seq<Seq<usize>>, last: usize, start: int) -> Seq<HmmState> {
    if start < 0 || start >= rows.len() {
        Seq::empty()
    } else {
        Seq::new(
            (rows.len() - start) as nat,
            |k: int| spec_state_from_index(trace(rows, last, start + k) as int),
        )
    }
}

/// Every backpointer row has one entry per state, each naming a state.
pub open spec fn rows_well_formed(rows: Seq<Seq<usize>>) -> bool {
    &&& forall|t: int| 0 <= t < rows.len() ==> (#[trigger] rows[t]).len() == 2 * NUM_BINS
    &&& forall|t: int, i: int|
        0 <= t < rows.len() && 0 <= i < rows[t].len() ==> #[trigger] rows[t][i] < 2 * NUM_BINS
}

/// Whether `row` can be recorded as the backpointer row of a frame: one
/// entry per state, each naming a state in the transition window of its own
/// state (or state 0).
pub fn is_valid_row(row: &Vec<usize>) -> (ok: bool)
    ensures
        ok == (row@.len() == 2 * NUM_BINS && (forall|i: int| 0 <= i < row@.len() ==> #[trigger] row@[i] < 2
            * NUM_BINS) && row_within_window(row@)),
{
    if row.len() != 2 * NUM_BINS {
        return false;
    }
    let mut i: usize = 0;
    while i < row.len()
        invariant
            row@.len() == 2 * NUM_BINS,
            i <= row@.len(),
            forall|j: int| 0 <= j < i ==> #[trigger] row@[j] < 2 * NUM_BINS,
            forall|j: int| 0 <= j < i ==> backpointer_in_window(j, #[trigger] row@[j] as int),
        decreases row@.len() - i,
    {
        let p = row[i];
        if p >= 2 * NUM_BINS {
            return false;
        }
        let bi = if i >= NUM_BINS { i - NUM_BINS } else { i };
        let bp = if p >= NUM_BINS { p - NUM_BINS } else { p };
        if p != 0 && (bp + MAX_TRANSITION < bi || bi + MAX_TRANSITION < bp) {
            assert(!backpointer_in_window(i as int, p as int));
            return false;
        }
        i = i + 1;
    }
    true
}

/// The backpointer trellis of the Viterbi decoder: for every frame, the
/// best predecessor of each state.
pub struct ViterbiTracker {
    backpointers: Vec<Vec<usize>>,
    frames: usize,
}

impl View for ViterbiTracker {
    type V = Seq<Seq<usize>>;

    closed spec fn view(&self) -> Seq<Seq<usize>> {
        self.backpointers@.map_values(|r: Vec<usize>| r@)
    }
}

impl ViterbiTracker {
    /// The trellis is consistent: one row per frame, every row well formed.
    pub closed spec fn well_formed(&self) -> bool {
        &&& self.frames == self.backpointers@.len()
        &&& rows_well_formed(self@)
        &&& rows_within_window(self@)
        &&& forall|t: int| 0 <= t < self.backpointers@.len() ==> (#[trigger] self.backpointers@[t]).len() == 2 * NUM_BINS
    }

    pub fn new() -> (r: Self)
        ensures
            r.well_formed(),
            r@ == Seq::<Seq<usize>>::empty(),
    {
        let r = ViterbiTracker { backpointers: Vec::new(), frames: 0 };
        assert(r@ =~= Seq::<Seq<usize>>::empty());
        r
    }

    /// Number of frames pushed and not pruned.
    pub fn frames(&self) -> (n: usize)
        requires
            self.well_formed(),
        ensures
            n == self@.len(),
    {
        self.frames
    }

    /// Records the backpointer row of a new frame.
    pub fn push_row(&mut self, row: Vec<usize>)
        requires
            old(self).well_formed(),
            old(self)@.len() < usize::MAX,
            row@.len() == 2 * NUM_BINS,
            forall|i: int| 0 <= i < row@.len() ==> #[trigger] row@[i] < 2 * NUM_BINS,
            row_within_window(row@),
        ensures
            final(self).well_formed(),
            final(self)@ == old(self)@.push(row@),
    {
        let ghost r = row@;
        self.backpointers.push(row);
        self.frames = self.frames + 1;
        assert(self@ =~= old(self)@.push(r));
    }

    /// The states of frames `start_frame ..` of the path that ends in state
    /// `best_final` of the last frame.
    pub fn best_suffix_from(&self, start_frame: usize, best_final: usize) -> (path: Vec<HmmState>)
        requires
            self.well_formed(),
            start_frame < self@.len() && self@.len() > 1 ==> best_final < 2 * NUM_BINS,
        ensures
            path@ == decoded_path(self@, best_final, start_frame as int),
            forall|k: int|
                0 < k < path@.len() ==> step_within_window(path@[k - 1], #[trigger] path@[k]),
    {
        if self.frames == 0 || start_frame >= self.frames {
            return Vec::new();
        }
        let ghost rows = self@;
        let n = self.frames;
        let mut state = best_final;
        let mut rev: Vec<HmmState> = Vec::new();
        let mut t = n;
        while t > start_frame
            invariant
                self.well_formed(),
                rows == self@,
                n == rows.len(),
                start_frame < n,
                start_frame <= t <= n,
                rev@.len() == n - t,
                forall|j: int| 0 <= j < rev@.len() ==> #[trigger] rev@[j] == spec_state_from_index(trace(rows, best_final, n - 1 - j) as int),
                t > start_frame ==> state == trace(rows, best_final, t - 1),
                t > start_frame && t - 1 > 0 ==> state < 2 * NUM_BINS,
            decreases t,
        {
            let tt = t - 1;
            let s = state_from_index(state);
            rev.push(s);
            if tt > 0 {
                proof {
                    assert(self.backpointers@[tt as int]@ == rows[tt as int]);
                    assert(rows[tt as int][state as int] < 2 * NUM_BINS);
                }
                state = self.backpointers[tt][state];
            }
            t = tt;
        }
        let mut path: Vec<HmmState> = Vec::new();
        let mut i = rev.len();
        while i > 0
            invariant
                i <= rev@.len(),
                rev@.len() == n - start_frame,
                path@.len() == rev@.len() - i,
                forall|j: int| 0 <= j < rev@.len() ==> #[trigger] rev@[j] == spec_state_from_index(trace(rows, best_final, n - 1 - j) as int),
                forall|k: int| 0 <= k < path@.len() ==> #[trigger] path@[k] == spec_state_from_index(trace(rows, best_final, start_frame + k) as int),
            decreases i,
        {
            i = i - 1;
            path.push(rev[i]);
        }
        assert(path@ =~= decoded_path(rows, best_final, start_frame as int));
        proof {
            if n > 1 {
                lemma_path_moves_within_window(rows, best_final, start_frame as int);
            }
        }
        path
    }

    /// The whole path that ends in state `best_final` of the last frame.
    pub fn best_path(&self, best_final: usize) -> (path: Vec<HmmState>)
        requires
            self.well_formed(),
            self@.len() > 1 ==> best_final < 2 * NUM_BINS,
        ensures
            path@ == decoded_path(self@, best_final, 0),
            forall|k: int|
                0 < k < path@.len() ==> step_within_window(path@[k - 1], #[trigger] path@[k]),
    {
        self.best_suffix_from(0, best_final)
    }

    /// Drops the rows of the `count` oldest frames (all of them when fewer
    /// are held).
    pub fn prune(&mut self, count: usize)
        requires
            old(self).well_formed(),
        ensures
            final(self).well_formed(),
            final(self)@ == old(self)@.skip(
                if count <= old(self)@.len() { count as int } else { old(self)@.len() as int },
            ),
    {
        if count == 0 {
            assert(self@ =~= old(self)@.skip(0));
            return;
        }
        let prune = if count < self.backpointers.len() { count } else { self.backpointers.len() };
        if prune == 0 {
            assert(self@ =~= old(self)@.skip(0));
            return;
        }
        let rest = self.backpointers.split_off(prune);
        self.backpointers = rest;
        self.frames = self.frames - prune;
        assert(self@ =~= old(self)@.skip(prune as int));
    }
}

/// Decoding from frame `start` yields exactly the tail, from `start` on, of
/// the path decoded from the first frame.
pub proof fn lemma_suffix_of_best_path(rows: Seq<Seq<usize>>, last: usize, start: int)
    requires
        0 <= start <= rows.len(),
    ensures
        decoded_path(rows, last, start) == decoded_path(rows, last, 0).skip(start),
{
    if start >= rows.len() {
        assert(decoded_path(rows, last, start) =~= decoded_path(rows, last, 0).skip(start));
    } else {
        let a = decoded_path(rows, last, start);
        let b = decoded_path(rows, last, 0);
        assert forall|k: int| 0 <= k < a.len() implies #[trigger] a[k] == b.skip(start)[k] by {
            assert(b.skip(start)[k] == b[start + k]);
        }
        assert(a =~= b.skip(start));
    }
}

proof fn lemma_trace_skip(rows: Seq<Seq<usize>>, last: usize, p: int, t: int)
    requires
        0 <= p <= rows.len(),
        0 <= t < rows.len() - p,
    ensures
        trace(rows.skip(p), last, t) == trace(rows, last, t + p),
    decreases rows.len() - p - t,
{
    if t < rows.len() - p - 1 {
        lemma_trace_skip(rows, last, p, t + 1);
        assert(rows.skip(p)[t + 1] == rows[t + 1 + p]);
    }
}

/// Dropping the `p` oldest rows of the trellis keeps the path that ends in
/// the same final state, minus its first `p` frames.
pub proof fn lemma_prune_keeps_path_tail(rows: Seq<Seq<usize>>, last: usize, p: int)
    requires
        0 <= p <= rows.len(),
    ensures
        decoded_path(rows.skip(p), last, 0) == decoded_path(rows, last, p),
{
    let a = decoded_path(rows.skip(p), last, 0);
    let b = decoded_path(rows, last, p);
    if p < rows.len() {
        assert forall|k: int| 0 <= k < a.len() implies #[trigger] a[k] == b[k] by {
            lemma_trace_skip(rows, last, p, k);
        }
    }
    assert(a =~= b);
}

proof fn lemma_trace_bounded(rows: Seq<Seq<usize>>, last: usize, t: int)
    requires
        rows_well_formed(rows),
        last < 2 * NUM_BINS,
    ensures
        trace(rows, last, t) < 2 * NUM_BINS,
    decreases rows.len() - t,
{
    if !(t < 0 || t >= rows.len() - 1) {
        lemma_trace_bounded(rows, last, t + 1);
        let i = trace(rows, last, t + 1) as int;
        assert(rows[t + 1][i] < 2 * NUM_BINS);
    }
}

/// The decoded path is a chain through the trellis: it ends in the chosen
/// final state, and the state of every frame is the backpointer, in the row
/// of the next frame, of the state of that next frame.
pub proof fn lemma_path_follows_backpointers(rows: Seq<Seq<usize>>, last: usize, start: int)
    requires
        rows_well_formed(rows),
        last < 2 * NUM_BINS,
        0 <= start < rows.len(),
    ensures
        decoded_path(rows, last, start).len() == rows.len() - start,
        decoded_path(rows, last, start).last() == spec_state_from_index(last as int),
        forall|k: int|
            0 < k < decoded_path(rows, last, start).len() ==> spec_state_index(
                decoded_path(rows, last, start)[k - 1].bin as int,
                decoded_path(rows, last, start)[k - 1].voiced,
            ) == rows[start + k][spec_state_index(
                #[trigger] decoded_path(rows, last, start)[k].bin as int,
                decoded_path(rows, last, start)[k].voiced,
            )],
{
    let path = decoded_path(rows, last, start);
    assert forall|k: int| 0 < k < path.len() implies spec_state_index(
        path[k - 1].bin as int,
        path[k - 1].voiced,
    ) == rows[start + k][spec_state_index(#[trigger] path[k].bin as int, path[k].voiced)] by {
        lemma_trace_bounded(rows, last, start + k);
        lemma_trace_bounded(rows, last, start + k - 1);
        let i = trace(rows, last, start + k);
        let j = trace(rows, last, start + k - 1);
        assert(j == rows[start + k][i as int]);
    }
}

/// The decoded states from frame `k` on number `n - k` for a trellis of `n`
/// frames, and none when `k >= n`; whatever the final state.
pub proof fn lemma_decoded_path_len(rows: Seq<Seq<usize>>, last: usize, k: int)
    requires
        0 <= k,
    ensures
        decoded_path(rows, last, k).len() == if k < rows.len() { rows.len() - k } else { 0 },
{
}

/// Pushing a frame lengthens the decoded path by one, and decoding from the
/// new frame yields the final state alone.
pub proof fn lemma_push_extends_path(rows: Seq<Seq<usize>>, row: Seq<usize>, last: usize)
    ensures
        decoded_path(rows.push(row), last, 0).len() == rows.len() + 1,
        decoded_path(rows.push(row), last, rows.len() as int) == seq![spec_state_from_index(last as int)],
{
    let r = rows.push(row);
    assert(trace(r, last, rows.len() as int) == last);
    assert(decoded_path(r, last, rows.len() as int) =~= seq![spec_state_from_index(last as int)]);
}

/// Dropping the `c` oldest rows shifts every decoded suffix by `c` frames
/// without changing its states.
pub proof fn lemma_prune_keeps_suffixes(rows: Seq<Seq<usize>>, last: usize, c: int, k: int)
    requires
        0 <= c <= rows.len(),
        0 <= k,
    ensures
        decoded_path(rows.skip(c), last, k) == decoded_path(rows, last, k + c),
{
    let a = decoded_path(rows.skip(c), last, k);
    let b = decoded_path(rows, last, k + c);
    if k < rows.len() - c {
        assert forall|i: int| 0 <= i < a.len() implies #[trigger] a[i] == b[i] by {
            lemma_trace_skip(rows, last, c, k + i);
        }
    }
    assert(a =~= b);
}

/// Pitch bin of a flat state index.
pub open spec fn bin_of(idx: int) -> int {
    if idx >= NUM_BINS { idx - NUM_BINS } else { idx }
}

/// A backpointer `p` of state `i` either names a state whose bin lies in the
/// transition window of the bin of `i`, or is state 0: the scoring step
/// starts each search from state 0 and keeps it when no predecessor in the
/// window scores higher.
pub open spec fn backpointer_in_window(i: int, p: int) -> bool {
    p == 0 || (bin_of(i) - MAX_TRANSITION <= bin_of(p) && bin_of(p) <= bin_of(i) + MAX_TRANSITION)
}

/// Every backpointer of a row lies in the transition window of its state.
pub open spec fn row_within_window(row: Seq<usize>) -> bool {
    forall|i: int| 0 <= i < row.len() ==> backpointer_in_window(i, #[trigger] row[i] as int)
}

/// Every row of the trellis keeps its backpointers in the transition window.
pub open spec fn rows_within_window(rows: Seq<Seq<usize>>) -> bool {
    forall|t: int| 0 <= t < rows.len() ==> row_within_window(#[trigger] rows[t])
}

/// One step of a decoded path: it moves at most `MAX_TRANSITION` bins, or
/// it comes from state 0, the predecessor kept when none scored.
pub open spec fn step_within_window(prev: HmmState, next: HmmState) -> bool {
    ||| prev == spec_state_from_index(0)
    ||| (prev.bin <= next.bin + MAX_TRANSITION && next.bin <= prev.bin + MAX_TRANSITION)
}

/// A decoded path moves at most `MAX_TRANSITION` bins from one frame to the
/// next, except where it steps back into state 0, the predecessor kept for a
/// state none of whose window predecessors scored.
pub proof fn lemma_path_moves_within_window(rows: Seq<Seq<usize>>, last: usize, start: int)
    requires
        rows_well_formed(rows),
        rows_within_window(rows),
        last < 2 * NUM_BINS,
        0 <= start,
    ensures
        forall|k: int|
            0 < k < decoded_path(rows, last, start).len() ==> step_within_window(
                decoded_path(rows, last, start)[k - 1],
                #[trigger] decoded_path(rows, last, start)[k],
            ),
{
    let path = decoded_path(rows, last, start);
    assert forall|k: int| 0 < k < path.len() implies step_within_window(
        path[k - 1],
        #[trigger] path[k],
    ) by {
        lemma_trace_bounded(rows, last, start + k);
        let i = trace(rows, last, start + k);
        let j = trace(rows, last, start + k - 1);
        assert(j == rows[start + k][i as int]);
        assert(row_within_window(rows[start + k]));
        assert(backpointer_in_window(i as int, j as int));
        assert(path[k] == spec_state_from_index(i as int));
        assert(path[k - 1] == spec_state_from_index(j as int));
    }
}

} // verus!
