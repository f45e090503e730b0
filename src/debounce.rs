//! Per-key debouncing of raw matrix snapshots: a key's debounced state
//! changes only once its raw state has differed from it for a given number of
//! consecutive scans, and each change is reported once, as a press or a
//! release.

use vstd::prelude::*;

verus! {

/// Consecutive scans that a raw change must last before it is believed.
pub const DEBOUNCE_THRESHOLD: u16 = 15;

/// A confirmed change of one key, at (row, column).
#[derive(Clone, Copy, Debug, PartialEq, Eq, Structural)]
pub enum KeyEvent {
    Press(usize, usize),
    Release(usize, usize),
}

impl KeyEvent {
    /// Whether the event is a press.
    pub fn is_press(&self) -> (r: bool)
        ensures
            r == (*self is Press),
    {
        match self {
            KeyEvent::Press(_, _) => true,
            KeyEvent::Release(_, _) => false,
        }
    }
}

/// The filter of one key: its debounced state, and how many consecutive
/// scans its raw state has differed from it.
pub struct KeyState {
    pub stable: bool,
    pub count: nat,
}

/// Whether a raw sample changes the debounced state of a key, with
/// threshold `t`.
pub open spec fn key_flips(k: KeyState, raw: bool, t: nat) -> bool {
    raw != k.stable && k.count + 1 >= t
}

/// One key's filter after one raw sample.
pub open spec fn key_step(k: KeyState, raw: bool, t: nat) -> KeyState {
    if raw == k.stable {
        KeyState { stable: k.stable, count: 0 }
    } else if k.count + 1 >= t {
        KeyState { stable: raw, count: 0 }
    } else {
        KeyState { stable: k.stable, count: k.count + 1 }
    }
}

/// What the debouncer holds: one filter per key, by row then column, and
/// the threshold.
pub struct DebounceView {
    pub keys: Seq<Seq<KeyState>>,
    pub threshold: nat,
}

/// The event that one key's sample gives, if any.
pub open spec fn key_event(k: KeyState, raw: bool, t: nat, r: int, c: int) -> Seq<KeyEvent> {
    if key_flips(k, raw, t) {
        if raw {
            seq![KeyEvent::Press(r as usize, c as usize)]
        } else {
            seq![KeyEvent::Release(r as usize, c as usize)]
        }
    } else {
        seq![]
    }
}

/// The events of the first `c` keys of row `r`, in column order.
pub open spec fn row_events(v: DebounceView, snap: Seq<Seq<bool>>, r: int, c: nat) -> Seq<KeyEvent>
    decreases c,
{
    if c == 0 {
        seq![]
    } else {
        let j = c - 1;
        row_events(v, snap, r, j as nat) + key_event(v.keys[r][j], snap[r][j], v.threshold, r, j)
    }
}

/// The events of the first `r` rows, row by row.
pub open spec fn events_spec(v: DebounceView, snap: Seq<Seq<bool>>, r: nat) -> Seq<KeyEvent>
    decreases r,
{
    if r == 0 {
        seq![]
    } else {
        let i = r - 1;
        events_spec(v, snap, i as nat) + row_events(v, snap, i, v.keys[i].len())
    }
}

/// The filters after a snapshot.
pub open spec fn step_spec(v: DebounceView, snap: Seq<Seq<bool>>) -> DebounceView {
    DebounceView {
        keys: Seq::new(
            v.keys.len(),
            |r: int| Seq::new(v.keys[r].len(), |c: int| key_step(v.keys[r][c], snap[r][c], v.threshold)),
        ),
        ..v
    }
}

/// A snapshot as rows of booleans.
pub open spec fn grid<const COLS: usize, const ROWS: usize>(s: [[bool; COLS]; ROWS]) -> Seq<Seq<bool>> {
    Seq::new(ROWS as nat, |r: int| s[r]@)
}

/// The debouncer of a matrix of `ROWS` rows and `COLS` columns.
pub struct Debouncer<const COLS: usize, const ROWS: usize> {
    stable: [[bool; COLS]; ROWS],
    counts: [[u16; COLS]; ROWS],
    threshold: u16,
}

impl<const COLS: usize, const ROWS: usize> View for Debouncer<COLS, ROWS> {
    type V = DebounceView;

    closed spec fn view(&self) -> DebounceView {
        DebounceView {
            keys: Seq::new(
                ROWS as nat,
                |r: int|
                    Seq::new(
                        COLS as nat,
                        |c: int| KeyState { stable: self.stable[r][c], count: self.counts[r][c] as nat },
                    ),
            ),
            threshold: self.threshold as nat,
        }
    }
}

/// One key's debounced state and counter after a raw sample, and whether it
/// changed.
fn step_key(stable: bool, count: u16, raw: bool, threshold: u16) -> (r: (bool, u16, bool))
    requires
        count < threshold || count == 0,
    ensures
        r.0 == key_step(KeyState { stable, count: count as nat }, raw, threshold as nat).stable,
        r.1 as nat == key_step(KeyState { stable, count: count as nat }, raw, threshold as nat).count,
        r.2 == key_flips(KeyState { stable, count: count as nat }, raw, threshold as nat),
        r.1 < threshold || r.1 == 0,
{
    if raw == stable {
        (stable, 0, false)
    } else if count + 1 >= threshold {
        (raw, 0, true)
    } else {
        (stable, count + 1, false)
    }
}

impl<const COLS: usize, const ROWS: usize> Debouncer<COLS, ROWS> {
    /// Every counter below the threshold (or zero).
    pub closed spec fn wf(&self) -> bool {
        forall|r: int, c: int|
            0 <= r < ROWS && 0 <= c < COLS ==> (#[trigger] self.counts[r][c] < self.threshold
                || self.counts[r][c] == 0)
    }

    /// A debouncer with every key released and settled, believing a change
    /// after `threshold` consecutive scans.
    pub fn new(threshold: u16) -> (r: Self)
        ensures
            r.wf(),
            r@.threshold == threshold,
            r@.keys.len() == ROWS,
            forall|i: int| 0 <= i < ROWS ==> (#[trigger] r@.keys[i]).len() == COLS,
            forall|i: int, j: int|
                0 <= i < ROWS && 0 <= j < COLS ==> #[trigger] r@.keys[i][j] == (KeyState {
                    stable: false,
                    count: 0,
                }),
    {
        Debouncer { stable: [[false; COLS]; ROWS], counts: [[0u16; COLS]; ROWS], threshold }
    }

    /// Whether the key at (`row`, `col`) is pressed, once debounced.
    pub fn is_pressed(&self, row: usize, col: usize) -> (r: bool)
        requires
            row < ROWS,
            col < COLS,
        ensures
            r == self@.keys[row as int][col as int].stable,
    {
        self.stable[row][col]
    }

    /// Consecutive scans that a change must last.
    pub fn threshold(&self) -> (r: u16)
        ensures
            r == self@.threshold,
    {
        self.threshold
    }

    /// Feeds one raw snapshot (`true`: pressed) and returns the confirmed
    /// changes, row by row and, within a row, column by column.
    pub fn events(&mut self, snapshot: &[[bool; COLS]; ROWS]) -> (r: Vec<KeyEvent>)
        requires
            old(self).wf(),
        ensures
            final(self).wf(),
            final(self)@ == step_spec(old(self)@, grid(*snapshot)),
            r@ == events_spec(old(self)@, grid(*snapshot), ROWS as nat),
    {
        let ghost start = self@;
        let ghost snap = grid(*snapshot);
        let mut out: Vec<KeyEvent> = Vec::new();
        let mut i: usize = 0;
        while i < ROWS
            invariant
                i <= ROWS,
                self.threshold == start.threshold,
                self.wf(),
                start.keys.len() == ROWS,
                forall|a: int| 0 <= a < ROWS ==> (#[trigger] start.keys[a]).len() == COLS,
                forall|a: int| 0 <= a < ROWS ==> (#[trigger] snap[a]).len() == COLS,
                snap == grid(*snapshot),
                forall|a: int, b: int|
                    i <= a < ROWS && 0 <= b < COLS ==> #[trigger] self@.keys[a][b] == start.keys[a][b],
                forall|a: int, b: int|
                    0 <= a < i && 0 <= b < COLS ==> #[trigger] self@.keys[a][b] == key_step(
                        start.keys[a][b],
                        snap[a][b],
                        start.threshold,
                    ),
                out@ == events_spec(start, snap, i as nat),
            decreases ROWS - i,
        {
            let mut srow: [bool; COLS] = self.stable[i];
            let mut crow: [u16; COLS] = self.counts[i];
            let raw_row: [bool; COLS] = snapshot[i];
            let ghost out_row_start = out@;
            let ghost pre_stable = self.stable;
            let ghost pre_counts = self.counts;
            let ghost pre_view = self@;
            assert(out@ =~= out_row_start + row_events(start, snap, i as int, 0));
            assert forall|b: int| 0 <= b < COLS implies #[trigger] srow[b] == start.keys[i as int][b].stable by {
                assert(self@.keys[i as int][b] == start.keys[i as int][b]);
            }
            assert forall|b: int| 0 <= b < COLS implies #[trigger] crow[b] as nat == start.keys[i as int][b].count by {
                assert(self@.keys[i as int][b] == start.keys[i as int][b]);
            }
            assert forall|b: int| 0 <= b < COLS implies (#[trigger] crow[b] < self.threshold || crow[b] == 0) by {
                assert(self.counts[i as int][b] < self.threshold || self.counts[i as int][b] == 0);
            }
            let mut j: usize = 0;
            while j < COLS
                invariant
                    i < ROWS,
                    j <= COLS,
                    self.threshold == start.threshold,
                    start.keys.len() == ROWS,
                    forall|a: int| 0 <= a < ROWS ==> (#[trigger] start.keys[a]).len() == COLS,
                    forall|a: int| 0 <= a < ROWS ==> (#[trigger] snap[a]).len() == COLS,
                    raw_row@ == snap[i as int],
                    forall|b: int| j <= b < COLS ==> #[trigger] srow[b] == start.keys[i as int][b].stable,
                    forall|b: int|
                        j <= b < COLS ==> #[trigger] crow[b] as nat == start.keys[i as int][b].count,
                    forall|b: int| 0 <= b < COLS ==> (#[trigger] crow[b] < self.threshold || crow[b] == 0),
                    forall|b: int|
                        0 <= b < j ==> #[trigger] srow[b] == key_step(
                            start.keys[i as int][b],
                            snap[i as int][b],
                            start.threshold,
                        ).stable && crow[b] as nat == key_step(
                            start.keys[i as int][b],
                            snap[i as int][b],
                            start.threshold,
                        ).count,
                    out@ == out_row_start + row_events(start, snap, i as int, j as nat),
                decreases COLS - j,
            {
                let (st, cn, flipped) = step_key(srow[j], crow[j], raw_row[j], self.threshold);
                srow[j] = st;
                crow[j] = cn;
                if flipped {
                    if raw_row[j] {
                        out.push(KeyEvent::Press(i, j));
                    } else {
                        out.push(KeyEvent::Release(i, j));
                    }
                }
                proof {
                    assert(out@ =~= out_row_start + row_events(start, snap, i as int, (j + 1) as nat));
                }
                j += 1;
            }
            self.stable[i] = srow;
            self.counts[i] = crow;
            proof {
                assert forall|a: int, b: int|
                    0 <= a < ROWS && 0 <= b < COLS && a != i implies #[trigger] self@.keys[a][b]
                    == pre_view.keys[a][b] && (self.counts[a][b] < self.threshold
                    || self.counts[a][b] == 0) by {
                    assert(self.stable[a] == pre_stable[a]);
                    assert(self.counts[a] == pre_counts[a]);
                }
                assert forall|b: int| 0 <= b < COLS implies #[trigger] self@.keys[i as int][b]
                    == key_step(start.keys[i as int][b], snap[i as int][b], start.threshold) && (
                self.counts[i as int][b] < self.threshold || self.counts[i as int][b] == 0) by {
                    assert(self.stable[i as int] == srow);
                    assert(self.counts[i as int] == crow);
                }
                assert(events_spec(start, snap, (i + 1) as nat) == events_spec(start, snap, i as nat)
                    + row_events(start, snap, i as int, COLS as nat));
            }
            i += 1;
        }
        assert forall|a: int| 0 <= a < ROWS implies #[trigger] self@.keys[a] =~= step_spec(start, snap).keys[a] by {
            assert forall|b: int| 0 <= b < COLS implies #[trigger] self@.keys[a][b] == step_spec(start, snap).keys[a][b] by {
                assert(self@.keys[a][b] == key_step(start.keys[a][b], snap[a][b], start.threshold));
            }
        }
        assert(self@.keys =~= step_spec(start, snap).keys);
        out
    }
}

/// One key's filter after a run of raw samples from released and settled.
pub open spec fn run_key(t: nat, s: Seq<bool>) -> KeyState
    decreases s.len(),
{
    if s.len() == 0 {
        KeyState { stable: false, count: 0 }
    } else {
        key_step(run_key(t, s.drop_last()), s.last(), t)
    }
}

/// Whether the `k`-th sample of a run gives a press.
pub open spec fn press_at(t: nat, s: Seq<bool>, k: int) -> bool {
    key_flips(run_key(t, s.take(k)), s[k], t) && s[k]
}

/// How many samples at the end of `s` equal `b`.
pub open spec fn trailing(s: Seq<bool>, b: bool) -> nat
    decreases s.len(),
{
    if s.len() == 0 || s.last() != b {
        0
    } else {
        1 + trailing(s.drop_last(), b)
    }
}


/// A key's counter is the number of latest samples that differ from its
/// debounced state, and stays below the threshold.
proof fn lemma_count_is_trailing(t: nat, s: Seq<bool>)
    requires
        t >= 1,
    ensures
        run_key(t, s).count == trailing(s, !run_key(t, s).stable),
        run_key(t, s).count < t,
    decreases s.len(),
{
    if s.len() > 0 {
        lemma_count_is_trailing(t, s.drop_last());
    }
}

/// At least `m` samples at the end of `s` equal `b` exactly when the last
/// `m` samples all do.
proof fn lemma_trailing_window(s: Seq<bool>, b: bool, m: nat)
    requires
        m <= s.len(),
    ensures
        trailing(s, b) >= m <==> forall|j: int| s.len() - m <= j < s.len() ==> s[j] == b,
    decreases s.len(),
{
    if m > 0 {
        let p = s.drop_last();
        lemma_trailing_window(p, b, (m - 1) as nat);
        if trailing(s, b) >= m {
            assert forall|j: int| s.len() - m <= j < s.len() implies s[j] == b by {
                if j < s.len() - 1 {
                    assert(p[j] == s[j]);
                }
            }
        }
        if forall|j: int| s.len() - m <= j < s.len() ==> s[j] == b {
            assert(s[s.len() - 1] == b);
            assert forall|j: int| p.len() - (m - 1) <= j < p.len() implies p[j] == b by {
                assert(p[j] == s[j]);
            }
        }
    }
}

/// A debounced key reports a press at a scan exactly when it was released
/// (debounced) before that scan and its raw state has been pressed for the
/// last `t` scans, that one included.
pub proof fn lemma_press_iff_held(t: nat, s: Seq<bool>, k: int)
    requires
        t >= 1,
        0 <= k < s.len(),
    ensures
        press_at(t, s, k) <==> {
            &&& !run_key(t, s.take(k)).stable
            &&& k + 1 >= t
            &&& forall|j: int| k + 1 - t <= j <= k ==> s[j]
        },
{
    let p = s.take(k);
    let q = s.take(k + 1);
    assert(q.drop_last() =~= p);
    assert(q.last() == s[k]);
    lemma_count_is_trailing(t, p);
    lemma_trailing_le_len(p, true);
    if press_at(t, s, k) {
        assert(trailing(q, true) == 1 + trailing(p, true));
        assert(k + 1 >= t);
        lemma_trailing_window(q, true, t);
        assert forall|j: int| k + 1 - t <= j <= k implies s[j] by {
            assert(q[j] == s[j]);
        }
    }
    if !run_key(t, p).stable && k + 1 >= t && forall|j: int| k + 1 - t <= j <= k ==> s[j] {
        lemma_trailing_window(q, true, t);
        assert forall|j: int| q.len() - t <= j < q.len() implies q[j] == true by {
            assert(q[j] == s[j]);
        }
        assert(trailing(q, true) == 1 + trailing(p, true));
    }
}

/// No more samples at the end of `s` than `s` has.
proof fn lemma_trailing_le_len(s: Seq<bool>, b: bool)
    ensures
        trailing(s, b) <= s.len(),
    decreases s.len(),
{
    if s.len() > 0 {
        lemma_trailing_le_len(s.drop_last(), b);
    }
}

/// A press is reported once: while the key stays pressed after it, no
/// further press comes.
pub proof fn lemma_press_reported_once(t: nat, s: Seq<bool>, k: int, m: int)
    requires
        t >= 1,
        0 <= k < m < s.len(),
        press_at(t, s, k),
        forall|j: int| k < j <= m ==> s[j],
    ensures
        !press_at(t, s, m),
{
    lemma_stays_pressed(t, s, k, m);
}

/// After a press, the debounced state stays pressed while the raw state does.
proof fn lemma_stays_pressed(t: nat, s: Seq<bool>, k: int, m: int)
    requires
        t >= 1,
        0 <= k < m <= s.len(),
        press_at(t, s, k),
        forall|j: int| k < j < m ==> s[j],
    ensures
        run_key(t, s.take(m)).stable,
    decreases m - k,
{
    let q = s.take(m);
    assert(q.drop_last() =~= s.take(m - 1));
    assert(q.last() == s[m - 1]);
    if m - 1 > k {
        lemma_stays_pressed(t, s, k, m - 1);
    }
}

} // verus!
