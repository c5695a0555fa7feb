//! Tool loop guard for repeated tool-call sequence detection.
//!
//! Detects repeated tool-call patterns by hashing normalized tool call batches
//! and scanning a sliding window for repeated hashes.
use std::collections::VecDeque;
use vstd::prelude::*;

use crate::digest::{hex_encode, hex_lower, sha256_digest, sha256_spec};
use crate::json::{json_reserialize, json_reserialized};
use crate::text::{str_eq, trim, trim_spec};

verus! {

/// What the guard decided for one recorded batch.
#[derive(Debug, Clone, PartialEq, Eq)]
pub enum LoopGuardDecision {
    Continue,
    Warn { hash: String, occurrences: usize, loops_detected: usize },
    Break { hash: String, occurrences: usize, loops_detected: usize },
}

/// Mathematical form of a [`LoopGuardDecision`].
pub enum GuardOutcome {
    Continue,
    Warn { hash: Seq<char>, occurrences: nat, loops_detected: nat },
    Break { hash: Seq<char>, occurrences: nat, loops_detected: nat },
}

impl View for LoopGuardDecision {
    type V = GuardOutcome;

    open spec fn view(&self) -> GuardOutcome {
        match self {
            LoopGuardDecision::Continue => GuardOutcome::Continue,
            LoopGuardDecision::Warn { hash, occurrences, loops_detected } => GuardOutcome::Warn {
                hash: hash@,
                occurrences: *occurrences as nat,
                loops_detected: *loops_detected as nat,
            },
            LoopGuardDecision::Break { hash, occurrences, loops_detected } => GuardOutcome::Break {
                hash: hash@,
                occurrences: *occurrences as nat,
                loops_detected: *loops_detected as nat,
            },
        }
    }
}

/// One tool call of a batch: its name and raw JSON arguments.
#[derive(Debug, Clone, Copy)]
pub struct ToolCallSig<'a> {
    pub name: &'a str,
    pub arguments: &'a str,
}

/// Mathematical state of a [`LoopGuard`].
pub struct GuardState {
    pub window: nat,
    pub threshold: nat,
    pub max_loops: nat,
    pub recent: Seq<Seq<char>>,
    pub loops: nat,
}

/// Configuration bounds that every guard keeps.
pub open spec fn guard_wf(st: GuardState) -> bool {
    &&& st.window >= 1
    &&& st.threshold >= 2
    &&& st.max_loops >= 1
    &&& st.recent.len() <= st.window
}

/// Arguments normalized for hashing: the compact JSON form when `raw` parses,
/// else `raw` trimmed.
pub open spec fn normalized_args(raw: Seq<char>) -> Seq<char> {
    match json_reserialized(raw) {
        Some(t) => t,
        None => trim_spec(raw),
    }
}

/// The bytes one call contributes to a batch's hash input.
pub open spec fn call_piece(call: ToolCallSig) -> Seq<u8> {
    vstd::utf8::encode_utf8(call.name@) + seq![10u8] + vstd::utf8::encode_utf8(
        normalized_args(call.arguments@),
    ) + seq![10u8, 45u8, 45u8, 10u8]
}

/// Hash input of a batch: the pieces of its calls, in order.
pub open spec fn batch_payload(batch: Seq<ToolCallSig>) -> Seq<u8>
    decreases batch.len(),
{
    if batch.len() == 0 {
        Seq::empty()
    } else {
        batch_payload(batch.drop_last()) + call_piece(batch.last())
    }
}

/// The lower-case hex SHA-256 of a batch's hash input.
pub open spec fn batch_hash(batch: Seq<ToolCallSig>) -> Seq<char> {
    hex_lower(sha256_spec(batch_payload(batch)))
}

/// `recent` with `h` appended, keeping only the newest `window` entries.
pub open spec fn push_window(recent: Seq<Seq<char>>, h: Seq<char>, window: nat) -> Seq<Seq<char>> {
    let r = recent.push(h);
    if r.len() > window {
        r.skip(r.len() - window)
    } else {
        r
    }
}

/// Number of entries of `s` equal to `h`.
pub open spec fn count_of(s: Seq<Seq<char>>, h: Seq<char>) -> nat
    decreases s.len(),
{
    if s.len() == 0 {
        0
    } else {
        count_of(s.drop_last(), h) + if s.last() == h { 1nat } else { 0nat }
    }
}

/// The guard's transition on recording a non-empty batch with hash `h`.
pub open spec fn guard_step(st: GuardState, h: Seq<char>) -> (GuardState, GuardOutcome) {
    let recent = push_window(st.recent, h, st.window);
    let occ = count_of(recent, h);
    if occ < st.threshold {
        (GuardState { recent, ..st }, GuardOutcome::Continue)
    } else {
        let loops = st.loops + 1;
        let st2 = GuardState { recent, loops, ..st };
        if loops >= st.max_loops {
            (st2, GuardOutcome::Break { hash: h, occurrences: occ, loops_detected: loops })
        } else {
            (st2, GuardOutcome::Warn { hash: h, occurrences: occ, loops_detected: loops })
        }
    }
}


/// The state after recording `n` non-empty batches that all hash to `h`.
pub open spec fn repeat_step(st: GuardState, h: Seq<char>, n: nat) -> GuardState
    decreases n,
{
    if n == 0 {
        st
    } else {
        guard_step(repeat_step(st, h, (n - 1) as nat), h).0
    }
}

/// The newest `n` entries of `s` (all of them when there are fewer).
pub open spec fn newest(s: Seq<Seq<char>>, n: nat) -> Seq<Seq<char>> {
    if s.len() > n {
        s.skip(s.len() - n)
    } else {
        s
    }
}

/// The state after recording non-empty batches with hashes `hs`, in order.
pub open spec fn run_guard(st: GuardState, hs: Seq<Seq<char>>) -> GuardState
    decreases hs.len(),
{
    if hs.len() == 0 {
        st
    } else {
        guard_step(run_guard(st, hs.drop_last()), hs.last()).0
    }
}

/// How many of those recordings were reported as a loop (`Warn` or `Break`).
pub open spec fn alarms(st: GuardState, hs: Seq<Seq<char>>) -> nat
    decreases hs.len(),
{
    if hs.len() == 0 {
        0
    } else {
        alarms(st, hs.drop_last()) + if guard_step(run_guard(st, hs.drop_last()), hs.last()).1 is Continue {
            0nat
        } else {
            1nat
        }
    }
}

proof fn lemma_push_newest(s: Seq<Seq<char>>, h: Seq<char>, w: nat)
    requires
        w >= 1,
    ensures
        push_window(newest(s, w), h, w) == newest(s.push(h), w),
{
    let r = newest(s, w).push(h);
    if s.len() >= w {
        assert(r.skip(r.len() - w) =~= s.push(h).skip(s.push(h).len() - w));
    } else {
        assert(r =~= s.push(h));
    }
}

/// The guard over a whole run: a new guard (nothing recent, no loop yet) that
/// recorded the non-empty batches with hashes `hs` holds the newest `window` of
/// them and has counted as loops exactly the recordings reported as `Warn` or
/// `Break`. So the next batch, with hash `h`, is judged on the newest `window`
/// hashes of `hs` followed by `h`: with fewer than `threshold` occurrences of
/// `h` there it continues; otherwise it is the next loop, reported as `Warn`
/// while that number stays below `max_loops`, and as `Break` from then on.
pub proof fn lemma_guard_run(st: GuardState, hs: Seq<Seq<char>>, h: Seq<char>)
    requires
        guard_wf(st),
        st.recent.len() == 0,
        st.loops == 0,
    ensures
        run_guard(st, hs).recent == newest(hs, st.window),
        run_guard(st, hs).loops == alarms(st, hs),
        run_guard(st, hs).window == st.window,
        run_guard(st, hs).threshold == st.threshold,
        run_guard(st, hs).max_loops == st.max_loops,
        ({
            let window = newest(hs.push(h), st.window);
            let occ = count_of(window, h);
            let loops = alarms(st, hs) + 1;
            let d = guard_step(run_guard(st, hs), h);
            &&& d.0.recent == window
            &&& occ < st.threshold ==> d.1 == GuardOutcome::Continue && d.0.loops == alarms(st, hs)
            &&& occ >= st.threshold && loops < st.max_loops ==> d.1 == (GuardOutcome::Warn {
                hash: h,
                occurrences: occ,
                loops_detected: loops,
            }) && d.0.loops == loops
            &&& occ >= st.threshold && loops >= st.max_loops ==> d.1 == (GuardOutcome::Break {
                hash: h,
                occurrences: occ,
                loops_detected: loops,
            }) && d.0.loops == loops
        }),
    decreases hs.len(),
{
    if hs.len() == 0 {
        assert(newest(hs, st.window) =~= st.recent);
    } else {
        let prev = hs.drop_last();
        lemma_guard_run(st, prev, hs.last());
        assert(prev.push(hs.last()) =~= hs);
    }
    lemma_push_newest(hs, h, st.window);
}

/// A step keeps the configuration, keeps the window bound and never lowers
/// the number of detected loops.
pub proof fn lemma_step_preserves(st: GuardState, h: Seq<char>)
    requires
        guard_wf(st),
    ensures
        guard_wf(guard_step(st, h).0),
        guard_step(st, h).0.window == st.window,
        guard_step(st, h).0.threshold == st.threshold,
        guard_step(st, h).0.max_loops == st.max_loops,
        guard_step(st, h).0.loops >= st.loops,
        guard_step(st, h).0.loops <= st.loops + 1,
{
}

/// The newest `k` entries of `s` all equal `h`.
pub open spec fn ends_with_run(s: Seq<Seq<char>>, h: Seq<char>, k: nat) -> bool {
    k <= s.len() && forall|j: int| s.len() - k <= j < s.len() ==> s[j] == h
}

proof fn lemma_count_of_run(s: Seq<Seq<char>>, h: Seq<char>, k: nat)
    requires
        ends_with_run(s, h, k),
    ensures
        count_of(s, h) >= k,
    decreases s.len(),
{
    if k > 0 {
        let d = s.drop_last();
        assert(ends_with_run(d, h, (k - 1) as nat)) by {
            assert forall|j: int| d.len() - (k - 1) <= j < d.len() implies d[j] == h by {
                assert(d[j] == s[j]);
            }
        }
        lemma_count_of_run(d, h, (k - 1) as nat);
    }
}

proof fn lemma_run_grows(st: GuardState, h: Seq<char>, n: nat)
    requires
        guard_wf(st),
    ensures
        guard_wf(repeat_step(st, h, n)),
        repeat_step(st, h, n).window == st.window,
        repeat_step(st, h, n).threshold == st.threshold,
        ends_with_run(
            repeat_step(st, h, n).recent,
            h,
            if n <= st.window { n } else { st.window },
        ),
    decreases n,
{
    if n > 0 {
        let prev = repeat_step(st, h, (n - 1) as nat);
        lemma_run_grows(st, h, (n - 1) as nat);
        lemma_step_preserves(prev, h);
        let k0: nat = if (n - 1) as nat <= st.window { (n - 1) as nat } else { st.window };
        let k1: nat = if n <= st.window { n } else { st.window };
        let r = prev.recent.push(h);
        let w = push_window(prev.recent, h, st.window);
        assert(ends_with_run(w, h, k1)) by {
            assert forall|j: int| w.len() - k1 <= j < w.len() implies w[j] == h by {
                if r.len() > st.window {
                    assert(w[j] == r[j + (r.len() - st.window)]);
                } else {
                    assert(w[j] == r[j]);
                }
                let jj: int = if r.len() > st.window { j + (r.len() - st.window) } else { j };
                if jj < r.len() - 1 {
                    assert(r[jj] == prev.recent[jj]);
                }
            }
        }
    }
}

/// Recording the same batch `threshold` times in a row, with a window that
/// holds at least `threshold` entries, is reported as a loop (`Warn` or `Break`)
/// at the last of those calls, whatever the guard held before.
pub proof fn lemma_repeated_batch_detected(st: GuardState, h: Seq<char>)
    requires
        guard_wf(st),
        st.threshold <= st.window,
    ensures
        !(guard_step(repeat_step(st, h, (st.threshold - 1) as nat), h).1 is Continue),
{
    let n = (st.threshold - 1) as nat;
    lemma_run_grows(st, h, n + 1);
    let prev = repeat_step(st, h, n);
    assert(repeat_step(st, h, n + 1) == guard_step(prev, h).0);
    lemma_count_of_run(guard_step(prev, h).0.recent, h, st.threshold);
}

proof fn lemma_count_of_multiset(s: Seq<Seq<char>>, h: Seq<char>)
    ensures
        count_of(s, h) == s.to_multiset().count(h),
    decreases s.len(),
{
    broadcast use vstd::seq_lib::group_to_multiset_ensures;
    broadcast use vstd::multiset::group_multiset_axioms;

    if s.len() == 0 {
        assert(s.to_multiset() =~= vstd::multiset::Multiset::<Seq<char>>::empty());
    } else {
        let d = s.drop_last();
        lemma_count_of_multiset(d, h);
        assert(d.push(s.last()) =~= s);
    }
}

/// What one recorded batch with hash `h` is judged on: the recent hashes
/// followed by `h`, of which only the newest `window` stay, and the number of
/// them, anywhere in that window, that equal `h`. Fewer than `threshold`
/// such entries continue; otherwise the batch is the next loop, reported
/// with that number as its occurrences (`Warn` while the loops stay below
/// `max_loops`, `Break` from then on).
pub proof fn lemma_guard_counts_whole_window(st: GuardState, h: Seq<char>)
    requires
        guard_wf(st),
    ensures
        ({
            let all = st.recent.push(h);
            let kept = all.subrange(all.len() - (if all.len() > st.window { st.window } else { all.len() }), all.len() as int);
            let occ = kept.to_multiset().count(h);
            let next = guard_step(st, h);
            &&& next.0.recent == kept
            &&& next.0.recent.len() == if all.len() > st.window { st.window } else { all.len() }
            &&& (next.1 is Continue) <==> occ < st.threshold
            &&& next.1 is Continue ==> next.0.loops == st.loops
            &&& occ >= st.threshold && st.loops + 1 < st.max_loops ==> next.1 == (GuardOutcome::Warn {
                hash: h,
                occurrences: occ,
                loops_detected: st.loops + 1,
            })
            &&& occ >= st.threshold && st.loops + 1 >= st.max_loops ==> next.1 == (GuardOutcome::Break {
                hash: h,
                occurrences: occ,
                loops_detected: st.loops + 1,
            })
        }),
{
    let all = st.recent.push(h);
    let w = push_window(st.recent, h, st.window);
    let kept = all.subrange(all.len() - (if all.len() > st.window { st.window } else { all.len() }), all.len() as int);
    assert(w =~= kept);
    lemma_count_of_multiset(w, h);
}

/// Detects repeated tool-call batches within a sliding window.
#[derive(Debug, Clone)]
pub struct LoopGuard {
    window: usize,
    repetition_threshold: usize,
    max_loops_detected: usize,
    recent_hashes: VecDeque<String>,
    loops_detected: usize,
}

impl View for LoopGuard {
    type V = GuardState;

    closed spec fn view(&self) -> GuardState {
        GuardState {
            window: self.window as nat,
            threshold: self.repetition_threshold as nat,
            max_loops: self.max_loops_detected as nat,
            recent: self.recent_hashes@.map_values(|h: String| h@),
            loops: self.loops_detected as nat,
        }
    }
}

impl LoopGuard {
    /// Creates a guard; `window` is raised to at least 1, `repetition_threshold`
    /// to at least 2 and `max_loops_detected` to at least 1.
    pub fn new(window: usize, repetition_threshold: usize, max_loops_detected: usize) -> (g: Self)
        ensures
            g@.window == if window >= 1 { window as nat } else { 1 },
            g@.threshold == if repetition_threshold >= 2 { repetition_threshold as nat } else { 2 },
            g@.max_loops == if max_loops_detected >= 1 { max_loops_detected as nat } else { 1 },
            g@.recent == Seq::<Seq<char>>::empty(),
            g@.loops == 0,
            guard_wf(g@),
    {
        let g = LoopGuard {
            window: if window >= 1 { window } else { 1 },
            repetition_threshold: if repetition_threshold >= 2 { repetition_threshold } else { 2 },
            max_loops_detected: if max_loops_detected >= 1 { max_loops_detected } else { 1 },
            recent_hashes: VecDeque::new(),
            loops_detected: 0,
        };
        assert(g@.recent =~= Seq::<Seq<char>>::empty());
        g
    }

    /// Records one batch of tool calls and decides whether a loop was detected.
    ///
    /// An empty batch changes nothing and yields `Continue`.
    pub fn record_batch(&mut self, batch: &[ToolCallSig]) -> (d: LoopGuardDecision)
        requires
            guard_wf(old(self)@),
            old(self)@.loops < usize::MAX,
        ensures
            guard_wf(final(self)@),
            batch@.len() == 0 ==> final(self)@ == old(self)@ && d@ == GuardOutcome::Continue,
            batch@.len() > 0 ==> (final(self)@, d@) == guard_step(old(self)@, batch_hash(batch@)),
    {
        if batch.len() == 0 {
            return LoopGuardDecision::Continue;
        }
        let hash = hash_batch(batch);
        let ghost h = hash@;
        let ghost old_recent = self@.recent;
        let ghost st0 = self@;
        self.recent_hashes.push_back(hash.clone());
        assert(self.recent_hashes@.map_values(|x: String| x@) =~= old_recent.push(h));
        while self.recent_hashes.len() > self.window
            invariant
                self.window == st0.window,
                self.repetition_threshold == st0.threshold,
                self.max_loops_detected == st0.max_loops,
                self.loops_detected == st0.loops,
                self.window >= 1,
                self.recent_hashes@.len() <= self.window + 1,
                self.recent_hashes@.len() > self.window ==> self.recent_hashes@.map_values(
                    |x: String| x@,
                ) == old_recent.push(h),
                self.recent_hashes@.len() <= self.window ==> self.recent_hashes@.map_values(
                    |x: String| x@,
                ) == push_window(old_recent, h, self.window as nat),
            decreases self.recent_hashes@.len(),
        {
            let ghost before = self.recent_hashes@;
            let _ = self.recent_hashes.pop_front();
            assert(self.recent_hashes@.map_values(|x: String| x@) =~= old_recent.push(h).skip(
                1,
            ));
        }
        let ghost recent = push_window(old_recent, h, self.window as nat);
        let mut occurrences: usize = 0;
        let mut i: usize = 0;
        while i < self.recent_hashes.len()
            invariant
                self.window == st0.window,
                self.repetition_threshold == st0.threshold,
                self.max_loops_detected == st0.max_loops,
                self.loops_detected == st0.loops,
                self.recent_hashes@.map_values(|x: String| x@) == recent,
                hash@ == h,
                i <= self.recent_hashes@.len(),
                occurrences == count_of(recent.take(i as int), h),
                occurrences <= i,
            decreases self.recent_hashes@.len() - i,
        {
            assert(recent.take(i + 1).drop_last() =~= recent.take(i as int));
            let hi: &String = &self.recent_hashes[i];
            assert(recent.take(i + 1).last() == hi@);
            let same = str_eq(hi.as_str(), hash.as_str());
            assert(same == (hi@ == h));
            assert(count_of(recent.take(i + 1), h) == count_of(recent.take(i as int), h) + if hi@ == h { 1nat } else { 0nat });
            if same {
                occurrences += 1;
            }
            i += 1;
        }
        assert(recent.take(recent.len() as int) =~= recent);
        if occurrences < self.repetition_threshold {
            return LoopGuardDecision::Continue;
        }
        self.loops_detected += 1;
        if self.loops_detected >= self.max_loops_detected {
            LoopGuardDecision::Break {
                hash,
                occurrences,
                loops_detected: self.loops_detected,
            }
        } else {
            LoopGuardDecision::Warn {
                hash,
                occurrences,
                loops_detected: self.loops_detected,
            }
        }
    }
}

/// Appends `b` to `v`.
fn extend_bytes(v: &mut Vec<u8>, b: &[u8])
    ensures
        final(v)@ == old(v)@ + b@,
{
    let mut i: usize = 0;
    let ghost start = v@;
    while i < b.len()
        invariant
            i <= b.len(),
            v@ == start + b@.take(i as int),
        decreases b.len() - i,
    {
        v.push(b[i]);
        assert(b@.take(i + 1) =~= b@.take(i as int).push(b@[i as int]));
        i += 1;
    }
    assert(b@.take(b.len() as int) =~= b@);
}

/// Arguments normalized for hashing (compact JSON when parsable, else trimmed).
fn normalize_args(raw: &str) -> (s: String)
    ensures
        s@ == normalized_args(raw@),
{
    match json_reserialize(raw) {
        Some(t) => t,
        None => trim(raw),
    }
}

/// Lower-case hex SHA-256 of the batch's normalized calls.
fn hash_batch(batch: &[ToolCallSig]) -> (h: String)
    ensures
        h@ == batch_hash(batch@),
{
    let mut payload: Vec<u8> = Vec::new();
    let mut i: usize = 0;
    while i < batch.len()
        invariant
            i <= batch.len(),
            payload@ == batch_payload(batch@.take(i as int)),
        decreases batch.len() - i,
    {
        let call = batch[i];
        extend_bytes(&mut payload, call.name.as_bytes());
        payload.push(10u8);
        let args = normalize_args(call.arguments);
        extend_bytes(&mut payload, args.as_str().as_bytes());
        payload.push(10u8);
        payload.push(45u8);
        payload.push(45u8);
        payload.push(10u8);
        assert(batch@.take(i + 1).drop_last() =~= batch@.take(i as int));
        assert(payload@ =~= batch_payload(batch@.take(i as int)) + call_piece(call));
        i += 1;
    }
    assert(batch@.take(batch.len() as int) =~= batch@);
    let digest = sha256_digest(payload.as_slice());
    hex_encode(digest.as_slice())
}

} // verus!
