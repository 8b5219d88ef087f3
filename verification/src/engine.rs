use vstd::prelude::*;
use crate::state::{PadAction, PadMode, NUM_PADS};
use crate::transport::{spec_trigger, EndOfSample, PadTransport, TriggerEffect};

verus! {

/// A trigger waiting for the next beat boundary.
#[derive(Debug, Clone, Copy, PartialEq, Eq, Structural)]
pub struct PendingTrigger {
    pub pad_id: usize,
    pub action: PadAction,
    /// Output frames left before the trigger fires.
    pub delay: u64,
}

/// What became of a trigger command.
#[derive(Debug, Clone, Copy, PartialEq, Eq, Structural)]
pub enum TriggerOutcome {
    /// The pad index is outside the grid.
    Ignored,
    /// Quantize is on: the trigger waits for the next beat.
    Deferred,
    /// The trigger was applied to the pad now.
    Fired(TriggerEffect),
}

/// The abstract state of the engine core.
pub ghost struct EngineModel {
    pub pads: Seq<PadTransport>,
    pub pending: Seq<PendingTrigger>,
    pub quantize: bool,
    /// Output frames rendered since the engine started, modulo 2^64.
    pub clock: u64,
    pub progress_counter: u32,
    pub progress_interval: u32,
}

pub open spec fn engine_wf(m: EngineModel) -> bool {
    &&& m.pads.len() == NUM_PADS
    &&& forall|p: int| 0 <= p < NUM_PADS ==> (#[trigger] m.pads[p]).inv()
    &&& forall|i: int| 0 <= i < m.pending.len() ==> (#[trigger] m.pending[i]).pad_id < NUM_PADS
    &&& (m.progress_counter < m.progress_interval || m.progress_counter == 0)
}

/// Frames from `clock` to the next multiple of `samples_per_beat` (a full
/// beat when `clock` sits on a boundary); zero when the beat length is zero.
pub open spec fn spec_samples_to_next_beat(clock: u64, samples_per_beat: u64) -> u64 {
    let b: u64 = if samples_per_beat == 0 { 1 } else { samples_per_beat };
    (samples_per_beat - clock % b) as u64
}

/// The pads, the triggers fired and the triggers still waiting, after the
/// waiting triggers `pending` have been taken in order against a buffer of
/// `n` frames: a trigger whose delay is at most `n` fires, the others wait
/// `n` frames less.
pub open spec fn spec_fire_all(pads: Seq<PadTransport>, pending: Seq<PendingTrigger>, n: u64)
    -> (Seq<PadTransport>, Seq<(usize, TriggerEffect)>, Seq<PendingTrigger>)
    decreases pending.len(),
{
    if pending.len() == 0 {
        (pads, Seq::empty(), Seq::empty())
    } else {
        let (ps, fired, rest) = spec_fire_all(pads, pending.drop_last(), n);
        let t = pending.last();
        if t.delay <= n {
            if t.pad_id < NUM_PADS {
                let (nt, eff) = spec_trigger(ps[t.pad_id as int], t.action);
                (ps.update(t.pad_id as int, nt), fired.push((t.pad_id, eff)), rest)
            } else {
                (ps, fired, rest)
            }
        } else {
            (ps, fired, rest.push(PendingTrigger { delay: (t.delay - n) as u64, ..t }))
        }
    }
}

/// Number of playing pads among the first `k`.
pub open spec fn count_playing(pads: Seq<PadTransport>, k: int) -> nat
    decreases k,
{
    if k <= 0 {
        0
    } else {
        count_playing(pads, k - 1) + if pads[k - 1].is_playing { 1nat } else { 0nat }
    }
}

/// The playback core of the audio engine: transport of the 64 pads, the
/// quantize queue, the beat clock and the progress-report counter.
pub struct EngineCore {
    pads: Vec<PadTransport>,
    pending: Vec<PendingTrigger>,
    quantize: bool,
    clock: u64,
    progress_counter: u32,
    progress_interval: u32,
}

impl View for EngineCore {
    type V = EngineModel;

    closed spec fn view(&self) -> EngineModel {
        EngineModel {
            pads: self.pads@,
            pending: self.pending@,
            quantize: self.quantize,
            clock: self.clock,
            progress_counter: self.progress_counter,
            progress_interval: self.progress_interval,
        }
    }
}

impl EngineCore {
    pub open spec fn wf(&self) -> bool {
        engine_wf(self@)
    }

    /// 64 empty stopped pads, no waiting trigger, quantize off, clock at 0;
    /// progress is reported every `progress_interval` frames.
    pub fn new(progress_interval: u32) -> (e: Self)
        ensures
            e.wf(),
            forall|p: int| 0 <= p < 64 ==> #[trigger] e@.pads[p] == (PadTransport {
                has_sample: false,
                is_playing: false,
                mode: PadMode::Oneshot,
                loop_pending_stop: false,
            }),
            e@.pending == Seq::<PendingTrigger>::empty(),
            !e@.quantize,
            e@.clock == 0,
            e@.progress_counter == 0,
            e@.progress_interval == progress_interval,
    {
        let mut pads: Vec<PadTransport> = Vec::new();
        let mut i: usize = 0;
        while i < NUM_PADS
            invariant
                i <= NUM_PADS,
                pads@.len() == i,
                forall|p: int| 0 <= p < i ==> #[trigger] pads@[p] == (PadTransport {
                    has_sample: false,
                    is_playing: false,
                    mode: PadMode::Oneshot,
                    loop_pending_stop: false,
                }),
            decreases NUM_PADS - i,
        {
            pads.push(PadTransport::new());
            i = i + 1;
        }
        EngineCore { pads, pending: Vec::new(), quantize: false, clock: 0, progress_counter: 0, progress_interval }
    }

    pub fn pad(&self, pad_id: usize) -> (t: PadTransport)
        requires
            self.wf(),
            pad_id < NUM_PADS,
        ensures
            t == self@.pads[pad_id as int],
    {
        self.pads[pad_id]
    }

    pub fn quantize(&self) -> (q: bool)
        ensures
            q == self@.quantize,
    {
        self.quantize
    }

    pub fn pending_count(&self) -> (n: usize)
        ensures
            n == self@.pending.len(),
    {
        self.pending.len()
    }

    pub fn clock(&self) -> (c: u64)
        ensures
            c == self@.clock,
    {
        self.clock
    }

    pub fn set_quantize(&mut self, enabled: bool)
        requires
            old(self).wf(),
        ensures
            final(self).wf(),
            final(self)@ == (EngineModel { quantize: enabled, ..old(self)@ }),
    {
        self.quantize = enabled;
    }

    /// Frames left until the next beat boundary of a beat `samples_per_beat` frames long.
    pub fn samples_to_next_beat(&self, samples_per_beat: u64) -> (r: u64)
        ensures
            r == spec_samples_to_next_beat(self@.clock, samples_per_beat),
            samples_per_beat > 0 ==> 1 <= r <= samples_per_beat,
            samples_per_beat > 0 ==> (self@.clock + r) % (samples_per_beat as int) == 0,
    {
        let b: u64 = if samples_per_beat == 0 { 1 } else { samples_per_beat };
        let r = samples_per_beat - self.clock % b;
        proof {
            if samples_per_beat > 0 {
                lemma_next_boundary(self.clock as int, samples_per_beat as int);
            }
        }
        r
    }

    /// A trigger command. Pads outside the grid are ignored; with quantize on
    /// and a boundary still ahead the trigger waits `samples_to_next_beat`
    /// frames; otherwise it applies to the pad at once.
    pub fn trigger(&mut self, pad_id: usize, action: PadAction, samples_to_next_beat: u64) -> (out: TriggerOutcome)
        requires
            old(self).wf(),
        ensures
            final(self).wf(),
            pad_id >= NUM_PADS ==> out == TriggerOutcome::Ignored && final(self)@ == old(self)@,
            pad_id < NUM_PADS && old(self)@.quantize && samples_to_next_beat > 0 ==> {
                &&& out == TriggerOutcome::Deferred
                &&& final(self)@ == (EngineModel {
                    pending: old(self)@.pending.push(PendingTrigger { pad_id, action, delay: samples_to_next_beat }),
                    ..old(self)@
                })
            },
            pad_id < NUM_PADS && !(old(self)@.quantize && samples_to_next_beat > 0) ==> {
                let (nt, eff) = spec_trigger(old(self)@.pads[pad_id as int], action);
                &&& out == TriggerOutcome::Fired(eff)
                &&& final(self)@ == (EngineModel { pads: old(self)@.pads.update(pad_id as int, nt), ..old(self)@ })
            },
    {
        if pad_id >= NUM_PADS {
            return TriggerOutcome::Ignored;
        }
        if self.quantize && samples_to_next_beat > 0 {
            self.pending.push(PendingTrigger { pad_id, action, delay: samples_to_next_beat });
            TriggerOutcome::Deferred
        } else {
            let mut t = self.pads[pad_id];
            let eff = t.trigger(action);
            self.pads[pad_id] = t;
            TriggerOutcome::Fired(eff)
        }
    }

    /// Fires the waiting triggers that fall inside a buffer of `n_frames`
    /// frames, in the order they were queued, and returns each fired pad with
    /// its effect; the others wait `n_frames` frames less.
    pub fn fire_due(&mut self, n_frames: u64) -> (fired: Vec<(usize, TriggerEffect)>)
        requires
            old(self).wf(),
        ensures
            final(self).wf(),
            ({
                let (ps, f, rest) = spec_fire_all(old(self)@.pads, old(self)@.pending, n_frames);
                &&& fired@ == f
                &&& final(self)@ == (EngineModel { pads: ps, pending: rest, ..old(self)@ })
            }),
    {
        let ghost pads0 = self@.pads;
        let ghost pending0 = self@.pending;
        let mut fired: Vec<(usize, TriggerEffect)> = Vec::new();
        let mut rest: Vec<PendingTrigger> = Vec::new();
        let mut i: usize = 0;
        assert(pending0.take(0) =~= Seq::<PendingTrigger>::empty());
        while i < self.pending.len()
            invariant
                i <= self.pending@.len(),
                self.pending@ == pending0,
                self.pads@.len() == NUM_PADS,
                forall|k: int| 0 <= k < pending0.len() ==> (#[trigger] pending0[k]).pad_id < NUM_PADS,
                forall|p: int| 0 <= p < NUM_PADS ==> (#[trigger] self.pads@[p]).inv(),
                forall|k: int| 0 <= k < rest@.len() ==> (#[trigger] rest@[k]).pad_id < NUM_PADS,
                (self.pads@, fired@, rest@) == spec_fire_all(pads0, pending0.take(i as int), n_frames),
                self.quantize == old(self)@.quantize,
                self.clock == old(self)@.clock,
                self.progress_counter == old(self)@.progress_counter,
                self.progress_interval == old(self)@.progress_interval,
                pads0 == old(self)@.pads,
                pending0 == old(self)@.pending,
            decreases self.pending@.len() - i,
        {
            let t = self.pending[i];
            proof {
                assert(pending0.take(i + 1).drop_last() =~= pending0.take(i as int));
                assert(pending0.take(i + 1).last() == t);
            }
            if t.delay <= n_frames {
                if t.pad_id < NUM_PADS {
                    let mut pt = self.pads[t.pad_id];
                    let eff = pt.trigger(t.action);
                    self.pads[t.pad_id] = pt;
                    fired.push((t.pad_id, eff));
                }
            } else {
                rest.push(PendingTrigger { pad_id: t.pad_id, action: t.action, delay: t.delay - n_frames });
            }
            i = i + 1;
        }
        proof {
            assert(pending0.take(pending0.len() as int) =~= pending0);
        }
        self.pending = rest;
        fired
    }

    /// Stop-all: every pad stops and the waiting triggers are dropped.
    pub fn stop_all(&mut self)
        requires
            old(self).wf(),
        ensures
            final(self).wf(),
            final(self)@.pending == Seq::<PendingTrigger>::empty(),
            forall|p: int| 0 <= p < 64 ==> #[trigger] final(self)@.pads[p] == (PadTransport { is_playing: false, ..old(self)@.pads[p] }),
            final(self)@ == (EngineModel { pads: final(self)@.pads, pending: Seq::empty(), ..old(self)@ }),
    {
        self.pending = Vec::new();
        let mut i: usize = 0;
        while i < NUM_PADS
            invariant
                i <= NUM_PADS,
                self.pads@.len() == NUM_PADS,
                forall|p: int| 0 <= p < i ==> #[trigger] self.pads@[p] == (PadTransport { is_playing: false, ..old(self)@.pads[p] }),
                forall|p: int| i <= p < NUM_PADS ==> #[trigger] self.pads@[p] == old(self)@.pads[p],
                forall|p: int| 0 <= p < NUM_PADS ==> (#[trigger] old(self)@.pads[p]).inv(),
                self.pending@ == Seq::<PendingTrigger>::empty(),
                self.quantize == old(self)@.quantize,
                self.clock == old(self)@.clock,
                self.progress_counter == old(self)@.progress_counter,
                self.progress_interval == old(self)@.progress_interval,
            decreases NUM_PADS - i,
        {
            let mut t = self.pads[i];
            t.stop();
            self.pads[i] = t;
            i = i + 1;
        }
    }

    /// New kit: every pad stops and drops its sample; the waiting triggers are dropped.
    pub fn reset_kit(&mut self)
        requires
            old(self).wf(),
        ensures
            final(self).wf(),
            forall|p: int| 0 <= p < 64 ==> #[trigger] final(self)@.pads[p] == (PadTransport {
                is_playing: false,
                has_sample: false,
                ..old(self)@.pads[p]
            }),
            final(self)@ == (EngineModel { pads: final(self)@.pads, pending: Seq::empty(), ..old(self)@ }),
    {
        self.pending = Vec::new();
        let mut i: usize = 0;
        while i < NUM_PADS
            invariant
                i <= NUM_PADS,
                self.pads@.len() == NUM_PADS,
                forall|p: int| 0 <= p < i ==> #[trigger] self.pads@[p] == (PadTransport {
                    is_playing: false,
                    has_sample: false,
                    ..old(self)@.pads[p]
                }),
                forall|p: int| i <= p < NUM_PADS ==> #[trigger] self.pads@[p] == old(self)@.pads[p],
                forall|p: int| 0 <= p < NUM_PADS ==> (#[trigger] old(self)@.pads[p]).inv(),
                self.pending@ == Seq::<PendingTrigger>::empty(),
                self.quantize == old(self)@.quantize,
                self.clock == old(self)@.clock,
                self.progress_counter == old(self)@.progress_counter,
                self.progress_interval == old(self)@.progress_interval,
            decreases NUM_PADS - i,
        {
            let mut t = self.pads[i];
            t.reset();
            self.pads[i] = t;
            i = i + 1;
        }
    }

    /// A sample was loaded on a pad (ignored outside the grid).
    pub fn load(&mut self, pad_id: usize)
        requires
            old(self).wf(),
        ensures
            final(self).wf(),
            final(self)@ == if pad_id < NUM_PADS {
                EngineModel {
                    pads: old(self)@.pads.update(pad_id as int, PadTransport {
                        has_sample: true,
                        is_playing: false,
                        ..old(self)@.pads[pad_id as int]
                    }),
                    ..old(self)@
                }
            } else {
                old(self)@
            },
    {
        if pad_id < NUM_PADS {
            let mut t = self.pads[pad_id];
            t.load();
            self.pads[pad_id] = t;
        }
    }

    /// A pad's sample was removed (ignored outside the grid).
    pub fn remove(&mut self, pad_id: usize)
        requires
            old(self).wf(),
        ensures
            final(self).wf(),
            final(self)@ == if pad_id < NUM_PADS {
                EngineModel {
                    pads: old(self)@.pads.update(pad_id as int, PadTransport {
                        has_sample: false,
                        is_playing: false,
                        ..old(self)@.pads[pad_id as int]
                    }),
                    ..old(self)@
                }
            } else {
                old(self)@
            },
    {
        if pad_id < NUM_PADS {
            let mut t = self.pads[pad_id];
            t.remove();
            self.pads[pad_id] = t;
        }
    }

    /// A pad's mode changed (ignored outside the grid).
    pub fn set_mode(&mut self, pad_id: usize, mode: PadMode)
        requires
            old(self).wf(),
        ensures
            final(self).wf(),
            final(self)@ == if pad_id < NUM_PADS {
                EngineModel {
                    pads: old(self)@.pads.update(pad_id as int, PadTransport { mode, ..old(self)@.pads[pad_id as int] }),
                    ..old(self)@
                }
            } else {
                old(self)@
            },
    {
        if pad_id < NUM_PADS {
            let mut t = self.pads[pad_id];
            t.set_mode(mode);
            self.pads[pad_id] = t;
        }
    }

    /// Playback of a pad ran past its last frame.
    pub fn end_of_sample(&mut self, pad_id: usize) -> (end: EndOfSample)
        requires
            old(self).wf(),
            pad_id < NUM_PADS,
        ensures
            final(self).wf(),
            end == (if old(self)@.pads[pad_id as int].mode == PadMode::Oneshot { EndOfSample::Stop } else { EndOfSample::Wrap }),
            final(self)@ == (EngineModel {
                pads: old(self)@.pads.update(pad_id as int, if old(self)@.pads[pad_id as int].mode == PadMode::Oneshot {
                    PadTransport { is_playing: false, ..old(self)@.pads[pad_id as int] }
                } else {
                    old(self)@.pads[pad_id as int]
                }),
                ..old(self)@
            }),
    {
        let mut t = self.pads[pad_id];
        let end = t.end_of_sample();
        self.pads[pad_id] = t;
        end
    }

    /// Number of voices the mix is divided between: the playing pads, at least one.
    pub fn active_voice_count(&self) -> (n: usize)
        requires
            self.wf(),
        ensures
            n == if count_playing(self@.pads, 64) == 0 { 1 } else { count_playing(self@.pads, 64) },
            n == if playing_set(self@.pads, 64).len() == 0 { 1 } else { playing_set(self@.pads, 64).len() },
            1 <= n <= 64,
    {
        let mut count: usize = 0;
        let mut i: usize = 0;
        while i < NUM_PADS
            invariant
                i <= NUM_PADS,
                self.pads@.len() == NUM_PADS,
                count == count_playing(self.pads@, i as int),
                count <= i,
            decreases NUM_PADS - i,
        {
            if self.pads[i].is_playing {
                count = count + 1;
            }
            i = i + 1;
        }
        proof {
            lemma_count_playing_is_set_size(self@.pads, 64);
        }
        if count == 0 { 1 } else { count }
    }

    /// Advances the beat clock by a buffer of `n_frames` frames (wrapping).
    pub fn advance_clock(&mut self, n_frames: u64)
        requires
            old(self).wf(),
        ensures
            final(self).wf(),
            final(self)@ == (EngineModel { clock: ((old(self)@.clock + n_frames) % 0x1_0000_0000_0000_0000) as u64, ..old(self)@ }),
    {
        self.clock = self.clock.wrapping_add(n_frames);
    }

    /// Counts a buffer of `n_frames` frames towards the next progress report;
    /// true when a report is due, and the count starts over.
    pub fn tick_progress(&mut self, n_frames: u32) -> (due: bool)
        requires
            old(self).wf(),
            n_frames as int + old(self)@.progress_interval <= u32::MAX,
        ensures
            final(self).wf(),
            due == (old(self)@.progress_counter + n_frames >= old(self)@.progress_interval),
            final(self)@ == (EngineModel {
                progress_counter: if due { 0 } else { (old(self)@.progress_counter + n_frames) as u32 },
                ..old(self)@
            }),
    {
        let c = self.progress_counter + n_frames;
        if c >= self.progress_interval {
            self.progress_counter = 0;
            true
        } else {
            self.progress_counter = c;
            false
        }
    }
}

proof fn lemma_next_boundary(clock: int, spb: int)
    requires
        spb > 0,
        clock >= 0,
    ensures
        1 <= spb - clock % spb <= spb,
        (clock + (spb - clock % spb)) % spb == 0,
{
    vstd::arithmetic::div_mod::lemma_fundamental_div_mod(clock, spb);
    let q = clock / spb;
    assert(clock + (spb - clock % spb) == (q + 1) * spb) by (nonlinear_arith)
        requires clock == spb * q + clock % spb;
    vstd::arithmetic::div_mod::lemma_mod_multiples_basic(q + 1, spb);
}

/// A trigger deferred by quantize fires in the buffer during which its beat
/// boundary is reached: it stays queued, `n` frames closer, while the buffer
/// is shorter than its delay, and fires as soon as a buffer covers it.
pub proof fn lemma_deferred_fires_on_boundary(pads: Seq<PadTransport>, t: PendingTrigger, n: u64)
    requires
        pads.len() == NUM_PADS,
        t.pad_id < NUM_PADS,
    ensures
        t.delay > n ==> spec_fire_all(pads, seq![t], n) == (
            pads,
            Seq::<(usize, TriggerEffect)>::empty(),
            seq![PendingTrigger { delay: (t.delay - n) as u64, ..t }],
        ),
        t.delay <= n ==> spec_fire_all(pads, seq![t], n) == (
            pads.update(t.pad_id as int, spec_trigger(pads[t.pad_id as int], t.action).0),
            seq![(t.pad_id, spec_trigger(pads[t.pad_id as int], t.action).1)],
            Seq::<PendingTrigger>::empty(),
        ),
{
    let s = seq![t];
    assert(s.drop_last() =~= Seq::<PendingTrigger>::empty());
    assert(s.last() == t);
    reveal_with_fuel(spec_fire_all, 2);
    assert(Seq::<(usize, TriggerEffect)>::empty().push((t.pad_id, spec_trigger(pads[t.pad_id as int], t.action).1))
        =~= seq![(t.pad_id, spec_trigger(pads[t.pad_id as int], t.action).1)]);
    assert(Seq::<PendingTrigger>::empty().push(PendingTrigger { delay: (t.delay - n) as u64, ..t })
        =~= seq![PendingTrigger { delay: (t.delay - n) as u64, ..t }]);
}

/// Firing keeps every trigger accounted for: each waiting trigger either
/// fires or stays queued, never both, and none is lost.
pub proof fn lemma_fire_conserves(pads: Seq<PadTransport>, pending: Seq<PendingTrigger>, n: u64)
    requires
        pads.len() == NUM_PADS,
        forall|i: int| 0 <= i < pending.len() ==> (#[trigger] pending[i]).pad_id < NUM_PADS,
    ensures
        spec_fire_all(pads, pending, n).1.len() + spec_fire_all(pads, pending, n).2.len() == pending.len(),
        forall|i: int| 0 <= i < spec_fire_all(pads, pending, n).2.len() ==> (#[trigger] spec_fire_all(pads, pending, n).2[i]).delay > 0,
        spec_fire_all(pads, pending, n).0.len() == pads.len(),
    decreases pending.len(),
{
    if pending.len() > 0 {
        lemma_fire_conserves(pads, pending.drop_last(), n);
    }
}

/// A queued trigger is due within a buffer of `n` frames.
pub open spec fn due_within(n: u64) -> spec_fn(PendingTrigger) -> bool {
    |t: PendingTrigger| t.delay <= n
}

/// A queued trigger still waits after a buffer of `n` frames.
pub open spec fn waits_past(n: u64) -> spec_fn(PendingTrigger) -> bool {
    |t: PendingTrigger| t.delay > n
}

/// A waiting trigger after a buffer of `n` frames: `n` frames closer.
pub open spec fn closer_by(n: u64) -> spec_fn(PendingTrigger) -> PendingTrigger {
    |t: PendingTrigger| PendingTrigger { delay: (t.delay - n) as u64, ..t }
}

/// The pads after the triggers `ts` are applied one after the other, and
/// each applied pad with its effect, in the same order.
pub open spec fn spec_apply_in_order(pads: Seq<PadTransport>, ts: Seq<PendingTrigger>)
    -> (Seq<PadTransport>, Seq<(usize, TriggerEffect)>)
    decreases ts.len(),
{
    if ts.len() == 0 {
        (pads, Seq::empty())
    } else {
        let (ps, fired) = spec_apply_in_order(pads, ts.drop_last());
        let t = ts.last();
        let (nt, eff) = spec_trigger(ps[t.pad_id as int], t.action);
        (ps.update(t.pad_id as int, nt), fired.push((t.pad_id, eff)))
    }
}

/// The quantize queue law: of the waiting triggers, those whose delay is at
/// most the buffer length are applied to their pads in queue order; the
/// others stay queued, in the same order, each `n` frames closer.
pub proof fn lemma_fire_queue_law(pads: Seq<PadTransport>, pending: Seq<PendingTrigger>, n: u64)
    requires
        forall|i: int| 0 <= i < pending.len() ==> (#[trigger] pending[i]).pad_id < NUM_PADS,
    ensures
        ({
            let due = pending.filter(due_within(n));
            let (ps, fired, rest) = spec_fire_all(pads, pending, n);
            &&& rest == pending.filter(waits_past(n)).map_values(closer_by(n))
            &&& (ps, fired) == spec_apply_in_order(pads, due)
        }),
    decreases pending.len(),
{
    reveal(Seq::filter);
    if pending.len() > 0 {
        let init = pending.drop_last();
        assert forall|i: int| 0 <= i < init.len() implies (#[trigger] init[i]).pad_id < NUM_PADS by {
            assert(init[i] == pending[i]);
        }
        lemma_fire_queue_law(pads, init, n);
        let t = pending.last();
        assert(pending[pending.len() - 1] == t);
        let w0 = init.filter(waits_past(n));
        if t.delay <= n {
            assert(pending.filter(due_within(n)) == init.filter(due_within(n)).push(t));
            assert(pending.filter(due_within(n)).drop_last() =~= init.filter(due_within(n)));
            assert(pending.filter(waits_past(n)) == w0);
        } else {
            assert(pending.filter(due_within(n)) == init.filter(due_within(n)));
            assert(pending.filter(waits_past(n)) == w0.push(t));
            assert(w0.push(t).map_values(closer_by(n)) =~= w0.map_values(closer_by(n)).push(closer_by(n)(t)));
        }
    }
}

/// The indices among the first `k` pads that are playing.
pub open spec fn playing_set(pads: Seq<PadTransport>, k: int) -> Set<int> {
    Set::new(|p: int| 0 <= p < k && pads[p].is_playing)
}

/// The number of playing pads is the size of the set of indices of the
/// playing pads: every playing pad counts once, whatever its index, and no
/// stopped pad counts.
pub proof fn lemma_count_playing_is_set_size(pads: Seq<PadTransport>, k: int)
    requires
        0 <= k <= pads.len(),
    ensures
        playing_set(pads, k).finite(),
        count_playing(pads, k) == playing_set(pads, k).len(),
    decreases k,
{
    if k == 0 {
        assert(playing_set(pads, 0) =~= Set::<int>::empty());
    } else {
        lemma_count_playing_is_set_size(pads, k - 1);
        if pads[k - 1].is_playing {
            assert(playing_set(pads, k) =~= playing_set(pads, k - 1).insert(k - 1));
        } else {
            assert(playing_set(pads, k) =~= playing_set(pads, k - 1));
        }
    }
}

/// Starting one more pad adds exactly one voice, and stopping a playing pad
/// removes exactly one, whichever pad it is.
pub proof fn lemma_count_playing_update(pads: Seq<PadTransport>, p: int, t: PadTransport)
    requires
        pads.len() == NUM_PADS,
        0 <= p < NUM_PADS,
    ensures
        !pads[p].is_playing && t.is_playing ==> count_playing(pads.update(p, t), 64) == count_playing(pads, 64) + 1,
        pads[p].is_playing && !t.is_playing ==> count_playing(pads.update(p, t), 64) + 1 == count_playing(pads, 64),
        pads[p].is_playing == t.is_playing ==> count_playing(pads.update(p, t), 64) == count_playing(pads, 64),
{
    let q = pads.update(p, t);
    lemma_count_playing_is_set_size(pads, 64);
    lemma_count_playing_is_set_size(q, 64);
    let a = playing_set(pads, 64);
    let b = playing_set(q, 64);
    if !pads[p].is_playing && t.is_playing {
        assert(b =~= a.insert(p));
    } else if pads[p].is_playing && !t.is_playing {
        assert(a =~= b.insert(p));
    } else {
        assert(a =~= b);
    }
}

} // verus!
