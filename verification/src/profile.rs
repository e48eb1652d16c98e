//! Profilers of the decode step, of a batch step and of a prefill: which events are
//! recorded, and what they are attributed to.  Events are named by handles; their
//! times are read and averaged by the application.

use vstd::prelude::*;

use crate::batch_step::BatchMark;
use crate::ptag::{numbers_name_their_tags, tag_number, PTag, PTAG_COUNT};
use crate::step::SEG_COUNT;

verus! {

/// Events of a step window, at most.
pub const MAX_STEP_EVENTS: usize = 512;

/// Steps of an aggregation window.
pub const WINDOW_STEPS: u32 = 20;

/// The name of a segment.
pub fn seg_name(seg: usize) -> (s: &'static str)
    requires
        seg < SEG_COUNT,
    ensures
        s@ == seg_names()[seg as int],
{
    match seg {
        0 => "small",
        1 => "qkv",
        2 => "attn",
        3 => "o",
        4 => "ffn_gu",
        5 => "ffn_d",
        6 => "ffn_rms",
        7 => "lm_head",
        _ => "layer",
    }
}

/// The names of the segments.
pub open spec fn seg_names() -> Seq<Seq<char>> {
    seq![
        "small"@,
        "qkv"@,
        "attn"@,
        "o"@,
        "ffn_gu"@,
        "ffn_d"@,
        "ffn_rms"@,
        "lm_head"@,
        "layer"@,
    ]
}

/// A closed stretch of the stream that belongs to a segment.
#[derive(Debug, Clone, Copy, PartialEq, Eq, Structural)]
pub struct Interval {
    pub start: u64,
    pub end: u64,
    pub seg: u8,
}

/// The current step: its closed stretches, the open start of each segment, and its
/// launches.
#[derive(Debug)]
pub struct StepWindow {
    pub intervals: Vec<Interval>,
    pub open: Vec<bool>,
    pub open_ev: Vec<Option<u64>>,
    pub seg_launches: Vec<u32>,
    pub launches: u32,
}

/// Open starts among the first `n` segments.
pub open spec fn open_count(s: Seq<Option<u64>>, n: nat) -> nat
    decreases n,
{
    if n == 0 {
        0
    } else {
        open_count(s, (n - 1) as nat) + if s[n - 1] is Some {
            1nat
        } else {
            0
        }
    }
}

/// The profiler of the decode step.
#[derive(Debug)]
pub struct DecodeProfiler {
    pub active: bool,
    pub steps: u32,
    pub agg_seg_launches: Vec<u32>,
    pub agg_launches: u32,
    pub cur: StepWindow,
}

/// Launches per step of an aggregation window: of each segment, and in all.
#[derive(Debug)]
pub struct WindowLaunches {
    pub segs: Vec<u32>,
    pub total: u32,
}

fn zeros(n: usize) -> (v: Vec<u32>)
    ensures
        v@ == Seq::new(n as nat, |i: int| 0u32),
{
    let mut v: Vec<u32> = Vec::new();
    let mut i: usize = 0;
    while i < n
        invariant
            i <= n,
            v@ == Seq::new(i as nat, |i: int| 0u32),
        decreases n - i,
    {
        v.push(0);
        i = i + 1;
        proof {
            assert(v@ =~= Seq::new(i as nat, |i: int| 0u32));
        }
    }
    v
}

fn no_events() -> (v: Vec<Option<u64>>)
    ensures
        v@ == Seq::new(SEG_COUNT as nat, |i: int| None::<u64>),
{
    let v: Vec<Option<u64>> = vec![None, None, None, None, None, None, None, None, None];
    proof {
        assert(v@ =~= Seq::new(SEG_COUNT as nat, |i: int| None::<u64>));
    }
    v
}

fn all_closed() -> (v: Vec<bool>)
    ensures
        v@ == Seq::new(SEG_COUNT as nat, |i: int| false),
{
    let v: Vec<bool> = vec![false, false, false, false, false, false, false, false, false];
    proof {
        assert(v@ =~= Seq::new(SEG_COUNT as nat, |i: int| false));
    }
    v
}

impl StepWindow {
    pub open spec fn wf(self) -> bool {
        &&& self.open@.len() == SEG_COUNT
        &&& self.open_ev@.len() == SEG_COUNT
        &&& self.seg_launches@.len() == SEG_COUNT
    }

    /// Events that live: two for every closed stretch, one for every open start.
    pub open spec fn live(self) -> nat {
        self.intervals@.len() * 2 + open_count(self.open_ev@, SEG_COUNT as nat)
    }

    /// A window with nothing in it.
    pub open spec fn is_empty(self) -> bool {
        &&& self.intervals@ == Seq::<Interval>::empty()
        &&& self.open@ == Seq::new(SEG_COUNT as nat, |i: int| false)
        &&& self.open_ev@ == Seq::new(SEG_COUNT as nat, |i: int| None::<u64>)
        &&& self.seg_launches@ == Seq::new(SEG_COUNT as nat, |i: int| 0u32)
        &&& self.launches == 0
    }

    pub fn new() -> (w: Self)
        ensures
            w.is_empty(),
            w.wf(),
            w.live() == 0,
    {
        let w = StepWindow {
            intervals: Vec::new(),
            open: all_closed(),
            open_ev: no_events(),
            seg_launches: zeros(SEG_COUNT),
            launches: 0,
        };
        proof {
            lemma_none_open(w.open_ev@, SEG_COUNT as nat);
        }
        w
    }

    fn open_starts(&self) -> (n: usize)
        requires
            self.wf(),
        ensures
            n == open_count(self.open_ev@, SEG_COUNT as nat),
            n <= SEG_COUNT,
    {
        let mut n: usize = 0;
        let mut i: usize = 0;
        while i < SEG_COUNT
            invariant
                i <= SEG_COUNT,
                self.wf(),
                n <= i,
                n == open_count(self.open_ev@, i as nat),
            decreases SEG_COUNT - i,
        {
            if self.open_ev[i].is_some() {
                n = n + 1;
            }
            i = i + 1;
        }
        n
    }
}

proof fn lemma_none_open(s: Seq<Option<u64>>, n: nat)
    requires
        n <= s.len(),
        forall|i: int| 0 <= i < s.len() ==> #[trigger] s[i] is None,
    ensures
        open_count(s, n) == 0,
    decreases n,
{
    if n > 0 {
        lemma_none_open(s, (n - 1) as nat);
    }
}

proof fn lemma_open_update(s: Seq<Option<u64>>, n: nat, i: int, x: Option<u64>)
    requires
        n <= s.len(),
        0 <= i < s.len(),
    ensures
        open_count(s.update(i, x), n) == open_count(s, n) + if i < n && x is Some && s[i] is None {
            1int
        } else if i < n && x is None && s[i] is Some {
            -1
        } else {
            0
        },
    decreases n,
{
    if n > 0 {
        lemma_open_update(s, (n - 1) as nat, i, x);
    }
}

/// What a profiler asks for.
#[derive(Debug, Clone, Copy, PartialEq, Eq, Structural)]
pub enum ProfNeed {
    /// Nothing.
    Nothing,
    /// Record an event, and report its handle.
    Record,
    /// Nothing: the budget of events is spent, and the profiler has turned itself
    /// off.
    Spent,
}

/// What the close of a segment asks for.
#[derive(Debug, Clone, Copy, PartialEq, Eq, Structural)]
pub enum CloseNeed {
    Nothing,
    /// Record an event, and report its handle with that of the start.
    Record(u64),
    Spent,
}

impl DecodeProfiler {
    /// Bounded memory: a profiler is never more than one event over its budget.  The
    /// one comes from a stretch that closes, which gives its start up before it asks
    /// for its end.
    pub open spec fn wf(self) -> bool {
        &&& self.cur.wf()
        &&& self.agg_seg_launches@.len() == SEG_COUNT
        &&& self.cur.live() <= MAX_STEP_EVENTS + 1
    }

    /// Everything but the current window and the switch.
    pub open spec fn keeps(self, old: Self) -> bool {
        &&& self.steps == old.steps
        &&& self.agg_seg_launches == old.agg_seg_launches
        &&& self.agg_launches == old.agg_launches
    }

    /// A profiler with nothing aggregated and nothing in its window.
    pub open spec fn is_fresh(self) -> bool {
        &&& self.steps == 0
        &&& self.agg_launches == 0
        &&& self.agg_seg_launches@ == Seq::new(SEG_COUNT as nat, |i: int| 0u32)
        &&& self.cur.is_empty()
    }

    /// A profiler with nothing aggregated, armed or inert.
    pub fn new(active: bool) -> (p: Self)
        ensures
            p.wf(),
            p.active == active,
            p.is_fresh(),
    {
        DecodeProfiler {
            active,
            steps: 0,
            agg_seg_launches: zeros(SEG_COUNT),
            agg_launches: 0,
            cur: StepWindow::new(),
        }
    }

    /// Whether the profiler is armed.
    pub fn is_active(&self) -> (b: bool)
        ensures
            b == self.active,
    {
        self.active
    }

    /// Starts the window of a step.  An armed profiler asks for an event, with
    /// which the first segment starts.
    pub fn begin_step(&mut self) -> (n: ProfNeed)
        requires
            old(self).wf(),
        ensures
            final(self).wf(),
            final(self).active == old(self).active,
            final(self).keeps(*old(self)),
            !old(self).active ==> n == ProfNeed::Nothing && *final(self) == *old(self),
            old(self).active ==> n == ProfNeed::Record && final(self).cur.is_empty(),
    {
        if !self.active {
            return ProfNeed::Nothing;
        }
        self.cur = StepWindow::new();
        ProfNeed::Record
    }

    /// Counts a launch of a segment.
    pub fn count(&mut self, seg: u8)
        requires
            old(self).wf(),
            old(self).active ==> seg < SEG_COUNT && old(self).cur.launches < u32::MAX && old(
                self,
            ).cur.seg_launches@[seg as int] < u32::MAX,
        ensures
            final(self).wf(),
            final(self).active == old(self).active,
            final(self).keeps(*old(self)),
            !old(self).active ==> *final(self) == *old(self),
            old(self).active ==> {
                &&& final(self).cur.launches == old(self).cur.launches + 1
                &&& final(self).cur.seg_launches@ == old(self).cur.seg_launches@.update(
                    seg as int,
                    (old(self).cur.seg_launches@[seg as int] + 1) as u32,
                )
                &&& final(self).cur.intervals == old(self).cur.intervals
                &&& final(self).cur.open == old(self).cur.open
                &&& final(self).cur.open_ev == old(self).cur.open_ev
            },
    {
        if !self.active {
            return;
        }
        self.cur.launches = self.cur.launches + 1;
        let n: u32 = self.cur.seg_launches[seg as usize];
        self.cur.seg_launches.set(seg as usize, n + 1);
    }

    /// Whether `pending` more events are over the budget.
    fn budget_exceeded(&self, pending: usize) -> (b: bool)
        requires
            self.wf(),
            pending <= 1,
        ensures
            b == (self.cur.live() + pending > MAX_STEP_EVENTS),
    {
        let live: usize = self.cur.intervals.len() * 2 + self.cur.open_starts();
        live + pending > MAX_STEP_EVENTS
    }

    /// Starts a segment: an armed profiler asks for an event, unless the segment is
    /// open already.
    pub fn start_segment(&mut self, seg: u8) -> (n: ProfNeed)
        requires
            old(self).wf(),
            old(self).active ==> seg < SEG_COUNT,
        ensures
            final(self).wf(),
            final(self).cur == old(self).cur,
            final(self).keeps(*old(self)),
            n == if !old(self).active || old(self).cur.open@[seg as int] {
                ProfNeed::Nothing
            } else if old(self).cur.live() + 1 > MAX_STEP_EVENTS {
                ProfNeed::Spent
            } else {
                ProfNeed::Record
            },
            final(self).active == (old(self).active && n != ProfNeed::Spent),
    {
        if !self.active || self.cur.open[seg as usize] {
            return ProfNeed::Nothing;
        }
        if self.budget_exceeded(1) {
            self.active = false;
            return ProfNeed::Spent;
        }
        ProfNeed::Record
    }

    /// Takes the event that a segment starts with.
    pub fn started(&mut self, seg: u8, ev: u64)
        requires
            old(self).wf(),
            seg < SEG_COUNT,
            old(self).cur.open_ev@[seg as int] is None ==> old(self).cur.live()
                < MAX_STEP_EVENTS,
        ensures
            final(self).wf(),
            final(self).active == old(self).active,
            final(self).keeps(*old(self)),
            final(self).cur.open@ == old(self).cur.open@.update(seg as int, true),
            final(self).cur.open_ev@ == old(self).cur.open_ev@.update(seg as int, Some(ev)),
            final(self).cur.intervals == old(self).cur.intervals,
            final(self).cur.seg_launches == old(self).cur.seg_launches,
            final(self).cur.launches == old(self).cur.launches,
    {
        proof {
            lemma_open_update(self.cur.open_ev@, SEG_COUNT as nat, seg as int, Some(ev));
        }
        self.cur.open_ev.set(seg as usize, Some(ev));
        self.cur.open.set(seg as usize, true);
    }

    /// Ends a segment: an armed profiler asks for an event, unless the segment was
    /// not started.  The start is taken in any case, before the budget is asked for
    /// one more event.
    pub fn end_segment(&mut self, seg: u8) -> (n: CloseNeed)
        requires
            old(self).wf(),
            old(self).active ==> seg < SEG_COUNT,
        ensures
            final(self).wf(),
            final(self).keeps(*old(self)),
            !old(self).active ==> n == CloseNeed::Nothing && *final(self) == *old(self),
            old(self).active ==> {
                let start = old(self).cur.open_ev@[seg as int];
                &&& n == if start is None {
                    CloseNeed::Nothing
                } else if old(self).cur.live() > MAX_STEP_EVENTS {
                    CloseNeed::Spent
                } else {
                    CloseNeed::Record(start->0)
                }
                &&& final(self).active == (n != CloseNeed::Spent)
                &&& final(self).cur.open_ev@ == old(self).cur.open_ev@.update(seg as int, None)
                &&& final(self).cur.open == old(self).cur.open
                &&& final(self).cur.intervals == old(self).cur.intervals
                &&& final(self).cur.seg_launches == old(self).cur.seg_launches
                &&& final(self).cur.launches == old(self).cur.launches
                &&& n is Record ==> final(self).cur.live() < MAX_STEP_EVENTS
            },
    {
        if !self.active {
            return CloseNeed::Nothing;
        }
        self.close(seg)
    }

    fn close(&mut self, seg: u8) -> (n: CloseNeed)
        requires
            old(self).wf(),
            old(self).active,
            seg < SEG_COUNT,
        ensures
            final(self).wf(),
            final(self).keeps(*old(self)),
            ({
                let start = old(self).cur.open_ev@[seg as int];
                &&& n == if start is None {
                    CloseNeed::Nothing
                } else if old(self).cur.live() > MAX_STEP_EVENTS {
                    CloseNeed::Spent
                } else {
                    CloseNeed::Record(start->0)
                }
                &&& final(self).active == (n != CloseNeed::Spent)
                &&& final(self).cur.open_ev@ == old(self).cur.open_ev@.update(seg as int, None)
                &&& final(self).cur.open == old(self).cur.open
                &&& final(self).cur.intervals == old(self).cur.intervals
                &&& final(self).cur.seg_launches == old(self).cur.seg_launches
                &&& final(self).cur.launches == old(self).cur.launches
                &&& n is Record ==> final(self).cur.live() < MAX_STEP_EVENTS
            }),
    {
        proof {
            lemma_open_update(self.cur.open_ev@, SEG_COUNT as nat, seg as int, None);
            assert(self.cur.open_ev@[seg as int] is None ==> self.cur.open_ev@.update(
                seg as int,
                None,
            ) =~= self.cur.open_ev@);
        }
        let start: Option<u64> = self.cur.open_ev[seg as usize];
        self.cur.open_ev.set(seg as usize, None);
        match start {
            None => CloseNeed::Nothing,
            Some(ev) => {
                if self.budget_exceeded(1) {
                    self.active = false;
                    CloseNeed::Spent
                } else {
                    CloseNeed::Record(ev)
                }
            },
        }
    }

    /// Takes the event that a segment ends with.
    pub fn ended(&mut self, seg: u8, start: u64, end: u64)
        requires
            old(self).wf(),
            seg < SEG_COUNT,
            old(self).cur.live() < MAX_STEP_EVENTS,
        ensures
            final(self).wf(),
            final(self).active == old(self).active,
            final(self).keeps(*old(self)),
            final(self).cur.intervals@ == old(self).cur.intervals@.push(
                Interval { start, end, seg },
            ),
            final(self).cur.open@ == old(self).cur.open@.update(seg as int, false),
            final(self).cur.open_ev == old(self).cur.open_ev,
            final(self).cur.seg_launches == old(self).cur.seg_launches,
            final(self).cur.launches == old(self).cur.launches,
    {
        self.cur.open.set(seg as usize, false);
        self.cur.intervals.push(Interval { start, end, seg });
    }

    /// Closes a segment that was left open when the step ends: asks for an event
    /// where the budget allows one more, and drops the start where not.
    pub fn close_dangling(&mut self, seg: u8) -> (n: CloseNeed)
        requires
            old(self).wf(),
            old(self).active ==> seg < SEG_COUNT,
        ensures
            final(self).wf(),
            final(self).keeps(*old(self)),
            final(self).active == old(self).active,
            !old(self).active ==> n == CloseNeed::Nothing && *final(self) == *old(self),
            old(self).active ==> {
                let start = old(self).cur.open_ev@[seg as int];
                &&& n == if start is None || old(self).cur.live() > MAX_STEP_EVENTS {
                    CloseNeed::Nothing
                } else {
                    CloseNeed::Record(start->0)
                }
                &&& final(self).cur.open_ev@ == old(self).cur.open_ev@.update(seg as int, None)
                &&& final(self).cur.open@ == if start is None {
                    old(self).cur.open@
                } else {
                    old(self).cur.open@.update(seg as int, false)
                }
                &&& final(self).cur.intervals == old(self).cur.intervals
                &&& final(self).cur.seg_launches == old(self).cur.seg_launches
                &&& final(self).cur.launches == old(self).cur.launches
                &&& n is Record ==> final(self).cur.live() < MAX_STEP_EVENTS
            },
    {
        if !self.active {
            return CloseNeed::Nothing;
        }
        let had = self.cur.open_ev[seg as usize].is_some();
        let need = self.close(seg);
        self.active = true;
        if had {
            self.cur.open.set(seg as usize, false);
        }
        match need {
            CloseNeed::Record(ev) => CloseNeed::Record(ev),
            _ => CloseNeed::Nothing,
        }
    }

    /// Ends a step whose events have been read: its launches join the aggregation
    /// window, and a full window is handed out as launches per step and starts
    /// anew.
    pub fn finalize(&mut self) -> (r: Option<WindowLaunches>)
        requires
            old(self).wf(),
            old(self).active ==> old(self).steps < u32::MAX && old(self).agg_launches + old(
                self,
            ).cur.launches <= u32::MAX && forall|i: int|
                0 <= i < SEG_COUNT ==> #[trigger] old(self).agg_seg_launches@[i] + old(
                    self,
                ).cur.seg_launches@[i] <= u32::MAX,
        ensures
            final(self).wf(),
            final(self).active == old(self).active,
            !old(self).active ==> r is None && *final(self) == *old(self),
            old(self).active ==> {
                let full = (old(self).steps + 1) % WINDOW_STEPS as int == 0;
                let segs = Seq::new(
                    SEG_COUNT as nat,
                    |i: int|
                        (old(self).agg_seg_launches@[i] + old(self).cur.seg_launches@[i]) as u32,
                );
                let total = (old(self).agg_launches + old(self).cur.launches) as u32;
                &&& final(self).steps == old(self).steps + 1
                &&& final(self).cur.intervals@ == Seq::<Interval>::empty()
                &&& final(self).cur.open == old(self).cur.open
                &&& final(self).cur.open_ev == old(self).cur.open_ev
                &&& final(self).cur.seg_launches == old(self).cur.seg_launches
                &&& final(self).cur.launches == old(self).cur.launches
                &&& r is Some <==> full
                &&& full ==> r->0.segs@ == segs.map_values(|n: u32| n / WINDOW_STEPS)
                    && r->0.total == total / WINDOW_STEPS
                &&& final(self).agg_seg_launches@ == if full {
                    Seq::new(SEG_COUNT as nat, |i: int| 0u32)
                } else {
                    segs
                }
                &&& final(self).agg_launches == if full {
                    0
                } else {
                    total
                }
            },
    {
        if !self.active {
            return None;
        }
        let mut segs: Vec<u32> = Vec::new();
        let mut means: Vec<u32> = Vec::new();
        let mut i: usize = 0;
        while i < SEG_COUNT
            invariant
                i <= SEG_COUNT,
                *self == *old(self),
                self.wf(),
                forall|i: int|
                    0 <= i < SEG_COUNT ==> #[trigger] self.agg_seg_launches@[i]
                        + self.cur.seg_launches@[i] <= u32::MAX,
                segs@ == Seq::new(
                    i as nat,
                    |i: int| (self.agg_seg_launches@[i] + self.cur.seg_launches@[i]) as u32,
                ),
                means@ == segs@.map_values(|n: u32| n / WINDOW_STEPS),
            decreases SEG_COUNT - i,
        {
            proof {
                assert(self.agg_seg_launches@[i as int] + self.cur.seg_launches@[i as int]
                    <= u32::MAX);
            }
            let n: u32 = self.agg_seg_launches[i] + self.cur.seg_launches[i];
            segs.push(n);
            means.push(n / WINDOW_STEPS);
            i = i + 1;
            proof {
                assert(segs@ =~= Seq::new(
                    i as nat,
                    |i: int| (self.agg_seg_launches@[i] + self.cur.seg_launches@[i]) as u32,
                ));
                assert(means@ =~= segs@.map_values(|n: u32| n / WINDOW_STEPS));
            }
        }
        let total: u32 = self.agg_launches + self.cur.launches;
        self.steps = self.steps + 1;
        self.cur.intervals = Vec::new();
        if self.steps % WINDOW_STEPS == 0 {
            self.agg_seg_launches = zeros(SEG_COUNT);
            self.agg_launches = 0;
            Some(WindowLaunches { segs: means, total: total / WINDOW_STEPS })
        } else {
            self.agg_seg_launches = segs;
            self.agg_launches = total;
            None
        }
    }
}

impl Default for DecodeProfiler {
    /// An inert profiler.
    fn default() -> (p: Self)
        ensures
            p.wf(),
            !p.active,
            p.is_fresh(),
    {
        DecodeProfiler::new(false)
    }
}

/// The trace of a batch step: the events that its segments start with.
#[derive(Debug)]
pub struct BatchTrace {
    pub active: bool,
    pub evs: Vec<(u64, BatchMark)>,
}

/// A stretch of a batch step: from one event to another.
#[derive(Debug, Clone, Copy, PartialEq, Eq, Structural)]
pub struct BatchSpan {
    pub start: u64,
    pub end: u64,
    pub mark: BatchMark,
}

impl BatchTrace {
    pub fn new(active: bool) -> (t: Self)
        ensures
            t.active == active,
            t.evs@.len() == 0,
    {
        BatchTrace { active, evs: Vec::new() }
    }

    /// Takes the event that a segment starts with; an inert trace takes none.
    pub fn mark(&mut self, ev: u64, mark: BatchMark)
        ensures
            final(self).active == old(self).active,
            final(self).evs@ == if old(self).active {
                old(self).evs@.push((ev, mark))
            } else {
                old(self).evs@
            },
    {
        if self.active {
            self.evs.push((ev, mark));
        }
    }

    /// The stretches of the step, where `end` is the event that closes it: each
    /// segment ends where the next one starts, the last one at `end`.
    pub fn finish(&self, end: u64) -> (v: Vec<BatchSpan>)
        ensures
            v@ == Seq::new(
                self.evs@.len(),
                |i: int|
                    BatchSpan {
                        start: self.evs@[i].0,
                        end: if i + 1 < self.evs@.len() {
                            self.evs@[i + 1].0
                        } else {
                            end
                        },
                        mark: self.evs@[i].1,
                    },
            ),
    {
        let n: usize = self.evs.len();
        let mut out: Vec<BatchSpan> = Vec::new();
        let mut i: usize = 0;
        while i < n
            invariant
                i <= n,
                n == self.evs@.len(),
                out@ == Seq::new(
                    i as nat,
                    |i: int|
                        BatchSpan {
                            start: self.evs@[i].0,
                            end: if i + 1 < self.evs@.len() {
                                self.evs@[i + 1].0
                            } else {
                                end
                            },
                            mark: self.evs@[i].1,
                        },
                ),
            decreases n - i,
        {
            let to: u64 = if i + 1 < n {
                self.evs[i + 1].0
            } else {
                end
            };
            out.push(BatchSpan { start: self.evs[i].0, end: to, mark: self.evs[i].1 });
            i = i + 1;
            proof {
                assert(out@ =~= Seq::new(
                    i as nat,
                    |i: int|
                        BatchSpan {
                            start: self.evs@[i].0,
                            end: if i + 1 < self.evs@.len() {
                                self.evs@[i + 1].0
                            } else {
                                end
                            },
                            mark: self.evs@[i].1,
                        },
                ));
            }
        }
        out
    }
}

/// Events of a prefill, at most.
pub const MAX_PREFILL_EVENTS: usize = 4096;

/// The profiler of a prefill: the tags of its marks, in order.
#[derive(Debug)]
pub struct PrefillProfiler {
    pub active: bool,
    pub tags: Vec<PTag>,
    pub layers: u32,
    pub seq: u32,
}

/// Ends of layers among tags.
pub open spec fn layer_ends(tags: Seq<PTag>) -> nat
    decreases tags.len(),
{
    if tags.len() == 0 {
        0
    } else {
        layer_ends(tags.drop_last()) + if tags.last() == PTag::LayerBoundary {
            1nat
        } else {
            0
        }
    }
}

/// How often a tag occurs.
pub open spec fn tag_count(tags: Seq<PTag>, t: PTag) -> nat
    decreases tags.len(),
{
    if tags.len() == 0 {
        0
    } else {
        tag_count(tags.drop_last(), t) + if tags.last() == t {
            1nat
        } else {
            0
        }
    }
}

/// Whether an entry of `counts` is how often its tag occurs; ends of layers are not
/// counted.
pub open spec fn counts_tag(counts: Seq<u32>, tags: Seq<PTag>, t: PTag) -> bool {
    counts[tag_number(t) as int] == if t == PTag::LayerBoundary {
        0
    } else {
        tag_count(tags, t)
    }
}

/// The whole numbers of a prefill profile; `counts` has one entry per tag.
#[derive(Debug)]
pub struct PrefillCounts {
    pub seq: u32,
    pub layers: u32,
    pub launches: u32,
    pub counts: Vec<u32>,
}

impl PrefillProfiler {
    pub open spec fn wf(self) -> bool {
        &&& self.tags@.len() <= MAX_PREFILL_EVENTS
        &&& self.active ==> self.layers == layer_ends(self.tags@)
    }

    /// A profiler without marks.
    pub open spec fn is_fresh(self) -> bool {
        self.tags@.len() == 0 && self.layers == 0 && self.seq == 0
    }

    /// A profiler with no marks, armed or inert.
    pub fn new(active: bool) -> (p: Self)
        ensures
            p.wf(),
            p.active == active,
            p.is_fresh(),
    {
        PrefillProfiler { active, tags: Vec::new(), layers: 0, seq: 0 }
    }

    /// Whether the profiler is armed.
    pub fn is_active(&self) -> (b: bool)
        ensures
            b == self.active,
    {
        self.active
    }

    /// Starts the window of a prompt of `seq` tokens.  An armed profiler drops the
    /// marks of the last one and asks for the first event.
    pub fn begin(&mut self, seq: u32) -> (n: ProfNeed)
        requires
            old(self).wf(),
        ensures
            final(self).wf(),
            final(self).active == old(self).active,
            !old(self).active ==> n == ProfNeed::Nothing && *final(self) == *old(self),
            old(self).active ==> n == ProfNeed::Record && final(self).tags@.len() == 0
                && final(self).layers == 0 && final(self).seq == seq,
    {
        if !self.active {
            return ProfNeed::Nothing;
        }
        self.tags = Vec::new();
        self.layers = 0;
        self.seq = seq;
        ProfNeed::Record
    }

    /// Asks for the event of a mark.  A profiler whose budget is spent drops its
    /// marks and turns itself off.
    pub fn mark(&mut self) -> (n: ProfNeed)
        requires
            old(self).wf(),
        ensures
            final(self).wf(),
            n == if !old(self).active {
                ProfNeed::Nothing
            } else if old(self).tags@.len() >= MAX_PREFILL_EVENTS {
                ProfNeed::Spent
            } else {
                ProfNeed::Record
            },
            n != ProfNeed::Spent ==> *final(self) == *old(self),
            n == ProfNeed::Spent ==> !final(self).active && final(self).tags@.len() == 0
                && final(self).layers == old(self).layers && final(self).seq == old(self).seq,
    {
        if !self.active {
            return ProfNeed::Nothing;
        }
        if self.tags.len() >= MAX_PREFILL_EVENTS {
            self.active = false;
            self.tags = Vec::new();
            return ProfNeed::Spent;
        }
        ProfNeed::Record
    }

    /// Takes the mark of an event that was recorded.
    pub fn marked(&mut self, tag: PTag)
        requires
            old(self).wf(),
            old(self).active,
            old(self).tags@.len() < MAX_PREFILL_EVENTS,
        ensures
            final(self).wf(),
            final(self).active == old(self).active,
            final(self).seq == old(self).seq,
            final(self).tags@ == old(self).tags@.push(tag),
            final(self).layers == old(self).layers + if tag == PTag::LayerBoundary {
                1int
            } else {
                0
            },
    {
        proof {
            lemma_layer_ends(self.tags@);
            assert(self.tags@.push(tag).drop_last() =~= self.tags@);
        }
        self.tags.push(tag);
        if tag == PTag::LayerBoundary {
            self.layers = self.layers + 1;
        }
    }

    /// The whole numbers of the profile: the marks that end each tag's stretches,
    /// without the first mark, which starts the window, and without the ends of
    /// layers.  `None` where the profiler is inert or nothing ended.
    pub fn finalize(&self) -> (r: Option<PrefillCounts>)
        requires
            self.wf(),
        ensures
            r is Some <==> self.active && self.tags@.len() >= 2,
            r is Some ==> {
                let p = r->0;
                &&& p.seq == self.seq
                &&& p.layers == if self.layers > 1 {
                    self.layers
                } else {
                    1
                }
                &&& p.launches == self.tags@.len()
                &&& p.counts@.len() == PTAG_COUNT
                &&& forall|t: PTag| #[trigger] counts_tag(p.counts@, self.tags@.drop_first(), t)
            },
    {
        if !self.active || self.tags.len() < 2 {
            return None;
        }
        let mut counts: Vec<u32> = zeros(PTAG_COUNT);
        let ghost rest = self.tags@.drop_first();
        let mut i: usize = 1;
        proof {
            assert(rest.subrange(0, 0) =~= Seq::<PTag>::empty());
            assert forall|t: PTag| #[trigger] counts_tag(counts@, rest.subrange(0, 0), t) by {
                numbers_name_their_tags(t, t);
            }
        }
        while i < self.tags.len()
            invariant
                1 <= i <= self.tags@.len(),
                self.tags@.len() <= MAX_PREFILL_EVENTS,
                rest == self.tags@.drop_first(),
                counts@.len() == PTAG_COUNT,
                forall|t: PTag| #[trigger] counts_tag(counts@, rest.subrange(0, i - 1), t),
            decreases self.tags.len() - i,
        {
            let tag = self.tags[i];
            let ghost seen = rest.subrange(0, i - 1);
            proof {
                assert(rest.subrange(0, i as int).drop_last() =~= seen);
                assert(rest.subrange(0, i as int).last() == tag);
            }
            let ghost before = counts@;
            proof {
                assert(counts_tag(before, seen, tag));
                lemma_tag_count(seen, tag);
            }
            if tag != PTag::LayerBoundary {
                let at: usize = tag.number() as usize;
                counts.set(at, counts[at] + 1);
            }
            proof {
                assert forall|t: PTag| #[trigger]
                    counts_tag(counts@, rest.subrange(0, i as int), t) by {
                    assert(counts_tag(before, seen, t));
                    numbers_name_their_tags(t, tag);
                }
            }
            i = i + 1;
        }
        proof {
            assert(rest.subrange(0, rest.len() as int) =~= rest);
        }
        let layers: u32 = if self.layers > 1 {
            self.layers
        } else {
            1
        };
        Some(
            PrefillCounts { seq: self.seq, layers, launches: self.tags.len() as u32, counts },
        )
    }
}

proof fn lemma_tag_count(tags: Seq<PTag>, t: PTag)
    ensures
        tag_count(tags, t) <= tags.len(),
    decreases tags.len(),
{
    if tags.len() > 0 {
        lemma_tag_count(tags.drop_last(), t);
    }
}

proof fn lemma_layer_ends(tags: Seq<PTag>)
    ensures
        layer_ends(tags) <= tags.len(),
    decreases tags.len(),
{
    if tags.len() > 0 {
        lemma_layer_ends(tags.drop_last());
    }
}

} // verus!
