use reinfer_cuda::batch_step::BatchMark;
use reinfer_cuda::profile::{
    seg_name, BatchSpan, BatchTrace, CloseNeed, DecodeProfiler, Interval, PrefillProfiler, ProfNeed,
};
use reinfer_cuda::ptag::PTag;
use reinfer_cuda::step::{SEG_ATTN, SEG_LM_HEAD, SEG_QKV, SEG_SMALL};

#[test]
fn an_inert_profiler_does_nothing() {
    let mut p = DecodeProfiler::default();
    assert!(!p.is_active());
    assert_eq!(p.begin_step(), ProfNeed::Nothing);
    p.count(SEG_QKV);
    assert_eq!(p.start_segment(SEG_QKV), ProfNeed::Nothing);
    assert_eq!(p.end_segment(SEG_QKV), CloseNeed::Nothing);
    assert!(p.finalize().is_none());
    assert_eq!((p.steps, p.cur.launches), (0, 0));
}

#[test]
fn segments_open_and_close() {
    let mut p = DecodeProfiler::new(true);
    assert_eq!(p.begin_step(), ProfNeed::Record);
    p.started(SEG_SMALL, 1);
    assert_eq!(p.start_segment(SEG_SMALL), ProfNeed::Nothing);
    assert_eq!(p.end_segment(SEG_SMALL), CloseNeed::Record(1));
    p.ended(SEG_SMALL, 1, 2);
    // an end without a start
    assert_eq!(p.end_segment(SEG_QKV), CloseNeed::Nothing);
    assert_eq!(p.start_segment(SEG_QKV), ProfNeed::Record);
    p.started(SEG_QKV, 3);
    assert_eq!(p.close_dangling(SEG_QKV), CloseNeed::Record(3));
    p.ended(SEG_QKV, 3, 4);
    assert_eq!(p.close_dangling(SEG_ATTN), CloseNeed::Nothing);
    assert_eq!(
        p.cur.intervals,
        vec![
            Interval { start: 1, end: 2, seg: SEG_SMALL },
            Interval { start: 3, end: 4, seg: SEG_QKV }
        ]
    );
    assert_eq!(seg_name(SEG_LM_HEAD as usize), "lm_head");
    assert_eq!(seg_name(8), "layer");
}

#[test]
fn a_window_has_twenty_steps() {
    let mut p = DecodeProfiler::new(true);
    for step in 1..=40 {
        p.begin_step();
        p.count(SEG_QKV);
        p.count(SEG_QKV);
        if step % 2 == 0 {
            p.count(SEG_ATTN);
        }
        match p.finalize() {
            Some(w) => {
                assert_eq!(step % 20, 0);
                assert_eq!(w.segs[SEG_QKV as usize], 2);
                assert_eq!(w.segs[SEG_ATTN as usize], 0);
                // 50 launches in 20 steps
                assert_eq!(w.total, 2);
                assert_eq!(p.agg_launches, 0);
            }
            None => assert_ne!(step % 20, 0),
        }
    }
    assert_eq!(p.steps, 40);
}

#[test]
fn events_stay_within_their_budget() {
    let mut p = DecodeProfiler::new(true);
    p.begin_step();
    let mut ev = 0u64;
    let mut live = 0;
    loop {
        if p.start_segment(SEG_QKV) != ProfNeed::Record {
            break;
        }
        p.started(SEG_QKV, ev);
        live += 1;
        match p.end_segment(SEG_QKV) {
            CloseNeed::Record(s) => p.ended(SEG_QKV, s, ev + 1),
            _ => break,
        }
        live += 1;
        ev += 2;
        assert!(live <= 512);
    }
    assert!(!p.is_active());
    assert_eq!(p.cur.intervals.len(), 256);
}

#[test]
fn a_stretch_that_closes_gives_its_start_up() {
    let mut p = DecodeProfiler::new(true);
    p.begin_step();
    p.started(SEG_SMALL, 1);
    while p.start_segment(SEG_QKV) == ProfNeed::Record {
        p.started(SEG_QKV, 2);
        match p.end_segment(SEG_QKV) {
            CloseNeed::Record(s) => p.ended(SEG_QKV, s, 3),
            n => panic!("{n:?}"),
        }
    }
    // the open start, and an interval more than half the budget
    assert_eq!(p.cur.intervals.len(), 256);
    assert_eq!(p.cur.open_ev.iter().filter(|e| e.is_some()).count(), 1);
    assert!(!p.is_active());
}

#[test]
fn spans_of_a_batch_step() {
    let mut t = BatchTrace::new(true);
    t.mark(10, BatchMark::Stage);
    t.mark(11, BatchMark::Embed);
    t.mark(12, BatchMark::Lm);
    assert_eq!(
        t.finish(13),
        vec![
            BatchSpan { start: 10, end: 11, mark: BatchMark::Stage },
            BatchSpan { start: 11, end: 12, mark: BatchMark::Embed },
            BatchSpan { start: 12, end: 13, mark: BatchMark::Lm },
        ]
    );
    let mut off = BatchTrace::new(false);
    off.mark(1, BatchMark::Stage);
    assert!(off.finish(2).is_empty());
}

#[test]
fn marks_of_a_prefill() {
    let mut p = PrefillProfiler::new(true);
    assert_eq!(p.begin(7), ProfNeed::Record);
    for t in [PTag::Gather, PTag::RmsAttn, PTag::Fmha, PTag::LayerBoundary, PTag::RmsAttn] {
        assert_eq!(p.mark(), ProfNeed::Record);
        p.marked(t);
    }
    p.marked(PTag::LayerBoundary);
    let c = p.finalize().unwrap();
    assert_eq!((c.seq, c.layers, c.launches), (7, 2, 6));
    // the first mark starts the window
    assert_eq!(c.counts[PTag::Gather.number() as usize], 0);
    assert_eq!(c.counts[PTag::RmsAttn.number() as usize], 2);
    assert_eq!(c.counts[PTag::Fmha.number() as usize], 1);
    assert_eq!(c.counts[PTag::LayerBoundary.number() as usize], 0);
    assert_eq!(p.begin(3), ProfNeed::Record);
    assert!(p.finalize().is_none());
}

#[test]
fn a_spent_prefill_profiler_turns_itself_off() {
    let mut p = PrefillProfiler::new(true);
    p.begin(1);
    for _ in 0..4096 {
        assert_eq!(p.mark(), ProfNeed::Record);
        p.marked(PTag::Fmha);
    }
    assert_eq!(p.mark(), ProfNeed::Spent);
    assert!(!p.is_active());
    assert_eq!(p.mark(), ProfNeed::Nothing);
    assert!(p.finalize().is_none());
}
