//! A reference model of the pipeline on the host: latest and keyframe
//! feature sets and one cycle over them, with the stages of the `kernels`
//! model. It follows the cycle's data contracts (bounded append, descriptor
//! per slot, matching against the keyframe, commit) rather than the
//! numbers that the GPU shaders compute.

use vstd::prelude::*;
use crate::append::AppendBuffer;
use crate::config::{config_result, valid_config, ConfigError, OrbConfig, OrbParams};
use crate::descriptor::Descriptor;
use crate::detect::{detect_corners, scan_corners};
use crate::kernels::{
    describe, descriptor_of, gray_surface, gray_value, grayscale, lemma_gray_at, lemma_score_at, luma, neighbour,
    peak_scores, score_surface,
};
use crate::detect::{at, lemma_scan_none, lemma_scan_single, only_peak};
use crate::matching::{lemma_match_soundness, match_descriptors, match_stream, sound_record, record_latest, record_previous};
use crate::program::FrameError;
use crate::readback::Corner;

verus! {

/// A corner list with its counter, and the descriptor table beside it.
pub struct FeatureSet {
    corners: AppendBuffer<Corner>,
    descriptors: Vec<Descriptor>,
}

impl FeatureSet {
    pub closed spec fn spec_corners(&self) -> AppendBuffer<Corner> {
        self.corners
    }

    pub closed spec fn spec_descriptors(&self) -> Seq<Descriptor> {
        self.descriptors@
    }

    pub fn corners(&self) -> (r: &AppendBuffer<Corner>)
        ensures
            *r == self.spec_corners(),
    {
        &self.corners
    }

    pub fn descriptors(&self) -> (r: &Vec<Descriptor>)
        ensures
            r@ == self.spec_descriptors(),
    {
        &self.descriptors
    }

    /// An empty set of `capacity` slots.
    pub fn empty(capacity: usize) -> (r: FeatureSet)
        ensures
            r.spec_corners().counter() == 0,
            r.spec_corners().capacity() == capacity,
            r.spec_descriptors().len() == capacity,
    {
        let corners = AppendBuffer::new(capacity, Corner { x: 0, y: 0 });
        let descriptors = vec![[0u32; 8]; capacity];
        FeatureSet { corners, descriptors }
    }

    /// A full copy: counter, every corner slot and every descriptor.
    pub fn duplicate(&self) -> (r: FeatureSet)
        ensures
            same_state(&r, self),
    {
        let corners = self.corners.duplicate();
        let mut descriptors: Vec<Descriptor> = Vec::new();
        let mut i: usize = 0;
        while i < self.descriptors.len()
            invariant
                i <= self.descriptors@.len(),
                descriptors@ == self.descriptors@.take(i as int),
            decreases self.descriptors@.len() - i,
        {
            descriptors.push(self.descriptors[i]);
            i = i + 1;
            proof {
                assert(descriptors@ =~= self.descriptors@.take(i as int));
            }
        }
        proof {
            assert(descriptors@ =~= self.descriptors@);
        }
        FeatureSet { corners, descriptors }
    }
}

/// Two feature sets hold the same counter, corner slots and descriptors.
pub open spec fn same_state(a: &FeatureSet, b: &FeatureSet) -> bool {
    &&& a.spec_corners().counter() == b.spec_corners().counter()
    &&& a.spec_corners().slots() == b.spec_corners().slots()
    &&& a.spec_descriptors() == b.spec_descriptors()
}

/// The corners that a cycle detects in frame `f`, in scan order.
pub open spec fn frame_corners(c: OrbConfig, f: Seq<u8>) -> Seq<Corner> {
    let gw = c.width;
    let gh = c.height;
    let g = gray_surface(f, c.width as int, c.height as int);
    scan_corners(score_surface(g, gw as int, gh as int), gw as int, gh as int, c.corner_threshold)
}

/// The latest set of `fs` is what a cycle on frame `f` leaves: its corner
/// list holds the frame's corners, and every slot's descriptor is that of
/// the slot's corner.
pub open spec fn latest_from(c: OrbConfig, fs: &FeatureSet, f: Seq<u8>) -> bool {
    let g = gray_surface(f, c.width as int, c.height as int);
    &&& fs.spec_corners().capacity() == c.max_features
    &&& fs.spec_descriptors().len() == c.max_features
    &&& fs.spec_corners().holds_stream(frame_corners(c, f))
    &&& forall|i: int| 0 <= i < c.max_features ==> (#[trigger] fs.spec_descriptors()[i])@ == descriptor_of(
        g,
        c.width as int,
        c.height as int,
        fs.spec_corners().slots()[i],
    )
}

/// The keyframe after a cycle: the latest set if the cycle recorded one,
/// else the keyframe before it.
pub open spec fn keyframe_step(before: &HostPipeline, after: &HostPipeline, record: bool) -> bool {
    if record {
        same_state(&after.spec_previous(), &after.spec_latest())
    } else {
        after.spec_previous() == before.spec_previous()
    }
}

/// The reference model of the pipeline: the stages run as plain loops over
/// host memory, in the order of a cycle's plan.
pub struct HostPipeline {
    config: OrbConfig,
    latest: FeatureSet,
    previous: FeatureSet,
    matches: AppendBuffer<u32>,
}

impl HostPipeline {
    pub closed spec fn spec_config(&self) -> OrbConfig {
        self.config
    }

    pub closed spec fn spec_latest(&self) -> FeatureSet {
        self.latest
    }

    pub closed spec fn spec_previous(&self) -> FeatureSet {
        self.previous
    }

    pub closed spec fn spec_matches(&self) -> AppendBuffer<u32> {
        self.matches
    }

    /// A valid configuration, and feature sets and a match list of the
    /// configured capacities.
    pub open spec fn wf(&self) -> bool {
        let c = self.spec_config();
        &&& valid_config(c)
        &&& self.spec_latest().spec_corners().capacity() == c.max_features
        &&& self.spec_latest().spec_descriptors().len() == c.max_features
        &&& self.spec_previous().spec_corners().capacity() == c.max_features
        &&& self.spec_previous().spec_descriptors().len() == c.max_features
        &&& self.spec_matches().capacity() == c.max_matches
    }

    pub fn latest(&self) -> (r: &FeatureSet)
        ensures
            *r == self.spec_latest(),
    {
        &self.latest
    }

    pub fn previous(&self) -> (r: &FeatureSet)
        ensures
            *r == self.spec_previous(),
    {
        &self.previous
    }

    pub fn matches(&self) -> (r: &AppendBuffer<u32>)
        ensures
            *r == self.spec_matches(),
    {
        &self.matches
    }

    /// A pipeline for `config`, with empty latest and keyframe sets.
    pub fn new(config: OrbConfig) -> (r: Result<HostPipeline, ConfigError>)
        ensures
            match r {
                Ok(p) => {
                    &&& valid_config(config)
                    &&& p.wf()
                    &&& p.spec_config() == config
                    &&& p.spec_latest().spec_corners().counter() == 0
                    &&& p.spec_previous().spec_corners().counter() == 0
                    &&& p.spec_matches().counter() == 0
                },
                Err(e) => config_result(config) == Err::<(), ConfigError>(e),
            },
    {
        if let Err(e) = config.check() {
            return Err(e);
        }
        let n = config.max_features as usize;
        let latest = FeatureSet::empty(n);
        let previous = FeatureSet::empty(n);
        let matches = AppendBuffer::new(config.max_matches as usize, 0u32);
        Ok(HostPipeline { config, latest, previous, matches })
    }

    /// Runs one cycle on `frame`: grayscale, corner scores, detection into
    /// the latest corner list, descriptors for every slot, matching against
    /// the keyframe if asked, then the keyframe commit if asked. A frame of
    /// the wrong length is refused and nothing changes.
    pub fn run_cycle(&mut self, frame: &Vec<u8>, params: OrbParams) -> (r: Result<(), FrameError>)
        requires
            old(self).wf(),
        ensures
            final(self).wf(),
            final(self).spec_config() == old(self).spec_config(),
            ({
                let c = old(self).spec_config();
                frame@.len() == 4 * (c.width * c.height) <==> r is Ok
            }),
            r is Err ==> r->Err_0 == FrameError::WrongLength && *final(self) == *old(self),
            r is Ok ==> {
                let c = old(self).spec_config();
                let latest = final(self).spec_latest();
                let prev = old(self).spec_previous();
                &&& latest_from(c, &latest, frame@)
                &&& keyframe_step(old(self), final(self), params.record_keyframe)
                &&& params.compute_matches ==> final(self).spec_matches().holds_stream(
                    match_stream(
                        latest.spec_descriptors(),
                        latest.spec_corners().written() as int,
                        prev.spec_descriptors(),
                        prev.spec_corners().written() as int,
                        c.match_threshold,
                    ),
                )
                &&& params.compute_matches ==> forall|k: int|
                    0 <= k < final(self).spec_matches().written() ==> sound_record(
                        #[trigger] final(self).spec_matches().records()[k],
                        latest.spec_descriptors(),
                        latest.spec_corners().written() as int,
                        prev.spec_descriptors(),
                        prev.spec_corners().written() as int,
                        c.match_threshold,
                    )
                &&& params.compute_matches ==> forall|i: int, j: int|
                    0 <= i < final(self).spec_matches().written() && 0 <= j < final(self).spec_matches().written()
                        && i != j ==> #[trigger] final(self).spec_matches().records()[i]
                        != #[trigger] final(self).spec_matches().records()[j]
                &&& !params.compute_matches ==> final(self).spec_matches().counter() == 0
            },
    {
        let c = &self.config;
        if frame.len() as u64 != c.frame_bytes() {
            return Err(FrameError::WrongLength);
        }
        let gw = c.width;
        let gh = c.height;
        let gray = grayscale(frame, c.width, c.height);
        let scores = peak_scores(&gray, gw, gh);
        proof {
            assert(gw * gh <= 8192 * 8192) by (nonlinear_arith)
                requires
                    gw <= 8192,
                    gh <= 8192,
            ;
        }
        let corners = detect_corners(&scores, gw, gh, c.corner_threshold, c.max_features as usize);
        let descriptors = describe(&gray, gw, gh, corners.slot_vec());
        let latest = FeatureSet { corners, descriptors };
        let matches = if params.compute_matches {
            match_descriptors(
                &latest.descriptors,
                latest.corners.written_len(),
                &self.previous.descriptors,
                self.previous.corners.written_len(),
                c.match_threshold,
                c.max_matches as usize,
            )
        } else {
            AppendBuffer::new(c.max_matches as usize, 0u32)
        };
        proof {
            if params.compute_matches {
                lemma_match_soundness(
                    &matches,
                    latest.descriptors@,
                    latest.corners.written() as int,
                    self.previous.descriptors@,
                    self.previous.corners.written() as int,
                    c.match_threshold,
                );
            }
        }
        self.latest = latest;
        self.matches = matches;
        if params.record_keyframe {
            self.previous = self.latest.duplicate();
        }
        Ok(())
    }

    /// The corners of the last cycle: the written prefix of the corner
    /// list, at most `max_features` of them.
    pub fn read_corners(&self) -> (r: Vec<Corner>)
        requires
            self.wf(),
        ensures
            r@ == self.spec_latest().spec_corners().records(),
            r@.len() <= self.spec_config().max_features,
    {
        self.latest.corners.records_vec()
    }

    /// The descriptors of the corners of the last cycle.
    pub fn read_descriptors(&self) -> (r: Vec<Descriptor>)
        requires
            self.wf(),
        ensures
            r@ == self.spec_latest().spec_descriptors().take(self.spec_latest().spec_corners().written() as int),
    {
        let n = self.latest.corners.written_len();
        let mut out: Vec<Descriptor> = Vec::new();
        let mut i: usize = 0;
        while i < n
            invariant
                n == self.latest.corners.written(),
                n <= self.latest.descriptors@.len(),
                i <= n,
                out@ == self.latest.descriptors@.take(i as int),
            decreases n - i,
        {
            out.push(self.latest.descriptors[i]);
            i = i + 1;
            proof {
                assert(out@ =~= self.latest.descriptors@.take(i as int));
            }
        }
        out
    }

    /// The matches of the last cycle as (latest, previous) index pairs, at
    /// most `max_matches` of them.
    pub fn read_matches(&self) -> (r: Vec<(u32, u32)>)
        requires
            self.wf(),
        ensures
            r@.len() == self.spec_matches().written(),
            r@.len() <= self.spec_config().max_matches,
            forall|k: int| 0 <= k < r@.len() ==> #[trigger] r@[k] == (
                record_latest(self.spec_matches().records()[k]) as u32,
                record_previous(self.spec_matches().records()[k]) as u32,
            ),
    {
        let n = self.matches.written_len();
        let mut out: Vec<(u32, u32)> = Vec::new();
        let mut i: usize = 0;
        while i < n
            invariant
                n == self.matches.written(),
                i <= n,
                out@.len() == i,
                forall|k: int| 0 <= k < i ==> #[trigger] out@[k] == (
                    record_latest(self.matches.records()[k]) as u32,
                    record_previous(self.matches.records()[k]) as u32,
                ),
            decreases n - i,
        {
            let rec = self.matches.record(i);
            out.push((rec % 65536, rec / 65536));
            i = i + 1;
        }
        out
    }
}

/// Two cycles on the same frame give the same output: the same written
/// corners, and the same descriptors for them, whatever came before.
pub proof fn lemma_cycle_idempotent(c: OrbConfig, a: &FeatureSet, b: &FeatureSet, f: Seq<u8>)
    requires
        valid_config(c),
        latest_from(c, a, f),
        latest_from(c, b, f),
    ensures
        a.spec_corners().written() == b.spec_corners().written(),
        a.spec_corners().records() == b.spec_corners().records(),
        forall|i: int| 0 <= i < a.spec_corners().written() ==> (#[trigger] a.spec_descriptors()[i])@
            == b.spec_descriptors()[i]@,
{
    let s = frame_corners(c, f);
    let gw = c.width as int;
    let gh = c.height as int;
    let scores = score_surface(gray_surface(f, c.width as int, c.height as int), gw, gh);
    crate::detect::lemma_scan_len_bound(scores, gw, gh, c.corner_threshold);
    assert(gw * gh <= 8192 * 8192) by (nonlinear_arith)
        requires
            0 <= gw <= 8192,
            0 <= gh <= 8192,
    ;
    crate::append::lemma_records_of_stream(&a.spec_corners(), s);
    crate::append::lemma_records_of_stream(&b.spec_corners(), s);
    assert forall|i: int| 0 <= i < a.spec_corners().written() implies (#[trigger] a.spec_descriptors()[i])@
        == b.spec_descriptors()[i]@ by {
        assert(a.spec_corners().slots()[i] == a.spec_corners().records()[i]);
        assert(b.spec_corners().slots()[i] == b.spec_corners().records()[i]);
    }
}

/// Keyframe isolation: after a cycle that records a keyframe, any number of
/// cycles that do not record one leave the keyframe equal to the latest set
/// of the recording cycle. `states[i + 1]` is the pipeline after cycle `i`,
/// which ran with `records[i]`.
pub proof fn lemma_keyframe_isolation(states: Seq<HostPipeline>, records: Seq<bool>)
    requires
        states.len() == records.len() + 1,
        records.len() >= 1,
        records[0],
        forall|i: int| 1 <= i < records.len() ==> !#[trigger] records[i],
        forall|i: int| 0 <= i < records.len() ==> keyframe_step(&#[trigger] states[i], &states[i + 1], records[i]),
    ensures
        forall|i: int| 1 <= i < states.len() ==> same_state(&(#[trigger] states[i]).spec_previous(), &states[1].spec_latest()),
    decreases records.len(),
{
    if records.len() > 1 {
        let n = records.len() - 1;
        lemma_keyframe_isolation(states.take(n + 1), records.take(n));
        assert forall|i: int| 1 <= i < states.len() implies same_state(&(#[trigger] states[i]).spec_previous(), &states[1].spec_latest()) by {
            if i < n + 1 {
                assert(states.take(n + 1)[i] == states[i]);
            } else {
                assert(keyframe_step(&states[n], &states[n + 1], records[n]));
                assert(states.take(n + 1)[n] == states[n]);
            }
        }
    } else {
        assert(keyframe_step(&states[0], &states[1], records[0]));
    }
}

/// A frame that is black but for one pixel `(x0, y0)`, whose gray value is
/// above the corner threshold.
pub open spec fn single_bright_pixel(c: OrbConfig, f: Seq<u8>, x0: int, y0: int) -> bool {
    &&& 0 <= x0 < c.width
    &&& 0 <= y0 < c.height
    &&& forall|x: int, y: int|
        0 <= x < c.width && 0 <= y < c.height && !(x == x0 && y == y0) ==> #[trigger] luma(f, c.width as int, x, y)
            == 0
    &&& gray_value(f, c.width as int, x0, y0) > c.corner_threshold
}

proof fn lemma_dark_neighbour(c: OrbConfig, f: Seq<u8>, x0: int, y0: int, x: int, y: int)
    requires
        single_bright_pixel(c, f, x0, y0),
        !(x == x0 && y == y0),
    ensures
        neighbour(gray_surface(f, c.width as int, c.height as int), c.width as int, c.height as int, x, y) == 0,
{
    if 0 <= x < c.width && 0 <= y < c.height {
        lemma_gray_at(f, c.width as int, c.height as int, x, y);
        assert(luma(f, c.width as int, x, y) == 0);
    }
}

/// One bright pixel on a black frame: a cycle records exactly one corner,
/// at that pixel's own frame coordinates.
pub proof fn lemma_single_bright_pixel(c: OrbConfig, fs: &FeatureSet, f: Seq<u8>, x0: int, y0: int)
    requires
        valid_config(c),
        single_bright_pixel(c, f, x0, y0),
        latest_from(c, fs, f),
    ensures
        frame_corners(c, f) == seq![Corner { x: x0 as u32, y: y0 as u32 }],
        fs.spec_corners().written() == 1,
        fs.spec_corners().records() == seq![Corner { x: x0 as u32, y: y0 as u32 }],
{
    let w = c.width as int;
    let h = c.height as int;
    let g = gray_surface(f, w, h);
    let scores = score_surface(g, w, h);
    assert forall|x: int, y: int| 0 <= x < w && 0 <= y < h implies (#[trigger] at(scores, w, x, y)
        > c.corner_threshold) == (x == x0 && y == y0) by {
        lemma_score_at(g, w, h, x, y);
        lemma_gray_at(f, w, h, x, y);
        if x == x0 && y == y0 {
            lemma_dark_neighbour(c, f, x0, y0, x - 1, y);
            lemma_dark_neighbour(c, f, x0, y0, x + 1, y);
            lemma_dark_neighbour(c, f, x0, y0, x, y - 1);
            lemma_dark_neighbour(c, f, x0, y0, x, y + 1);
        } else {
            assert(luma(f, w, x, y) == 0);
        }
    }
    assert(only_peak(scores, w, h, c.corner_threshold, x0, y0));
    lemma_scan_single(scores, w, h, c.corner_threshold, x0, y0);
    crate::append::lemma_records_of_stream(&fs.spec_corners(), frame_corners(c, f));
}

/// A corner threshold at or above 255, which no peak score exceeds, gives
/// no corner on any frame: a cycle writes no corner, so no descriptor is
/// valid, and the match list it fills against any keyframe stays empty.
pub proof fn lemma_threshold_above_scores(c: OrbConfig, fs: &FeatureSet, prev: &FeatureSet, m: &AppendBuffer<u32>, f: Seq<u8>)
    requires
        valid_config(c),
        c.corner_threshold >= 255,
        latest_from(c, fs, f),
        m.holds_stream(
            match_stream(
                fs.spec_descriptors(),
                fs.spec_corners().written() as int,
                prev.spec_descriptors(),
                prev.spec_corners().written() as int,
                c.match_threshold,
            ),
        ),
    ensures
        frame_corners(c, f) == Seq::<Corner>::empty(),
        fs.spec_corners().written() == 0,
        m.written() == 0,
{
    let w = c.width as int;
    let h = c.height as int;
    let g = gray_surface(f, w, h);
    let scores = score_surface(g, w, h);
    assert forall|x: int, y: int| 0 <= x < w && 0 <= y < h implies #[trigger] at(scores, w, x, y) <= c.corner_threshold by {
        lemma_score_at(g, w, h, x, y);
    }
    lemma_scan_none(scores, w, h, c.corner_threshold);
    crate::append::lemma_records_of_stream(&fs.spec_corners(), frame_corners(c, f));
}

} // verus!
