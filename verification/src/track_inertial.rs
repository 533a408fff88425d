//! The tracker's inertial path: taking samples in, edges between keyframes, and the staged
//! initialization that turns the map onto gravity.
use crate::error::VioError;
use crate::ieee::Double;
use crate::imu::{advancing, last_stamp, ImuWindowError, RawImuSample};
use crate::inertial::InertialStats;
use crate::payload::{unpack_samples, unpacked_all, ImuSample};
use crate::state::{
    log_due, should_log_throttled, InertialModel, InitStage, LogMark, SystemState,
};
use crate::track::{
    with_refusal, BaPlan, InitStep, NewestKeyframe, Readiness, SolvedInit, Tracker, TrackerModel,
    BA_ACTIVE_KEYFRAMES, REFINE_1_AFTER_BITS, REFINE_2_AFTER_BITS, REFINE_UNTIL_BITS,
};
use vstd::prelude::*;

verus! {

impl TrackerModel {
    /// The tracker with a batch of samples in its ring.
    pub open spec fn fed(self, samples: Seq<RawImuSample>, dropped_cumulative: u64) -> TrackerModel {
        let i = self.inertial->0;
        self.with_inertial(
            InertialModel { buffer: i.buffer.pushed(samples, dropped_cumulative), ..i },
        )
    }

    /// Whether a ring has room in its counters for a batch of this size.
    pub open spec fn can_count(self, batch: nat) -> bool {
        self.inertial matches Some(i) ==> {
            &&& i.buffer.stats.accepted + batch <= u64::MAX
            &&& i.buffer.stats.out_of_order + batch <= u64::MAX
            &&& i.buffer.stats.drop_reports < u64::MAX
        }
    }

    /// Whether the ring's counters have room for what a batch adds, where it is taken at all.
    pub open spec fn can_feed(
        self,
        samples: Seq<RawImuSample>,
        dropped_cumulative: u64,
        aligned: bool,
    ) -> bool {
        self.inertial is Some && !aligned ==> self.inertial->0.buffer.has_room_for(
            samples,
            dropped_cumulative,
        )
    }

    /// Whether every inertial counter has room for one more.
    pub open spec fn can_count_edge(self) -> bool {
        self.inertial matches Some(i) ==> {
            &&& i.stats.refused_dropped < u64::MAX
            &&& i.stats.refused_gap < u64::MAX
            &&& i.stats.refused_too_few < u64::MAX
            &&& i.stats.refused_no_samples < u64::MAX
            &&& i.stats.refused_bad_interval < u64::MAX
            &&& i.stats.refused_zero_dt < u64::MAX
            &&& i.stats.factors_added < u64::MAX
            &&& i.stats.init_attempts < u64::MAX
            &&& i.stats.init_accepted < u64::MAX
        }
    }

    /// What the inertial path has done and refused, with what the map retains.
    pub open spec fn inertial_report(self, retained_factors: usize, retained_samples: usize)
        -> Option<InertialStats> {
        match self.inertial {
            None => None,
            Some(i) => Some(
                InertialStats {
                    buffer: crate::imu::ImuBufferStats {
                        buffered: i.buffer.samples.len() as usize,
                        ..i.buffer.stats
                    },
                    initialized: self.state.imu_initialized,
                    retained_factors,
                    retained_samples,
                    ..i.stats
                },
            ),
        }
    }

    /// What the ring answers for an edge between two stamps.
    pub open spec fn edge_interval(self, prev_stamp_ns: u64, stamp_ns: u64, coverage_count: usize)
        -> Result<Seq<RawImuSample>, ImuWindowError> {
        let i = self.inertial->0;
        i.buffer.window(prev_stamp_ns, stamp_ns, i.cfg.gates, coverage_count)
    }

    /// The tracker after a refused interval.
    pub open spec fn refused(self, error: ImuWindowError) -> TrackerModel {
        let i = self.inertial->0;
        self.with_inertial(InertialModel { stats: with_refusal(i.stats, error), ..i })
    }

    /// The tracker after an edge was integrated: a factor where it spans a positive time, a refusal
    /// where it does not.
    pub open spec fn integrated(self, dt: Double) -> TrackerModel {
        let i = self.inertial->0;
        self.with_inertial(
            InertialModel {
                stats: if Double::zero_spec().lt_spec(dt) {
                    InertialStats {
                        factors_added: (i.stats.factors_added + 1) as u64,
                        ..i.stats
                    }
                } else {
                    InertialStats {
                        refused_zero_dt: (i.stats.refused_zero_dt + 1) as u64,
                        ..i.stats
                    }
                },
                ..i
            },
        )
    }

    /// The tracker with the samples before a stamp forgotten.
    pub open spec fn pruned(self, stamp_ns: u64) -> TrackerModel {
        match self.inertial {
            None => self,
            Some(i) => self.with_inertial(
                InertialModel { buffer: i.buffer.pruned(stamp_ns), ..i },
            ),
        }
    }

    /// How a map of this many keyframes is to be adjusted.
    pub open spec fn ba_plan(self, keyframes: usize) -> BaPlan {
        if !self.config.enable_local_ba || keyframes <= BA_ACTIVE_KEYFRAMES {
            BaPlan::Skip
        } else if self.state.imu_initialized && self.inertial is Some
            && self.inertial->0.cfg.enable_inertial_ba {
            BaPlan::Inertial {
                imu_t_bc: self.inertial->0.cfg.imu_t_bc,
                gravity_world: self.inertial->0.gravity_world,
            }
        } else {
            BaPlan::Visual
        }
    }

    /// The tracker with the newest keyframe read back.
    pub open spec fn synced(self, newest: Option<NewestKeyframe>, adjusted: bool) -> TrackerModel {
        match newest {
            None => self,
            Some(kf) => TrackerModel {
                state: SystemState {
                    pose_world_to_cam: if adjusted {
                        kf.pose_world_to_cam
                    } else {
                        self.state.pose_world_to_cam
                    },
                    velocity_world: if self.inertial is Some {
                        kf.velocity_world
                    } else {
                        self.state.velocity_world
                    },
                    ..self.state
                },
                inertial: match self.inertial {
                    Some(i) => Some(InertialModel { bias: kf.imu_bias, ..i }),
                    None => None,
                },
                ..self
            },
        }
    }

    /// The tracker with an attempt to initialize counted.
    pub open spec fn attempted(self) -> TrackerModel {
        let i = self.inertial->0;
        self.with_inertial(
            InertialModel {
                stats: InertialStats {
                    init_attempts: (i.stats.init_attempts + 1) as u64,
                    ..i.stats
                },
                ..i
            },
        )
    }

    /// The tracker after it was seen whether the window is ready.
    pub open spec fn readiness_seen(self, ready: bool, now_sec: Double, since_log: Double)
        -> TrackerModel {
        let i = self.inertial->0;
        let logged = if log_due(i.last_window_log, since_log, ready, i.cfg.init_retry) {
            InertialModel {
                last_window_log: Some(LogMark { at: now_sec, verdict: ready }),
                ..i
            }
        } else {
            i
        };
        if ready {
            self.with_inertial(
                InertialModel { last_init_attempt_sec: Some(now_sec), ..logged },
            ).attempted()
        } else {
            self.with_inertial(logged)
        }
    }

    /// The tracker after a solve: an accepted one is taken in, and a refinement is done with
    /// whether it was accepted or not.
    pub open spec fn init_concluded(
        self,
        stage: InitStage,
        solved: Option<SolvedInit>,
        now_sec: Double,
    ) -> TrackerModel {
        match solved {
            Some(s) => self.init_accepted(s, now_sec),
            None => self,
        }.stage_done(stage)
    }
}

/// Room for a whole batch is room for whatever part of it is accepted.
pub proof fn lemma_count_leaves_room(
    m: TrackerModel,
    samples: Seq<RawImuSample>,
    dropped_cumulative: u64,
    aligned: bool,
)
    requires
        m.can_count(samples.len()),
    ensures
        m.can_feed(samples, dropped_cumulative, aligned),
{
    if let Some(i) = m.inertial {
        crate::imu::lemma_advancing(last_stamp(i.buffer.samples), samples);
    }
}

impl Tracker {
    /// Hands raw samples to the inertial path, with the producer's cumulative drop count. Refused
    /// where there is no such path, and where the samples were already turned into the camera's
    /// frame, which the configured extrinsic would do once more.
    pub fn push_raw_imu(
        &mut self,
        samples: &[RawImuSample],
        dropped_cumulative: u64,
        aligned: bool,
    ) -> (r: Result<usize, VioError>)
        requires
            old(self)@.wf(),
            old(self)@.can_feed(samples@, dropped_cumulative, aligned),
        ensures
            final(self)@.wf(),
            r is Ok <==> old(self).inertial is Some && !aligned,
            r matches Err(e) ==> final(self)@ == old(self)@ && e == if old(self).inertial is None {
                VioError::InertialDisabled
            } else {
                VioError::InertialSamplesAligned
            },
            r matches Ok(n) ==> final(self)@ == old(self)@.fed(samples@, dropped_cumulative) && n
                == advancing(last_stamp(old(self)@.inertial->0.buffer.samples), samples@).len(),
    {
        match &mut self.inertial {
            None => Err(VioError::InertialDisabled),
            Some(inert) => {
                if aligned {
                    Err(VioError::InertialSamplesAligned)
                } else {
                    Ok(inert.buffer.push(samples, dropped_cumulative))
                }
            },
        }
    }

    /// Hands a payload's samples to the inertial path, as [`Tracker::push_raw_imu`].
    pub fn push_imu(
        &mut self,
        samples: &[ImuSample],
        dropped_cumulative: u64,
        aligned: bool,
    ) -> (r: Result<usize, VioError>)
        requires
            old(self)@.wf(),
            old(self)@.can_feed(unpacked_all(samples@), dropped_cumulative, aligned),
        ensures
            final(self)@.wf(),
            r is Ok <==> old(self).inertial is Some && !aligned,
            r matches Err(e) ==> final(self)@ == old(self)@ && e == if old(self).inertial is None {
                VioError::InertialDisabled
            } else {
                VioError::InertialSamplesAligned
            },
            r matches Ok(n) ==> final(self)@ == old(self)@.fed(
                unpacked_all(samples@),
                dropped_cumulative,
            ) && n == advancing(
                last_stamp(old(self)@.inertial->0.buffer.samples),
                unpacked_all(samples@),
            ).len(),
    {
        let raw: Vec<RawImuSample> = unpack_samples(samples);
        self.push_raw_imu(raw.as_slice(), dropped_cumulative, aligned)
    }

    /// The samples of the edge from the previous keyframe to this one, where they cover it; a
    /// refused interval is counted under its reason, and the keyframe pair stays visual.
    pub fn edge_window(&mut self, prev_stamp_ns: u64, stamp_ns: u64, coverage_count: usize) -> (r:
        Option<Vec<RawImuSample>>)
        requires
            old(self)@.wf(),
            old(self)@.can_count_edge(),
        ensures
            final(self)@.wf(),
            match old(self)@.inertial {
                None => r is None && final(self)@ == old(self)@,
                Some(_) => match old(self)@.edge_interval(prev_stamp_ns, stamp_ns, coverage_count) {
                    Ok(w) => r is Some && r->0@ == w && final(self)@ == old(self)@,
                    Err(e) => r is None && final(self)@ == old(self)@.refused(e),
                },
            },
    {
        match &mut self.inertial {
            None => None,
            Some(inert) => {
                match inert.buffer.window(prev_stamp_ns, stamp_ns, &inert.cfg.gates, coverage_count) {
                    Ok(w) => Some(w),
                    Err(error) => {
                        match error {
                            ImuWindowError::DroppedSamples { .. } => {
                                inert.stats.refused_dropped += 1;
                            },
                            ImuWindowError::Gap { .. } => {
                                inert.stats.refused_gap += 1;
                            },
                            ImuWindowError::TooFewSamples { .. } => {
                                inert.stats.refused_too_few += 1;
                            },
                            ImuWindowError::NoSamples { .. } => {
                                inert.stats.refused_no_samples += 1;
                            },
                            ImuWindowError::NonPositiveInterval { .. } => {
                                inert.stats.refused_bad_interval += 1;
                            },
                        }
                        None
                    },
                }
            },
        }
    }

    /// Decides on an integrated edge: one that spans a positive time becomes a factor, any other is
    /// counted and left out, since a factor that spans none claims with full confidence that
    /// nothing moved.
    pub fn edge_integrated(&mut self, dt: Double) -> (r: bool)
        requires
            old(self)@.wf(),
            old(self)@.can_count_edge(),
            old(self).inertial is Some,
        ensures
            final(self)@.wf(),
            r == Double::zero_spec().lt_spec(dt),
            final(self)@ == old(self)@.integrated(dt),
    {
        let forward = Double { bits: 0 }.lt(dt);
        match &mut self.inertial {
            None => {},
            Some(inert) => {
                if forward {
                    inert.stats.factors_added += 1;
                } else {
                    inert.stats.refused_zero_dt += 1;
                }
            },
        }
        forward
    }

    /// Forgets the samples before a keyframe, which no later edge can ask for.
    pub fn prune_samples(&mut self, stamp_ns: u64)
        requires
            old(self)@.wf(),
        ensures
            final(self)@.wf(),
            final(self)@ == old(self)@.pruned(stamp_ns),
    {
        match &mut self.inertial {
            None => {},
            Some(inert) => {
                inert.buffer.prune_before(stamp_ns);
            },
        }
    }

    /// What the initializer is to do after a keyframe; a refinement is counted as an attempt.
    /// `since_attempt` and `since_window` are the seconds since the last attempt and since the
    /// window began.
    pub fn run_inertial_init(&mut self, since_attempt: Double, since_window: Double) -> (r: InitStep)
        requires
            old(self)@.wf(),
            old(self)@.can_count_edge(),
        ensures
            final(self)@.wf(),
            r == old(self)@.init_step(since_attempt, since_window),
            final(self)@ == if r is Refine {
                old(self)@.attempted()
            } else {
                old(self)@
            },
    {
        let initialized = self.state.imu_initialized;
        match &mut self.inertial {
            None => InitStep::Idle,
            Some(inert) => {
                let start_kf_idx: usize = match inert.start_kf_idx {
                    Some(idx) => idx,
                    None => {
                        return InitStep::Idle;
                    },
                };
                if !initialized {
                    if inert.dry_run_accepted {
                        return InitStep::Idle;
                    }
                    if inert.last_init_attempt_sec.is_some() && since_attempt.lt(
                        inert.cfg.init_retry,
                    ) {
                        return InitStep::Idle;
                    }
                    return InitStep::CheckReadiness { start_kf_idx };
                }
                let over = Double { bits: REFINE_UNTIL_BITS }.le(since_window);
                let first_due = Double { bits: REFINE_1_AFTER_BITS }.lt(since_window);
                let second_due = Double { bits: REFINE_2_AFTER_BITS }.lt(since_window);
                if inert.window_start_sec.is_none() || over {
                    return InitStep::Idle;
                }
                let stage = if !inert.stats.first_refinement_done && first_due {
                    InitStage::Refine1
                } else if inert.stats.first_refinement_done && !inert.stats.second_refinement_done
                    && second_due {
                    InitStage::Refine2
                } else {
                    return InitStep::Idle;
                };
                inert.stats.init_attempts += 1;
                InitStep::Refine { start_kf_idx, stage }
            },
        }
    }

    /// Decides on a window whose readiness was looked at: a ready one is solved, and the look is
    /// reported when the verdict changes or the last report is old enough. `since_log` is the
    /// seconds since that report.
    pub fn init_readiness(&mut self, ready: bool, now_sec: Double, since_log: Double) -> (r:
        Readiness)
        requires
            old(self)@.wf(),
            old(self)@.can_count_edge(),
            old(self).inertial is Some,
        ensures
            final(self)@.wf(),
            r.solve == ready,
            r.report == log_due(
                old(self)@.inertial->0.last_window_log,
                since_log,
                ready,
                old(self)@.inertial->0.cfg.init_retry,
            ),
            final(self)@ == old(self)@.readiness_seen(ready, now_sec, since_log),
    {
        let mut report = false;
        match &mut self.inertial {
            None => {},
            Some(inert) => {
                if should_log_throttled(
                    inert.last_window_log,
                    since_log,
                    ready,
                    inert.cfg.init_retry,
                ) {
                    inert.last_window_log = Some(LogMark { at: now_sec, verdict: ready });
                    report = true;
                }
                if ready {
                    inert.last_init_attempt_sec = Some(now_sec);
                    inert.stats.init_attempts += 1;
                }
            },
        }
        Readiness { report, solve: ready }
    }

    /// Whether an accepted solve is to be applied to the map; otherwise it is only counted.
    pub fn applies_inertial_init(&self) -> (r: bool)
        ensures
            r == (self.inertial is Some && self.inertial->0.cfg.enable_inertial_ba),
    {
        match &self.inertial {
            Some(inert) => inert.cfg.enable_inertial_ba,
            None => false,
        }
    }

    /// Takes the outcome of a solve in. An accepted one moves the tracker into a new world turned
    /// onto gravity, where the inertial path may move a pose; where it may not, nothing but the
    /// count changes, and no further solve is tried. A refinement is not repeated.
    pub fn accept_inertial_init(
        &mut self,
        stage: InitStage,
        solved: Option<SolvedInit>,
        now_sec: Double,
    )
        requires
            old(self)@.wf(),
            old(self)@.can_count_edge(),
            old(self).inertial is Some,
            old(self).world_generation < u64::MAX,
        ensures
            final(self)@.wf(),
            final(self)@ == old(self)@.init_concluded(stage, solved, now_sec),
    {
        let applies = self.applies_inertial_init();
        match &mut self.inertial {
            None => {},
            Some(inert) => {
                match solved {
                    Some(s) => {
                        inert.stats.init_accepted += 1;
                        if applies {
                            inert.bias = s.bias;
                            inert.gravity_world = s.gravity_world;
                        } else {
                            inert.dry_run_accepted = true;
                        }
                    },
                    None => {},
                }
                match stage {
                    InitStage::Initial => {},
                    InitStage::Refine1 => {
                        inert.stats.first_refinement_done = true;
                    },
                    InitStage::Refine2 => {
                        inert.stats.second_refinement_done = true;
                    },
                }
            },
        }
        match solved {
            Some(s) => {
                if applies {
                    match s.aligned {
                        Some(a) => {
                            self.state.pose_world_to_cam = a.pose_world_to_cam;
                            self.state.velocity_world = a.velocity_world;
                        },
                        None => {},
                    }
                    self.state.velocity = None;
                    self.state.imu_initialized = true;
                    self.state.imu_init_timestamp_sec = Some(now_sec);
                    self.world_generation += 1;
                }
            },
            None => {},
        }
    }

    /// How the map is to be adjusted after an insertion: with the inertial factors once the path is
    /// initialized and may move a pose, and not at all while the map is too small.
    pub fn local_ba_plan(&self, keyframes: usize) -> (r: BaPlan)
        ensures
            r == self@.ba_plan(keyframes),
    {
        if !self.config.enable_local_ba || keyframes <= BA_ACTIVE_KEYFRAMES {
            return BaPlan::Skip;
        }
        match &self.inertial {
            Some(inert) => {
                if self.state.imu_initialized && inert.cfg.enable_inertial_ba {
                    return BaPlan::Inertial {
                        imu_t_bc: inert.cfg.imu_t_bc,
                        gravity_world: inert.gravity_world,
                    };
                }
            },
            None => {},
        }
        BaPlan::Visual
    }

    /// Reads the newest keyframe back after the map was adjusted: its pose if it was, and its bias
    /// and velocity where there is an inertial path.
    pub fn sync_newest_keyframe(&mut self, newest: Option<NewestKeyframe>, adjusted: bool)
        requires
            old(self)@.wf(),
        ensures
            final(self)@.wf(),
            final(self)@ == old(self)@.synced(newest, adjusted),
    {
        match newest {
            None => {},
            Some(kf) => {
                if adjusted {
                    self.state.pose_world_to_cam = kf.pose_world_to_cam;
                }
                match &mut self.inertial {
                    None => {},
                    Some(inert) => {
                        inert.bias = kf.imu_bias;
                        self.state.velocity_world = kf.velocity_world;
                    },
                }
            },
        }
    }

    /// What the inertial path has done and refused, with what the map retains; `None` without such
    /// a path.
    pub fn inertial_stats(&self, retained_factors: usize, retained_samples: usize) -> (r: Option<
        InertialStats,
    >)
        ensures
            r == self@.inertial_report(retained_factors, retained_samples),
    {
        match &self.inertial {
            None => None,
            Some(inert) => Some(
                InertialStats {
                    buffer: inert.buffer.stats(),
                    initialized: self.state.imu_initialized,
                    retained_factors,
                    retained_samples,
                    ..inert.stats
                },
            ),
        }
    }
}

/// The positions of an initialization window among the first `n` keyframe indices: those from its
/// first keyframe on, in order.
pub open spec fn window_upto(indices: Seq<usize>, start_kf_idx: usize, n: int) -> Seq<usize>
    decreases n,
{
    if n <= 0 {
        Seq::empty()
    } else {
        let rest = window_upto(indices, start_kf_idx, n - 1);
        if indices[n - 1] >= start_kf_idx {
            rest.push((n - 1) as usize)
        } else {
            rest
        }
    }
}

/// Which of these belong to the initialization window that starts at a keyframe: of keyframes, by
/// their index; of edges, by the index of the later keyframe.
pub fn in_init_window(indices: &Vec<usize>, start_kf_idx: usize) -> (r: Vec<usize>)
    ensures
        r@ == window_upto(indices@, start_kf_idx, indices@.len() as int),
{
    let mut r: Vec<usize> = Vec::new();
    let mut i: usize = 0;
    while i < indices.len()
        invariant
            i <= indices@.len(),
            r@ == window_upto(indices@, start_kf_idx, i as int),
        decreases indices@.len() - i,
    {
        if indices[i] >= start_kf_idx {
            r.push(i);
        }
        i += 1;
    }
    r
}

} // verus!
