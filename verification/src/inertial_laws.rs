//! What the inertial edges and the initialization make of the tracker.
use crate::ieee::Double;
use crate::inertial::InertialStats;
use crate::run::{Job, Phase, Report, RunModel};
use crate::state::{InertialModel, InitStage, SystemState};
use crate::track::{SolvedInit, TrackerModel};
use vstd::prelude::*;

verus! {

/// An edge is integrated over exactly the samples its window is granted. A window that is refused
/// is counted under its own reason and under no other, no edge is added, and the samples before
/// the keyframe are forgotten.
pub proof fn an_edge_is_integrated_over_its_window(
    m: TrackerModel,
    run: RunModel,
    coverage_count: usize,
)
    requires
        run.phase is EdgeCoverage,
        m.inertial is Some,
        m.can_count_edge(),
    ensures
        ({
            let next = m.advanced(run, Report::Coverage(coverage_count));
            let n = next.tracker;
            let i = m.inertial->0;
            let j = n.inertial->0;
            let prev_idx = run.phase->EdgeCoverage_prev_idx;
            let prev_stamp_ns = run.phase->EdgeCoverage_prev_stamp_ns;
            let window = i.buffer.window(prev_stamp_ns, run.stamp_ns, i.cfg.gates, coverage_count);
            let one = |b: bool| if b { 1int } else { 0int };
            &&& window is Ok ==> {
                &&& n == m
                &&& next.run.samples == window->Ok_0
                &&& next.job == (Job::Integrate { prev_idx, prev_stamp_ns })
                &&& next.run.phase == (Phase::Integrating { prev_idx })
            }
            &&& window is Err ==> {
                let e = window->Err_0;
                &&& next.job == Job::MeasureInit
                &&& next.run.phase is TimingInit
                &&& n == (TrackerModel { inertial: n.inertial, ..m })
                &&& j.stats.refused_dropped == i.stats.refused_dropped + one(
                    e is DroppedSamples,
                )
                &&& j.stats.refused_gap == i.stats.refused_gap + one(e is Gap)
                &&& j.stats.refused_too_few == i.stats.refused_too_few + one(e is TooFewSamples)
                &&& j.stats.refused_no_samples == i.stats.refused_no_samples + one(e is NoSamples)
                &&& j.stats.refused_bad_interval == i.stats.refused_bad_interval + one(
                    e is NonPositiveInterval,
                )
                &&& j.stats.refused_zero_dt == i.stats.refused_zero_dt
                &&& j.stats.factors_added == i.stats.factors_added
                &&& j.stats.init_attempts == i.stats.init_attempts
                &&& j.stats.init_accepted == i.stats.init_accepted
                &&& j.buffer == i.buffer.pruned(run.stamp_ns)
                &&& j.bias == i.bias
                &&& j.gravity_world == i.gravity_world
                &&& n.state == m.state
                &&& n.world_generation == m.world_generation
            }
        }),
{
    reveal(TrackerModel::after_coverage);
}

/// An integrated edge that spans a positive time is added, from the keyframe it began at; one that
/// spans none is counted as refused instead, and the samples before the keyframe are forgotten.
pub proof fn only_an_edge_that_spans_time_is_added(m: TrackerModel, run: RunModel, dt: Double)
    requires
        run.phase is Integrating,
        m.inertial is Some,
        m.can_count_edge(),
    ensures
        ({
            let next = m.advanced(run, Report::Integrated(dt));
            let n = next.tracker;
            let i = m.inertial->0;
            let j = n.inertial->0;
            let forward = (Double { bits: 0 }).lt_spec(dt);
            &&& n == (TrackerModel { inertial: n.inertial, ..m })
            &&& n.inertial is Some
            &&& forward ==> {
                &&& j.stats.factors_added == i.stats.factors_added + 1
                &&& j.stats.refusals() == i.stats.refusals()
                &&& next.job == (Job::AddFactor { prev_idx: run.phase->Integrating_prev_idx })
                &&& next.run.phase is AddingFactor
                &&& j.buffer == i.buffer
            }
            &&& !forward ==> {
                &&& j.stats.factors_added == i.stats.factors_added
                &&& j.stats.refused_zero_dt == i.stats.refused_zero_dt + 1
                &&& j.stats.refusals() == i.stats.refusals() + 1
                &&& next.job == Job::MeasureInit
                &&& j.buffer == i.buffer.pruned(run.stamp_ns)
            }
            &&& j.bias == i.bias
            &&& j.gravity_world == i.gravity_world
            &&& n.state == m.state
            &&& n.stats == m.stats
            &&& n.world_generation == m.world_generation
        }),
{
    reveal(TrackerModel::after_integrated);
}

/// Once an edge is in the map, the samples before its keyframe are forgotten, and the initialization
/// is looked at.
pub proof fn an_added_edge_frees_its_samples(m: TrackerModel, run: RunModel)
    requires
        run.phase is AddingFactor,
        m.inertial is Some,
    ensures
        ({
            let next = m.advanced(run, Report::Finished);
            &&& next.job == Job::MeasureInit
            &&& next.tracker.inertial->0.buffer == m.inertial->0.buffer.pruned(run.stamp_ns)
            &&& next.tracker.inertial->0.stats == m.inertial->0.stats
            &&& next.tracker.inertial->0.bias == m.inertial->0.bias
            &&& next.tracker.state == m.state
        }),
{
    reveal(TrackerModel::after_finished);
}

/// What comes of timing the initialization: nothing without a window; before it has succeeded a
/// look at the window, except after a solve that was accepted and not applied and within the retry
/// interval of the last attempt; afterwards the first refinement from five seconds on and the
/// second from fifteen, each once, and none from fifty on.
pub proof fn an_initialization_is_tried_when_due(
    m: TrackerModel,
    run: RunModel,
    since_attempt: Double,
    since_window: Double,
)
    requires
        run.phase is TimingInit,
        m.inertial is Some,
        m.inertial->0.stats.init_attempts < u64::MAX,
    ensures
        ({
            let next = m.advanced(run, Report::InitElapsed { since_attempt, since_window });
            let n = next.tracker;
            let i = m.inertial->0;
            let j = n.inertial->0;
            let kf = i.start_kf_idx;
            let waits = i.dry_run_accepted || (i.last_init_attempt_sec is Some
                && since_attempt.lt_spec(i.cfg.init_retry));
            let open = i.window_start_sec is Some && !(Double {
                bits: 0x4049_0000_0000_0000,
            }).le_spec(since_window);
            let first = open && !i.stats.first_refinement_done && (Double {
                bits: 0x4014_0000_0000_0000,
            }).lt_spec(since_window);
            let second = open && i.stats.first_refinement_done && !i.stats.second_refinement_done
                && (Double { bits: 0x402e_0000_0000_0000 }).lt_spec(since_window);
            let looks = kf is Some && !m.state.imu_initialized && !waits;
            let refines = kf is Some && m.state.imu_initialized && (first || second);
            &&& looks ==> n == m && next.job == (Job::CheckReadiness { start_kf_idx: kf->0 })
                && next.run.phase == (Phase::CheckingReadiness { start_kf_idx: kf->0 })
            &&& refines ==> {
                let stage = if first {
                    InitStage::Refine1
                } else {
                    InitStage::Refine2
                };
                &&& next.job == (Job::Solve {
                    start_kf_idx: kf->0,
                    stage,
                    apply: i.cfg.enable_inertial_ba,
                })
                &&& next.run.phase == (Phase::Solving { stage })
                &&& n == (TrackerModel { inertial: n.inertial, ..m })
                &&& j == (InertialModel { stats: j.stats, ..i })
                &&& j.stats == (InertialStats { init_attempts: j.stats.init_attempts, ..i.stats })
                &&& j.stats.init_attempts == i.stats.init_attempts + 1
                &&& j.stats.init_accepted == i.stats.init_accepted
                &&& j.bias == i.bias
                &&& j.buffer == i.buffer
                &&& n.state == m.state
            }
            &&& !looks && !refines ==> n == m && next.job == Job::Fuse && next.run.phase is Fusing
        }),
{
    reveal(TrackerModel::after_init_elapsed);
}

/// A window that is ready is an attempt, at the frame's own time, and is solved; one that is not is
/// passed over. A look is reported first where it is the first, where its verdict is new, or where
/// the retry interval has passed since the last report.
pub proof fn a_ready_window_is_solved(
    m: TrackerModel,
    run: RunModel,
    ready: bool,
    since_log: Double,
)
    requires
        run.phase is CheckingReadiness,
        m.inertial is Some,
        m.inertial->0.stats.init_attempts < u64::MAX,
    ensures
        ({
            let next = m.advanced(run, Report::Ready { ready, since_log });
            let n = next.tracker;
            let i = m.inertial->0;
            let j = n.inertial->0;
            let kf = run.phase->CheckingReadiness_start_kf_idx;
            let due = i.last_window_log is None || i.last_window_log->0.verdict != ready
                || i.cfg.init_retry.le_spec(since_log);
            &&& n == (TrackerModel { inertial: n.inertial, ..m })
            &&& j == (InertialModel {
                last_window_log: j.last_window_log,
                last_init_attempt_sec: j.last_init_attempt_sec,
                stats: j.stats,
                ..i
            })
            &&& j.stats == (InertialStats { init_attempts: j.stats.init_attempts, ..i.stats })
            &&& ready ==> j.stats.init_attempts == i.stats.init_attempts + 1
                && j.last_init_attempt_sec == Some(run.timestamp_sec)
            &&& !ready ==> j.stats.init_attempts == i.stats.init_attempts
                && j.last_init_attempt_sec == i.last_init_attempt_sec
            &&& due ==> {
                &&& j.last_window_log is Some
                &&& j.last_window_log->0.at == run.timestamp_sec
                &&& j.last_window_log->0.verdict == ready
                &&& next.job == (Job::DescribeWindow { start_kf_idx: kf, ready })
                &&& next.run.phase == (Phase::Describing { start_kf_idx: kf, ready })
            }
            &&& !due ==> {
                &&& j.last_window_log == i.last_window_log
                &&& ready ==> next.job == (Job::Solve {
                    start_kf_idx: kf,
                    stage: InitStage::Initial,
                    apply: i.cfg.enable_inertial_ba,
                }) && next.run.phase == (Phase::Solving { stage: InitStage::Initial })
                &&& !ready ==> next.job == Job::Fuse && next.run.phase is Fusing
            }
            &&& j.bias == i.bias
            &&& j.buffer == i.buffer
            &&& j.start_kf_idx == i.start_kf_idx
            &&& n.state == m.state
            &&& n.world_generation == m.world_generation
        }),
{
    reveal(TrackerModel::after_ready);
}

/// A window that was reported on is solved if it was ready, and passed over if not.
pub proof fn a_described_window_goes_on(m: TrackerModel, run: RunModel)
    requires
        run.phase is Describing,
        m.inertial is Some,
    ensures
        ({
            let next = m.advanced(run, Report::Finished);
            let kf = run.phase->Describing_start_kf_idx;
            &&& next.tracker == m
            &&& run.phase->Describing_ready ==> next.job == (Job::Solve {
                start_kf_idx: kf,
                stage: InitStage::Initial,
                apply: m.inertial->0.cfg.enable_inertial_ba,
            }) && next.run.phase == (Phase::Solving { stage: InitStage::Initial })
            &&& !run.phase->Describing_ready ==> next.job == Job::Fuse && next.run.phase is Fusing
        }),
{
    reveal(TrackerModel::after_finished);
}

/// A solve is followed by fusing, whatever came of it. An accepted one is counted; where it applies,
/// the tracker holds its bias, its gravity and, where the newest keyframe gives one, the turned pose
/// and velocity, is initialized as of now in one new world, and forgets its motion model. Where it
/// does not apply, and where none was accepted, the tracker stays where it is. A refinement is
/// marked as done either way.
pub proof fn a_solve_is_applied_as_solved(
    m: TrackerModel,
    run: RunModel,
    solved: Option<SolvedInit>,
)
    requires
        run.phase is Solving,
        m.inertial is Some,
        m.inertial->0.stats.init_accepted < u64::MAX,
        m.world_generation < u64::MAX,
    ensures
        ({
            let next = m.advanced(run, Report::Solved(solved));
            let n = next.tracker;
            let i = m.inertial->0;
            let j = n.inertial->0;
            let stage = run.phase->Solving_stage;
            &&& next.job == Job::Fuse
            &&& next.run.phase is Fusing
            &&& n == (TrackerModel {
                state: n.state,
                world_generation: n.world_generation,
                inertial: n.inertial,
                ..m
            })
            &&& n.state == (SystemState {
                pose_world_to_cam: n.state.pose_world_to_cam,
                velocity: n.state.velocity,
                velocity_world: n.state.velocity_world,
                imu_initialized: n.state.imu_initialized,
                imu_init_timestamp_sec: n.state.imu_init_timestamp_sec,
                ..m.state
            })
            &&& j == (InertialModel {
                bias: j.bias,
                gravity_world: j.gravity_world,
                dry_run_accepted: j.dry_run_accepted,
                stats: j.stats,
                ..i
            })
            &&& j.stats == (InertialStats {
                init_accepted: j.stats.init_accepted,
                first_refinement_done: j.stats.first_refinement_done,
                second_refinement_done: j.stats.second_refinement_done,
                ..i.stats
            })
            &&& j.stats.first_refinement_done == (i.stats.first_refinement_done || stage
                == InitStage::Refine1)
            &&& j.stats.second_refinement_done == (i.stats.second_refinement_done || stage
                == InitStage::Refine2)
            &&& j.stats.init_attempts == i.stats.init_attempts
            &&& j.buffer == i.buffer
            &&& j.start_kf_idx == i.start_kf_idx
            &&& j.window_start_sec == i.window_start_sec
            &&& n.stats == m.stats
            &&& n.state.mode == m.state.mode
            &&& n.state.last_keyframe_idx == m.state.last_keyframe_idx
            &&& solved is None ==> n.state == m.state && n.world_generation == m.world_generation
                && j.bias == i.bias && j.gravity_world == i.gravity_world && j.stats.init_accepted
                == i.stats.init_accepted && j.dry_run_accepted == i.dry_run_accepted
            &&& solved matches Some(s) ==> {
                &&& j.stats.init_accepted == i.stats.init_accepted + 1
                &&& !i.cfg.enable_inertial_ba ==> n.state == m.state && n.world_generation
                    == m.world_generation && j.bias == i.bias && j.gravity_world
                    == i.gravity_world && j.dry_run_accepted
                &&& i.cfg.enable_inertial_ba ==> {
                    &&& n.world_generation == m.world_generation + 1
                    &&& n.state.imu_initialized
                    &&& n.state.imu_init_timestamp_sec == Some(run.timestamp_sec)
                    &&& n.state.velocity is None
                    &&& j.bias == s.bias
                    &&& j.gravity_world == s.gravity_world
                    &&& j.dry_run_accepted == i.dry_run_accepted
                    &&& s.aligned matches Some(a) ==> n.state.pose_world_to_cam
                        == a.pose_world_to_cam && n.state.velocity_world == a.velocity_world
                    &&& s.aligned is None ==> n.state.pose_world_to_cam
                        == m.state.pose_world_to_cam && n.state.velocity_world
                        == m.state.velocity_world
                }
            }
        }),
{
    reveal(TrackerModel::after_solved);
}

} // verus!
