//! Stereo visual-inertial odometry: everything the component decides, proved.
//!
//! What a driver hands in are plain values. Floating-point numbers come as their IEEE-754 bit
//! patterns ([`ieee`]); they are compared here, exactly, and computed with elsewhere. The layers:
//!
//! * [`track`], [`track_inertial`] and [`run`]: the tracker. [`run`] says which piece of work a
//!   frame needs next, and [`track`] what the tracker makes of its result: when a keyframe is due,
//!   what a tracking loss costs, when an inertial edge is refused, which initialization is tried.
//!   [`state`] holds what it carries from frame to frame.
//! * [`frame`], [`matching`], [`order`] and [`association`]: what the tracker does with keypoints,
//!   descriptors and map points: validation, nearest descriptors, who may claim which keypoint.
//! * [`imu`], [`inertial`]: the stamp-indexed sample ring, the coverage an interval must have before
//!   it may be integrated, and the configuration the inertial path refuses to run without.
//! * [`imu_channel`], [`feed`], [`reset`]: what reaches a tracker that runs in the background.
//! * [`task`], [`stereo_vio`], [`config`], [`stats`]: the task around the tracker: its settings, what
//!   it takes in, what it publishes, and what it reports when it stops.
//! * [`payload`], [`wire`], [`geometry`], [`pose`]: the messages, their bytes, and poses.
//!
//! What holds across several of these functions is stated in [`laws`] and [`run_laws`], and at the
//! end of the module it is about.
pub mod association;
pub mod association_laws;
pub mod config;
pub mod error;
pub mod feed;
pub mod frame;
pub mod geometry;
pub mod ieee;
pub mod imu;
pub mod imu_channel;
pub mod inertial;
pub mod inertial_laws;
pub mod keyframe_laws;
pub mod laws;
pub mod loss_laws;
pub mod matching;
pub mod number_laws;
pub mod order;
pub mod payload;
pub mod pose;
pub mod reset;
pub mod ring_laws;
pub mod run;
pub mod run_laws;
pub mod state;
pub mod stats;
pub mod step_laws;
pub mod stereo_vio;
pub mod task;
pub mod task_error;
pub mod task_laws;
pub mod track;
pub mod track_inertial;
pub mod wire;
pub mod wire_laws;

pub use config::OnTrackingLoss;
pub use error::VioError;
pub use feed::ImuFeed;
pub use imu::{ImuGates, ImuWindowError};
pub use imu_channel::ImuQueue;
pub use inertial::{InertialConfig, InertialStats};
pub use reset::ResetEpoch;
pub use stereo_vio::StereoVio;
pub use task::{DEFAULT_LANDMARK_BUFFERS, MAX_LANDMARKS, MAX_LANDMARK_BUFFERS};
pub use task_error::{Eye, TaskError};
pub use track::{TrackStatus, TrackedPose, Tracker, TrackerConfig, TrackerStats};
