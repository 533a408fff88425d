//! What driving the tracker from a graph can fail with.
use crate::error::VioError;
use crate::payload::PairFault;
use vstd::prelude::*;

verus! {

/// One eye of a stereo pair.
#[derive(Clone, Copy, Debug, PartialEq, Eq, Structural)]
pub enum Eye {
    /// The left, reference eye.
    Left,
    /// The right eye.
    Right,
}

impl Eye {
    /// The eye's name.
    pub fn as_str(self) -> (r: &'static str)
        ensures
            r == match self {
                Eye::Left => "left",
                Eye::Right => "right",
            },
    {
        match self {
            Eye::Left => "left",
            Eye::Right => "right",
        }
    }
}

/// A failure while driving the tracker from a graph.
#[derive(Debug)]
pub enum TaskError {
    /// The tracker rejected a frame or its configuration.
    Vio(VioError),
    /// The pair is not a usable stereo pair.
    Pair(PairFault),
    /// An eye's size disagrees with the geometry the tracker was built for.
    FrameShape {
        /// Frame sequence number.
        seq: u64,
        /// Which eye.
        eye: Eye,
        /// Bytes present.
        got: usize,
        /// Bytes required.
        want: usize,
        /// Expected width.
        width: u32,
        /// Expected height.
        height: u32,
    },
    /// A frame's calibration differs from the first frame's, which the tracker was built from.
    CalibrationChanged {
        /// Frame sequence number.
        seq: u64,
    },
    /// The message carried no time of validity.
    Untimed {
        /// Frame sequence number.
        seq: u64,
    },
}

} // verus!
