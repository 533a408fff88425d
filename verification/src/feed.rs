//! The inline sink that moves inertial batches from the graph onto the queue.
use crate::config::{
    all_known, deny_unknown_keys, in_byte_order, is_known, texts, unknown_among, ConfigError,
};
use crate::imu_channel::ImuQueue;
use crate::payload::{unpacked_all, ImuBatch};
use vstd::prelude::*;

verus! {

/// The name the sink goes by in messages about its configuration.
pub const FEED_NAME: &'static str = "cufx_vio::ImuFeed";

/// Pushes every batch it receives into the queue. Holds no state of its own.
#[derive(Debug)]
pub struct ImuFeed<const N: usize> {}

impl<const N: usize> ImuFeed<N> {
    /// A sink for a configuration's keys. It reads none, so any key is a mistake.
    pub fn new(keys: Option<&Vec<String>>) -> (r: Result<ImuFeed<N>, ConfigError>)
        ensures
            r is Ok <==> keys is None || keys->0@.len() == 0,
            r matches Err(e) ==> {
                &&& e is UnknownKeys
                &&& e->UnknownKeys_task == FEED_NAME
                &&& e->UnknownKeys_known@.len() == 0
                &&& in_byte_order(texts(e->UnknownKeys_unknown@))
                &&& texts(e->UnknownKeys_unknown@).to_multiset() == texts(keys->0@).to_multiset()
            },
    {
        let known: Vec<&'static str> = Vec::new();
        let ghost given = texts(keys->0@);
        proof {
            lemma_none_known(given, known@);
        }
        match deny_unknown_keys(keys, FEED_NAME, known.as_slice()) {
            Ok(()) => Ok(ImuFeed {  }),
            Err(e) => Err(e),
        }
    }

    /// Moves a message's batch onto the queue; a message without one moves nothing.
    pub fn process(batch: Option<&ImuBatch<N>>, queue: &mut ImuQueue)
        requires
            old(queue)@.wf(),
            batch matches Some(b) ==> old(queue)@.can_push(b@.samples.len()),
        ensures
            final(queue)@.wf(),
            final(queue)@ == match batch {
                Some(b) => old(queue)@.pushed(unpacked_all(b@.samples), b@.dropped, b@.camera_aligned),
                None => old(queue)@,
            },
    {
        match batch {
            Some(b) => {
                queue.push(b.samples(), b.dropped, b.camera_aligned);
            },
            None => {},
        }
    }
}

proof fn lemma_none_known(keys: Seq<Seq<char>>, known: Seq<&'static str>)
    requires
        known.len() == 0,
    ensures
        unknown_among(keys, known) == keys,
        all_known(keys, known) <==> keys.len() == 0,
    decreases keys.len(),
{
    reveal(Seq::filter);
    if keys.len() > 0 {
        lemma_none_known(keys.drop_last(), known);
        assert(!is_known(known, keys[0]));
        assert(!is_known(known, keys.last()));
        assert(keys.drop_last().push(keys.last()) =~= keys);
    }
}

} // verus!
