//! Which frames were delivered already.

use crate::media::FrameKey;
use std::collections::HashMap;
use vstd::prelude::*;

verus! {

broadcast use vstd::std_specs::hash::group_hash_axioms;

/// The frames that were delivered. Frame number zero is not kept: it marks
/// frames without a sequence of their own.
#[derive(Debug)]
pub struct DeliveredFrames {
    by_id: HashMap<u64, Vec<FrameKey>>,
}

/// Some delivered frame has this key.
pub open spec fn is_replay(delivered: Set<FrameKey>, key: FrameKey) -> bool {
    key.frame_id > 0 && delivered.contains(key)
}

/// The delivered frames with one more.
pub open spec fn remembered(delivered: Set<FrameKey>, key: FrameKey) -> Set<FrameKey> {
    if key.frame_id > 0 {
        delivered.insert(key)
    } else {
        delivered
    }
}

impl View for DeliveredFrames {
    type V = Set<FrameKey>;

    closed spec fn view(&self) -> Set<FrameKey> {
        Set::new(
            |key: FrameKey|
                self.by_id@.contains_key(key.frame_id) && self.by_id@[key.frame_id]@.contains(key),
        )
    }
}

fn holds_key(keys: &Vec<FrameKey>, key: FrameKey) -> (result: bool)
    ensures
        result == keys@.contains(key),
{
    let mut index: usize = 0;
    while index < keys.len()
        invariant
            index <= keys@.len(),
            forall|i: int| 0 <= i < index ==> keys@[i] != key,
        decreases keys@.len() - index,
    {
        if keys[index] == key {
            assert(keys@[index as int] == key);
            return true;
        }
        index += 1;
    }
    false
}

impl DeliveredFrames {
    /// Nothing was delivered yet.
    pub fn new() -> (delivered: Self)
        ensures
            delivered@ == Set::<FrameKey>::empty(),
    {
        let delivered = DeliveredFrames { by_id: HashMap::new() };
        assert(delivered@ =~= Set::<FrameKey>::empty());
        delivered
    }

    /// Whether a datagram of this frame is a replay.
    pub fn is_replay(&self, key: FrameKey) -> (result: bool)
        ensures
            result == is_replay(self@, key),
    {
        if key.frame_id == 0 {
            return false;
        }
        match self.by_id.get(&key.frame_id) {
            Some(keys) => holds_key(keys, key),
            None => false,
        }
    }

    /// Keeps a frame that was delivered.
    pub fn remember(&mut self, key: FrameKey)
        ensures
            final(self)@ == remembered(old(self)@, key),
    {
        if key.frame_id == 0 {
            return;
        }
        let ghost before = self@;
        let ghost table = self.by_id@;
        let mut keys: Vec<FrameKey> = match self.by_id.remove(&key.frame_id) {
            Some(keys) => keys,
            None => Vec::new(),
        };
        let ghost known = keys@;
        keys.push(key);
        proof {
            assert(keys@ == known.push(key));
            assert forall|k: FrameKey| keys@.contains(k) <==> known.contains(k) || k == key by {
                if known.contains(k) {
                    let i = known.index_of(k);
                    assert(keys@[i] == k);
                }
                if keys@.contains(k) {
                    let i = keys@.index_of(k);
                    if i < known.len() {
                        assert(known[i] == k);
                    }
                }
                assert(keys@[known.len() as int] == key);
            }
        }
        let ghost longer = keys@;
        self.by_id.insert(key.frame_id, keys);
        proof {
            assert(self.by_id@.contains_key(key.frame_id));
            assert(self.by_id@[key.frame_id]@ == longer);
            assert forall|k: FrameKey| self@.contains(k) <==> before.insert(key).contains(k) by {
                if k.frame_id != key.frame_id {
                    assert(self.by_id@.contains_key(k.frame_id) == table.contains_key(k.frame_id));
                } else {
                    assert(longer.contains(k) <==> known.contains(k) || k == key);
                    assert(known.contains(k) <==> before.contains(k));
                }
            }
            assert(self@ =~= before.insert(key));
        }
    }
}

} // verus!
