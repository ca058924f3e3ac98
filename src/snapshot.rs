use crate::jail_map::JailMap;
use crate::merge::merged;
use crate::model::{EntityView, PluginView, RecordView};
use vstd::prelude::*;
use vstd::rwlock::{RwLock, RwLockPredicate};

verus! {

/// The map is the complete merge of one list of jails and one list of
/// plugins, that is the outcome of a single poll cycle.
pub open spec fn is_complete(m: Map<Seq<char>, RecordView>) -> bool {
    exists|es: Seq<EntityView>, ps: Seq<PluginView>| m == merged(es, ps)
}

/// What the snapshot's lock holds at every moment.
pub struct CompleteMap;

impl RwLockPredicate<JailMap> for CompleteMap {
    open spec fn inv(self, v: JailMap) -> bool {
        v.wf() && is_complete(v@)
    }
}

/// The map that readers see, shared between one writer and many readers.
/// A reader always gets a whole map that one writer stored; a writer swaps
/// the whole map under the exclusive lock.
pub struct Snapshot {
    lock: RwLock<JailMap, CompleteMap>,
}

impl Snapshot {
    /// A snapshot holding the empty map.
    pub fn new() -> (r: Snapshot) {
        let m = JailMap::new();
        proof {
            let es = Seq::<EntityView>::empty();
            let ps = Seq::<PluginView>::empty();
            assert(m@ =~= merged(es, ps));
        }
        Snapshot { lock: RwLock::new(m, Ghost(CompleteMap)) }
    }

    /// A copy of the map currently published.
    pub fn read(&self) -> (r: JailMap)
        ensures
            r.wf(),
            is_complete(r@),
    {
        let handle = self.lock.acquire_read();
        let r = handle.borrow().copy();
        handle.release_read();
        r
    }

    /// Publishes `m` in place of the current map, as one step.
    pub fn replace(&self, m: JailMap)
        requires
            m.wf(),
            is_complete(m@),
    {
        let (_previous, handle) = self.lock.acquire_write();
        handle.release_write(m);
    }
}

} // verus!
