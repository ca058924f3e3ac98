use crate::client::CycleError;
use crate::jail_map::JailMap;
use crate::merge::{merge, merged};
use crate::model::{entities_view, plugins_view, Entity, Plugin};
use crate::snapshot::Snapshot;
use vstd::prelude::*;

verus! {

/// Seconds between the starts of two poll cycles, whatever the outcome.
pub const POLL_INTERVAL_SECS: u64 = 30;

/// What a poll cycle publishes: the merge of the jails and plugins it
/// fetched, or the first error met, in which case nothing is published.
pub fn cycle_result(
    entities: Result<Vec<Entity>, CycleError>,
    plugins: Result<Vec<Plugin>, CycleError>,
) -> (r: Result<JailMap, CycleError>)
    ensures
        entities matches Err(e) ==> r == Err::<JailMap, CycleError>(e),
        entities is Ok ==> (plugins matches Err(e) ==> r == Err::<JailMap, CycleError>(e)),
        entities matches Ok(es) ==> (plugins matches Ok(ps) ==> (r matches Ok(m) && m.wf() && m@
            == merged(entities_view(es@), plugins_view(ps@)))),
{
    match entities {
        Err(e) => Err(e),
        Ok(es) => match plugins {
            Err(e) => Err(e),
            Ok(ps) => Ok(merge(&es, &ps)),
        },
    }
}

/// One poll cycle after its fetches: publishes the new map when both fetches
/// succeeded, and otherwise leaves the published map as it is and reports
/// the first error.
pub fn run_cycle(
    snapshot: &Snapshot,
    entities: Result<Vec<Entity>, CycleError>,
    plugins: Result<Vec<Plugin>, CycleError>,
) -> (r: Result<(), CycleError>)
    ensures
        r is Ok <==> (entities is Ok && plugins is Ok),
        entities matches Err(e) ==> r == Err::<(), CycleError>(e),
        entities is Ok ==> (plugins matches Err(e) ==> r == Err::<(), CycleError>(e)),
{
    match cycle_result(entities, plugins) {
        Ok(m) => {
            snapshot.replace(m);
            Ok(())
        },
        Err(e) => Err(e),
    }
}

} // verus!
