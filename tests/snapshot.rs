use jail_dashboard::client::{CycleError, FetchError};
use jail_dashboard::document::ParseError;
use jail_dashboard::merge::merge;
use jail_dashboard::model::{Entity, Plugin};
use jail_dashboard::poller::{cycle_result, run_cycle, POLL_INTERVAL_SECS};
use jail_dashboard::snapshot::Snapshot;

fn entity(id: &str, address: &str) -> Entity {
    Entity::new(id.to_string(), address.to_string())
}

#[test]
fn snapshot_starts_empty() {
    let s = Snapshot::new();
    assert_eq!(s.read().len(), 0);
}

#[test]
fn replace_swaps_the_whole_map() {
    let s = Snapshot::new();
    s.replace(merge(&vec![entity("a", "1"), entity("b", "2")], &vec![]));
    s.replace(merge(&vec![entity("c", "3")], &vec![]));
    let m = s.read();
    assert_eq!(m.len(), 1);
    assert!(m.get("a").is_none());
    assert!(m.get("b").is_none());
    assert_eq!(m.get("c").unwrap().address, "3");
}

#[test]
fn failed_cycle_keeps_previous_snapshot() {
    let s = Snapshot::new();
    let ok = run_cycle(&s, Ok(vec![entity("a", "1")]), Ok(Vec::<Plugin>::new()));
    assert_eq!(ok, Ok(()));
    let failed = run_cycle(
        &s,
        Err(CycleError::Fetch(FetchError::Transport)),
        Ok(Vec::<Plugin>::new()),
    );
    assert_eq!(failed, Err(CycleError::Fetch(FetchError::Transport)));
    let m = s.read();
    assert_eq!(m.len(), 1);
    assert_eq!(m.get("a").unwrap().address, "1");
    let failed = run_cycle(
        &s,
        Ok(vec![entity("b", "2")]),
        Err(CycleError::Parse(ParseError::Malformed)),
    );
    assert_eq!(failed, Err(CycleError::Parse(ParseError::Malformed)));
    assert_eq!(s.read().get("a").unwrap().address, "1");
    assert_eq!(run_cycle(&s, Ok(vec![entity("b", "2")]), Ok(vec![])), Ok(()));
    let m = s.read();
    assert!(m.get("a").is_none());
    assert_eq!(m.get("b").unwrap().address, "2");
}

#[test]
fn cycle_reports_first_error() {
    let r = cycle_result(
        Err(CycleError::Fetch(FetchError::Status(500))),
        Err(CycleError::Parse(ParseError::Shape)),
    );
    assert!(matches!(r, Err(CycleError::Fetch(FetchError::Status(500)))));
    let r = cycle_result(Ok(vec![entity("a", "1")]), Err(CycleError::Parse(ParseError::Shape)));
    assert!(matches!(r, Err(CycleError::Parse(ParseError::Shape))));
    let r = cycle_result(Ok(vec![entity("a", "1")]), Ok(vec![]));
    assert_eq!(r.unwrap().get("a").unwrap().address, "1");
    assert_eq!(POLL_INTERVAL_SECS, 30);
}
