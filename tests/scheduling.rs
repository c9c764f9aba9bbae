use train_board::{
    build_request_string, check_status, next_stop, request_url, Config, ConfigError, CycleError,
    Scheduler, SchedulerAction, SchedulerEvent, Stop,
};

fn stops(n: usize) -> Vec<Stop> {
    (0..n).map(|i| Stop { name: format!("S{i}"), id: 100 + i }).collect()
}

#[test]
fn request_target() {
    assert_eq!(
        build_request_string("abc123", 30173),
        "http://lapi.transitchicago.com/api/1.0/ttarrivals.aspx?stpid=30173&key=abc123"
    );
    assert_eq!(request_url("http://localhost:8080/eta", "k", 0), "http://localhost:8080/eta?stpid=0&key=k");
}

#[test]
fn status_decision() {
    assert!(check_status(200).is_ok());
    assert!(check_status(204).is_ok());
    assert!(check_status(299).is_ok());
    assert!(matches!(check_status(500), Err(CycleError::HttpStatus(500))));
    assert!(matches!(check_status(404), Err(CycleError::HttpStatus(404))));
    assert!(matches!(check_status(199), Err(CycleError::HttpStatus(199))));
    assert!(matches!(check_status(300), Err(CycleError::HttpStatus(300))));
}

#[test]
fn rotation_visits_each_stop_once() {
    let list = stops(4);
    let mut cursor = 0;
    let mut seen = Vec::new();
    for _ in 0..list.len() {
        let (stop, next) = next_stop(cursor, &list);
        seen.push(stop.id);
        cursor = next;
    }
    assert_eq!(seen, vec![100, 101, 102, 103]);
    assert_eq!(cursor, 0);
}

#[test]
fn rotation_single_stop() {
    let list = stops(1);
    let (stop, next) = next_stop(0, &list);
    assert_eq!(stop.id, 100);
    assert_eq!(next, 0);
}

#[test]
fn failure_does_not_hold_up_next_tick() {
    let mut s = Scheduler::new(3);
    assert_eq!(s.step(SchedulerEvent::Tick), SchedulerAction::Dispatch(0));
    let failures = [
        CycleError::Request("connection refused".to_string()),
        CycleError::HttpStatus(500),
        CycleError::Decode("malformed XML".to_string()),
    ];
    let mut expected = 1;
    for f in failures {
        assert_eq!(s.step(SchedulerEvent::CycleFinished(Err(f))), SchedulerAction::Wait);
        assert_eq!(s.step(SchedulerEvent::Tick), SchedulerAction::Dispatch(expected));
        expected = (expected + 1) % 3;
    }
    assert_eq!(s.step(SchedulerEvent::CycleFinished(Ok(()))), SchedulerAction::Wait);
    assert_eq!(s.cursor, 1);
}

#[test]
fn config_validation() {
    assert!(matches!(Config::new(vec![], 10), Err(ConfigError::EmptyStops)));
    assert!(matches!(Config::new(vec![], 0), Err(ConfigError::EmptyStops)));
    assert!(matches!(Config::new(stops(1), 0), Err(ConfigError::ZeroInterval)));
    let c = Config::new(vec![Stop { name: "Loop".to_string(), id: 30173 }], 10).unwrap();
    assert_eq!(c.interval, 10);
    assert_eq!(c.stops.len(), 1);
    assert_eq!(c.stops[0].name, "Loop");
}
