use train_board::{
    compose_display, finish_cycle, generate_display_text, join_display_times, CycleError,
    EtaInfo, Stop, TrainInfo,
};

fn loop_stop() -> Stop {
    Stop { name: "Loop".to_string(), id: 30173 }
}

fn eta(time: &str, description: &str) -> EtaInfo {
    EtaInfo {
        station_id: "40380".to_string(),
        arrival_time: time.to_string(),
        stop_description: description.to_string(),
    }
}

#[test]
fn empty_arrivals_say_no_trains() {
    let info = TrainInfo { eta: vec![] };
    let text = generate_display_text(&info, &loop_stop()).unwrap();
    assert_eq!(text, "Loop\n\n--\nNo trains scheduled");
    assert!(text.contains("Loop"));
}

#[test]
fn two_arrivals_render_block() {
    let info = TrainInfo {
        eta: vec![eta("20240101 08:05:00", "Southbound"), eta("20240101 08:12:00", "Southbound")],
    };
    let text = generate_display_text(&info, &loop_stop()).unwrap();
    assert_eq!(text, "Loop\nSouthbound\n--\n8:5 8:12\n");
}

#[test]
fn first_description_is_the_label() {
    let info = TrainInfo {
        eta: vec![eta("20240101 09:00:00", "Northbound"), eta("20240101 09:30:00", "Southbound")],
    };
    let text = generate_display_text(&info, &loop_stop()).unwrap();
    assert_eq!(text, "Loop\nNorthbound\n--\n9:0 9:30\n");
}

#[test]
fn one_token_per_arrival_in_order() {
    let times = ["20240101 23:58:00", "20240101 00:01:00", "20240101 10:10:10", "20240101 07:00:00"];
    let info = TrainInfo { eta: times.iter().map(|t| eta(t, "Loop")).collect() };
    let text = generate_display_text(&info, &loop_stop()).unwrap();
    let line = text.lines().nth(3).unwrap();
    let tokens: Vec<&str> = line.split(' ').collect();
    assert_eq!(tokens, vec!["23:58", "0:1", "10:10", "7:0"]);
}

#[test]
fn bad_time_fails_the_block() {
    let info = TrainInfo {
        eta: vec![
            eta("20240101 08:05:00", "Southbound"),
            eta("2024-01-01 08:12", "Southbound"),
            eta("bad", "Southbound"),
        ],
    };
    let err = generate_display_text(&info, &loop_stop()).unwrap_err();
    assert_eq!(err.input, "2024-01-01 08:12");
}

#[test]
fn joins_with_single_spaces() {
    assert_eq!(join_display_times(&vec![]), "");
    assert_eq!(join_display_times(&vec!["8:5".to_string()]), "8:5");
    assert_eq!(
        join_display_times(&vec!["8:5".to_string(), "8:12".to_string(), "9:0".to_string()]),
        "8:5 8:12 9:0"
    );
}

#[test]
fn composes_block() {
    let times = vec!["8:5".to_string(), "8:12".to_string()];
    assert_eq!(compose_display("Loop", "Southbound", &times), "Loop\nSouthbound\n--\n8:5 8:12\n");
    assert_eq!(compose_display("A", "", &vec![]), "A\n\n--\n\n");
}

#[test]
fn cycle_renders_decoded_records() {
    let info = TrainInfo {
        eta: vec![eta("20240101 08:05:00", "Southbound"), eta("20240101 08:12:00", "Southbound")],
    };
    assert_eq!(finish_cycle(&loop_stop(), Ok(info)).unwrap(), "Loop\nSouthbound\n--\n8:5 8:12\n");
}

#[test]
fn cycle_reports_decode_failure() {
    let r = finish_cycle(&loop_stop(), Err("unexpected end of document".to_string()));
    assert!(matches!(r, Err(CycleError::Decode(m)) if m == "unexpected end of document"));
}

#[test]
fn cycle_reports_bad_time() {
    let info = TrainInfo { eta: vec![eta("20240101 25:00:00", "Southbound")] };
    let r = finish_cycle(&loop_stop(), Ok(info));
    assert!(matches!(r, Err(CycleError::Render(e)) if e.input == "20240101 25:00:00"));
}
