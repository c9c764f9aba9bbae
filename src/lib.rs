//! Arrival-board logic for a transit arrivals feed: timestamp formatting,
//! rendering of arrival records, stop rotation, scheduling decisions and the
//! per-cycle request and outcome handling.

mod board;
mod clock;
mod cycle;
mod schedule;
mod text;

pub use board::{
    compose_display, generate_display_text, join_display_times, EtaInfo, Stop, TrainInfo,
};
pub use clock::{format_hour_minute, format_time, TimeParseError};
pub use cycle::{
    build_request_string, check_status, finish_cycle, request_url, CycleError,
    BASE_REQUEST_STRING,
};
pub use schedule::{
    next_stop, Config, ConfigError, Scheduler, SchedulerAction, SchedulerEvent,
};
pub use text::push_decimal;
