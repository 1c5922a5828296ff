use vstd::prelude::*;

verus! {

/// One stretch of time spent in one window.
#[derive(Debug, Clone, PartialEq)]
pub struct ActivityLog {
    pub id: i64,
    pub app_name: String,
    pub window_title: String,
    pub start_time: String,
    pub duration_seconds: i64,
}

/// One entry of a day's timeline.
#[derive(Debug, Clone, PartialEq)]
pub struct TimelineActivity {
    pub app_name: String,
    pub start_time: String,
    pub duration_seconds: i64,
}

} // verus!
