pub mod app;
pub mod schedules;
