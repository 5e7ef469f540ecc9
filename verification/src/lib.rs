//! A desktop reminder library: reminders with repeat rules, date ranges,
//! daily windows and repeat limits; deciding when they fire; and the data
//! that the list, the edit panel and the pop-up show and change.
pub mod calendar;
pub mod config;
pub mod notification;
pub mod popup;
pub mod reminder;
pub mod store;
pub mod text;
pub mod time;
pub mod ui;
