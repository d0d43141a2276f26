//! Platform abstraction for calendar backends.
//!
//! Each platform or backend provides a `CalendarBackend` implementation for
//! managing calendar events via CalDAV or native APIs.

use vstd::prelude::*;

use crate::datetime::DateTime;

verus! {

/// A calendar event as a backend exchanges it.
#[derive(Clone, Debug)]
pub struct CalendarEvent {
    /// Unique event identifier.
    pub id: String,
    /// Event title.
    pub title: String,
    /// Event description.
    pub description: Option<String>,
    /// Event start time.
    pub start: DateTime,
    /// Event end time.
    pub end: DateTime,
    /// Event location.
    pub location: Option<String>,
    /// Calendar this event belongs to.
    pub calendar: String,
    /// Reminder offsets in minutes before the event.
    pub reminders: Vec<i32>,
}

/// An error reported by a calendar backend.
#[derive(Clone, Debug)]
pub struct BackendError {
    pub message: String,
}

/// Calendar backend for reading and writing events.
pub trait CalendarBackend {
    /// List events within a time range.
    fn list_events(&self, start: DateTime, end: DateTime) -> Result<Vec<CalendarEvent>, BackendError>;

    /// Create a new event, returning its ID.
    fn create_event(&self, event: &CalendarEvent) -> Result<String, BackendError>;

    /// Update an existing event by ID.
    fn update_event(&self, id: &str, event: &CalendarEvent) -> Result<(), BackendError>;

    /// Delete an event by ID.
    fn delete_event(&self, id: &str) -> Result<(), BackendError>;
}

/// macOS calendar backend (EventKit / CalDAV). It stores nothing yet: it
/// lists no events and accepts every change.
pub struct MacOSCalendarBackend;

impl MacOSCalendarBackend {
    pub fn new() -> (r: Self) {
        MacOSCalendarBackend
    }
}

impl CalendarBackend for MacOSCalendarBackend {
    fn list_events(&self, start: DateTime, end: DateTime) -> (r: Result<Vec<CalendarEvent>, BackendError>)
        ensures
            r matches Ok(v) && v@.len() == 0,
    {
        Ok(Vec::new())
    }

    fn create_event(&self, event: &CalendarEvent) -> (r: Result<String, BackendError>)
        ensures
            r matches Ok(id) && id@.len() == 0,
    {
        Ok(String::new())
    }

    fn update_event(&self, id: &str, event: &CalendarEvent) -> (r: Result<(), BackendError>)
        ensures
            r is Ok,
    {
        Ok(())
    }

    fn delete_event(&self, id: &str) -> (r: Result<(), BackendError>)
        ensures
            r is Ok,
    {
        Ok(())
    }
}

} // verus!
