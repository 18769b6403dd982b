//! Turns the matching records of a remote structured database into one
//! calendar document: a paginated, filtered query is normalized record by
//! record into events, and the events are serialized as `VEVENT` blocks of a
//! single `VCALENDAR`.

pub mod calendar;
pub mod dates;
pub mod event;
pub mod query;
