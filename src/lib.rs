//! Composition of parameterised statements for a record-tracking service:
//! bookings (timed records), tags, and the assignments between the two.
use vstd::prelude::*;

pub mod query;
pub mod records;
pub mod booking_query;
pub mod tag_query;
pub mod tagassignment_query;
