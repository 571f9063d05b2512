//! The rows that statements of this crate read back from storage.
use vstd::prelude::*;

verus! {

/// A timed record: `startdate` and `enddate` are epoch milliseconds, and an
/// absent `enddate` means the booking is still running.
pub struct Booking {
    pub id: i64,
    pub startdate: i64,
    pub enddate: Option<i64>,
    pub des: String,
}

/// A label that bookings can carry.
pub struct Tag {
    pub id: i64,
    pub name: String,
}

/// The fact that the booking `bid` carries the tag `tgid`.
pub struct TagAssignment {
    pub tgid: i64,
    pub bid: i64,
}

/// Why a booking could not be finished.
#[derive(Debug, PartialEq, Eq, Structural)]
pub enum FinishError {
    /// The booking already has an end; it is left as it was.
    AlreadyFinished,
}

/// The end that finishing a running booking at `now` gives it: `now`, or its
/// start when the clock reads earlier than that.
pub open spec fn finish_time(startdate: i64, now: i64) -> i64 {
    if now < startdate {
        startdate
    } else {
        now
    }
}

impl Booking {
    /// Ends a running booking at `now`, never before its start. A booking that
    /// already has an end is refused, not overwritten.
    pub fn finish(&self, now: i64) -> (r: Result<Booking, FinishError>)
        ensures
            self.enddate is Some <==> r is Err,
            r is Err ==> r->Err_0 == FinishError::AlreadyFinished,
            r is Ok ==> r->Ok_0 == (Booking {
                id: self.id,
                startdate: self.startdate,
                enddate: Some(finish_time(self.startdate, now)),
                des: self.des,
            }),
            r is Ok ==> r->Ok_0.enddate->Some_0 >= self.startdate,
    {
        if self.enddate.is_some() {
            return Err(FinishError::AlreadyFinished);
        }
        let end = if now < self.startdate {
            self.startdate
        } else {
            now
        };
        Ok(Booking { id: self.id, startdate: self.startdate, enddate: Some(end), des: self.des.clone() })
    }
}

} // verus!
