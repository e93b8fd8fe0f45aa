//! Connection times to a port of a host.
use super::tunnel_latency_test::{sum_times, time_sum};
use vstd::prelude::*;
use vstd::string::*;

verus! {

/// How many connections are made where nothing is said.
pub const DEFAULT_COUNT: u32 = 4;

/// How long a connection may take where nothing is said, in seconds.
pub const DEFAULT_TIMEOUT_SECS: u64 = 3;

/// What a connection test is asked for with.
#[derive(Debug)]
pub struct TcpingParams {
    pub host: String,
    pub port: u16,
    pub count: u32,
    pub timeout_secs: u64,
}

/// A connection test under way.
#[derive(Debug)]
pub struct Tally {
    /// How many connections are made.
    pub count: u32,
    /// The times of those that were made, in nanoseconds.
    pub rtts: Vec<u64>,
    /// How many failed.
    pub loss: u32,
}

impl Tally {
    /// No more connections are counted than are made.
    pub open spec fn wf(self) -> bool {
        self.rtts@.len() + self.loss <= self.count
    }

    /// A test that has made no connection.
    pub fn new(count: u32) -> (res: Tally)
        ensures
            res.wf(),
            res.count == count,
            res.rtts@ == Seq::<u64>::empty(),
            res.loss == 0,
    {
        let res = Tally { count, rtts: Vec::new(), loss: 0 };
        assert(res.rtts@ =~= Seq::<u64>::empty());
        res
    }

    /// Whether another connection is due.
    pub fn is_open(&self) -> (res: bool)
        requires
            self.wf(),
        ensures
            res == (self.rtts@.len() + self.loss < self.count),
    {
        (self.rtts.len() as u64) + (self.loss as u64) < self.count as u64
    }

    /// Counts a connection that took so long, or that failed.
    pub fn record(&mut self, time: Option<u64>)
        requires
            old(self).wf(),
            old(self).rtts@.len() + old(self).loss < old(self).count,
        ensures
            final(self).wf(),
            final(self).count == old(self).count,
            match time {
                Some(t) => final(self).rtts@ == old(self).rtts@.push(t) && final(self).loss == old(
                    self,
                ).loss,
                None => final(self).rtts@ == old(self).rtts@ && final(self).loss == old(self).loss
                    + 1,
            },
            final(self).rtts@.len() + final(self).loss == old(self).rtts@.len() + old(self).loss + 1,
    {
        match time {
            Some(t) => {
                self.rtts.push(t);
            },
            None => {
                self.loss = self.loss + 1;
            },
        }
    }

    /// The sum of the times with their number, where there are any: the average is the one over
    /// the other.
    pub fn average(&self) -> (res: Option<(u128, usize)>)
        ensures
            match res {
                Some((sum, n)) => n == self.rtts@.len() && n > 0 && sum == time_sum(self.rtts@),
                None => self.rtts@.len() == 0,
            },
    {
        if self.rtts.len() == 0 {
            None
        } else {
            Some((sum_times(&self.rtts), self.rtts.len()))
        }
    }
}

} // verus!
