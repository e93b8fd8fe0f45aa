//! Download and upload tests over HTTP.
//!
//! Times are nanoseconds since the transfer began.
use crate::http::{is_success, success_code};
use crate::text::same_text;
use vstd::prelude::*;
use vstd::string::*;

verus! {

/// How many bytes an upload is made of at a time.
pub const SPEEDTEST_CHUNK_SIZE: usize = 65_536;

/// How many such pieces one request carries.
pub const CHUNKS_PER_REQUEST: usize = 16;

/// How often progress is reported, in nanoseconds.
pub const SPEEDTEST_REPORT_INTERVAL: u64 = 200_000_000;

/// How long a test takes where nothing is said, in seconds.
pub const DEFAULT_DURATION: u32 = 10;

/// How many threads are asked for where nothing is said.
pub const DEFAULT_THREADS: u32 = 4;

/// The longest test, in seconds.
pub const MAX_DURATION: u32 = 60;

/// What a test is asked for with.
#[derive(Debug)]
pub struct SpeedtestParams {
    pub url: String,
    pub direction: String,
    pub duration_secs: u32,
    pub threads: u32,
}

/// Which way the data goes.
#[derive(Clone, Copy, Debug, PartialEq, Eq, Structural)]
pub enum Direction {
    Download,
    Upload,
}

/// How a test is carried out.
#[derive(Debug)]
pub struct SpeedtestPlan {
    /// Which way the data goes, or why there is no test.
    pub direction: Result<Direction, String>,
    /// How long the test takes, in seconds.
    pub duration_secs: u32,
    /// When the test is given up, in seconds.
    pub cancel_after_secs: u64,
    /// How long a request may take, in seconds.
    pub request_timeout_secs: u64,
}

/// Which way a test goes; one that goes both ways is a download.
pub open spec fn direction_of(name: Seq<char>) -> Option<Direction> {
    if name == "download"@ || name == "both"@ {
        Some(Direction::Download)
    } else if name == "upload"@ {
        Some(Direction::Upload)
    } else {
        None
    }
}

/// How a test is carried out: it takes at most a minute, and a little longer before it is given up.
pub fn plan(params: &SpeedtestParams) -> (res: SpeedtestPlan)
    ensures
        match res.direction {
            Ok(d) => direction_of(params.direction@) == Some(d),
            Err(e) => direction_of(params.direction@) is None && e@ == "不支持的方向: "@
                + params.direction@ + "（可选 download/upload/both）"@,
        },
        res.duration_secs == if params.duration_secs < MAX_DURATION {
            params.duration_secs
        } else {
            MAX_DURATION
        },
        res.duration_secs <= 60,
        params.duration_secs <= 60 ==> res.duration_secs == params.duration_secs,
        res.cancel_after_secs == res.duration_secs + 10,
        res.request_timeout_secs == res.duration_secs + 15,
{
    let name = params.direction.as_str();
    let direction = if same_text(name, "download") || same_text(name, "both") {
        Ok(Direction::Download)
    } else if same_text(name, "upload") {
        Ok(Direction::Upload)
    } else {
        Err("不支持的方向: ".to_owned().concat(name).concat("（可选 download/upload/both）"))
    };
    let duration_secs: u32 = if params.duration_secs < MAX_DURATION {
        params.duration_secs
    } else {
        MAX_DURATION
    };
    SpeedtestPlan {
        direction,
        duration_secs,
        cancel_after_secs: duration_secs as u64 + 10,
        request_timeout_secs: duration_secs as u64 + 15,
    }
}

/// A test under way.
#[derive(Clone, Copy, Debug, PartialEq, Eq, Structural)]
pub struct Loading {
    /// How long it takes, in nanoseconds.
    pub duration_ns: u64,
    /// The bytes that have gone over.
    pub total_bytes: u64,
    /// When progress was reported last.
    pub reported_ns: u64,
}

/// What handing over a piece of data gave.
#[derive(Debug)]
pub enum LoadOutcome {
    /// So many bytes came in.
    Received(usize),
    /// A request with so many bytes was answered with a status.
    Sent(usize, u16, String),
    /// There is no more data, or it takes too long, or it failed.
    Ended,
}

/// What a piece of data leads to.
#[derive(Debug)]
pub enum LoadNext {
    /// Go on, and report where that is said.
    GoOn(bool),
    /// The test is complete.
    Complete,
    /// The test failed for this reason.
    Fail(String),
}

/// Whether a report is due.
pub open spec fn report_due(loading: Loading, now: u64) -> bool {
    now >= loading.reported_ns && now - loading.reported_ns >= SPEEDTEST_REPORT_INTERVAL
}

/// The test with so many more bytes at a time.
pub open spec fn loaded(loading: Loading, n: int, now: u64) -> Loading {
    Loading {
        total_bytes: (loading.total_bytes + n) as u64,
        reported_ns: if report_due(loading, now) {
            now
        } else {
            loading.reported_ns
        },
        ..loading
    }
}

impl Loading {
    /// A test that has just begun.
    pub fn new(duration_secs: u32) -> (res: Loading)
        ensures
            res == (Loading {
                duration_ns: (duration_secs * 1_000_000_000) as u64,
                total_bytes: 0,
                reported_ns: 0,
            }),
    {
        Loading { duration_ns: duration_secs as u64 * 1_000_000_000, total_bytes: 0, reported_ns: 0 }
    }

    /// Whether more data is handed over: not once the time is over or the test is given up.
    pub fn goes_on(&self, now: u64, cancelled: bool) -> (res: bool)
        ensures
            res == (now < self.duration_ns && !cancelled),
    {
        now < self.duration_ns && !cancelled
    }

    /// Counts bytes, and says whether a report is due.
    fn count(&mut self, n: u64, now: u64) -> (res: bool)
        requires
            old(self).total_bytes + n <= u64::MAX,
        ensures
            res == report_due(*old(self), now),
            *final(self) == loaded(*old(self), n as int, now),
    {
        self.total_bytes = self.total_bytes + n;
        if now >= self.reported_ns && now - self.reported_ns >= SPEEDTEST_REPORT_INTERVAL {
            self.reported_ns = now;
            true
        } else {
            false
        }
    }

    /// What a piece of data leads to. A request that is refused is a failure; data that stops
    /// coming ends the test with what there is.
    pub fn advance(&mut self, outcome: LoadOutcome, now: u64) -> (res: LoadNext)
        requires
            match outcome {
                LoadOutcome::Received(n) => old(self).total_bytes + n <= u64::MAX,
                LoadOutcome::Sent(n, _, _) => old(self).total_bytes + n <= u64::MAX,
                LoadOutcome::Ended => true,
            },
        ensures
            match outcome {
                LoadOutcome::Received(n) => {
                    &&& *final(self) == loaded(*old(self), n as int, now)
                    &&& res == LoadNext::GoOn(report_due(*old(self), now))
                },
                LoadOutcome::Sent(n, code, status) => if success_code(code) {
                    &&& *final(self) == loaded(*old(self), n as int, now)
                    &&& res == LoadNext::GoOn(report_due(*old(self), now))
                } else {
                    &&& *final(self) == *old(self)
                    &&& res matches LoadNext::Fail(e) && e@ == "HTTP "@ + status@
                },
                LoadOutcome::Ended => *final(self) == *old(self) && res == LoadNext::Complete,
            },
    {
        match outcome {
            LoadOutcome::Received(n) => LoadNext::GoOn(self.count(n as u64, now)),
            LoadOutcome::Sent(n, code, status) => {
                if is_success(code) {
                    LoadNext::GoOn(self.count(n as u64, now))
                } else {
                    LoadNext::Fail("HTTP ".to_owned().concat(status.as_str()))
                }
            },
            LoadOutcome::Ended => LoadNext::Complete,
        }
    }
}

/// Whether a download can begin: the status of the reply says so, else the complaint names it.
pub fn begin_download(code: u16, status: &str) -> (res: Result<(), String>)
    ensures
        match res {
            Ok(_) => success_code(code),
            Err(e) => !success_code(code) && e@ == "HTTP "@ + status@,
        },
{
    if is_success(code) {
        Ok(())
    } else {
        Err("HTTP ".to_owned().concat(status))
    }
}

/// Over any two pieces of data the bytes add up, and reports are at least the interval apart.
pub proof fn law_loading_adds_up(loading: Loading, n: u32, m: u32, first: u64, second: u64)
    requires
        loading.total_bytes + n + m <= u64::MAX,
    ensures
        loaded(loaded(loading, n as int, first), m as int, second).total_bytes == loading.total_bytes
            + n + m,
        report_due(loading, first) && report_due(loaded(loading, n as int, first), second)
            ==> second - first >= SPEEDTEST_REPORT_INTERVAL,
{
}

/// A test goes up only where that is asked for; asked for both ways it goes down. Any other word is no
/// direction.
pub proof fn law_direction_is_the_one_asked_for(name: Seq<char>)
    ensures
        direction_of("download"@) == Some(Direction::Download),
        direction_of("both"@) == Some(Direction::Download),
        direction_of("upload"@) == Some(Direction::Upload),
        direction_of(name) == Some(Direction::Upload) ==> name == "upload"@,
        direction_of(name) is Some ==> name == "upload"@ || name == "download"@ || name == "both"@,
{
    reveal_strlit("download");
    reveal_strlit("upload");
    reveal_strlit("both");
    assert("download"@.len() == 8);
    assert("upload"@.len() == 6);
    assert("both"@.len() == 4);
}

/// A report is due once a fifth of a second has gone by since the last one, and not before.
pub proof fn law_reports_are_a_fifth_of_a_second_apart(loading: Loading, n: u32, now: u64)
    requires
        loading.total_bytes + n <= u64::MAX,
    ensures
        report_due(loading, now) <==> now >= loading.reported_ns + 200_000_000,
        report_due(loading, now) ==> loaded(loading, n as int, now).reported_ns == now,
        !report_due(loading, now) ==> loaded(loading, n as int, now).reported_ns
            == loading.reported_ns,
        loaded(loading, n as int, now).total_bytes == loading.total_bytes + n,
        loaded(loading, n as int, now).duration_ns == loading.duration_ns,
{
}

} // verus!
