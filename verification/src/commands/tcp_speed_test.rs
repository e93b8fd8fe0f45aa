//! The receiving side of a timed transfer through a tunnel.
//!
//! Times are nanoseconds since the request went out.
use super::e2e_server::{LineActionView, line_action};
use super::{CommandContext, RpcError, RpcErrorView, RunRegistry, rpc_error, run_generation, run_name};
use crate::text::{
    begins_with, decimal, law_decimal_denotes, law_decimal_round_trip, lemma_two_words,
    push_decimal,
};
use vstd::prelude::*;
use vstd::string::*;

verus! {

/// How long the first data may take, in nanoseconds.
pub const FIRST_PACKET_TIMEOUT: u64 = 3_000_000_000;

/// How often progress is reported, in nanoseconds.
pub const PROGRESS_INTERVAL: u64 = 200_000_000;

/// How long a sample takes, in nanoseconds.
pub const SAMPLE_INTERVAL: u64 = 1_000_000_000;

/// By how much a transfer may be too short, in nanoseconds.
pub const EARLY_TOLERANCE: u64 = 250_000_000;

/// How many bytes are read at a time.
pub const READ_BUF_SIZE: usize = 262_144;

/// The connection timeout where none is given, in seconds.
pub const DEFAULT_CONNECT_TIMEOUT: u64 = 10;

/// The read timeout where none is given, in seconds.
pub const DEFAULT_READ_TIMEOUT: u64 = 60;

// ----- the request -----

/// What a transfer is asked for with.
#[derive(Debug)]
pub struct TcpSpeedTestParams {
    /// The node.
    pub host: String,
    /// The port of the tunnel on the node.
    pub port: u16,
    /// How long the transfer takes.
    pub duration_seconds: u64,
    /// How long connecting may take, in seconds.
    pub connect_timeout_secs: u64,
    /// How long a read may take, in seconds.
    pub read_timeout_secs: u64,
    /// The name of the run.
    pub run_id: String,
}

/// The complaint about parameters, if there is one.
pub open spec fn duration_complaint(params: Result<TcpSpeedTestParams, String>) -> Option<Seq<char>> {
    match params {
        Err(e) => Some("参数解析失败: "@ + e@),
        Ok(p) => if 5 <= p.duration_seconds <= 120 {
            None
        } else {
            Some("durationSeconds 必须在 5 到 120 之间"@)
        },
    }
}

/// Refuses parameters that could not be read, and a duration outside 5 to 120 seconds.
pub fn parse_params(params: Result<TcpSpeedTestParams, String>) -> (res: Result<
    TcpSpeedTestParams,
    String,
>)
    ensures
        match res {
            Ok(p) => params == Ok::<TcpSpeedTestParams, String>(p) && duration_complaint(params) is None,
            Err(e) => duration_complaint(params) == Some(e@),
        },
{
    match params {
        Ok(p) => {
            if p.duration_seconds < 5 || p.duration_seconds > 120 {
                return Err("durationSeconds 必须在 5 到 120 之间".to_owned());
            }
            Ok(p)
        },
        Err(e) => Err("参数解析失败: ".to_owned().concat(e.as_str())),
    }
}

/// The error of a request, if it has one.
pub open spec fn request_error(params: Result<TcpSpeedTestParams, String>) -> Option<RpcErrorView> {
    match duration_complaint(params) {
        Some(e) => Some(rpc_error("INVALID_PARAMS"@, e)),
        None => if params->Ok_0.host@.len() == 0 {
            Some(rpc_error("INVALID_PARAMS"@, "host 不能为空"@))
        } else if params->Ok_0.port == 0 {
            Some(rpc_error("INVALID_PARAMS"@, "port 不能为 0"@))
        } else {
            None
        },
    }
}

/// Checks a request and registers its run. A request that is refused registers nothing.
pub fn handle(
    registry: &mut RunRegistry,
    params: Result<TcpSpeedTestParams, String>,
    ctx: &CommandContext,
) -> (res: Result<(TcpSpeedTestParams, u64), RpcError>)
    requires
        old(registry)@.wf(),
    ensures
        final(registry)@.wf(),
        match res {
            Ok((p, generation)) => {
                &&& request_error(params) is None
                &&& params == Ok::<TcpSpeedTestParams, String>(p)
                &&& final(registry)@ == old(registry)@.with_run(run_name(ctx.account_id@, p.run_id@))
                &&& final(registry)@.holds(run_name(ctx.account_id@, p.run_id@), generation)
            },
            Err(e) => request_error(params) == Some(e@) && final(registry)@ == old(registry)@,
        },
{
    let p = match parse_params(params) {
        Ok(p) => p,
        Err(e) => return Err(RpcError::new("INVALID_PARAMS", e)),
    };
    if p.host.as_str().is_empty() {
        return Err(RpcError::new("INVALID_PARAMS", "host 不能为空".to_owned()));
    }
    if p.port == 0 {
        return Err(RpcError::new("INVALID_PARAMS", "port 不能为 0".to_owned()));
    }
    let generation: u64 = run_generation(registry, ctx.account_id.as_str(), p.run_id.as_str());
    Ok((p, generation))
}

/// The line that asks the sending side for a transfer of that length.
pub open spec fn request_line(duration_ns: u64) -> Seq<char> {
    "SPEEDTEST_TIME "@ + decimal((duration_ns / 1_000_000) as nat) + "\n"@
}

/// The line that asks the sending side for a transfer of that length.
pub fn speed_request_line(duration_ns: u64) -> (res: String)
    ensures
        res@ == request_line(duration_ns),
{
    let mut out = "SPEEDTEST_TIME ".to_owned();
    push_decimal(&mut out, duration_ns / 1_000_000);
    out.append("\n");
    out
}

/// Every transfer that a request may ask for is one that the sending side grants, and for the same
/// time.
pub proof fn law_sender_grants_requests(duration_seconds: u64)
    requires
        5 <= duration_seconds <= 120,
    ensures
        line_action(request_line((duration_seconds * 1_000_000_000) as u64)) == LineActionView::Send(
            (duration_seconds * 1000) as nat,
        ),
{
    let ms = (duration_seconds * 1000) as nat;
    let line = request_line((duration_seconds * 1_000_000_000) as u64);
    reveal_strlit("SPEEDTEST_TIME ");
    reveal_strlit("SPEEDTEST_TIME");
    reveal_strlit("PING ");
    reveal_strlit("\n");
    law_decimal_denotes(ms);
    law_decimal_round_trip(ms, u64::MAX as nat);
    let word = decimal(ms);
    assert forall|i: int| 0 <= i < word.len() implies !crate::text::is_space(#[trigger] word[i]) by {
        assert(crate::text::is_digit(word[i]));
    }
    let head = "SPEEDTEST_TIME"@;
    assert forall|i: int| 0 <= i < head.len() implies !crate::text::is_space(#[trigger] head[i]) by {}
    lemma_two_words(head, word);
    assert(line =~= head.push(' ') + word.push('\n'));
    assert(line.subrange(0, 15) =~= "SPEEDTEST_TIME "@);
    if begins_with(line, "PING "@) {
        assert(line.subrange(0, 5)[0] == "PING "@[0]);
    }
}

// ----- the transfer -----

/// What came in during one sample.
#[derive(Clone, Copy, Debug, PartialEq, Eq, Structural)]
pub struct SpeedSample {
    /// The number of the sample, from 1 on.
    pub second: u64,
    /// The bytes that came in.
    pub bytes: u64,
    /// How long the sample took, in nanoseconds.
    pub duration_ns: u64,
}

/// From `earlier` to `later`, 0 where there is no such time.
pub open spec fn since(later: u64, earlier: u64) -> u64 {
    if later >= earlier {
        (later - earlier) as u64
    } else {
        0
    }
}

/// From `earlier` to `later`, 0 where there is no such time.
fn elapsed(later: u64, earlier: u64) -> (res: u64)
    ensures
        res == since(later, earlier),
{
    if later >= earlier {
        later - earlier
    } else {
        0
    }
}

/// The bytes of all samples.
pub open spec fn sample_total(samples: Seq<SpeedSample>) -> nat
    decreases samples.len(),
{
    if samples.len() == 0 {
        0
    } else {
        sample_total(samples.drop_last()) + samples.last().bytes as nat
    }
}

/// Samples that all hold something hold at least as much as there are samples.
proof fn lemma_sample_total(samples: Seq<SpeedSample>)
    requires
        forall|i: int| 0 <= i < samples.len() ==> (#[trigger] samples[i]).bytes > 0,
    ensures
        sample_total(samples) >= samples.len(),
    decreases samples.len(),
{
    if samples.len() > 0 {
        assert(samples[samples.len() - 1].bytes > 0);
        assert forall|i: int| 0 <= i < samples.drop_last().len() implies (
        #[trigger] samples.drop_last()[i]).bytes > 0 by {
            assert(samples.drop_last()[i] == samples[i]);
        }
        lemma_sample_total(samples.drop_last());
    }
}

/// A transfer under way.
#[derive(Debug)]
pub struct Transfer {
    /// How long it is to take.
    pub duration_ns: u64,
    /// The bytes that came in.
    pub received: u64,
    /// When the first data came, the last progress was reported, and the sample under way began.
    pub marks: Option<Marks>,
    /// The bytes of the sample under way.
    pub sample_bytes: u64,
    /// The samples that are complete.
    pub samples: Vec<SpeedSample>,
}

/// The times that matter once data has come.
#[derive(Clone, Copy, Debug, PartialEq, Eq, Structural)]
pub struct Marks {
    pub started: u64,
    pub reported: u64,
    pub sample_started: u64,
}

/// What is to be done before a read.
#[derive(Debug)]
pub enum BeforeRead {
    /// Read.
    Read,
    /// Close the connection: the transfer is complete.
    Complete,
    /// Close the connection: the transfer failed for this reason.
    Fail(String),
}

/// What a read gave.
#[derive(Debug)]
pub enum ReadOutcome {
    /// So many bytes; none where the sending side closed the connection.
    Bytes(usize),
    /// Nothing yet.
    NotYet,
    /// An error.
    Failed(String),
}

/// What is to be reported: the time since the first data, and the bytes and the time of the sample
/// under way.
#[derive(Clone, Copy, Debug, PartialEq, Eq, Structural)]
pub struct Progress {
    pub elapsed_ns: u64,
    pub sample_bytes: u64,
    pub sample_ns: u64,
}

/// What a read leads to.
#[derive(Debug)]
pub enum AfterRead {
    /// Go on, and report this where there is something to report.
    GoOn(Option<Progress>),
    /// The transfer is complete.
    Complete,
    /// The transfer failed for this reason.
    Fail(String),
}

/// The model of [`Transfer`].
pub struct TransferView {
    pub duration_ns: u64,
    pub received: nat,
    pub marks: Option<Marks>,
    pub sample_bytes: nat,
    pub samples: Seq<SpeedSample>,
}

impl View for Transfer {
    type V = TransferView;

    open spec fn view(&self) -> TransferView {
        TransferView {
            duration_ns: self.duration_ns,
            received: self.received as nat,
            marks: self.marks,
            sample_bytes: self.sample_bytes as nat,
            samples: self.samples@,
        }
    }
}

impl TransferView {
    /// Every byte that came in is in one sample, complete or under way. The samples are numbered
    /// from 1 on, and none is empty. Something has come in exactly when there are times.
    pub open spec fn wf(self) -> bool {
        &&& self.received == sample_total(self.samples) + self.sample_bytes
        &&& forall|i: int|
            0 <= i < self.samples.len() ==> (#[trigger] self.samples[i]).bytes > 0
                && self.samples[i].second == i + 1
        &&& self.marks is None <==> self.received == 0
    }

    /// The failure that is due at a time before a read, if one is.
    pub open spec fn failure(self, now: u64, cancelled: bool) -> Option<Seq<char>> {
        if cancelled {
            Some("测速已强制停止"@)
        } else if self.marks is None && now >= FIRST_PACKET_TIMEOUT {
            Some("测速连接未返回数据"@)
        } else {
            None
        }
    }

    /// Whether the time of the transfer is over.
    pub open spec fn time_is_over(self, now: u64) -> bool {
        self.marks matches Some(m) && since(now, m.started) >= self.duration_ns
    }

    /// The times, with the present one for those that are not there yet.
    pub open spec fn marks_at(self, now: u64) -> Marks {
        match self.marks {
            Some(m) => m,
            None => Marks { started: now, reported: now, sample_started: now },
        }
    }

    /// The progress that is reported when data comes in.
    pub open spec fn progress(self, n: nat, now: u64) -> Option<Progress> {
        let m = self.marks_at(now);
        if since(now, m.reported) >= PROGRESS_INTERVAL {
            Some(
                Progress {
                    elapsed_ns: since(now, m.started),
                    sample_bytes: (self.sample_bytes + n) as u64,
                    sample_ns: since(now, m.sample_started),
                },
            )
        } else {
            None
        }
    }

    /// The transfer with the sample under way completed.
    pub open spec fn sampled(self, window_ns: u64) -> TransferView {
        TransferView {
            sample_bytes: 0,
            samples: self.samples.push(
                SpeedSample {
                    second: (self.samples.len() + 1) as u64,
                    bytes: self.sample_bytes as u64,
                    duration_ns: window_ns,
                },
            ),
            ..self
        }
    }

    /// The transfer once `n` bytes have come in.
    pub open spec fn fed(self, n: nat, now: u64) -> TransferView {
        let m = self.marks_at(now);
        let reported = if self.progress(n, now) is Some {
            now
        } else {
            m.reported
        };
        let window = since(now, m.sample_started);
        let grown = TransferView {
            received: self.received + n,
            sample_bytes: self.sample_bytes + n,
            marks: Some(Marks { reported, ..m }),
            ..self
        };
        if window >= SAMPLE_INTERVAL {
            TransferView {
                marks: Some(Marks { reported, sample_started: now, ..m }),
                ..grown.sampled(window)
            }
        } else {
            grown
        }
    }

    /// The transfer with what is left of the last sample, at its end.
    pub open spec fn closed(self, now: u64) -> TransferView {
        if self.sample_bytes > 0 {
            self.sampled(
                match self.marks {
                    Some(m) => since(now, m.sample_started),
                    None => 0,
                },
            )
        } else {
            self
        }
    }

    /// How long the transfer took.
    pub open spec fn length(self, now: u64) -> u64 {
        match self.marks {
            Some(m) => since(now, m.started),
            None => 0,
        }
    }

    /// Whether the transfer was broken off: it is too short by more than is allowed.
    pub open spec fn ends_early(self, now: u64) -> bool {
        self.length(now) + EARLY_TOLERANCE < self.duration_ns
    }
}

/// What a transfer gave.
#[derive(Debug)]
pub struct TransferResult {
    /// Something came in, and the transfer took its time.
    pub success: bool,
    /// The bytes that came in.
    pub total_bytes: u64,
    /// How long it took, in nanoseconds.
    pub duration_ns: u64,
    /// The samples.
    pub samples: Vec<SpeedSample>,
    /// What is wrong with it.
    pub error: Option<String>,
}

impl Transfer {
    /// A transfer that has just been asked for.
    pub fn new(duration_ns: u64) -> (res: Transfer)
        ensures
            res@ == (TransferView {
                duration_ns,
                received: 0,
                marks: None,
                sample_bytes: 0,
                samples: Seq::empty(),
            }),
            res@ == new_transfer(duration_ns),
            res@.wf(),
    {
        let res = Transfer {
            duration_ns,
            received: 0,
            marks: None,
            sample_bytes: 0,
            samples: Vec::new(),
        };
        assert(res@.samples =~= Seq::<SpeedSample>::empty());
        res
    }

    /// Whether there is still something to read at a time.
    pub fn before_read(&self, now: u64, cancelled: bool) -> (res: BeforeRead)
        ensures
            match res {
                BeforeRead::Fail(e) => self@.failure(now, cancelled) == Some(e@),
                BeforeRead::Complete => self@.failure(now, cancelled) is None && self@.time_is_over(
                    now,
                ),
                BeforeRead::Read => self@.failure(now, cancelled) is None && !self@.time_is_over(now),
            },
    {
        if cancelled {
            return BeforeRead::Fail("测速已强制停止".to_owned());
        }
        match self.marks {
            Some(m) => {
                if elapsed(now, m.started) >= self.duration_ns {
                    BeforeRead::Complete
                } else {
                    BeforeRead::Read
                }
            },
            None => {
                if now >= FIRST_PACKET_TIMEOUT {
                    BeforeRead::Fail("测速连接未返回数据".to_owned())
                } else {
                    BeforeRead::Read
                }
            },
        }
    }

    /// Completes the sample under way.
    fn complete_sample(&mut self, window_ns: u64)
        requires
            old(self)@.wf(),
            old(self).sample_bytes > 0,
        ensures
            final(self)@ == old(self)@.sampled(window_ns),
            final(self)@.wf(),
    {
        proof {
            lemma_sample_total(self.samples@);
        }
        let second: u64 = self.samples.len() as u64 + 1;
        let sample = SpeedSample { second, bytes: self.sample_bytes, duration_ns: window_ns };
        self.samples.push(sample);
        self.sample_bytes = 0;
        assert(self.samples@.drop_last() =~= old(self).samples@);
        assert(self.samples@ =~= old(self)@.sampled(window_ns).samples);
    }

    /// Counts `n` bytes that have come in, and says what is to be reported.
    fn feed(&mut self, n: u64, now: u64) -> (res: Option<Progress>)
        requires
            old(self)@.wf(),
            n > 0,
            old(self).received + n <= u64::MAX,
        ensures
            final(self)@ == old(self)@.fed(n as nat, now),
            final(self)@.wf(),
            res == old(self)@.progress(n as nat, now),
    {
        let m = match self.marks {
            Some(m) => m,
            None => Marks { started: now, reported: now, sample_started: now },
        };
        self.received = self.received + n;
        self.sample_bytes = self.sample_bytes + n;
        let window: u64 = elapsed(now, m.sample_started);
        let mut marks = m;
        let progress = if elapsed(now, m.reported) >= PROGRESS_INTERVAL {
            marks.reported = now;
            Some(
                Progress {
                    elapsed_ns: elapsed(now, m.started),
                    sample_bytes: self.sample_bytes,
                    sample_ns: window,
                },
            )
        } else {
            None
        };
        self.marks = Some(marks);
        if window >= SAMPLE_INTERVAL {
            self.complete_sample(window);
            marks.sample_started = now;
            self.marks = Some(marks);
        }
        progress
    }

    /// What a read at a time leads to.
    pub fn after_read(&mut self, outcome: ReadOutcome, now: u64) -> (res: AfterRead)
        requires
            old(self)@.wf(),
            outcome matches ReadOutcome::Bytes(n) ==> old(self).received + n <= u64::MAX,
        ensures
            final(self)@.wf(),
            match outcome {
                ReadOutcome::Bytes(n) => if n == 0 {
                    &&& final(self)@ == old(self)@
                    &&& old(self)@.marks is None ==> (res matches AfterRead::Fail(e) && e@
                        == "测速连接未返回数据"@)
                    &&& old(self)@.marks is Some ==> res == AfterRead::Complete
                } else {
                    &&& final(self)@ == old(self)@.fed(n as nat, now)
                    &&& res == AfterRead::GoOn(old(self)@.progress(n as nat, now))
                },
                ReadOutcome::NotYet => final(self)@ == old(self)@ && res == AfterRead::GoOn(None),
                ReadOutcome::Failed(m) => {
                    &&& final(self)@ == old(self)@
                    &&& res matches AfterRead::Fail(e) && e@ == if old(self)@.marks is None {
                        "测速连接未返回数据"@
                    } else {
                        "读取数据失败: "@ + m@
                    }
                },
            },
    {
        match outcome {
            ReadOutcome::Bytes(n) => {
                if n == 0 {
                    if self.marks.is_none() {
                        return AfterRead::Fail("测速连接未返回数据".to_owned());
                    }
                    return AfterRead::Complete;
                }
                AfterRead::GoOn(self.feed(n as u64, now))
            },
            ReadOutcome::NotYet => AfterRead::GoOn(None),
            ReadOutcome::Failed(m) => {
                if self.marks.is_none() {
                    AfterRead::Fail("测速连接未返回数据".to_owned())
                } else {
                    AfterRead::Fail("读取数据失败: ".to_owned().concat(m.as_str()))
                }
            },
        }
    }

    /// What a complete transfer gave. One that ended too early is no success.
    pub fn finish(self, now: u64) -> (res: TransferResult)
        requires
            self@.wf(),
        ensures
            ({
                let length = self@.length(now);
                let early = self@.ends_early(now);
                &&& res.total_bytes == self@.received
                &&& res.duration_ns == length
                &&& res.samples@ == self@.closed(now).samples
                &&& sample_total(res.samples@) == res.total_bytes
                &&& self@.marks is Some ==> res.total_bytes > 0 && res.samples@.len() > 0
                &&& forall|i: int|
                    0 <= i < res.samples@.len() ==> (#[trigger] res.samples@[i]).bytes > 0
                        && res.samples@[i].second == i + 1
                &&& res.success == (self@.received > 0 && !early)
                &&& res.error is Some <==> early
                &&& res.error matches Some(e) ==> e@ == "测速连接在目标时长前结束"@
            }),
            self@.marks matches Some(m) ==> (now >= m.started ==> res.duration_ns == now
                - m.started),
            self@.time_is_over(now) && self@.received > 0 ==> res.success && res.error is None,
    {
        let mut transfer = self;
        let length: u64 = match transfer.marks {
            Some(m) => elapsed(now, m.started),
            None => 0,
        };
        if transfer.sample_bytes > 0 {
            let window: u64 = match transfer.marks {
                Some(m) => elapsed(now, m.sample_started),
                None => 0,
            };
            transfer.complete_sample(window);
        }
        let early = transfer.duration_ns > EARLY_TOLERANCE && length < transfer.duration_ns
            - EARLY_TOLERANCE;
        let error = if early {
            Some("测速连接在目标时长前结束".to_owned())
        } else {
            None
        };
        TransferResult {
            success: transfer.received > 0 && !early,
            total_bytes: transfer.received,
            duration_ns: length,
            samples: transfer.samples,
            error,
        }
    }
}

/// Whatever comes in, every byte is counted once: what the samples hold, with the one under way,
/// is what came in, and complete samples stay as they are.
pub proof fn law_samples_account_for_every_byte(transfer: TransferView, n: nat, now: u64)
    requires
        transfer.wf(),
        n > 0,
        transfer.received + n <= u64::MAX,
    ensures
        transfer.fed(n, now).wf(),
        transfer.fed(n, now).received == transfer.received + n,
        transfer.samples.len() <= transfer.fed(n, now).samples.len(),
        forall|i: int|
            0 <= i < transfer.samples.len() ==> #[trigger] transfer.fed(n, now).samples[i]
                == transfer.samples[i],
        transfer.fed(n, now).closed(now).wf(),
        sample_total(transfer.fed(n, now).closed(now).samples) == transfer.received + n,
{
    let fed = transfer.fed(n, now);
    lemma_sample_total(transfer.samples);
    assert(fed.samples.len() > transfer.samples.len() ==> fed.samples.drop_last()
        =~= transfer.samples);
    lemma_sample_total(fed.samples);
    assert(fed.closed(now).samples.len() > fed.samples.len() ==> fed.closed(now).samples.drop_last()
        =~= fed.samples);
}

/// Data that keeps coming does not keep a transfer going: once its time is over, nothing more is
/// read. Without any data nothing more is read after the first timeout.
pub proof fn law_transfer_ends_in_time(transfer: TransferView, now: u64)
    ensures
        transfer.marks matches Some(m) ==> (now >= m.started + transfer.duration_ns
            ==> transfer.time_is_over(now)),
        transfer.marks is None && now >= FIRST_PACKET_TIMEOUT ==> transfer.failure(now, false) is Some,
        transfer.failure(now, true) is Some,
{
}

// ----- series of reads -----

/// So many bytes that came in at a time.
pub struct Arrival {
    pub bytes: nat,
    pub at: u64,
}

/// A transfer that has just been asked for.
pub open spec fn new_transfer(duration_ns: u64) -> TransferView {
    TransferView {
        duration_ns,
        received: 0,
        marks: None,
        sample_bytes: 0,
        samples: Seq::empty(),
    }
}

/// A transfer after a series of reads.
pub open spec fn transfer_after(duration_ns: u64, arrivals: Seq<Arrival>) -> TransferView
    decreases arrivals.len(),
{
    if arrivals.len() == 0 {
        new_transfer(duration_ns)
    } else {
        transfer_after(duration_ns, arrivals.drop_last()).fed(
            arrivals.last().bytes,
            arrivals.last().at,
        )
    }
}

/// All the bytes of a series of reads.
pub open spec fn bytes_of(arrivals: Seq<Arrival>) -> nat
    decreases arrivals.len(),
{
    if arrivals.len() == 0 {
        0
    } else {
        bytes_of(arrivals.drop_last()) + arrivals.last().bytes
    }
}

/// Reads that each brought something, one after the other in time, and no more than can be counted.
pub open spec fn in_time(arrivals: Seq<Arrival>) -> bool {
    &&& forall|i: int| 0 <= i < arrivals.len() ==> (#[trigger] arrivals[i]).bytes > 0
    &&& forall|i: int, j: int|
        0 <= i <= j < arrivals.len() ==> (#[trigger] arrivals[i]).at <= (#[trigger] arrivals[j]).at
    &&& bytes_of(arrivals) <= u64::MAX
}

/// The time that the samples took.
pub open spec fn sampled_ns(samples: Seq<SpeedSample>) -> nat
    decreases samples.len(),
{
    if samples.len() == 0 {
        0
    } else {
        sampled_ns(samples.drop_last()) + samples.last().duration_ns as nat
    }
}

/// What holds of a transfer after any series of reads.
proof fn lemma_transfer_after(duration_ns: u64, arrivals: Seq<Arrival>)
    requires
        in_time(arrivals),
    ensures
        ({
            let t = transfer_after(duration_ns, arrivals);
            &&& t.wf()
            &&& t.duration_ns == duration_ns
            &&& t.received == bytes_of(arrivals)
            &&& arrivals.len() == 0 <==> t.marks is None
            &&& arrivals.len() > 0 ==> {
                let m = t.marks->0;
                let last = arrivals.last().at;
                &&& m.started == arrivals[0].at
                &&& m.started <= m.sample_started <= last
                &&& m.started <= m.reported <= last
                &&& last - m.reported < PROGRESS_INTERVAL
                &&& last - m.sample_started < SAMPLE_INTERVAL
                &&& sampled_ns(t.samples) == m.sample_started - m.started
            }
            &&& forall|i: int|
                0 <= i < t.samples.len() ==> (#[trigger] t.samples[i]).duration_ns >= SAMPLE_INTERVAL
        }),
    decreases arrivals.len(),
{
    if arrivals.len() > 0 {
        let rest = arrivals.drop_last();
        let (n, now) = (arrivals.last().bytes, arrivals.last().at);
        assert forall|i: int| 0 <= i < rest.len() implies (#[trigger] rest[i]).bytes > 0 by {
            assert(rest[i] == arrivals[i]);
        }
        assert forall|i: int, j: int| 0 <= i <= j < rest.len() implies (#[trigger] rest[i]).at <= (
        #[trigger] rest[j]).at by {
            assert(rest[i] == arrivals[i] && rest[j] == arrivals[j]);
        }
        assert(arrivals[arrivals.len() - 1].bytes > 0);
        lemma_transfer_after(duration_ns, rest);
        let before = transfer_after(duration_ns, rest);
        let after = before.fed(n, now);
        law_samples_account_for_every_byte(before, n, now);
        if rest.len() > 0 {
            assert(rest[0] == arrivals[0]);
            assert(rest.last() == arrivals[arrivals.len() - 2]);
            assert(arrivals[arrivals.len() - 2].at <= arrivals[arrivals.len() - 1].at);
        }
        if after.samples.len() > before.samples.len() {
            assert(after.samples.drop_last() =~= before.samples);
            assert forall|i: int| 0 <= i < after.samples.len() implies (
            #[trigger] after.samples[i]).duration_ns >= SAMPLE_INTERVAL by {
                if i < before.samples.len() {
                    assert(after.samples[i] == before.samples[i]);
                }
            }
        } else {
            assert(after.samples =~= before.samples);
        }
    }
}

/// The time of a transfer counts from its first data to its end, whatever comes in between: over any
/// series of reads, the length at a time is how long ago the first of them was. All the bytes that
/// came in are counted.
pub proof fn law_time_counts_from_the_first_data(
    duration_ns: u64,
    arrivals: Seq<Arrival>,
    now: u64,
)
    requires
        in_time(arrivals),
        arrivals.len() > 0,
        now >= arrivals[0].at,
    ensures
        ({
            let t = transfer_after(duration_ns, arrivals);
            &&& t.length(now) == now - arrivals[0].at
            &&& t.received == bytes_of(arrivals)
            &&& t.time_is_over(now) <==> now - arrivals[0].at >= duration_ns
            &&& t.failure(now, false) is None
        }),
{
    lemma_transfer_after(duration_ns, arrivals);
}

/// A transfer whose time is over has taken its time: it is no longer read from, it does not count as
/// broken off, and something has come in, so that it is a success.
pub proof fn law_complete_transfer_succeeds(duration_ns: u64, arrivals: Seq<Arrival>, now: u64)
    requires
        in_time(arrivals),
        transfer_after(duration_ns, arrivals).time_is_over(now),
    ensures
        ({
            let t = transfer_after(duration_ns, arrivals);
            &&& arrivals.len() > 0
            &&& t.received > 0
            &&& t.length(now) >= duration_ns
            &&& !t.ends_early(now)
            &&& now >= arrivals[0].at ==> t.length(now) == now - arrivals[0].at
            &&& t.failure(now, false) is None
        }),
{
    lemma_transfer_after(duration_ns, arrivals);
    assert(arrivals[0].bytes > 0);
}

/// One that ended with more than a quarter of a second to go counts as broken off, and one that ended
/// with less to go does not.
pub proof fn law_early_end_is_told(duration_ns: u64, arrivals: Seq<Arrival>, now: u64)
    requires
        in_time(arrivals),
        arrivals.len() > 0,
        now >= arrivals[0].at,
    ensures
        ({
            let t = transfer_after(duration_ns, arrivals);
            let gone = now - arrivals[0].at;
            t.ends_early(now) <==> gone + 250_000_000 < duration_ns
        }),
{
    lemma_transfer_after(duration_ns, arrivals);
}

/// Without any data nothing is read after the first three seconds, and before that it is. A run that
/// was asked to stop fails at any time.
pub proof fn law_first_data_comes_in_time(duration_ns: u64, now: u64)
    ensures
        new_transfer(duration_ns).failure(now, false) is Some <==> now >= 3_000_000_000,
        !new_transfer(duration_ns).time_is_over(now),
        new_transfer(duration_ns).failure(now, true) is Some,
        new_transfer(duration_ns).wf(),
{
}

/// Progress is reported when data comes in a fifth of a second or more after the last report, or after
/// the first data, and not before. What is reported is the time since the first data.
pub proof fn law_progress_tells_the_time_since_the_first_data(
    duration_ns: u64,
    arrivals: Seq<Arrival>,
    n: nat,
    now: u64,
)
    requires
        in_time(arrivals),
        arrivals.len() > 0,
        now >= arrivals.last().at,
        transfer_after(duration_ns, arrivals).received + n <= u64::MAX,
    ensures
        ({
            let t = transfer_after(duration_ns, arrivals);
            &&& t.progress(n, now) is Some <==> now - t.marks->0.reported >= 200_000_000
            &&& t.progress(n, now) matches Some(p) ==> {
                &&& p.elapsed_ns == now - arrivals[0].at
                &&& p.sample_bytes == t.received + n - sample_total(t.samples)
                &&& p.sample_ns == now - arrivals[0].at - sampled_ns(t.samples)
                &&& t.fed(n, now).marks->0.reported == now
            }
            &&& t.progress(n, now) is None ==> t.fed(n, now).marks->0.reported
                == t.marks->0.reported
        }),
{
    lemma_transfer_after(duration_ns, arrivals);
    assert(arrivals[0].at <= arrivals[arrivals.len() - 1].at);
}

/// The samples are a second long or longer, but for the last one, are numbered from 1 on, and between
/// them cover the whole time from the first data to the end of a transfer that ends with a sample
/// under way.
pub proof fn law_samples_cover_the_time(duration_ns: u64, arrivals: Seq<Arrival>, now: u64)
    requires
        in_time(arrivals),
        arrivals.len() > 0,
        now >= arrivals.last().at,
    ensures
        ({
            let t = transfer_after(duration_ns, arrivals);
            let end = t.closed(now);
            &&& forall|i: int|
                0 <= i < t.samples.len() ==> (#[trigger] t.samples[i]).duration_ns >= 1_000_000_000
                    && t.samples[i].second == i + 1
            &&& t.sample_bytes > 0 ==> end.samples.len() == t.samples.len() + 1
                && end.samples.last().bytes == t.sample_bytes && sampled_ns(end.samples) == now
                - arrivals[0].at
            &&& t.sample_bytes == 0 ==> end.samples == t.samples
            &&& sample_total(end.samples) == bytes_of(arrivals)
        }),
{
    lemma_transfer_after(duration_ns, arrivals);
    let t = transfer_after(duration_ns, arrivals);
    assert(arrivals[0].at <= arrivals[arrivals.len() - 1].at);
    lemma_sample_total(t.samples);
    if t.sample_bytes > 0 {
        assert(t.closed(now).samples.drop_last() =~= t.samples);
    }
}

/// A request is taken exactly where it could be read, its time lies between five seconds and two
/// minutes, and it names a host and a port. Each other one is refused as wrong parameters.
pub proof fn law_request_is_checked(params: Result<TcpSpeedTestParams, String>)
    ensures
        request_error(params) is None <==> (params matches Ok(p) && 5 <= p.duration_seconds
            && p.duration_seconds <= 120 && p.host@.len() > 0 && p.port != 0),
        request_error(params) matches Some(e) ==> e.code == "INVALID_PARAMS"@,
        duration_complaint(params) is Some ==> request_error(params) is Some,
{
}

/// A sample is complete once a second has gone by since it began, and progress is reported once a fifth
/// of a second has gone by since the last report; neither comes before.
pub proof fn law_samples_are_a_second_long(t: TransferView, n: nat, now: u64)
    requires
        t.marks is Some,
        t.marks->0.sample_started <= now,
        t.marks->0.reported <= now,
    ensures
        t.fed(n, now).samples.len() == t.samples.len() + 1 <==> now - t.marks->0.sample_started
            >= 1_000_000_000,
        t.fed(n, now).samples.len() == t.samples.len() <==> now - t.marks->0.sample_started
            < 1_000_000_000,
        t.progress(n, now) is Some <==> now - t.marks->0.reported >= 200_000_000,
{
}

} // verus!
