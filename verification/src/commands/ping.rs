//! Echo requests to a host, through the `ping` program.
use super::low_u32;
use crate::text::{decimal, decimal_text, is_digit, to_chars, views};
use vstd::prelude::*;
use vstd::string::*;

verus! {

/// How many requests are sent where nothing is said.
pub const DEFAULT_COUNT: u32 = 4;

/// What a ping is asked for with.
#[derive(Debug)]
pub struct PingParams {
    pub host: String,
    pub count: u32,
}

/// What the first group of every match of a regular expression in a text holds, in their order;
/// nothing where the expression is none.
pub uninterp spec fn group_matches(pattern: Seq<char>, text: Seq<char>) -> Option<
    Seq<Option<Seq<char>>>,
>;

/// The model of the groups that were found.
pub open spec fn groups_view(groups: Option<Vec<Option<String>>>) -> Option<Seq<Option<Seq<char>>>> {
    match groups {
        Some(v) => Some(group_views(v@)),
        None => None,
    }
}

/// The models of groups.
pub open spec fn group_views(groups: Seq<Option<String>>) -> Seq<Option<Seq<char>>> {
    groups.map_values(|g: Option<String>| crate::text::opt_view(g))
}

/// `regex::Regex::new` and its `captures_iter`: the first group of every match, in their order. The
/// expression and the text alone decide what comes back.
#[verifier::external_body]
fn first_groups(pattern: &str, text: &str) -> (res: Option<Vec<Option<String>>>)
    ensures
        groups_view(res) == group_matches(pattern@, text@),
{
    let regex = regex::Regex::new(pattern).ok()?;
    Some(regex.captures_iter(text).map(|c| c.get(1).map(|m| m.as_str().to_string())).collect())
}

/// The expression that finds the round-trip times in what `ping` prints.
pub open spec fn time_pattern() -> Seq<char> {
    "time[=<]\\s*(\\d+(?:\\.\\d+)?)\\s*ms"@
}

/// The arguments that `ping` is called with.
pub open spec fn ping_arguments(host: Seq<char>, count: u32) -> Seq<Seq<char>> {
    seq!["-c"@, decimal(count as nat), "-W"@, "3"@, host]
}

/// The arguments that `ping` is called with: so many requests, three seconds for each answer.
pub fn ping_args(host: &str, count: u32) -> (res: Vec<String>)
    ensures
        views(res@) == ping_arguments(host@, count),
{
    let mut args: Vec<String> = Vec::new();
    args.push("-c".to_owned());
    args.push(decimal_text(count as u64));
    args.push("-W".to_owned());
    args.push("3".to_owned());
    args.push(host.to_owned());
    assert(views(args@) =~= ping_arguments(host@, count));
    args
}

/// Whether a text is a number of milliseconds: ASCII digits, with a point and more of them behind
/// it or without.
pub open spec fn is_time(s: Seq<char>) -> bool {
    exists|k: int| #[trigger] splits_as_time(s, k)
}

/// Whether a text is a number whose point, if it has one, is at position `k`.
pub open spec fn splits_as_time(s: Seq<char>, k: int) -> bool {
    &&& 0 < k <= s.len()
    &&& forall|i: int| 0 <= i < k ==> is_digit(#[trigger] s[i])
    &&& k < s.len() ==> s[k] == '.' && k + 1 < s.len()
    &&& forall|i: int| k < i < s.len() ==> is_digit(#[trigger] s[i])
}

/// The times among the groups.
pub open spec fn times_in(groups: Seq<Option<Seq<char>>>) -> Seq<Seq<char>>
    decreases groups.len(),
{
    if groups.len() == 0 {
        Seq::empty()
    } else {
        match groups.last() {
            Some(s) => if is_time(s) {
                times_in(groups.drop_last()).push(s)
            } else {
                times_in(groups.drop_last())
            },
            None => times_in(groups.drop_last()),
        }
    }
}

/// Whether a text is a number of milliseconds.
pub fn reads_as_time(s: &str) -> (res: bool)
    ensures
        res == is_time(s@),
{
    let chars = to_chars(s);
    let n: usize = chars.len();
    let mut k: usize = 0;
    while k < n && '0' <= chars[k] && chars[k] <= '9'
        invariant
            n == chars@.len(),
            chars@ == s@,
            k <= n,
            forall|i: int| 0 <= i < k ==> is_digit(#[trigger] s@[i]),
        decreases n - k,
    {
        k = k + 1;
    }
    let ghost stop = k as int;
    assert(forall|j: int| splits_as_time(s@, j) ==> j == stop) by {
        assert forall|j: int| splits_as_time(s@, j) implies j == stop by {
            if j < stop {
                assert(is_digit(s@[j]));
            } else if j > stop {
                assert(is_digit(s@[stop]));
            }
        }
    }
    if k == 0 {
        return false;
    }
    if k == n {
        assert(splits_as_time(s@, stop));
        return true;
    }
    if chars[k] != '.' || k + 1 == n {
        return false;
    }
    let mut i: usize = k + 1;
    while i < n
        invariant
            n == chars@.len(),
            chars@ == s@,
            k < i <= n,
            stop == k,
            forall|j: int| splits_as_time(s@, j) ==> j == stop,
            forall|j: int| k < j < i ==> is_digit(#[trigger] s@[j]),
        decreases n - i,
    {
        if chars[i] < '0' || chars[i] > '9' {
            assert(!is_digit(s@[i as int]));
            return false;
        }
        i = i + 1;
    }
    assert(splits_as_time(s@, stop));
    true
}

/// What a ping gave: the round-trip times in words, and how many requests got no answer.
#[derive(Debug)]
pub struct PingReplies {
    pub times: Vec<String>,
    pub loss: u32,
}

/// How many of the requests got no answer.
pub open spec fn ping_loss(count: u32, received: nat) -> u32 {
    let counted = (received % 0x1_0000_0000) as u32;
    if counted < count {
        (count - counted) as u32
    } else {
        0
    }
}

/// The times among the groups that were found, and how many requests got no answer.
pub fn read_replies(groups: Vec<Option<String>>, count: u32) -> (res: PingReplies)
    ensures
        views(res.times@) == times_in(group_views(groups@)),
        res.loss == ping_loss(count, times_in(group_views(groups@)).len()),
{
    let ghost all = group_views(groups@);
    let mut times: Vec<String> = Vec::new();
    let mut i: usize = 0;
    assert(all.take(0) =~= Seq::<Option<Seq<char>>>::empty());
    assert(views(times@) =~= times_in(all.take(0)));
    while i < groups.len()
        invariant
            i <= groups@.len(),
            all == group_views(groups@),
            views(times@) == times_in(all.take(i as int)),
        decreases groups@.len() - i,
    {
        assert(all.take(i + 1).drop_last() =~= all.take(i as int));
        assert(all.take(i + 1).last() == crate::text::opt_view(groups@[i as int]));
        let ghost before = views(times@);
        if let Some(s) = &groups[i] {
            if reads_as_time(s.as_str()) {
                let t = s.as_str().to_owned();
                times.push(t);
                assert(views(times@) =~= before.push(t@));
            }
        }
        i = i + 1;
    }
    assert(all.take(i as int) =~= all);
    let received: u32 = low_u32(times.len() as u64);
    assert(views(times@).len() == times@.len());
    let loss: u32 = count.saturating_sub(received);
    PingReplies { times, loss }
}

/// What a ping that printed this gave. One that could not be run lost every request.
pub fn run_ping(printed: Option<&str>, count: u32) -> (res: PingReplies)
    ensures
        ({
            let groups = match printed {
                Some(text) => match group_matches(time_pattern(), text@) {
                    Some(g) => g,
                    None => Seq::empty(),
                },
                None => Seq::empty(),
            };
            &&& views(res.times@) == times_in(groups)
            &&& res.loss == ping_loss(count, times_in(groups).len())
        }),
{
    if let Some(text) = printed {
        if let Some(groups) = first_groups("time[=<]\\s*(\\d+(?:\\.\\d+)?)\\s*ms", text) {
            return read_replies(groups, count);
        }
    }
    let none: Vec<Option<String>> = Vec::new();
    assert(group_views(none@) =~= Seq::<Option<Seq<char>>>::empty());
    read_replies(none, count)
}

/// The times are the groups that are numbers, all of them and in their order.
pub proof fn law_times_are_the_numbers_found(groups: Seq<Option<Seq<char>>>)
    ensures
        times_in(groups) == groups.filter(
            |g: Option<Seq<char>>| g is Some && is_time(g->0),
        ).map_values(|g: Option<Seq<char>>| g->0),
    decreases groups.len(),
{
    reveal(Seq::filter);
    let keep = |g: Option<Seq<char>>| g is Some && is_time(g->0);
    let text = |g: Option<Seq<char>>| g->0;
    if groups.len() > 0 {
        law_times_are_the_numbers_found(groups.drop_last());
    }
    assert(times_in(groups) =~= groups.filter(keep).map_values(text));
}

/// Every request is either answered or lost: the answers and the losses make the requests, as long as
/// no more answers come than requests were sent, and then none is lost.
pub proof fn law_requests_are_answered_or_lost(count: u32, received: nat)
    requires
        received <= u32::MAX,
    ensures
        received <= count ==> ping_loss(count, received) + received == count,
        received > count ==> ping_loss(count, received) == 0,
{
}

/// The program is called with the number of requests behind `-c`, three seconds for each answer behind
/// `-W`, and the host at the end.
pub proof fn law_ping_is_sent_to_the_host(host: Seq<char>, count: u32)
    ensures
        ping_arguments(host, count).last() == host,
        ping_arguments(host, count).take(4) == seq!["-c"@, decimal(count as nat), "-W"@, "3"@],
        ping_arguments(host, count).len() == 5,
{
    assert(ping_arguments(host, count).take(4) =~= seq!["-c"@, decimal(count as nat), "-W"@, "3"@]);
}

/// A whole number is a time, and so is one with a point and more digits; nothing else that has another
/// character in it is.
pub proof fn law_times_are_numbers(a: nat, b: nat, s: Seq<char>)
    ensures
        is_time(decimal(a)),
        is_time(decimal(a) + seq!['.'] + decimal(b)),
        is_time(s) ==> s.len() > 0 && forall|i: int|
            0 <= i < s.len() ==> is_digit(#[trigger] s[i]) || s[i] == '.',
        is_time(s) ==> is_digit(s[0]) && is_digit(s.last()),
{
    crate::text::law_decimal_denotes(a);
    crate::text::law_decimal_denotes(b);
    let x = decimal(a);
    let y = x + seq!['.'] + decimal(b);
    let n = x.len() as int;
    assert(splits_as_time(x, n));
    assert forall|i: int| 0 <= i < n implies is_digit(#[trigger] y[i]) by {
        assert(y[i] == x[i]);
    }
    assert forall|i: int| n < i < y.len() implies is_digit(#[trigger] y[i]) by {
        assert(y[i] == decimal(b)[i - n - 1]);
    }
    assert(splits_as_time(y, n));
    if is_time(s) {
        let k = choose|k: int| splits_as_time(s, k);
        assert(is_digit(s[0]));
        if k == s.len() {
            assert(is_digit(s[k - 1]));
        } else {
            assert(is_digit(s[s.len() - 1]));
        }
    }
}

} // verus!
