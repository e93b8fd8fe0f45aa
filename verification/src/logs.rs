//! Log files: which are too old, and what their newest lines are.
use crate::text::{
    begins_with, join, join_path, joined, opt_view, path_join, starts_with, to_chars, views,
};
use vstd::prelude::*;
use vstd::string::*;

verus! {

/// The directory of the log files.
pub fn log_dir(data_dir: &str) -> (res: String)
    ensures
        res@ == path_join(data_dir@, "logs"@),
{
    join_path(data_dir, "logs")
}

/// Whether a file name is that of a log file.
pub open spec fn is_log_name(name: Seq<char>) -> bool {
    begins_with(name, "daemon.log"@)
}

// ----- cleaning up -----

/// A file in the directory of the log files.
#[derive(Debug)]
pub struct LogFile {
    pub name: String,
    /// When it was written last, in nanoseconds since 1970, where that is known.
    pub modified_ns: Option<u128>,
}

/// The nanoseconds of a number of days.
pub open spec fn days_ns(days: u64) -> int {
    days * 86_400 * 1_000_000_000
}

/// Whether a file is a log file that was written last more than so many days ago.
pub open spec fn is_expired(file: LogFile, now_ns: u128, retention_days: u64) -> bool {
    &&& retention_days > 0
    &&& is_log_name(file.name@)
    &&& file.modified_ns matches Some(t) && t < now_ns - days_ns(retention_days)
}

/// Whether a file is to be removed: it is a log file that was written last more than so many days
/// ago. With 0 days none is.
pub fn cleanup_old_logs(file: &LogFile, now_ns: u128, retention_days: u64) -> (res: bool)
    requires
        retention_days * 86_400 <= u64::MAX,
    ensures
        res == is_expired(*file, now_ns, retention_days),
{
    if retention_days == 0 {
        return false;
    }
    if !starts_with(file.name.as_str(), "daemon.log") {
        return false;
    }
    let keep: u128 = (retention_days * 86_400) as u128 * 1_000_000_000;
    match file.modified_ns {
        Some(t) => t < now_ns && now_ns - t > keep,
        None => false,
    }
}

/// Nothing is removed without a limit, nothing that is no log file, and nothing that is as new as
/// the limit. What is removed under one limit is removed under every shorter one.
pub proof fn law_only_old_logs_go(file: LogFile, now_ns: u128, days: u64, fewer: u64)
    requires
        0 < fewer <= days,
    ensures
        !is_expired(file, now_ns, 0),
        !is_log_name(file.name@) ==> !is_expired(file, now_ns, days),
        file.modified_ns is None ==> !is_expired(file, now_ns, days),
        is_expired(file, now_ns, days) ==> is_expired(file, now_ns, fewer),
{
}

// ----- file names in order -----

/// Whether `a` comes before `b`, or is equal to it, character by character.
pub open spec fn text_le(a: Seq<char>, b: Seq<char>) -> bool
    decreases a.len(),
{
    if a.len() == 0 {
        true
    } else if b.len() == 0 {
        false
    } else if a[0] != b[0] {
        a[0] < b[0]
    } else {
        text_le(a.drop_first(), b.drop_first())
    }
}

/// Whether `a` comes before `b`, or is equal to it, character by character.
pub fn text_before(a: &str, b: &str) -> (res: bool)
    ensures
        res == text_le(a@, b@),
{
    let x = to_chars(a);
    let y = to_chars(b);
    let mut i: usize = 0;
    assert(a@.skip(0) =~= a@);
    assert(b@.skip(0) =~= b@);
    while i < x.len() && i < y.len()
        invariant
            x@ == a@,
            y@ == b@,
            i <= x@.len(),
            i <= y@.len(),
            text_le(a@, b@) == text_le(a@.skip(i as int), b@.skip(i as int)),
        decreases x@.len() - i,
    {
        assert(a@.skip(i as int).drop_first() =~= a@.skip(i + 1));
        assert(b@.skip(i as int).drop_first() =~= b@.skip(i + 1));
        if x[i] != y[i] {
            return x[i] < y[i];
        }
        i = i + 1;
    }
    i >= x.len()
}

/// The order is total: of two texts one comes first, and it passes on.
proof fn lemma_text_le_total(a: Seq<char>, b: Seq<char>)
    ensures
        text_le(a, b) || text_le(b, a),
    decreases a.len(),
{
    if a.len() > 0 && b.len() > 0 && a[0] == b[0] {
        lemma_text_le_total(a.drop_first(), b.drop_first());
    }
}

/// The order passes on.
proof fn lemma_text_le_transitive(a: Seq<char>, b: Seq<char>, c: Seq<char>)
    requires
        text_le(a, b),
        text_le(b, c),
    ensures
        text_le(a, c),
    decreases a.len(),
{
    if a.len() > 0 && b.len() > 0 && c.len() > 0 && a[0] == b[0] && b[0] == c[0] {
        lemma_text_le_transitive(a.drop_first(), b.drop_first(), c.drop_first());
    }
}

/// The names stand in their order.
pub open spec fn in_order(names: Seq<Seq<char>>) -> bool {
    forall|i: int, j: int|
        0 <= i <= j < names.len() ==> text_le(#[trigger] names[i], #[trigger] names[j])
}

/// Where a name goes among names in their order: behind all that come before it.
fn place_of(names: &Vec<String>, name: &str) -> (res: usize)
    requires
        in_order(views(names@)),
    ensures
        res <= names@.len(),
        forall|i: int| 0 <= i < res ==> text_le(#[trigger] views(names@)[i], name@),
        forall|i: int| res <= i < names@.len() ==> text_le(name@, #[trigger] views(names@)[i]),
{
    let mut i: usize = 0;
    while i < names.len() && text_before(names[i].as_str(), name)
        invariant
            i <= names@.len(),
            forall|k: int| 0 <= k < i ==> text_le(#[trigger] views(names@)[k], name@),
        decreases names@.len() - i,
    {
        i = i + 1;
    }
    proof {
        if i < names@.len() {
            let first = views(names@)[i as int];
            lemma_text_le_total(first, name@);
            assert forall|k: int| i <= k < names@.len() implies text_le(
                name@,
                #[trigger] views(names@)[k],
            ) by {
                lemma_text_le_transitive(name@, first, views(names@)[k]);
            }
        }
    }
    i
}

/// The names of log files among others.
pub open spec fn log_names(names: Seq<Seq<char>>) -> Seq<Seq<char>> {
    names.filter(|n: Seq<char>| is_log_name(n))
}

/// The names of the log files among the names of a directory, in their order: oldest first, since
/// they end with their dates.
pub fn log_files(names: &Vec<String>) -> (res: Vec<String>)
    ensures
        in_order(views(res@)),
        views(res@).to_multiset() == log_names(views(names@)).to_multiset(),
{
    let ghost all = views(names@);
    let ghost keep = |n: Seq<char>| is_log_name(n);
    let mut out: Vec<String> = Vec::new();
    let mut i: usize = 0;
    proof {
        reveal(Seq::filter);
        assert(all.take(0) =~= Seq::<Seq<char>>::empty());
        assert(views(out@) =~= Seq::<Seq<char>>::empty());
        assert(all.take(0).filter(keep) =~= Seq::<Seq<char>>::empty());
    }
    while i < names.len()
        invariant
            i <= names@.len(),
            all == views(names@),
            keep == (|n: Seq<char>| is_log_name(n)),
            in_order(views(out@)),
            views(out@).to_multiset() == all.take(i as int).filter(keep).to_multiset(),
        decreases names@.len() - i,
    {
        assert(all.take(i + 1) =~= all.take(i as int).push(all[i as int]));
        proof {
            crate::text::lemma_filter_push(all.take(i as int), all[i as int], keep);
        }
        if starts_with(names[i].as_str(), "daemon.log") {
            let ghost before = views(out@);
            let name = names[i].as_str().to_owned();
            let at: usize = place_of(&out, name.as_str());
            out.insert(at, name);
            proof {
                let after = views(out@);
                assert(after =~= before.insert(at as int, name@));
                assert forall|a: int, b: int| 0 <= a <= b < after.len() implies text_le(
                    #[trigger] after[a],
                    #[trigger] after[b],
                ) by {
                    if a == b {
                        lemma_text_le_total(after[a], after[a]);
                    } else {
                        let x = if a < at {
                            a
                        } else {
                            a - 1
                        };
                        let y = if b < at {
                            b
                        } else {
                            b - 1
                        };
                        if a != at {
                            assert(after[a] == before[x]);
                        }
                        if b != at {
                            assert(after[b] == before[y]);
                        }
                    }
                }
                before.to_multiset_ensures();
                vstd::seq_lib::to_multiset_insert(before, at as int, name@);
                all.take(i as int).filter(keep).to_multiset_ensures();
            }
        }
        i = i + 1;
    }
    assert(all.take(i as int) =~= all);
    out
}

// ----- the newest lines -----

/// The last `n` of some lines, or all of them where there are fewer.
pub open spec fn last_lines(lines: Seq<Seq<char>>, n: nat) -> Seq<Seq<char>> {
    if lines.len() <= n {
        lines
    } else {
        lines.skip(lines.len() - n)
    }
}

/// The newest lines, collected from the newest file back.
#[derive(Debug)]
pub struct LogTail {
    /// How many lines are wanted.
    pub wanted: usize,
    /// The lines collected so far, oldest first.
    pub lines: Vec<String>,
    /// Whether no older file is needed.
    pub full: bool,
}

impl LogTail {
    /// Nothing was collected yet.
    pub fn new(wanted: usize) -> (res: LogTail)
        ensures
            res.wanted == wanted,
            views(res.lines@) == Seq::<Seq<char>>::empty(),
            !res.full,
    {
        let res = LogTail { wanted, lines: Vec::new(), full: false };
        assert(views(res.lines@) =~= Seq::<Seq<char>>::empty());
        res
    }

    /// What is collected is the end of `all`, and the whole of it unless no older file is needed.
    pub open spec fn holds(self, all: Seq<Seq<char>>) -> bool {
        &&& views(self.lines@) == last_lines(all, self.wanted as nat)
        &&& self.full <==> all.len() > 0 && all.len() >= self.wanted
    }

    /// Takes in the lines of the next older file, as far as they are wanted. Nothing changes once no
    /// older file is needed.
    pub fn add_older(&mut self, file: &Vec<String>)
        ensures
            final(self).wanted == old(self).wanted,
            forall|all: Seq<Seq<char>>| #[trigger]
                old(self).holds(all) ==> final(self).holds(views(file@) + all),
    {
        if self.full || file.len() == 0 {
            proof {
                assert forall|all: Seq<Seq<char>>| #[trigger] old(self).holds(all) implies self.holds(
                    views(file@) + all,
                ) by {
                    let more = views(file@) + all;
                    if file@.len() == 0 {
                        assert(more =~= all);
                    } else {
                        assert(last_lines(more, self.wanted as nat) =~= last_lines(
                            all,
                            self.wanted as nat,
                        ));
                    }
                }
            }
            return;
        }
        let have: usize = self.lines.len();
        let missing: usize = if self.wanted > have {
            self.wanted - have
        } else {
            0
        };
        let start: usize = if file.len() >= missing {
            file.len() - missing
        } else {
            0
        };
        let ghost older = views(file@);
        let ghost newer = views(self.lines@);
        let mut combined: Vec<String> = Vec::new();
        let mut i: usize = start;
        assert(views(combined@) =~= older.subrange(start as int, start as int));
        while i < file.len()
            invariant
                start <= i <= file@.len(),
                older == views(file@),
                views(combined@) == older.subrange(start as int, i as int),
            decreases file@.len() - i,
        {
            let ghost before = views(combined@);
            let line = file[i].as_str().to_owned();
            combined.push(line);
            assert(views(combined@) =~= before.push(line@));
            i = i + 1;
            assert(views(combined@) =~= older.subrange(start as int, i as int));
        }
        let ghost first = views(combined@);
        let mut k: usize = 0;
        assert(views(combined@) =~= first + newer.take(0));
        while k < self.lines.len()
            invariant
                k <= self.lines@.len(),
                newer == views(self.lines@),
                *self == *old(self),
                views(combined@) == first + newer.take(k as int),
            decreases self.lines@.len() - k,
        {
            let ghost before = views(combined@);
            let line = self.lines[k].as_str().to_owned();
            combined.push(line);
            assert(views(combined@) =~= before.push(line@));
            k = k + 1;
            assert(views(combined@) =~= first + newer.take(k as int));
        }
        assert(newer.take(k as int) =~= newer);
        let enough = file.len() >= missing;
        self.full = enough;
        self.lines = combined;
        proof {
            assert forall|all: Seq<Seq<char>>| #[trigger] old(self).holds(all) implies self.holds(
                older + all,
            ) by {
                let w = self.wanted as nat;
                assert(all.len() == 0 || all.len() < w);
                assert(newer =~= all);
                assert(views(self.lines@) == older.subrange(start as int, older.len() as int) + all);
                assert(views(self.lines@) =~= last_lines(older + all, w));
            }
        }
    }

    /// The text of the lines, where there are any.
    pub fn text(&self) -> (res: Option<String>)
        ensures
            opt_view(res) == if self.lines@.len() == 0 {
                None
            } else {
                Some(joined(views(self.lines@), "\n"@))
            },
    {
        if self.lines.len() == 0 {
            None
        } else {
            Some(join(&self.lines, "\n"))
        }
    }
}

/// All lines of some files, one file after the other.
pub open spec fn all_lines(files: Seq<Seq<Seq<char>>>) -> Seq<Seq<char>>
    decreases files.len(),
{
    if files.len() == 0 {
        Seq::empty()
    } else {
        files[0] + all_lines(files.drop_first())
    }
}

/// The lines of files.
pub open spec fn file_views(files: Seq<Vec<String>>) -> Seq<Seq<Seq<char>>> {
    files.map_values(|f: Vec<String>| views(f@))
}

/// The newest lines of the log files, which are given in their order, oldest first. Nothing where
/// there are none.
pub fn read_file_logs(files: &Vec<Vec<String>>, lines: usize) -> (res: Option<String>)
    ensures
        ({
            let newest = last_lines(all_lines(file_views(files@)), lines as nat);
            opt_view(res) == if newest.len() == 0 {
                None
            } else {
                Some(joined(newest, "\n"@))
            }
        }),
{
    let ghost all = file_views(files@);
    let mut tail = LogTail::new(lines);
    let mut i: usize = files.len();
    assert(all.skip(i as int) =~= Seq::<Seq<Seq<char>>>::empty());
    assert(tail.holds(all_lines(all.skip(i as int))));
    while i > 0
        invariant
            i <= files@.len(),
            all == file_views(files@),
            tail.wanted == lines,
            tail.holds(all_lines(all.skip(i as int))),
        decreases i,
    {
        i = i - 1;
        assert(all.skip(i as int)[0] == views(files@[i as int]@));
        assert(all.skip(i as int).drop_first() =~= all.skip(i + 1));
        tail.add_older(&files[i]);
    }
    assert(all.skip(0) =~= all);
    assert(views(tail.lines@).len() == tail.lines@.len());
    tail.text()
}

// ----- what the parts come to -----

/// A log file goes exactly where there is a limit and it was written last longer ago than that many
/// days.
pub proof fn law_age_decides(file: LogFile, written_ns: u128, now_ns: u128, days: u64)
    requires
        file.modified_ns == Some(written_ns),
    ensures
        is_expired(file, now_ns, days) <==> days > 0 && crate::text::begins_with(
            file.name@,
            "daemon.log"@,
        ) && now_ns - written_ns > days * 86_400_000_000_000,
{
}

/// Names are in the order of their first difference, and a name comes before its continuations. So
/// names of the same length that end with dates are in the order of the dates.
pub proof fn law_first_different_character_decides(a: Seq<char>, b: Seq<char>, i: int)
    requires
        0 <= i <= a.len(),
        0 <= i <= b.len(),
        a.take(i) == b.take(i),
    ensures
        i == a.len() ==> text_le(a, b),
        i == b.len() && i < a.len() ==> !text_le(a, b),
        i < a.len() && i < b.len() && a[i] < b[i] ==> text_le(a, b) && !text_le(b, a),
    decreases i,
{
    if i > 0 {
        assert(a[0] == a.take(i)[0]);
        assert(b[0] == b.take(i)[0]);
        let (x, y) = (a.drop_first(), b.drop_first());
        assert(x.take(i - 1) =~= y.take(i - 1)) by {
            assert forall|k: int| 0 <= k < i - 1 implies x[k] == y[k] by {
                assert(a[k + 1] == a.take(i)[k + 1]);
                assert(b[k + 1] == b.take(i)[k + 1]);
            }
        }
        law_first_different_character_decides(x, y, i - 1);
    }
}

/// The log files are those of the names that begin with `daemon.log`, and no other.
pub proof fn law_log_files_are_known_by_their_names(names: Seq<Seq<char>>, name: Seq<char>)
    ensures
        log_names(names).contains(name) <==> names.contains(name) && crate::text::begins_with(
            name,
            "daemon.log"@,
        ),
{
    let keep = |n: Seq<char>| is_log_name(n);
    let kept = log_names(names);
    broadcast use vstd::seq_lib::group_filter_ensures;
    if kept.contains(name) {
        let i = choose|i: int| 0 <= i < kept.len() && kept[i] == name;
        assert(keep(kept[i]));
        names.lemma_filter_contains_rev(keep, name);
    }
    if names.contains(name) && is_log_name(name) {
        let i = choose|i: int| 0 <= i < names.len() && names[i] == name;
        assert(keep(names[i]));
        assert(kept.contains(names[i]));
    }
}

/// The last lines are the end of the lines: as many as are wanted, or all of them.
pub proof fn law_last_lines_are_the_end(lines: Seq<Seq<char>>, n: nat)
    ensures
        last_lines(lines, n).len() == if lines.len() <= n {
            lines.len()
        } else {
            n
        },
        forall|i: int|
            0 <= i < last_lines(lines, n).len() ==> #[trigger] last_lines(lines, n)[i] == lines[
            lines.len() - last_lines(lines, n).len() + i],
{
}

/// The lines of a further, newer file come behind those of the files before it.
pub proof fn law_newer_file_comes_last(files: Seq<Seq<Seq<char>>>, newest: Seq<Seq<char>>)
    ensures
        all_lines(files.push(newest)) == all_lines(files) + newest,
    decreases files.len(),
{
    if files.len() == 0 {
        let one = files.push(newest);
        reveal_with_fuel(all_lines, 2);
        assert(one[0] == newest);
        assert(one.drop_first() =~= Seq::<Seq<Seq<char>>>::empty());
        assert(all_lines(one) =~= all_lines(files) + newest);
    } else {
        law_newer_file_comes_last(files.drop_first(), newest);
        assert(files.push(newest).drop_first() =~= files.drop_first().push(newest));
        assert(all_lines(files.push(newest)) =~= all_lines(files) + newest);
    }
}

/// The newest lines come from the newest file alone where that has enough of them.
pub proof fn law_newest_file_is_enough(
    files: Seq<Seq<Seq<char>>>,
    newest: Seq<Seq<char>>,
    n: nat,
)
    requires
        newest.len() >= n,
    ensures
        last_lines(all_lines(files.push(newest)), n) == last_lines(newest, n),
{
    law_newer_file_comes_last(files, newest);
    let all = all_lines(files) + newest;
    assert(last_lines(all, n) =~= last_lines(newest, n));
}

} // verus!
