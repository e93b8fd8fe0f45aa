//! Remote commands: the registry of running tests, the context of a request and the routing.
pub mod auth;
pub mod command_line;
pub mod daemon_config;
pub mod daemon_service;
pub mod daemon_update;
pub mod delete_my_data;
pub mod dns_failover_probe;
pub mod e2e_server;
pub mod frpc_process;
pub mod manual_install;
pub mod packages;
pub mod ping;
pub mod speedtest;
pub mod tcp_speed_test;
pub mod tcping;
pub mod temp_tunnel;

use crate::json::{Json, JsonView};
use crate::text::{same_text, views};
use std::collections::VecDeque;
use vstd::hash_map::StringHashMap;
use vstd::prelude::*;
use vstd::string::*;

verus! {

/// How many runs the registry remembers.
pub const MAX_RUN_ENTRIES: usize = 4096;

/// What is known of a run.
#[derive(Clone, Copy, Debug, PartialEq, Eq, Structural)]
pub struct RunState {
    /// Tells this use of the run's name from earlier ones.
    pub generation: u64,
    /// Whether somebody asked the run to stop.
    pub cancelled: bool,
}

/// The runs that are known, oldest first.
pub struct RunRegistry {
    pub entries: StringHashMap<RunState>,
    pub order: VecDeque<String>,
    pub next_generation: u64,
}

/// The model of [`RunRegistry`].
pub struct RegistryView {
    pub entries: Map<Seq<char>, RunState>,
    pub order: Seq<Seq<char>>,
    pub next_generation: u64,
}

impl View for RunRegistry {
    type V = RegistryView;

    open spec fn view(&self) -> RegistryView {
        RegistryView {
            entries: self.entries@,
            order: views(self.order@),
            next_generation: self.next_generation,
        }
    }
}

/// `n + 1`, or the largest `u64`.
pub open spec fn succ(n: u64) -> u64 {
    if n == u64::MAX {
        n
    } else {
        (n + 1) as u64
    }
}

/// The names other than `run`, in their order.
pub open spec fn names_without(order: Seq<Seq<char>>, run: Seq<char>) -> Seq<Seq<char>> {
    order.filter(|k: Seq<char>| k != run)
}

/// Whether the generation of `a` was given out before that of `b`. Past the largest number every
/// generation is that number.
pub open spec fn came_before(a: RunState, b: RunState) -> bool {
    a.generation < b.generation || b.generation == u64::MAX
}

/// The generations grow along the order.
pub open spec fn generations_grow(
    order: Seq<Seq<char>>,
    entries: Map<Seq<char>, RunState>,
) -> bool {
    forall|i: int, j: int|
        0 <= i < j < order.len() ==> came_before(
            entries[#[trigger] order[i]],
            entries[#[trigger] order[j]],
        )
}

impl RegistryView {
    /// Every known run stands in the order exactly once, the capacity is kept, and the generations
    /// are from 1 to the last one given out and grow along the order.
    pub open spec fn wf(self) -> bool {
        &&& self.order.no_duplicates()
        &&& self.order.len() <= MAX_RUN_ENTRIES
        &&& forall|k: Seq<char>| #[trigger] self.entries.contains_key(k) <==> self.order.contains(k)
        &&& forall|k: Seq<char>| #[trigger]
            self.entries.contains_key(k) ==> 1 <= self.entries[k].generation <= self.next_generation
        &&& generations_grow(self.order, self.entries)
    }

    /// The registry once `run` has been looked up. A run that was not known enters as the newest
    /// with a generation of its own, and where that is one run too many the oldest is forgotten.
    pub open spec fn with_run(self, run: Seq<char>) -> RegistryView {
        if self.entries.contains_key(run) {
            self
        } else {
            let next = succ(self.next_generation);
            let entries = self.entries.insert(run, RunState { generation: next, cancelled: false });
            let order = self.order.push(run);
            if order.len() > MAX_RUN_ENTRIES {
                RegistryView {
                    entries: entries.remove(order[0]),
                    order: order.drop_first(),
                    next_generation: next,
                }
            } else {
                RegistryView { entries, order, next_generation: next }
            }
        }
    }

    /// The registry once `run` has been asked to stop.
    pub open spec fn with_cancelled(self, run: Seq<char>) -> RegistryView {
        let known = self.with_run(run);
        RegistryView {
            entries: known.entries.insert(
                run,
                RunState { generation: known.entries[run].generation, cancelled: true },
            ),
            ..known
        }
    }

    /// Whether work that started under `generation` of `run` has to stop.
    pub open spec fn is_cancelled(self, run: Seq<char>, generation: u64) -> bool {
        !self.entries.contains_key(run) || self.entries[run].generation != generation
            || self.entries[run].cancelled
    }

    /// Whether `run` is known under `generation`.
    pub open spec fn holds(self, run: Seq<char>, generation: u64) -> bool {
        self.entries.contains_key(run) && self.entries[run].generation == generation
    }

    /// The registry once `run` has ended under `generation`. A later use of the name stays.
    pub open spec fn finished(self, run: Seq<char>, generation: u64) -> RegistryView {
        if self.holds(run, generation) {
            RegistryView {
                entries: self.entries.remove(run),
                order: names_without(self.order, run),
                next_generation: self.next_generation,
            }
        } else {
            self
        }
    }
}

impl RunRegistry {
    /// A registry that knows no run.
    pub fn new() -> (res: RunRegistry)
        ensures
            res@.wf(),
            res@.entries == Map::<Seq<char>, RunState>::empty(),
            res@.order == Seq::<Seq<char>>::empty(),
            res@.next_generation == 0,
    {
        let res = RunRegistry {
            entries: StringHashMap::new(),
            order: VecDeque::new(),
            next_generation: 0,
        };
        assert(res@.order =~= Seq::<Seq<char>>::empty());
        res
    }

    /// The generation of `run_id`. A run that was not known gets a new one.
    pub fn generation(&mut self, run_id: &str) -> (res: u64)
        requires
            old(self)@.wf(),
        ensures
            final(self)@ == old(self)@.with_run(run_id@),
            final(self)@.wf(),
            final(self)@.holds(run_id@, res),
    {
        match self.entries.get(run_id) {
            Some(state) => {
                return state.generation;
            },
            None => {},
        }
        self.next_generation = self.next_generation.saturating_add(1);
        let generation: u64 = self.next_generation;
        self.entries.insert(run_id.to_owned(), RunState { generation, cancelled: false });
        self.order.push_back(run_id.to_owned());
        let ghost first = old(self)@;
        let ghost entered = self@;
        proof {
            assert(!first.entries.contains_key(run_id@));
            assert(entered.order =~= first.order.push(run_id@));
            lemma_pushed_names(first.order, run_id@);
            lemma_same_size(entered.entries, entered.order);
        }
        if self.entries.len() > MAX_RUN_ENTRIES {
            if let Some(expired) = self.order.pop_front() {
                self.entries.remove(expired.as_str());
                proof {
                    assert(expired@ == entered.order[0]);
                    assert(self@.order =~= entered.order.drop_first());
                    lemma_dropped_name(entered.order);
                }
            }
        }
        assert(self@ == first.with_run(run_id@));
        proof {
            law_with_run_keeps_wf(first, run_id@);
        }
        generation
    }

    /// Asks `run_id` to stop. A run that was not known is remembered as stopped.
    pub fn cancel(&mut self, run_id: &str)
        requires
            old(self)@.wf(),
        ensures
            final(self)@ == old(self)@.with_cancelled(run_id@),
            final(self)@.wf(),
    {
        let generation: u64 = self.generation(run_id);
        self.entries.insert(run_id.to_owned(), RunState { generation, cancelled: true });
    }

    /// Whether work that started under `generation` of `run_id` has to stop.
    pub fn is_cancelled(&self, run_id: &str, generation: u64) -> (res: bool)
        ensures
            res == self@.is_cancelled(run_id@, generation),
    {
        match self.entries.get(run_id) {
            Some(state) => state.generation != generation || state.cancelled,
            None => true,
        }
    }

    /// Forgets `run_id` where it is still known under `generation`, and says whether it was.
    pub fn finish(&mut self, run_id: &str, generation: u64) -> (res: bool)
        requires
            old(self)@.wf(),
        ensures
            res == old(self)@.holds(run_id@, generation),
            final(self)@ == old(self)@.finished(run_id@, generation),
            final(self)@.wf(),
    {
        let known = match self.entries.get(run_id) {
            Some(state) => state.generation == generation,
            None => false,
        };
        if !known {
            return false;
        }
        self.entries.remove(run_id);
        self.forget(run_id);
        proof {
            law_finished_keeps_wf(old(self)@, run_id@, generation);
        }
        true
    }

    /// Takes `run_id` out of the order.
    fn forget(&mut self, run_id: &str)
        ensures
            final(self)@.order == names_without(old(self)@.order, run_id@),
            final(self)@.entries == old(self)@.entries,
            final(self)@.next_generation == old(self)@.next_generation,
    {
        let ghost names = self@.order;
        let ghost keep = |k: Seq<char>| k != run_id@;
        let n: usize = self.order.len();
        let mut i: usize = 0;
        assert(names.take(0) =~= Seq::<Seq<char>>::empty());
        proof {
            reveal(Seq::filter);
        }
        assert(self@.order =~= names.skip(0) + names.take(0).filter(keep));
        while i < n
            invariant
                i <= n == names.len(),
                keep == (|k: Seq<char>| k != run_id@),
                self@.order == names.skip(i as int) + names.take(i as int).filter(keep),
                self@.entries == old(self)@.entries,
                self@.next_generation == old(self)@.next_generation,
            decreases n - i,
        {
            let ghost before = self@.order;
            match self.order.pop_front() {
                Some(name) => {
                    assert(name@ == before[0]);
                    assert(names.take(i + 1) =~= names.take(i as int).push(names[i as int]));
                    proof {
                        crate::text::lemma_filter_push(names.take(i as int), names[i as int], keep);
                    }
                    assert(self@.order =~= before.drop_first());
                    if !same_text(name.as_str(), run_id) {
                        self.order.push_back(name);
                        assert(self@.order =~= before.drop_first().push(name@));
                    }
                    assert(self@.order =~= names.skip(i + 1) + names.take(i + 1).filter(keep));
                },
                None => {
                    assert(before.len() > 0);
                    assert(false);
                },
            }
            i = i + 1;
        }
        assert(names.take(n as int) =~= names);
        assert(self@.order =~= names.filter(keep));
    }
}

impl Default for RunRegistry {
    fn default() -> (res: RunRegistry)
        ensures
            res@.wf(),
            res@.entries == Map::<Seq<char>, RunState>::empty(),
            res@.order == Seq::<Seq<char>>::empty(),
            res@.next_generation == 0,
    {
        RunRegistry::new()
    }
}

/// Appending a name that is not there keeps the names distinct.
proof fn lemma_pushed_names(order: Seq<Seq<char>>, name: Seq<char>)
    ensures
        forall|k: Seq<char>| #[trigger]
            order.push(name).contains(k) <==> (order.contains(k) || k == name),
        order.no_duplicates() && !order.contains(name) ==> order.push(name).no_duplicates(),
{
    let pushed = order.push(name);
    assert forall|k: Seq<char>| #[trigger]
        pushed.contains(k) <==> (order.contains(k) || k == name) by {
        if order.contains(k) {
            let i = choose|i: int| 0 <= i < order.len() && order[i] == k;
            assert(pushed[i] == k);
        }
        if k == name {
            assert(pushed[order.len() as int] == k);
        }
        if pushed.contains(k) && k != name {
            let i = choose|i: int| 0 <= i < pushed.len() && pushed[i] == k;
            assert(order[i] == k);
        }
    }
}

/// Dropping the first of distinct names leaves the others.
proof fn lemma_dropped_name(order: Seq<Seq<char>>)
    requires
        order.len() > 0,
        order.no_duplicates(),
    ensures
        order.drop_first().no_duplicates(),
        forall|k: Seq<char>| #[trigger]
            order.drop_first().contains(k) <==> (order.contains(k) && k != order[0]),
{
    let rest = order.drop_first();
    assert forall|k: Seq<char>| #[trigger]
        rest.contains(k) <==> (order.contains(k) && k != order[0]) by {
        if rest.contains(k) {
            let i = choose|i: int| 0 <= i < rest.len() && rest[i] == k;
            assert(order[i + 1] == k);
        }
        if order.contains(k) && k != order[0] {
            let i = choose|i: int| 0 <= i < order.len() && order[i] == k;
            assert(rest[i - 1] == k);
        }
    }
}

/// A map whose keys are the distinct names of a list has as many keys as the list has names.
proof fn lemma_same_size(entries: Map<Seq<char>, RunState>, order: Seq<Seq<char>>)
    requires
        order.no_duplicates(),
        forall|k: Seq<char>| #[trigger] entries.contains_key(k) <==> order.contains(k),
    ensures
        entries.len() == order.len(),
{
    order.unique_seq_to_set();
    assert(entries.dom() =~= order.to_set());
}

/// Taking a name out keeps the other names, and keeps them distinct.
proof fn lemma_names_without(order: Seq<Seq<char>>, run: Seq<char>)
    ensures
        names_without(order, run).len() <= order.len(),
        forall|k: Seq<char>| #[trigger]
            names_without(order, run).contains(k) <==> (order.contains(k) && k != run),
        order.no_duplicates() ==> names_without(order, run).no_duplicates(),
    decreases order.len(),
{
    reveal(Seq::filter);
    if order.len() > 0 {
        let rest = order.drop_last();
        lemma_names_without(rest, run);
        assert(order =~= rest.push(order.last()));
        lemma_pushed_names(rest, order.last());
        lemma_pushed_names(names_without(rest, run), order.last());
        if order.no_duplicates() {
            assert(rest.no_duplicates());
            assert(!rest.contains(order.last()));
        }
    }
}

/// Taking a name out keeps the generations growing.
proof fn lemma_names_without_grow(
    order: Seq<Seq<char>>,
    entries: Map<Seq<char>, RunState>,
    run: Seq<char>,
)
    requires
        generations_grow(order, entries),
    ensures
        generations_grow(names_without(order, run), entries),
    decreases order.len(),
{
    reveal(Seq::filter);
    if order.len() > 0 {
        let rest = order.drop_last();
        assert(generations_grow(rest, entries));
        lemma_names_without_grow(rest, entries, run);
        lemma_names_without(rest, run);
        let kept = names_without(rest, run);
        if order.last() != run {
            let all = kept.push(order.last());
            assert(names_without(order, run) =~= all);
            assert forall|i: int, j: int| 0 <= i < j < all.len() implies came_before(
                entries[#[trigger] all[i]],
                entries[#[trigger] all[j]],
            ) by {
                assert(all[i] == kept[i]);
                if j < kept.len() {
                    assert(all[j] == kept[j]);
                } else {
                    assert(kept.contains(kept[i]));
                    let k = choose|k: int| 0 <= k < rest.len() && rest[k] == kept[i];
                    assert(order[k] == kept[i]);
                    assert(order[order.len() - 1] == all[j]);
                }
            }
        } else {
            assert(names_without(order, run) =~= kept);
        }
    }
}

/// Looking a run up keeps the registry sound, and the run is known afterwards.
pub proof fn law_with_run_keeps_wf(r: RegistryView, run: Seq<char>)
    requires
        r.wf(),
    ensures
        r.with_run(run).wf(),
        r.with_run(run).entries.contains_key(run),
{
    if !r.entries.contains_key(run) {
        let order = r.order.push(run);
        let all = r.with_run(run);
        lemma_pushed_names(r.order, run);
        if order.len() > MAX_RUN_ENTRIES {
            lemma_dropped_name(order);
            assert(order[0] == r.order[0]);
            assert(r.order.contains(order[0]));
        }
        let shift: int = if order.len() > MAX_RUN_ENTRIES {
            1
        } else {
            0
        };
        assert forall|i: int, j: int| 0 <= i < j < all.order.len() implies came_before(
            all.entries[#[trigger] all.order[i]],
            all.entries[#[trigger] all.order[j]],
        ) by {
            assert(all.order[i] == r.order[i + shift]);
            assert(r.order.contains(r.order[i + shift]));
            assert(r.entries.contains_key(r.order[i + shift]));
            assert(all.entries[all.order[i]] == r.entries[r.order[i + shift]]);
            if j + shift < r.order.len() {
                assert(all.order[j] == r.order[j + shift]);
                assert(r.order.contains(r.order[j + shift]));
                assert(all.entries[all.order[j]] == r.entries[r.order[j + shift]]);
            } else {
                assert(all.order[j] == run);
            }
        }
    }
}

/// Ending a run keeps the registry sound.
pub proof fn law_finished_keeps_wf(r: RegistryView, run: Seq<char>, generation: u64)
    requires
        r.wf(),
    ensures
        r.finished(run, generation).wf(),
{
    lemma_names_without(r.order, run);
    lemma_names_without_grow(r.order, r.entries, run);
    if r.holds(run, generation) {
        let kept = names_without(r.order, run);
        let all = r.finished(run, generation);
        assert forall|i: int, j: int| 0 <= i < j < kept.len() implies came_before(
            all.entries[#[trigger] kept[i]],
            all.entries[#[trigger] kept[j]],
        ) by {
            assert(kept.contains(kept[i]));
            assert(kept.contains(kept[j]));
        }
    }
}

/// Asking a run to stop keeps the registry sound, and the run counts as stopped under every
/// generation from then on.
pub proof fn law_cancelled_run_is_cancelled(r: RegistryView, run: Seq<char>, generation: u64)
    requires
        r.wf(),
    ensures
        r.with_cancelled(run).wf(),
        r.with_cancelled(run).is_cancelled(run, generation),
{
    law_with_run_keeps_wf(r, run);
}

/// A name that was used, ended and used again has a new generation. Work of the old generation
/// counts as cancelled, the new one does not, and the old one cannot end the run.
pub proof fn law_reused_run_is_fresh(r: RegistryView, run: Seq<char>)
    requires
        r.wf(),
        r.with_run(run).next_generation < u64::MAX,
    ensures
        ({
            let used = r.with_run(run);
            let first = used.entries[run].generation;
            let reused = used.finished(run, first).with_run(run);
            let second = reused.entries[run].generation;
            &&& first != second
            &&& reused.is_cancelled(run, first)
            &&& !reused.is_cancelled(run, second)
            &&& reused.finished(run, first) == reused
            &&& reused.with_cancelled(run).is_cancelled(run, second)
        }),
{
    law_with_run_keeps_wf(r, run);
    let used = r.with_run(run);
    let first = used.entries[run].generation;
    law_finished_keeps_wf(used, run, first);
    law_with_run_keeps_wf(used.finished(run, first), run);
}

/// A run that has ended is forgotten, and work of it that is still going on has to stop.
pub proof fn law_ended_run_is_over(r: RegistryView, run: Seq<char>, generation: u64)
    requires
        r.holds(run, generation),
    ensures
        !r.finished(run, generation).entries.contains_key(run),
        r.finished(run, generation).is_cancelled(run, generation),
{
}

/// A run that was not known enters with a generation above every one in the registry.
pub proof fn law_new_generation_is_largest(r: RegistryView, run: Seq<char>, other: Seq<char>)
    requires
        r.wf(),
        r.next_generation < u64::MAX,
        !r.entries.contains_key(run),
        r.entries.contains_key(other),
    ensures
        r.entries[other].generation < r.with_run(run).entries[run].generation,
{
    law_with_run_keeps_wf(r, run);
}

/// A full registry forgets its oldest run, and no other, to take in a new one.
pub proof fn law_full_registry_drops_oldest(r: RegistryView, run: Seq<char>, other: Seq<char>)
    requires
        r.wf(),
        r.order.len() == MAX_RUN_ENTRIES,
        !r.entries.contains_key(run),
    ensures
        r.with_run(run).order.len() == MAX_RUN_ENTRIES,
        r.with_run(run).entries.len() == MAX_RUN_ENTRIES,
        !r.with_run(run).entries.contains_key(r.order[0]),
        other != run && other != r.order[0] ==> (r.with_run(run).entries.contains_key(other)
            <==> r.entries.contains_key(other)),
{
    law_with_run_keeps_wf(r, run);
    lemma_same_size(r.with_run(run).entries, r.with_run(run).order);
    assert(r.order.contains(r.order[0]));
}

/// What happens to one run leaves every other run as it was, but for the oldest one of a full
/// registry, which makes room for a run that was not known.
pub proof fn law_runs_are_independent(r: RegistryView, run: Seq<char>, other: Seq<char>, generation: u64)
    requires
        r.wf(),
        run != other,
    ensures
        r.order.len() < MAX_RUN_ENTRIES || r.entries.contains_key(run) || other != r.order[0] ==> (
        r.with_cancelled(run).entries.contains_key(other) <==> r.entries.contains_key(other)),
        r.with_cancelled(run).entries.contains_key(other) ==> r.with_cancelled(run).entries[other]
            == r.entries[other],
        r.finished(run, generation).entries.contains_key(other) <==> r.entries.contains_key(other),
        r.entries.contains_key(other) ==> r.finished(run, generation).entries[other]
            == r.entries[other],
{
}

/// The name under which a run of an account is registered.
pub open spec fn run_name(account_id: Seq<char>, run_id: Seq<char>) -> Seq<char> {
    account_id + ":"@ + run_id
}

/// The name under which a run of an account is registered.
fn run_key(account_id: &str, run_id: &str) -> (res: String)
    ensures
        res@ == run_name(account_id@, run_id@),
{
    account_id.to_owned().concat(":").concat(run_id)
}

/// The generation of a run of an account. A run that was not known gets a new one.
pub fn run_generation(registry: &mut RunRegistry, account_id: &str, run_id: &str) -> (res: u64)
    requires
        old(registry)@.wf(),
    ensures
        final(registry)@ == old(registry)@.with_run(run_name(account_id@, run_id@)),
        final(registry)@.wf(),
        final(registry)@.holds(run_name(account_id@, run_id@), res),
{
    let key = run_key(account_id, run_id);
    registry.generation(key.as_str())
}

/// Asks a run of an account to stop.
pub fn cancel_run(registry: &mut RunRegistry, account_id: &str, run_id: &str)
    requires
        old(registry)@.wf(),
    ensures
        final(registry)@ == old(registry)@.with_cancelled(run_name(account_id@, run_id@)),
        final(registry)@.wf(),
{
    let key = run_key(account_id, run_id);
    registry.cancel(key.as_str());
}

/// Whether work of a run of an account that started under `generation` has to stop.
pub fn is_run_cancelled(
    registry: &RunRegistry,
    account_id: &str,
    run_id: &str,
    generation: u64,
) -> (res: bool)
    ensures
        res == registry@.is_cancelled(run_name(account_id@, run_id@), generation),
{
    let key = run_key(account_id, run_id);
    registry.is_cancelled(key.as_str(), generation)
}

/// Forgets a run of an account where it is still known under `generation`, and says whether it
/// was.
pub fn finish_run(
    registry: &mut RunRegistry,
    account_id: &str,
    run_id: &str,
    generation: u64,
) -> (res: bool)
    requires
        old(registry)@.wf(),
    ensures
        res == old(registry)@.holds(run_name(account_id@, run_id@), generation),
        final(registry)@ == old(registry)@.finished(run_name(account_id@, run_id@), generation),
        final(registry)@.wf(),
{
    let key = run_key(account_id, run_id);
    registry.finish(key.as_str(), generation)
}

/// Runs of different accounts, or of one account under different names, are registered under
/// different names, as long as no account has a colon in its name.
pub proof fn law_run_names_differ(
    account: Seq<char>,
    run: Seq<char>,
    other_account: Seq<char>,
    other_run: Seq<char>,
)
    requires
        !account.contains(':'),
        !other_account.contains(':'),
        run_name(account, run) == run_name(other_account, other_run),
    ensures
        account == other_account,
        run == other_run,
{
    reveal_strlit(":");
    let name = run_name(account, run);
    assert(name[account.len() as int] == ':');
    assert(name[other_account.len() as int] == ':');
    if account.len() < other_account.len() {
        assert(other_account[account.len() as int] == name[account.len() as int]);
        assert(other_account.contains(':'));
    }
    if other_account.len() < account.len() {
        assert(account[other_account.len() as int] == name[other_account.len() as int]);
        assert(account.contains(':'));
    }
    assert(account =~= name.take(account.len() as int));
    assert(other_account =~= name.take(account.len() as int));
    assert(run =~= name.skip(account.len() as int + 1));
    assert(other_run =~= name.skip(account.len() as int + 1));
}

/// What a command knows of the request that it answers.
#[derive(Debug)]
pub struct CommandContext {
    /// The identity of this device.
    pub device_id: String,
    /// The data directory.
    pub data_dir: String,
    /// The path of the configuration file.
    pub config_path: String,
    /// The token of the account.
    pub proxy_token: String,
    /// The account that the request came in on.
    pub account_id: String,
    /// The address of the backend.
    pub backend_url: String,
    /// The user that the connection belongs to, where it is known.
    pub user_id: Option<i64>,
    /// The identity of the request.
    pub request_id: String,
}

/// The error that a command answers with.
#[derive(Debug)]
pub struct RpcError {
    pub code: String,
    pub message: String,
}

/// The model of [`RpcError`].
pub struct RpcErrorView {
    pub code: Seq<char>,
    pub message: Seq<char>,
}

impl View for RpcError {
    type V = RpcErrorView;

    open spec fn view(&self) -> RpcErrorView {
        RpcErrorView { code: self.code@, message: self.message@ }
    }
}

/// An error with a code and a message.
pub open spec fn rpc_error(code: Seq<char>, message: Seq<char>) -> RpcErrorView {
    RpcErrorView { code, message }
}

impl RpcError {
    /// An error with a code and a message.
    pub fn new(code: &str, message: String) -> (res: RpcError)
        ensures
            res@ == rpc_error(code@, message@),
    {
        RpcError { code: code.to_owned(), message }
    }
}

/// What a command answers.
pub type CommandResult = Result<Json, RpcError>;

/// The model of an answer.
pub open spec fn answer_view(res: CommandResult) -> Result<JsonView, RpcErrorView> {
    match res {
        Ok(j) => Ok(j@),
        Err(e) => Err(e@),
    }
}

/// The commands.
#[derive(Clone, Copy, Debug, PartialEq, Eq, Structural)]
pub enum Command {
    /// Echo requests to a host.
    Ping,
    /// Connection times to a port of a host.
    Tcping,
    /// Both of the above on a node.
    NodeLatency,
    /// A download and upload test over HTTP.
    Speedtest,
    /// A timed transfer through a tunnel.
    TcpSpeedTest,
    /// Round trips through a tunnel.
    TunnelLatencyTest,
    /// Health of a set of tunnels.
    DnsFailoverProbe,
    /// Opens the tunnel of an end-to-end test.
    E2eSetup,
    /// Takes that tunnel down again.
    E2eCleanup,
    /// Removes the data of the caller.
    DeleteMyData,
    /// Shows the configuration.
    GetConfig,
    /// Adds an account.
    AddAccount,
    /// Changes an account.
    ModifyAccount,
    /// Removes an account.
    DeleteAccount,
    /// Changes the address of the backend.
    SetBackendUrl,
    /// Replaces the token of an account.
    UpdateProxyToken,
    /// Starts, stops or restarts the service, or shows its state.
    ServiceControl,
    /// Shows the newest log lines.
    GetLogs,
    /// Looks for a newer version.
    CheckUpdate,
    /// Installs the newest version.
    PerformUpdate,
    /// Shows the update settings.
    GetUpdateSettings,
    /// Switches automatic updates on or off.
    SetAutoUpdate,
}

/// The name under which a command is called.
pub open spec fn command_name(command: Command) -> Seq<char> {
    match command {
        Command::Ping => "ping"@,
        Command::Tcping => "tcping"@,
        Command::NodeLatency => "node_latency"@,
        Command::Speedtest => "speedtest"@,
        Command::TcpSpeedTest => "tcp_speed_test"@,
        Command::TunnelLatencyTest => "tunnel_latency_test"@,
        Command::DnsFailoverProbe => "dns_failover_probe_v1"@,
        Command::E2eSetup => "e2e_setup"@,
        Command::E2eCleanup => "e2e_cleanup"@,
        Command::DeleteMyData => "delete_my_data"@,
        Command::GetConfig => "daemon_get_config"@,
        Command::AddAccount => "daemon_add_account"@,
        Command::ModifyAccount => "daemon_modify_account"@,
        Command::DeleteAccount => "daemon_delete_account"@,
        Command::SetBackendUrl => "daemon_set_backend_url"@,
        Command::UpdateProxyToken => "update_proxy_token"@,
        Command::ServiceControl => "daemon_service_control"@,
        Command::GetLogs => "daemon_get_logs"@,
        Command::CheckUpdate => "daemon_check_update"@,
        Command::PerformUpdate => "daemon_perform_update"@,
        Command::GetUpdateSettings => "daemon_get_update_settings"@,
        Command::SetAutoUpdate => "daemon_set_auto_update"@,
    }
}

/// The command that a name stands for. A name that stands for none is an error.
pub fn dispatch(command: &str) -> (res: Result<Command, RpcError>)
    ensures
        match res {
            Ok(c) => command@ == command_name(c),
            Err(e) => {
                &&& forall|c: Command| command@ != #[trigger] command_name(c)
                &&& e@ == rpc_error("UNKNOWN_COMMAND"@, "不支持的命令: "@ + command@)
            },
        },
{
    if same_text(command, "ping") {
        Ok(Command::Ping)
    } else if same_text(command, "tcping") {
        Ok(Command::Tcping)
    } else if same_text(command, "node_latency") {
        Ok(Command::NodeLatency)
    } else if same_text(command, "speedtest") {
        Ok(Command::Speedtest)
    } else if same_text(command, "tcp_speed_test") {
        Ok(Command::TcpSpeedTest)
    } else if same_text(command, "tunnel_latency_test") {
        Ok(Command::TunnelLatencyTest)
    } else if same_text(command, "dns_failover_probe_v1") {
        Ok(Command::DnsFailoverProbe)
    } else if same_text(command, "e2e_setup") {
        Ok(Command::E2eSetup)
    } else if same_text(command, "e2e_cleanup") {
        Ok(Command::E2eCleanup)
    } else if same_text(command, "delete_my_data") {
        Ok(Command::DeleteMyData)
    } else if same_text(command, "daemon_get_config") {
        Ok(Command::GetConfig)
    } else if same_text(command, "daemon_add_account") {
        Ok(Command::AddAccount)
    } else if same_text(command, "daemon_modify_account") {
        Ok(Command::ModifyAccount)
    } else if same_text(command, "daemon_delete_account") {
        Ok(Command::DeleteAccount)
    } else if same_text(command, "daemon_set_backend_url") {
        Ok(Command::SetBackendUrl)
    } else if same_text(command, "update_proxy_token") {
        Ok(Command::UpdateProxyToken)
    } else if same_text(command, "daemon_service_control") {
        Ok(Command::ServiceControl)
    } else if same_text(command, "daemon_get_logs") {
        Ok(Command::GetLogs)
    } else if same_text(command, "daemon_check_update") {
        Ok(Command::CheckUpdate)
    } else if same_text(command, "daemon_perform_update") {
        Ok(Command::PerformUpdate)
    } else if same_text(command, "daemon_get_update_settings") {
        Ok(Command::GetUpdateSettings)
    } else if same_text(command, "daemon_set_auto_update") {
        Ok(Command::SetAutoUpdate)
    } else {
        Err(RpcError::new("UNKNOWN_COMMAND", "不支持的命令: ".to_owned().concat(command)))
    }
}

/// Every command has a name of its own.
pub proof fn law_command_names_differ(a: Command, b: Command)
    requires
        command_name(a) == command_name(b),
    ensures
        a == b,
{
    reveal_strlit("ping");
    reveal_strlit("tcping");
    reveal_strlit("node_latency");
    reveal_strlit("speedtest");
    reveal_strlit("tcp_speed_test");
    reveal_strlit("tunnel_latency_test");
    reveal_strlit("dns_failover_probe_v1");
    reveal_strlit("e2e_setup");
    reveal_strlit("e2e_cleanup");
    reveal_strlit("delete_my_data");
    reveal_strlit("daemon_get_config");
    reveal_strlit("daemon_add_account");
    reveal_strlit("daemon_modify_account");
    reveal_strlit("daemon_delete_account");
    reveal_strlit("daemon_set_backend_url");
    reveal_strlit("update_proxy_token");
    reveal_strlit("daemon_service_control");
    reveal_strlit("daemon_get_logs");
    reveal_strlit("daemon_check_update");
    reveal_strlit("daemon_perform_update");
    reveal_strlit("daemon_get_update_settings");
    reveal_strlit("daemon_set_auto_update");
    let (x, y) = (command_name(a), command_name(b));
    assert(x.len() == y.len());
    assert(x[8] == y[8]);
    assert(x[20] == y[20]);
}

/// What the combined latency test of a node runs on.
#[derive(Debug)]
pub struct NodeLatencyPlan {
    /// The node.
    pub host: String,
    /// The port of the connection test.
    pub port: u16,
    /// How many probes each part sends.
    pub count: u32,
}

/// A member that is an unsigned number, or a default.
pub open spec fn unsigned_or(params: JsonView, key: Seq<char>, default: u64) -> u64 {
    match params.unsigned(key) {
        Some(v) => v,
        None => default,
    }
}

/// The low 16 bits of a number.
pub fn low_u16(n: u64) -> (res: u16)
    ensures
        res == n % 0x1_0000,
{
    (n % 0x1_0000) as u16
}

/// The low 32 bits of a number.
pub fn low_u32(n: u64) -> (res: u32)
    ensures
        res == n % 0x1_0000_0000,
{
    (n % 0x1_0000_0000) as u32
}

/// The node, the port (7000 where none is given) and the number of probes (4 where none is given)
/// of the combined latency test. Of larger numbers the low bits count.
pub fn node_latency_plan(params: &Json) -> (res: NodeLatencyPlan)
    ensures
        res.host@ == params@.text_or("node"@, ""@),
        res.port == unsigned_or(params@, "port"@, 7000) % 0x1_0000,
        res.count == unsigned_or(params@, "count"@, 4) % 0x1_0000_0000,
{
    let port: u64 = params.unsigned("port").unwrap_or(7000);
    let count: u64 = params.unsigned("count").unwrap_or(4);
    NodeLatencyPlan {
        host: params.text_or("node", ""),
        port: low_u16(port),
        count: low_u32(count),
    }
}

// ----- what callers can rely on -----

/// A run keeps its generation, and whether it was asked to stop, for as long as it is known: looking
/// it up again changes nothing, and asking it to stop changes nothing but that.
pub proof fn law_known_run_keeps_its_generation(r: RegistryView, run: Seq<char>)
    requires
        r.wf(),
        r.entries.contains_key(run),
    ensures
        r.with_run(run) == r,
        r.with_cancelled(run).entries[run].generation == r.entries[run].generation,
        r.with_cancelled(run).order == r.order,
        r.with_cancelled(run).next_generation == r.next_generation,
        r.is_cancelled(run, r.entries[run].generation) <==> r.entries[run].cancelled,
        r.with_cancelled(run).with_cancelled(run) == r.with_cancelled(run),
{
    let once = r.with_cancelled(run);
    assert(once.with_cancelled(run).entries =~= once.entries);
}

/// A run that was not known comes last, is not asked to stop, and its generation is the next one.
pub proof fn law_new_run_comes_last(r: RegistryView, run: Seq<char>)
    requires
        r.wf(),
        r.next_generation < u64::MAX,
        !r.entries.contains_key(run),
    ensures
        r.with_run(run).order.last() == run,
        r.with_run(run).entries[run].generation == r.next_generation + 1,
        r.with_run(run).next_generation == r.next_generation + 1,
        !r.with_run(run).is_cancelled(run, (r.next_generation + 1) as u64),
{
    assert(!r.order.contains(run));
    if r.order.len() == MAX_RUN_ENTRIES {
        assert(r.order.contains(r.order[0]));
    }
}

/// 4096 runs are remembered: no more than that, and none is forgotten before there are that many.
pub proof fn law_registry_remembers_4096_runs(r: RegistryView, run: Seq<char>, other: Seq<char>)
    requires
        r.wf(),
    ensures
        r.order.len() <= 4096,
        r.order.len() < 4096 && r.entries.contains_key(other) ==> r.with_run(run).entries.contains_key(
            other,
        ) && r.with_run(run).entries[other] == r.entries[other],
        r.order.len() < 4096 && !r.entries.contains_key(run) ==> r.with_run(run).order.len()
            == r.order.len() + 1,
{
}

/// The name of a run is that of the account, a colon and that of the run.
pub proof fn law_run_name_holds_both(account: Seq<char>, run: Seq<char>)
    ensures
        run_name(account, run).take(account.len() as int) == account,
        run_name(account, run)[account.len() as int] == ':',
        run_name(account, run).skip(account.len() as int + 1) == run,
{
    reveal_strlit(":");
    assert(run_name(account, run).take(account.len() as int) =~= account);
    assert(run_name(account, run).skip(account.len() as int + 1) =~= run);
}

/// A number that is asked for is taken, whatever stands in place of one that is not.
pub proof fn law_default_is_for_what_is_not_given(params: JsonView, key: Seq<char>, a: u64, b: u64)
    ensures
        params.get(key) == Some(crate::json::count_view(a)) ==> unsigned_or(params, key, b) == a,
        params.get(key) is None ==> unsigned_or(params, key, b) == b,
        params.get(key) matches Some(JsonView::Text(_)) ==> unsigned_or(params, key, b) == b,
{
}

/// An error holds the code and the message that it is made of.
pub proof fn law_error_holds_code_and_message(code: Seq<char>, message: Seq<char>)
    ensures
        rpc_error(code, message).code == code,
        rpc_error(code, message).message == message,
{
}

} // verus!
