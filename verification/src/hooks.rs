//! Hook dispatch: after a reading, every program of the hook directory is
//! run once, alone, in the order of the names, with the reading in decimal
//! as its only argument. How one hook ends changes nothing for the others.

use vstd::prelude::*;
use vstd::relations::{sorted_by, total_ordering};
use vstd::seq_lib::*;
use vstd::string::*;
use crate::decimal::{decimal_digits, decimal_string};
use crate::error::HookError;
use crate::text::{
    lemma_lex_le_antisymmetric, lemma_lex_le_total, lemma_lex_le_transitive, lex_le, text_le,
    texts,
};

verus! {

/// The directory of the hooks, relative to the directory in which the
/// program runs.
pub const HOOK_DIRECTORY: &'static str = "hooks";

/// Whether names stand in lexicographic order.
pub open spec fn sorted(names: Seq<Seq<char>>) -> bool {
    forall|i: int, j: int| 0 <= i <= j < names.len() ==> lex_le(#[trigger] names[i], #[trigger] names[j])
}

/// The place of a name in a sorted run: behind the names at its front that
/// come no later than it.
pub open spec fn insert_position(run: Seq<Seq<char>>, name: Seq<char>) -> nat
    decreases run.len(),
{
    if run.len() > 0 && lex_le(run[0], name) {
        1 + insert_position(run.skip(1), name)
    } else {
        0
    }
}

/// The names in the order in which their hooks run: sorted, names that are
/// equal staying in the order in which they were listed.
pub open spec fn sorted_plan(names: Seq<Seq<char>>) -> Seq<Seq<char>>
    decreases names.len(),
{
    if names.len() == 0 {
        Seq::empty()
    } else {
        let front = sorted_plan(names.drop_last());
        front.insert(insert_position(front, names.last()) as int, names.last())
    }
}

/// Where a name is placed, every name before it comes no later than it
/// and the name at that place, if there is one, comes later.
pub proof fn lemma_insert_position(run: Seq<Seq<char>>, name: Seq<char>)
    ensures
        insert_position(run, name) <= run.len(),
        forall|k: int| 0 <= k < insert_position(run, name) ==> lex_le(#[trigger] run[k], name),
        insert_position(run, name) < run.len() ==> !lex_le(
            run[insert_position(run, name) as int],
            name,
        ),
    decreases run.len(),
{
    if run.len() > 0 && lex_le(run[0], name) {
        let rest = run.skip(1);
        lemma_insert_position(rest, name);
        let p = insert_position(rest, name) as int;
        assert forall|k: int| 0 <= k < p + 1 implies lex_le(#[trigger] run[k], name) by {
            if k > 0 {
                assert(run[k] == rest[k - 1]);
            }
        }
        if p + 1 < run.len() {
            assert(run[p + 1] == rest[p]);
        }
    }
}

/// A sorted run stays sorted when a name is put at its place.
pub proof fn lemma_insert_keeps_sorted(run: Seq<Seq<char>>, name: Seq<char>)
    requires
        sorted(run),
    ensures
        sorted(run.insert(insert_position(run, name) as int, name)),
{
    lemma_insert_position(run, name);
    let p = insert_position(run, name) as int;
    let out = run.insert(p, name);
    assert forall|i: int, j: int| 0 <= i <= j < out.len() implies lex_le(
        #[trigger] out[i],
        #[trigger] out[j],
    ) by {
        if i == j {
            lemma_lex_le_total(out[i], out[i]);
        } else if j < p {
            assert(out[i] == run[i] && out[j] == run[j]);
        } else if j == p {
            assert(out[i] == run[i]);
        } else if i < p {
            assert(out[i] == run[i] && out[j] == run[j - 1]);
        } else if i == p {
            // run[p] comes later than the name, and run[j - 1] no earlier than run[p]
            assert(out[j] == run[j - 1]);
            lemma_lex_le_total(run[p], name);
            assert(lex_le(run[p], run[j - 1]));
            lemma_lex_le_transitive(name, run[p], run[j - 1]);
        } else {
            assert(out[i] == run[i - 1] && out[j] == run[j - 1]);
        }
    }
}

/// The plan is sorted and holds each name as often as the listing does.
pub proof fn lemma_sorted_plan(names: Seq<Seq<char>>)
    ensures
        sorted(sorted_plan(names)),
        sorted_plan(names).len() == names.len(),
        sorted_plan(names).to_multiset() == names.to_multiset(),
    decreases names.len(),
{
    if names.len() == 0 {
        assert(names =~= Seq::empty());
    } else {
        let front_names = names.drop_last();
        let front = sorted_plan(front_names);
        lemma_sorted_plan(front_names);
        lemma_insert_position(front, names.last());
        lemma_insert_keeps_sorted(front, names.last());
        let p = insert_position(front, names.last()) as int;
        to_multiset_insert(front, p, names.last());
        to_multiset_build(front_names, names.last());
        assert(front_names.push(names.last()) =~= names);
    }
}

/// The plan is the one sorted arrangement of the names: whatever is
/// sorted and holds each name as often as the listing does is the plan.
pub proof fn lemma_plan_is_the_sorted_listing(names: Seq<Seq<char>>, plan: Seq<Seq<char>>)
    requires
        sorted(plan),
        plan.to_multiset() == names.to_multiset(),
    ensures
        plan == sorted_plan(names),
{
    let leq = |a: Seq<char>, b: Seq<char>| lex_le(a, b);
    lemma_sorted_plan(names);
    assert(total_ordering(leq)) by {
        assert forall|a: Seq<char>| #[trigger] leq(a, a) by {
            lemma_lex_le_total(a, a);
        }
        assert forall|a: Seq<char>, b: Seq<char>| #[trigger] leq(a, b) && #[trigger] leq(
            b,
            a,
        ) implies a == b by {
            lemma_lex_le_antisymmetric(a, b);
        }
        assert forall|a: Seq<char>, b: Seq<char>, c: Seq<char>| #[trigger] leq(a, b)
            && #[trigger] leq(b, c) implies leq(a, c) by {
            lemma_lex_le_transitive(a, b, c);
        }
        assert forall|a: Seq<char>, b: Seq<char>| #[trigger] leq(a, b) || #[trigger] leq(b, a) by {
            lemma_lex_le_total(a, b);
        }
    }
    assert(sorted_by(plan, leq));
    assert(sorted_by(sorted_plan(names), leq));
    lemma_sorted_unique(plan, sorted_plan(names), leq);
}

/// The plan does not depend on the order in which the directory was
/// listed: two listings of the same names give one plan.
pub proof fn lemma_plan_ignores_listing_order(first: Seq<Seq<char>>, second: Seq<Seq<char>>)
    requires
        first.to_multiset() == second.to_multiset(),
    ensures
        sorted_plan(first) == sorted_plan(second),
{
    lemma_sorted_plan(first);
    lemma_plan_is_the_sorted_listing(second, sorted_plan(first));
}

/// Puts the names in the order in which their hooks run.
pub fn plan_hooks(names: &Vec<String>) -> (plan: Vec<String>)
    ensures
        texts(plan@) == sorted_plan(texts(names@)),
{
    let mut plan: Vec<String> = Vec::new();
    let mut i: usize = 0;
    assert(texts(names@).take(0) =~= Seq::empty());
    assert(texts(plan@) =~= Seq::empty());
    while i < names.len()
        invariant
            i <= names.len(),
            texts(plan@) == sorted_plan(texts(names@).take(i as int)),
        decreases names.len() - i,
    {
        let name = names[i].clone();
        let ghost run = texts(plan@);
        let ghost before = texts(names@).take(i as int);
        let ghost after = texts(names@).take(i + 1);
        assert(after.drop_last() =~= before);
        assert(after.last() == name@);
        proof {
            lemma_sorted_plan(before);
        }
        let mut p: usize = 0;
        assert(run.skip(0) =~= run);
        while p < plan.len() && text_le(plan[p].as_str(), name.as_str())
            invariant
                p <= plan.len(),
                run == texts(plan@),
                insert_position(run, name@) == p + insert_position(run.skip(p as int), name@),
            decreases plan.len() - p,
        {
            assert(run.skip(p as int)[0] == plan@[p as int]@);
            assert(run.skip(p as int).skip(1) =~= run.skip(p + 1));
            p = p + 1;
        }
        assert(insert_position(run, name@) == p) by {
            if p < plan.len() {
                assert(run.skip(p as int)[0] == plan@[p as int]@);
            }
        }
        plan.insert(p, name);
        assert(texts(plan@) =~= run.insert(p as int, name@));
        i = i + 1;
    }
    assert(texts(names@).take(i as int) =~= texts(names@));
    plan
}

/// An entry of the hook directory.
#[derive(Clone, Debug, PartialEq, Eq)]
pub struct HookEntry {
    /// The name of the entry in the directory.
    pub name: String,
    /// Whether the entry is a regular file. Only those are hooks.
    pub regular_file: bool,
}

/// A [`HookEntry`] with its name as a sequence of characters.
#[verifier::ext_equal]
pub struct HookEntryView {
    pub name: Seq<char>,
    pub regular_file: bool,
}

impl View for HookEntry {
    type V = HookEntryView;

    open spec fn view(&self) -> HookEntryView {
        HookEntryView { name: self.name@, regular_file: self.regular_file }
    }
}

/// The views of a listing.
pub open spec fn entry_views(listing: Seq<HookEntry>) -> Seq<HookEntryView> {
    Seq::new(listing.len(), |i: int| listing[i]@)
}

/// The names of the hooks of a listing: those of its regular files, in
/// the order of the listing.
pub open spec fn hook_names(listing: Seq<HookEntryView>) -> Seq<Seq<char>> {
    listing.filter(|entry: HookEntryView| entry.regular_file).map_values(
        |entry: HookEntryView| entry.name,
    )
}

/// Picks the hooks out of a listing of the hook directory.
pub fn select_hooks(listing: &Vec<HookEntry>) -> (names: Vec<String>)
    ensures
        texts(names@) == hook_names(entry_views(listing@)),
{
    let mut names: Vec<String> = Vec::new();
    let mut i: usize = 0;
    let ghost all = entry_views(listing@);
    proof {
        reveal(Seq::filter);
        assert(all.take(0) =~= Seq::empty());
        assert(texts(names@) =~= hook_names(all.take(0)));
    }
    while i < listing.len()
        invariant
            i <= listing.len(),
            all == entry_views(listing@),
            texts(names@) == hook_names(all.take(i as int)),
        decreases listing.len() - i,
    {
        let ghost before = texts(names@);
        proof {
            reveal(Seq::filter);
            assert(all.take(i + 1).drop_last() =~= all.take(i as int));
            assert(all.take(i + 1).last() == listing@[i as int]@);
        }
        if listing[i].regular_file {
            names.push(listing[i].name.clone());
            assert(texts(names@) =~= before.push(listing@[i as int].name@));
        }
        assert(texts(names@) =~= hook_names(all.take(i + 1)));
        i = i + 1;
    }
    assert(all.take(i as int) =~= all);
    names
}

/// How the run of one hook ended.
#[derive(Clone, Debug, PartialEq, Eq)]
pub enum HookExit {
    /// The program ran to its end; `output` is what it wrote to its
    /// standard output.
    Exited { success: bool, output: String },
    /// The program could not be started.
    NotStarted,
}

/// A [`HookExit`] with its output as a sequence of characters.
#[verifier::ext_equal]
pub enum HookExitView {
    Exited { success: bool, output: Seq<char> },
    NotStarted,
}

impl View for HookExit {
    type V = HookExitView;

    open spec fn view(&self) -> HookExitView {
        match self {
            HookExit::Exited { success, output } => HookExitView::Exited {
                success: *success,
                output: output@,
            },
            HookExit::NotStarted => HookExitView::NotStarted,
        }
    }
}

/// Whether a hook did what it was run for.
#[derive(Clone, Copy, Debug, PartialEq, Eq, Structural)]
pub enum HookOutcome {
    Success,
    Failure(HookError),
}

/// The record of one hook: what was run, with what, and how it went.
#[derive(Clone, Debug, PartialEq, Eq)]
pub struct HookInvocation {
    /// The name of the hook in its directory.
    pub name: String,
    /// The one argument that it was given.
    pub argument: String,
    /// What it wrote to its standard output; empty where it did not start.
    pub output: String,
    pub outcome: HookOutcome,
}

/// A [`HookInvocation`] with its texts as sequences of characters.
#[verifier::ext_equal]
pub struct HookInvocationView {
    pub name: Seq<char>,
    pub argument: Seq<char>,
    pub output: Seq<char>,
    pub outcome: HookOutcome,
}

impl View for HookInvocation {
    type V = HookInvocationView;

    open spec fn view(&self) -> HookInvocationView {
        HookInvocationView {
            name: self.name@,
            argument: self.argument@,
            output: self.output@,
            outcome: self.outcome,
        }
    }
}

/// The views of a list of records.
pub open spec fn invocations(records: Seq<HookInvocation>) -> Seq<HookInvocationView> {
    Seq::new(records.len(), |i: int| records[i]@)
}

/// The record of a hook that was run with an argument and ended in a
/// given way.
pub open spec fn invocation_of(
    name: Seq<char>,
    argument: Seq<char>,
    exit: HookExitView,
) -> HookInvocationView {
    match exit {
        HookExitView::Exited { success, output } => HookInvocationView {
            name,
            argument,
            output,
            outcome: if success {
                HookOutcome::Success
            } else {
                HookOutcome::Failure(HookError::NonZeroExit)
            },
        },
        HookExitView::NotStarted => HookInvocationView {
            name,
            argument,
            output: Seq::empty(),
            outcome: HookOutcome::Failure(HookError::Spawn),
        },
    }
}

/// The state of a dispatch: the reading, the hooks in the order in which
/// they run, and the records of those that have run.
#[verifier::ext_equal]
pub struct DispatcherView {
    pub reading: u16,
    pub plan: Seq<Seq<char>>,
    pub outcomes: Seq<HookInvocationView>,
}

/// A dispatch before its first hook.
pub open spec fn begun(reading: u16, names: Seq<Seq<char>>) -> DispatcherView {
    DispatcherView { reading, plan: sorted_plan(names), outcomes: Seq::empty() }
}

/// The hook that runs next, with its argument; `None` when all have run.
pub open spec fn pending_hook(d: DispatcherView) -> Option<(Seq<char>, Seq<char>)> {
    if d.outcomes.len() < d.plan.len() {
        Some((d.plan[d.outcomes.len() as int], decimal_digits(d.reading as nat)))
    } else {
        None
    }
}

/// The dispatch after the pending hook ended. Whatever the exit, the hook
/// counts as run and the next one becomes pending. With no hook pending
/// nothing changes.
pub open spec fn recorded(d: DispatcherView, exit: HookExitView) -> DispatcherView {
    match pending_hook(d) {
        Some((name, argument)) => DispatcherView {
            outcomes: d.outcomes.push(invocation_of(name, argument, exit)),
            ..d
        },
        None => d,
    }
}

/// The dispatch after a run of hooks ended, one exit for each, in order.
pub open spec fn recorded_all(d: DispatcherView, exits: Seq<HookExitView>) -> DispatcherView
    decreases exits.len(),
{
    if exits.len() == 0 {
        d
    } else {
        recorded(recorded_all(d, exits.drop_last()), exits.last())
    }
}

/// Runs the hooks of one reading, one at a time.
pub struct Dispatcher {
    reading: u16,
    plan: Vec<String>,
    outcomes: Vec<HookInvocation>,
}

impl View for Dispatcher {
    type V = DispatcherView;

    closed spec fn view(&self) -> DispatcherView {
        DispatcherView {
            reading: self.reading,
            plan: texts(self.plan@),
            outcomes: invocations(self.outcomes@),
        }
    }
}

impl Dispatcher {
    /// Plans the dispatch of a reading to the hooks that were found. An
    /// empty listing stands for a directory without hooks and for one that
    /// does not exist.
    pub fn begin(reading: u16, names: &Vec<String>) -> (d: Dispatcher)
        ensures
            d@ == begun(reading, texts(names@)),
    {
        let d = Dispatcher { reading, plan: plan_hooks(names), outcomes: Vec::new() };
        assert(invocations(d.outcomes@) =~= Seq::empty());
        d
    }

    /// The reading that is dispatched.
    pub fn reading(&self) -> (reading: u16)
        ensures
            reading == self@.reading,
    {
        self.reading
    }

    /// The hook to run next and the argument to give it.
    pub fn pending(&self) -> (next: Option<(String, String)>)
        ensures
            match next {
                Some((name, argument)) => pending_hook(self@) == Some((name@, argument@)),
                None => pending_hook(self@) is None,
            },
    {
        let done = self.outcomes.len();
        if done < self.plan.len() {
            Some((self.plan[done].clone(), decimal_string(self.reading)))
        } else {
            None
        }
    }

    /// Takes note of how the pending hook ended.
    pub fn record(&mut self, exit: HookExit)
        ensures
            final(self)@ == recorded(old(self)@, exit@),
    {
        let done = self.outcomes.len();
        if done < self.plan.len() {
            let name = self.plan[done].clone();
            let argument = decimal_string(self.reading);
            let record = match exit {
                HookExit::Exited { success, output } => HookInvocation {
                    name,
                    argument,
                    output,
                    outcome: if success {
                        HookOutcome::Success
                    } else {
                        HookOutcome::Failure(HookError::NonZeroExit)
                    },
                },
                HookExit::NotStarted => HookInvocation {
                    name,
                    argument,
                    output: String::new(),
                    outcome: HookOutcome::Failure(HookError::Spawn),
                },
            };
            let ghost before = invocations(self.outcomes@);
            self.outcomes.push(record);
            assert(invocations(self.outcomes@) =~= before.push(record@));
        }
    }

    /// The records of the hooks that have run, in the order in which they
    /// ran.
    pub fn outcomes(&self) -> (records: &Vec<HookInvocation>)
        ensures
            invocations(records@) == self@.outcomes,
    {
        &self.outcomes
    }

    /// Ends the dispatch and hands out its records.
    pub fn into_outcomes(self) -> (records: Vec<HookInvocation>)
        ensures
            invocations(records@) == self@.outcomes,
    {
        self.outcomes
    }
}

/// Every hook of the listing runs once, whatever the hooks before it did.
/// After the pending hook has ended `exits.len()` times, each of the first
/// hooks of the plan, as many as there were exits and hooks for, has its
/// record, with its name, the reading in decimal as its argument and its
/// own exit; the hook that follows them in the plan is pending; and once
/// as many have ended as were listed, none is pending and nothing is
/// recorded any more.
pub proof fn lemma_every_hook_runs_once(
    reading: u16,
    names: Seq<Seq<char>>,
    exits: Seq<HookExitView>,
)
    ensures
        ({
            let d = recorded_all(begun(reading, names), exits);
            let plan = sorted_plan(names);
            let argument = decimal_digits(reading as nat);
            &&& d.reading == reading
            &&& d.plan == plan
            &&& plan.len() == names.len()
            &&& sorted(plan)
            &&& plan.to_multiset() == names.to_multiset()
            &&& d.outcomes.len() == if exits.len() <= names.len() {
                exits.len()
            } else {
                names.len()
            }
            &&& forall|i: int|
                0 <= i < d.outcomes.len() ==> #[trigger] d.outcomes[i] == invocation_of(
                    plan[i],
                    argument,
                    exits[i],
                )
            &&& exits.len() < names.len() ==> pending_hook(d) == Some(
                (plan[exits.len() as int], argument),
            )
            &&& exits.len() >= names.len() ==> pending_hook(d) is None
        }),
    decreases exits.len(),
{
    lemma_sorted_plan(names);
    if exits.len() > 0 {
        lemma_every_hook_runs_once(reading, names, exits.drop_last());
    }
}

} // verus!
