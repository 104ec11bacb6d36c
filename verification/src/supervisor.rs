//! The batch as a state machine: what is to be done next, given what has
//! just happened. The caller does the work (looks at the disk, starts the
//! assembler, makes the link) and reports back; every decision is made here.
//!
//! The samples are run one after the other, each exactly once. A run that
//! fails, or that leaves no result, is reported and the batch goes on.

use vstd::prelude::*;
use vstd::string::StringExecFns;
use crate::finder::{opt_text, samples, Sample, SeqReads};
use crate::path::join_path;
use crate::runner::{
    call_of, contigs_path, get_outdir, job_of, link_plan, links_dir, outdir_of, Call, Invocation,
    Job, LinkPlan, Linking, Runner,
};
use crate::text::{decimal, decimal_chars, string_of};

verus! {

/// Where a batch stands.
#[derive(Clone, Copy, Debug, PartialEq, Eq, Structural)]
pub enum Phase {
    /// Nothing has been done yet.
    Idle,
    /// The output directory is being looked for.
    Guarding,
    /// The output directory and the directory of links are being made.
    Preparing,
    /// The assembler runs on the sample under the cursor.
    Running,
    /// The result of the sample under the cursor is being looked for.
    Locating,
    /// The sample under the cursor is being reported on, or linked.
    Settling,
    /// Every sample has been dealt with.
    Finished,
    /// The batch was given up before any sample was run.
    Aborted,
}

/// Why a batch was given up.
#[derive(Clone, Copy, Debug, PartialEq, Eq, Structural)]
pub enum RunError {
    /// The output directory is there already: an earlier batch may have
    /// written to it.
    OutputDirectoryExists,
}

/// A batch of samples and how far it has come.
pub struct Supervisor {
    /// The samples, in the order in which they are run.
    pub reads: Vec<SeqReads>,
    /// The directory that the batch writes to.
    pub root: String,
    /// The directory that holds a link to each result.
    pub links: String,
    /// The number of threads to run the assembler with, where one is set.
    pub threads: Option<usize>,
    /// The caller's own flags, which replace the default ones.
    pub args: Option<String>,
    /// Where the batch stands.
    pub phase: Phase,
    /// The index of the sample that is being dealt with.
    pub cursor: usize,
}

/// What a `Supervisor` holds.
pub struct Batch {
    pub reads: Seq<Sample>,
    pub root: Seq<char>,
    pub links: Seq<char>,
    pub threads: Option<usize>,
    pub args: Option<Seq<char>>,
    pub phase: Phase,
    pub cursor: usize,
}

impl View for Supervisor {
    type V = Batch;

    open spec fn view(&self) -> Batch {
        Batch {
            reads: samples(self.reads@),
            root: self.root@,
            links: self.links@,
            threads: self.threads,
            args: opt_text(self.args),
            phase: self.phase,
            cursor: self.cursor,
        }
    }
}

/// What the caller reports back.
pub enum Event {
    /// The batch is to begin.
    Start,
    /// Whether the output directory exists.
    RootStatus { exists: bool },
    /// The last order has been carried out.
    Done,
    /// The assembler has ended, well or not.
    Exited { success: bool },
    /// The result was looked for: its absolute path, where it exists.
    Located { resolved: Option<String> },
}

/// What an `Event` holds.
pub enum Signal {
    Start,
    RootStatus { exists: bool },
    Done,
    Exited { success: bool },
    Located { resolved: Option<Seq<char>> },
}

impl View for Event {
    type V = Signal;

    open spec fn view(&self) -> Signal {
        match self {
            Event::Start => Signal::Start,
            Event::RootStatus { exists } => Signal::RootStatus { exists: *exists },
            Event::Done => Signal::Done,
            Event::Exited { success } => Signal::Exited { success: *success },
            Event::Located { resolved } => Signal::Located { resolved: opt_text(*resolved) },
        }
    }
}

/// What the caller is to do next.
pub enum Action {
    /// Find out whether the directory `root` exists; answer with
    /// `RootStatus`.
    CheckRoot { root: String },
    /// Give the batch up: `root` exists.
    Abort { error: RunError, root: String },
    /// Make the directories `root` and `links`, print `notice`; answer with
    /// `Done`.
    Prepare { root: String, links: String, notice: String },
    /// Print the banner and the settings of the sample at `index`, start
    /// the assembler and wait for it; answer with `Exited`.
    Run { index: usize, call: Invocation },
    /// Send what the assembler printed for the sample at `index` to the
    /// error stream; answer with `Done`.
    ReportFailure { index: usize },
    /// Find out whether `path` is a file, and its absolute path; answer
    /// with `Located`.
    Locate { index: usize, path: String },
    /// Make the link `link` to `target`, print `report`; answer with `Done`.
    Link { index: usize, target: String, link: String, report: String },
    /// Print `notice` to the error stream: the run left no result; answer
    /// with `Done`.
    ReportMissing { index: usize, notice: String },
    /// The batch is over.
    Finish,
    /// Nothing: the event was not one that the batch waits for.
    Rest,
}

/// What an `Action` holds.
pub enum Order {
    CheckRoot { root: Seq<char> },
    Abort { error: RunError, root: Seq<char> },
    Prepare { root: Seq<char>, links: Seq<char>, notice: Seq<char> },
    Run { index: usize, call: Call },
    ReportFailure { index: usize },
    Locate { index: usize, path: Seq<char> },
    Link { index: usize, target: Seq<char>, link: Seq<char>, report: Seq<char> },
    ReportMissing { index: usize, notice: Seq<char> },
    Finish,
    Rest,
}

impl View for Action {
    type V = Order;

    open spec fn view(&self) -> Order {
        match self {
            Action::CheckRoot { root } => Order::CheckRoot { root: root@ },
            Action::Abort { error, root } => Order::Abort { error: *error, root: root@ },
            Action::Prepare { root, links, notice } => Order::Prepare {
                root: root@,
                links: links@,
                notice: notice@,
            },
            Action::Run { index, call } => Order::Run { index: *index, call: call@ },
            Action::ReportFailure { index } => Order::ReportFailure { index: *index },
            Action::Locate { index, path } => Order::Locate { index: *index, path: path@ },
            Action::Link { index, target, link, report } => Order::Link {
                index: *index,
                target: target@,
                link: link@,
                report: report@,
            },
            Action::ReportMissing { index, notice } => Order::ReportMissing {
                index: *index,
                notice: notice@,
            },
            Action::Finish => Order::Finish,
            Action::Rest => Order::Rest,
        }
    }
}

/// The batch that is yet to begin: `reads` are to be assembled into the
/// directory `outdir`, or `assemblies` where none is given.
pub open spec fn initial(
    reads: Seq<Sample>,
    threads: Option<usize>,
    outdir: Option<Seq<char>>,
    args: Option<Seq<char>>,
) -> Batch {
    Batch {
        reads,
        root: outdir_of(outdir),
        links: links_dir(outdir_of(outdir)),
        threads,
        args,
        phase: Phase::Idle,
        cursor: 0,
    }
}

/// The job of the sample at index `i` of the batch `b`.
pub open spec fn job_at(b: Batch, i: int) -> Job {
    job_of(b.root, b.links, b.reads[i], b.threads, b.args)
}

/// The line that tells how many samples a batch holds.
pub open spec fn total_text(n: nat) -> Seq<char> {
    "\x1b[0;33mTotal samples: "@ + decimal(n) + "\n\x1b[0m\n"@
}

/// The batch `b` turns to the sample under its cursor: it is run, or the
/// batch is over where no sample is left.
pub open spec fn turn_to_next(b: Batch) -> (Batch, Order) {
    if b.cursor < b.reads.len() {
        (
            Batch { phase: Phase::Running, ..b },
            Order::Run { index: b.cursor, call: call_of(job_at(b, b.cursor as int)) },
        )
    } else {
        (Batch { phase: Phase::Finished, ..b }, Order::Finish)
    }
}

/// What follows in the batch `b` once the result of the sample under the
/// cursor was looked for.
pub open spec fn settle(b: Batch, resolved: Option<Seq<char>>) -> (Batch, Order) {
    let after = Batch { phase: Phase::Settling, ..b };
    match link_plan(job_at(b, b.cursor as int), resolved) {
        Linking::Link { target, link, report } => (
            after,
            Order::Link { index: b.cursor, target, link, report },
        ),
        Linking::Missing { notice } => (after, Order::ReportMissing { index: b.cursor, notice }),
    }
}

/// The batch after the event `e`, and what the caller is to do next. An
/// event that the batch does not wait for changes nothing.
pub open spec fn react(b: Batch, e: Signal) -> (Batch, Order) {
    if b.phase == Phase::Idle && e is Start {
        (Batch { phase: Phase::Guarding, ..b }, Order::CheckRoot { root: b.root })
    } else if b.phase == Phase::Guarding && e is RootStatus {
        if e->exists {
            (
                Batch { phase: Phase::Aborted, ..b },
                Order::Abort { error: RunError::OutputDirectoryExists, root: b.root },
            )
        } else {
            (
                Batch { phase: Phase::Preparing, ..b },
                Order::Prepare { root: b.root, links: b.links, notice: total_text(b.reads.len()) },
            )
        }
    } else if b.phase == Phase::Preparing && e is Done {
        turn_to_next(b)
    } else if b.phase == Phase::Running && e is Exited && b.cursor < b.reads.len() {
        if e->success {
            (
                Batch { phase: Phase::Locating, ..b },
                Order::Locate {
                    index: b.cursor,
                    path: contigs_path(job_at(b, b.cursor as int).output),
                },
            )
        } else {
            (Batch { phase: Phase::Settling, ..b }, Order::ReportFailure { index: b.cursor })
        }
    } else if b.phase == Phase::Locating && e is Located && b.cursor < b.reads.len() {
        settle(b, e->resolved)
    } else if b.phase == Phase::Settling && e is Done && b.cursor < b.reads.len() {
        turn_to_next(Batch { cursor: (b.cursor + 1) as usize, ..b })
    } else {
        (b, Order::Rest)
    }
}

/// Whether the batch `b` is in order: its cursor stands at a sample while
/// one is being dealt with, and never beyond the end of the list.
pub open spec fn in_order(b: Batch) -> bool {
    &&& b.cursor <= b.reads.len()
    &&& (b.phase == Phase::Running || b.phase == Phase::Locating || b.phase == Phase::Settling)
        ==> b.cursor < b.reads.len()
    &&& b.phase == Phase::Finished ==> b.cursor == b.reads.len()
    &&& (b.phase == Phase::Idle || b.phase == Phase::Guarding || b.phase == Phase::Preparing
        || b.phase == Phase::Aborted) ==> b.cursor == 0
}

/// The batch `b` after the events `events`, in order.
pub open spec fn after(b: Batch, events: Seq<Signal>) -> Batch
    decreases events.len(),
{
    if events.len() == 0 {
        b
    } else {
        after(react(b, events[0]).0, events.drop_first())
    }
}

/// What the batch `b` orders in answer to each of `events`, in order.
pub open spec fn orders(b: Batch, events: Seq<Signal>) -> Seq<Order>
    decreases events.len(),
{
    if events.len() == 0 {
        Seq::empty()
    } else {
        seq![react(b, events[0]).1] + orders(react(b, events[0]).0, events.drop_first())
    }
}

/// The samples that `orders` has the assembler started on, in order.
pub open spec fn started(orders: Seq<Order>) -> Seq<usize>
    decreases orders.len(),
{
    if orders.len() == 0 {
        Seq::empty()
    } else if orders[0] is Run {
        seq![orders[0]->Run_index] + started(orders.drop_first())
    } else {
        started(orders.drop_first())
    }
}

/// How the run of one sample went: whether the assembler ended well, and
/// the absolute path of its result, where it left one.
pub struct Outcome {
    pub success: bool,
    pub resolved: Option<Seq<char>>,
}

/// What the caller reports of one sample, from the end of the assembler to
/// the end of the report.
pub open spec fn replies(o: Outcome) -> Seq<Signal> {
    if o.success {
        seq![
            Signal::Exited { success: true },
            Signal::Located { resolved: o.resolved },
            Signal::Done,
        ]
    } else {
        seq![Signal::Exited { success: false }, Signal::Done]
    }
}

/// What the caller reports of the samples that went as `outcomes` say, one
/// after the other.
pub open spec fn script(outcomes: Seq<Outcome>) -> Seq<Signal>
    decreases outcomes.len(),
{
    if outcomes.len() == 0 {
        Seq::empty()
    } else {
        replies(outcomes[0]) + script(outcomes.drop_first())
    }
}

/// The indices from `from` up to, not including, `to`.
pub open spec fn indices(from: int, to: int) -> Seq<usize> {
    Seq::new((to - from) as nat, |i: int| (from + i) as usize)
}

/// The batch yet to begin is in order, whatever it holds.
pub proof fn lemma_initial_in_order(
    reads: Seq<Sample>,
    threads: Option<usize>,
    outdir: Option<Seq<char>>,
    args: Option<Seq<char>>,
)
    ensures
        in_order(initial(reads, threads, outdir, args)),
{
}

/// A batch in order stays in order, whatever is reported to it; and what
/// it holds (the samples, the directories, the settings) never changes.
pub proof fn lemma_react_keeps_order(b: Batch, e: Signal)
    requires
        in_order(b),
        b.reads.len() <= usize::MAX,
    ensures
        in_order(react(b, e).0),
        react(b, e).0.reads == b.reads,
        react(b, e).0.root == b.root,
        react(b, e).0.links == b.links,
        react(b, e).0.threads == b.threads,
        react(b, e).0.args == b.args,
        react(b, e).0.cursor == b.cursor || react(b, e).0.cursor == b.cursor + 1,
{
}

/// One event followed by others: the batch reacts to it, then to the
/// others.
pub proof fn lemma_event_then(b: Batch, e: Signal, later: Seq<Signal>)
    ensures
        after(b, seq![e] + later) == after(react(b, e).0, later),
        orders(b, seq![e] + later) == seq![react(b, e).1] + orders(react(b, e).0, later),
{
    let all = seq![e] + later;
    assert(all[0] == e);
    assert(all.drop_first() == later);
}

/// The runs among one order followed by others.
pub proof fn lemma_order_then(o: Order, later: Seq<Order>)
    ensures
        started(seq![o] + later) == if o is Run {
            seq![o->Run_index] + started(later)
        } else {
            started(later)
        },
{
    let all = seq![o] + later;
    assert(all[0] == o);
    assert(all.drop_first() == later);
}

/// Events reported one after the other have the effect of the first part
/// followed by the second.
pub proof fn lemma_events_follow(b: Batch, first: Seq<Signal>, second: Seq<Signal>)
    ensures
        after(b, first + second) == after(after(b, first), second),
        orders(b, first + second) == orders(b, first) + orders(after(b, first), second),
    decreases first.len(),
{
    if first.len() == 0 {
        assert(first + second == second);
    } else {
        let all = first + second;
        assert(all[0] == first[0]);
        assert(all.drop_first() == first.drop_first() + second);
        lemma_events_follow(react(b, first[0]).0, first.drop_first(), second);
    }
}

/// The runs ordered by two lists of orders, one after the other.
pub proof fn lemma_started_follow(first: Seq<Order>, second: Seq<Order>)
    ensures
        started(first + second) == started(first) + started(second),
    decreases first.len(),
{
    if first.len() == 0 {
        assert(first + second == second);
    } else {
        let all = first + second;
        assert(all[0] == first[0]);
        assert(all.drop_first() == first.drop_first() + second);
        lemma_started_follow(first.drop_first(), second);
    }
}

/// A batch that was given up, or that is over, orders nothing more.
pub proof fn lemma_ended_batch_rests(b: Batch, events: Seq<Signal>)
    requires
        b.phase == Phase::Aborted || b.phase == Phase::Finished,
    ensures
        after(b, events) == b,
        orders(b, events).len() == events.len(),
        forall|k: int| 0 <= k < events.len() ==> #[trigger] orders(b, events)[k] == Order::Rest,
        started(orders(b, events)) == Seq::<usize>::empty(),
    decreases events.len(),
{
    if events.len() > 0 {
        lemma_ended_batch_rests(b, events.drop_first());
        assert(orders(b, events).drop_first() == orders(b, events.drop_first()));
    }
}

/// A batch whose output directory exists already is given up before
/// anything is made or started: the first order looks for the directory,
/// the second gives the batch up, and no order follows, whatever is
/// reported afterwards.
#[verifier::rlimit(50)]
pub proof fn lemma_existing_root_starts_nothing(b: Batch, later: Seq<Signal>)
    requires
        b.phase == Phase::Idle,
    ensures
        ({
            let events = seq![Signal::Start, Signal::RootStatus { exists: true }] + later;
            &&& orders(b, events).len() == events.len()
            &&& orders(b, events)[0] == Order::CheckRoot { root: b.root }
            &&& orders(b, events)[1] == Order::Abort {
                error: RunError::OutputDirectoryExists,
                root: b.root,
            }
            &&& forall|k: int| 2 <= k < events.len() ==> #[trigger] orders(b, events)[k] == Order::Rest
            &&& started(orders(b, events)) == Seq::<usize>::empty()
            &&& after(b, events).phase == Phase::Aborted
        }),
{
    let e1 = Signal::Start;
    let e2 = Signal::RootStatus { exists: true };
    let events = seq![e1, e2] + later;
    let (b1, o1) = react(b, e1);
    let (b2, o2) = react(b1, e2);
    assert(events == seq![e1] + (seq![e2] + later));
    lemma_event_then(b, e1, seq![e2] + later);
    lemma_event_then(b1, e2, later);
    lemma_ended_batch_rests(b2, later);
    let rest = orders(b2, later);
    lemma_order_then(o2, rest);
    lemma_order_then(o1, seq![o2] + rest);
    assert forall|k: int| 2 <= k < events.len() implies #[trigger] orders(b, events)[k]
        == Order::Rest by {
        assert(orders(b, events)[k] == rest[k - 2]);
    }
}

/// A run that fails does not end the batch: the failure is reported, and
/// the next sample is run.
pub proof fn lemma_failed_run_moves_on(b: Batch)
    requires
        b.phase == Phase::Running,
        b.cursor + 1 < b.reads.len(),
        b.reads.len() <= usize::MAX,
    ensures
        ({
            let (b1, o1) = react(b, Signal::Exited { success: false });
            let (b2, o2) = react(b1, Signal::Done);
            &&& o1 == Order::ReportFailure { index: b.cursor }
            &&& o2 == Order::Run {
                index: (b.cursor + 1) as usize,
                call: call_of(job_at(b, b.cursor + 1)),
            }
            &&& b2.phase == Phase::Running
        }),
{
}

/// A run that ends well and leaves its result has the result linked under
/// the sample's name, in the directory of links, to the absolute path that
/// was found; one that leaves no result is reported and nothing is linked.
pub proof fn lemma_result_is_linked(b: Batch, resolved: Option<Seq<char>>)
    requires
        b.phase == Phase::Running,
        b.cursor < b.reads.len(),
    ensures
        ({
            let id = b.reads[b.cursor as int].id;
            let (b1, o1) = react(b, Signal::Exited { success: true });
            let (b2, o2) = react(b1, Signal::Located { resolved });
            &&& o1 == Order::Locate {
                index: b.cursor,
                path: crate::path::join(crate::path::join(b.root, id), "contigs.fasta"@),
            }
            &&& resolved matches Some(target) ==> o2 is Link && o2->Link_target == target
                && o2->Link_link == crate::path::join(b.links, id + "_contigs.fasta"@)
            &&& resolved is None ==> o2 is ReportMissing
            &&& b2.phase == Phase::Settling
        }),
{
}

/// However the run of a sample goes, the batch then turns to the next
/// sample, or is over where none is left; the sample itself is not started
/// again.
#[verifier::rlimit(50)]
pub proof fn lemma_outcome_moves_on(b: Batch, o: Outcome)
    requires
        b.phase == Phase::Running,
        b.cursor < b.reads.len(),
        b.reads.len() <= usize::MAX,
    ensures
        after(b, replies(o)) == turn_to_next(Batch { cursor: (b.cursor + 1) as usize, ..b }).0,
        started(orders(b, replies(o))) == if b.cursor + 1 < b.reads.len() {
            seq![(b.cursor + 1) as usize]
        } else {
            Seq::<usize>::empty()
        },
{
    let none = Seq::<Signal>::empty();
    let quiet = Seq::<Order>::empty();
    let done = Signal::Done;
    if o.success {
        let e1 = Signal::Exited { success: true };
        let e2 = Signal::Located { resolved: o.resolved };
        let (b1, o1) = react(b, e1);
        let (b2, o2) = react(b1, e2);
        let (b3, o3) = react(b2, done);
        assert(replies(o) == seq![e1] + (seq![e2] + (seq![done] + none)));
        lemma_event_then(b, e1, seq![e2] + (seq![done] + none));
        lemma_event_then(b1, e2, seq![done] + none);
        lemma_event_then(b2, done, none);
        assert(orders(b3, none) == quiet);
        assert(after(b3, none) == b3);
        lemma_order_then(o3, quiet);
        lemma_order_then(o2, seq![o3] + quiet);
        lemma_order_then(o1, seq![o2] + (seq![o3] + quiet));
        assert(started(quiet) == Seq::<usize>::empty());
        assert(!(o1 is Run) && !(o2 is Run));
    } else {
        let e1 = Signal::Exited { success: false };
        let (b1, o1) = react(b, e1);
        let (b2, o2) = react(b1, done);
        assert(replies(o) == seq![e1] + (seq![done] + none));
        lemma_event_then(b, e1, seq![done] + none);
        lemma_event_then(b1, done, none);
        assert(orders(b2, none) == quiet);
        assert(after(b2, none) == b2);
        lemma_order_then(o2, quiet);
        lemma_order_then(o1, seq![o2] + quiet);
        assert(started(quiet) == Seq::<usize>::empty());
        assert(!(o1 is Run));
    }
}

/// From the sample that is running on, every later sample is started
/// exactly once and in order, however each run goes, and then the batch is
/// over.
#[verifier::rlimit(50)]
pub proof fn lemma_later_samples_run_once(b: Batch, outcomes: Seq<Outcome>)
    requires
        b.phase == Phase::Running,
        b.cursor < b.reads.len(),
        b.reads.len() <= usize::MAX,
        outcomes.len() == b.reads.len() - b.cursor,
    ensures
        after(b, script(outcomes)).phase == Phase::Finished,
        started(orders(b, script(outcomes))) == indices(b.cursor + 1, b.reads.len() as int),
    decreases outcomes.len(),
{
    let first = replies(outcomes[0]);
    let rest = script(outcomes.drop_first());
    let next = after(b, first);
    lemma_outcome_moves_on(b, outcomes[0]);
    lemma_events_follow(b, first, rest);
    lemma_started_follow(orders(b, first), orders(next, rest));
    if b.cursor + 1 < b.reads.len() {
        lemma_later_samples_run_once(next, outcomes.drop_first());
        assert(seq![(b.cursor + 1) as usize] + indices(b.cursor + 2, b.reads.len() as int)
            == indices(b.cursor + 1, b.reads.len() as int));
    } else {
        assert(outcomes.drop_first().len() == 0);
        assert(rest == Seq::<Signal>::empty());
        assert(indices(b.cursor + 1, b.reads.len() as int) == Seq::<usize>::empty());
    }
}

/// What the caller reports before the first sample is turned to, where
/// the output directory does not exist yet.
pub open spec fn opening() -> Seq<Signal> {
    seq![Signal::Start, Signal::RootStatus { exists: false }, Signal::Done]
}

/// A batch whose output directory does not exist yet looks for it, has it
/// made, and turns to its first sample.
#[verifier::rlimit(50)]
pub proof fn lemma_opening_turns_to_first(b: Batch)
    requires
        b.phase == Phase::Idle,
        b.cursor == 0,
    ensures
        after(b, opening()) == turn_to_next(Batch { phase: Phase::Preparing, ..b }).0,
        orders(b, opening()) == seq![
            Order::CheckRoot { root: b.root },
            Order::Prepare { root: b.root, links: b.links, notice: total_text(b.reads.len()) },
            turn_to_next(Batch { phase: Phase::Preparing, ..b }).1,
        ],
        started(orders(b, opening())) == if b.reads.len() > 0 {
            seq![0usize]
        } else {
            Seq::<usize>::empty()
        },
{
    let none = Seq::<Signal>::empty();
    let quiet = Seq::<Order>::empty();
    let e1 = Signal::Start;
    let e2 = Signal::RootStatus { exists: false };
    let e3 = Signal::Done;
    let (b1, o1) = react(b, e1);
    let (b2, o2) = react(b1, e2);
    let (b3, o3) = react(b2, e3);
    assert(opening() == seq![e1] + (seq![e2] + (seq![e3] + none)));
    lemma_event_then(b, e1, seq![e2] + (seq![e3] + none));
    lemma_event_then(b1, e2, seq![e3] + none);
    lemma_event_then(b2, e3, none);
    assert(orders(b3, none) == quiet);
    assert(after(b3, none) == b3);
    lemma_order_then(o3, quiet);
    lemma_order_then(o2, seq![o3] + quiet);
    lemma_order_then(o1, seq![o2] + (seq![o3] + quiet));
    assert(started(quiet) == Seq::<usize>::empty());
    assert(seq![o1] + (seq![o2] + (seq![o3] + quiet)) == seq![o1, o2, o3]);
}

/// A batch whose output directory does not exist yet starts the assembler
/// on every sample exactly once, in the order of the list, however each run
/// goes: no run is skipped because an earlier one failed, and none is tried
/// again.
#[verifier::rlimit(50)]
pub proof fn lemma_batch_runs_each_sample_once(b: Batch, outcomes: Seq<Outcome>)
    requires
        b.phase == Phase::Idle,
        b.cursor == 0,
        b.reads.len() <= usize::MAX,
        outcomes.len() == b.reads.len(),
    ensures
        after(b, opening() + script(outcomes)).phase == Phase::Finished,
        started(orders(b, opening() + script(outcomes))) == indices(0, b.reads.len() as int),
{
    let first = after(b, opening());
    lemma_opening_turns_to_first(b);
    lemma_events_follow(b, opening(), script(outcomes));
    lemma_started_follow(orders(b, opening()), orders(first, script(outcomes)));
    if b.reads.len() == 0 {
        assert(script(outcomes) == Seq::<Signal>::empty());
        assert(orders(first, script(outcomes)) == Seq::<Order>::empty());
        assert(started(Seq::<Order>::empty()) == Seq::<usize>::empty());
        assert(indices(0, 0) == Seq::<usize>::empty());
    } else {
        lemma_later_samples_run_once(first, outcomes);
        assert(seq![0usize] + indices(1, b.reads.len() as int) == indices(
            0,
            b.reads.len() as int,
        ));
    }
}

/// The line that tells how many samples a batch holds.
pub fn total_samples(n: usize) -> (out: String)
    ensures
        out@ == total_text(n as nat),
{
    let mut out = "\x1b[0;33mTotal samples: ".to_owned();
    out.append(string_of(&decimal_chars(n as u64)).as_str());
    out.append("\n\x1b[0m\n");
    out
}

/// Guards the output directory: a batch may write only where no directory
/// exists yet.
pub fn check_dir_exists(present: bool) -> (r: Result<(), RunError>)
    ensures
        r is Err <==> present,
        r matches Err(e) ==> e == RunError::OutputDirectoryExists,
{
    if present {
        Err(RunError::OutputDirectoryExists)
    } else {
        Ok(())
    }
}

/// The batch that assembles `reads`, yet to begin.
pub fn assemble_reads(
    reads: Vec<SeqReads>,
    threads: &Option<usize>,
    outdir: &Option<String>,
    args: &Option<String>,
) -> (batch: Supervisor)
    ensures
        batch@ == initial(samples(reads@), *threads, opt_text(*outdir), opt_text(*args)),
{
    let dir = get_outdir(outdir);
    let contig_dir = join_path(dir.as_str(), "contig_symlinks");
    Supervisor {
        reads,
        root: dir,
        links: contig_dir,
        threads: *threads,
        args: match args {
            Some(given) => Some(given.clone()),
            None => None,
        },
        phase: Phase::Idle,
        cursor: 0,
    }
}

impl Supervisor {
    /// The run of the sample at `index`.
    pub fn runner(&self, index: usize) -> (run: Runner<'_>)
        requires
            index < self.reads.len(),
        ensures
            run@ == job_at(self@, index as int),
    {
        Runner::new(
            self.root.as_str(),
            self.links.as_str(),
            &self.reads[index],
            &self.threads,
            &self.args,
        )
    }

    /// Turns to the sample under the cursor.
    fn turn(&mut self) -> (action: Action)
        ensures
            (final(self)@, action@) == turn_to_next(old(self)@),
    {
        if self.cursor < self.reads.len() {
            let call = self.runner(self.cursor).run_spades();
            self.phase = Phase::Running;
            Action::Run { index: self.cursor, call }
        } else {
            self.phase = Phase::Finished;
            Action::Finish
        }
    }

    /// Takes the event `event` in and says what is to be done next.
    #[verifier::rlimit(50)]
    pub fn step(&mut self, event: Event) -> (action: Action)
        ensures
            (final(self)@, action@) == react(old(self)@, event@),
    {
        match (self.phase, event) {
            (Phase::Idle, Event::Start) => {
                self.phase = Phase::Guarding;
                Action::CheckRoot { root: self.root.clone() }
            },
            (Phase::Guarding, Event::RootStatus { exists }) => {
                match check_dir_exists(exists) {
                    Err(error) => {
                        self.phase = Phase::Aborted;
                        Action::Abort { error, root: self.root.clone() }
                    },
                    Ok(_) => {
                        self.phase = Phase::Preparing;
                        Action::Prepare {
                            root: self.root.clone(),
                            links: self.links.clone(),
                            notice: total_samples(self.reads.len()),
                        }
                    },
                }
            },
            (Phase::Preparing, Event::Done) => self.turn(),
            (Phase::Running, Event::Exited { success }) => {
                if self.cursor < self.reads.len() {
                    if success {
                        let path = self.runner(self.cursor).contigs();
                        self.phase = Phase::Locating;
                        Action::Locate { index: self.cursor, path }
                    } else {
                        self.phase = Phase::Settling;
                        Action::ReportFailure { index: self.cursor }
                    }
                } else {
                    Action::Rest
                }
            },
            (Phase::Locating, Event::Located { resolved }) => {
                if self.cursor < self.reads.len() {
                    let plan = self.runner(self.cursor).create_symlink(resolved);
                    self.phase = Phase::Settling;
                    match plan {
                        LinkPlan::Link { target, link, report } => Action::Link {
                            index: self.cursor,
                            target,
                            link,
                            report,
                        },
                        LinkPlan::Missing { notice } => Action::ReportMissing {
                            index: self.cursor,
                            notice,
                        },
                    }
                } else {
                    Action::Rest
                }
            },
            (Phase::Settling, Event::Done) => {
                if self.cursor < self.reads.len() {
                    self.cursor = self.cursor + 1;
                    self.turn()
                } else {
                    Action::Rest
                }
            },
            _ => Action::Rest,
        }
    }
}

} // verus!
