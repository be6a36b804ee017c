//! The refresh procedure: the months of the year, fetched one after the
//! other, each success reported, and the entries handed over only when every
//! month has arrived. The fetching itself is done by the caller.

use crate::api::TimetEntry;
use crate::model::Message;
use vstd::prelude::*;

verus! {

/// A refresh of months `1..=last_month` of `year`.
pub struct RefreshRun {
    pub year: u32,
    pub last_month: u32,
    pub next_month: u32,
    pub fetched: Vec<TimetEntry>,
    pub finished: bool,
    /// The entries of each month received so far, by month.
    pub received: Ghost<Seq<Seq<TimetEntry>>>,
}

/// The batches, one after the other.
pub open spec fn flatten(batches: Seq<Seq<TimetEntry>>) -> Seq<TimetEntry>
    decreases batches.len(),
{
    if batches.len() == 0 {
        Seq::empty()
    } else {
        flatten(batches.drop_last()) + batches.last()
    }
}

/// The messages sent when the run fails.
pub open spec fn failure_messages(r: Seq<Message>, reason: Seq<char>) -> bool {
    r.len() == 1 && r[0].is_failure_with(reason)
}

/// A refresh that fails hands over no entries: the messages it sends write
/// nothing to the cache, which the update engine leaves as it was.
pub proof fn law_failed_refresh_keeps_store(msgs: Seq<Message>, reason: Seq<char>)
    requires
        failure_messages(msgs, reason),
    ensures
        forall|i: int| 0 <= i < msgs.len() ==> !(#[trigger] msgs[i]).writes_store(),
{
}

/// What `on_month` does with the entries `es` of month `before.next_month`.
pub open spec fn month_arrived(
    before: RefreshRun,
    es: Seq<TimetEntry>,
    after: RefreshRun,
    r: Seq<Message>,
) -> bool {
    &&& after.wf()
    &&& after.year == before.year
    &&& after.last_month == before.last_month
    &&& r[0] == Message::RefreshProgressing(before.next_month)
    &&& after.received@ == before.received@.push(es)
    &&& if before.next_month == before.last_month {
        &&& after.finished
        &&& r.len() == 2
        &&& after.received@.len() == before.last_month
        &&& r[1].is_fetched_with(flatten(after.received@))
    } else {
        &&& !after.finished
        &&& r.len() == 1
        &&& after.next_month == before.next_month + 1
        &&& after.fetched@ == before.fetched@ + es
    }
}

/// What `on_month` does when month `before.next_month` failed.
pub open spec fn month_failed(before: RefreshRun, reason: Seq<char>, after: RefreshRun, r: Seq<
    Message,
>) -> bool {
    &&& after.wf()
    &&& after.finished
    &&& failure_messages(r, reason)
}

/// A fresh run of `runs[0].last_month` months, in which month `i + 1`
/// brought `batches[i]`, for each `i` below `batches.len()`.
pub open spec fn months_arrived(
    runs: Seq<RefreshRun>,
    batches: Seq<Seq<TimetEntry>>,
    sent: Seq<Seq<Message>>,
) -> bool {
    &&& runs.len() == batches.len() + 1
    &&& sent.len() == batches.len()
    &&& runs[0].wf()
    &&& !runs[0].finished
    &&& runs[0].next_month == 1
    &&& forall|i: int|
        0 <= i < batches.len() ==> month_arrived(runs[i], batches[i], runs[i + 1], sent[i])
}

proof fn lemma_months_arrived(
    runs: Seq<RefreshRun>,
    batches: Seq<Seq<TimetEntry>>,
    sent: Seq<Seq<Message>>,
    i: int,
)
    requires
        months_arrived(runs, batches, sent),
        0 <= i <= batches.len(),
        i < runs[0].last_month || i == batches.len(),
        batches.len() <= runs[0].last_month,
    ensures
        runs[i].received@ == batches.subrange(0, i),
        runs[i].last_month == runs[0].last_month,
        i < runs[0].last_month ==> !runs[i].finished && runs[i].next_month == i + 1,
        forall|j: int| 0 <= j < i ==> (#[trigger] sent[j])[0] == Message::RefreshProgressing((j + 1) as u32),
        forall|j: int| 0 <= j < i && j + 1 < runs[0].last_month ==> (#[trigger] sent[j]).len() == 1,
    decreases i,
{
    if i == 0 {
        assert(runs[0].received@ =~= batches.subrange(0, 0));
    } else {
        lemma_months_arrived(runs, batches, sent, i - 1);
        assert(month_arrived(runs[i - 1], batches[i - 1], runs[i], sent[i - 1]));
        assert(batches.subrange(0, i - 1).push(batches[i - 1]) =~= batches.subrange(0, i));
    }
}

/// A refresh in which every month arrives reports each month in turn, and
/// after the last one hands over the entries of all months, in order.
pub proof fn law_refresh_success(
    runs: Seq<RefreshRun>,
    batches: Seq<Seq<TimetEntry>>,
    sent: Seq<Seq<Message>>,
)
    requires
        months_arrived(runs, batches, sent),
        batches.len() == runs[0].last_month,
    ensures
        forall|j: int|
            0 <= j < batches.len() ==> (#[trigger] sent[j])[0] == Message::RefreshProgressing(
                (j + 1) as u32,
            ),
        forall|j: int| 0 <= j < batches.len() - 1 ==> (#[trigger] sent[j]).len() == 1,
        runs[batches.len() as int].finished,
        sent[batches.len() - 1].len() == 2,
        sent[batches.len() - 1][1].is_fetched_with(flatten(batches)),
{
    let n = batches.len() as int;
    lemma_months_arrived(runs, batches, sent, n - 1);
    lemma_months_arrived(runs, batches, sent, n);
    assert(month_arrived(runs[n - 1], batches[n - 1], runs[n], sent[n - 1]));
    assert(batches.subrange(0, n) =~= batches);
}

/// A refresh in which some month fails after the earlier ones arrived sends
/// nothing that writes to the cache: only progress reports, then the failure.
pub proof fn law_refresh_failure(
    runs: Seq<RefreshRun>,
    batches: Seq<Seq<TimetEntry>>,
    sent: Seq<Seq<Message>>,
    reason: Seq<char>,
    failed: RefreshRun,
    last: Seq<Message>,
)
    requires
        months_arrived(runs, batches, sent),
        batches.len() < runs[0].last_month,
        month_failed(runs[batches.len() as int], reason, failed, last),
    ensures
        forall|j: int, k: int|
            0 <= j < sent.len() && 0 <= k < sent[j].len() ==> !(#[trigger] sent[j][k]).writes_store(),
        forall|k: int| 0 <= k < last.len() ==> !(#[trigger] last[k]).writes_store(),
        failed.finished,
{
    lemma_months_arrived(runs, batches, sent, batches.len() as int);
    assert forall|j: int, k: int|
        0 <= j < sent.len() && 0 <= k < sent[j].len() implies !(
        #[trigger] sent[j][k]).writes_store() by {
        assert(sent[j].len() == 1);
        assert(sent[j][0] == Message::RefreshProgressing((j + 1) as u32));
    }
}

impl RefreshRun {
    pub open spec fn wf(&self) -> bool {
        &&& 1 <= self.last_month <= 12
        &&& 1 <= self.next_month <= self.last_month
        &&& !self.finished ==> self.fetched@ == flatten(self.received@)
        &&& !self.finished ==> self.received@.len() == self.next_month - 1
    }

    pub fn new(year: u32, last_month: u32) -> (r: RefreshRun)
        requires
            1 <= last_month <= 12,
        ensures
            r.wf(),
            !r.finished,
            r.year == year,
            r.last_month == last_month,
            r.next_month == 1,
            r.fetched@ == Seq::<TimetEntry>::empty(),
            r.received@ == Seq::<Seq<TimetEntry>>::empty(),
    {
        let r = RefreshRun {
            year,
            last_month,
            next_month: 1,
            fetched: Vec::new(),
            finished: false,
            received: Ghost(Seq::empty()),
        };
        assert(r.fetched@ =~= flatten(r.received@));
        r
    }

    /// The month to fetch next, until the run is over.
    pub fn next_fetch(&self) -> (r: Option<u32>)
        ensures
            r == if self.finished {
                None
            } else {
                Some(self.next_month)
            },
    {
        if self.finished {
            None
        } else {
            Some(self.next_month)
        }
    }

    /// Takes the outcome of fetching month `next_month` (its entries, none
    /// where the response held no list, or the error) and returns the
    /// messages to send, in order. A success is reported with its month; after
    /// the last month the entries of every month, in order, are handed over
    /// in one message. A failure ends the run, drops what was fetched and
    /// sends only the failure.
    pub fn on_month(&mut self, outcome: Result<Option<Vec<TimetEntry>>, String>) -> (r: Vec<
        Message,
    >)
        requires
            old(self).wf(),
            !old(self).finished,
        ensures
            final(self).wf(),
            final(self).year == old(self).year,
            final(self).last_month == old(self).last_month,
            match outcome {
                Ok(Some(es)) => month_arrived(*old(self), es@, *final(self), r@),
                Ok(None) => month_failed(*old(self), "No entries in response"@, *final(self), r@),
                Err(t) => month_failed(*old(self), t@, *final(self), r@),
            },
    {
        match outcome {
            Ok(Some(es)) => {
                let mut es = es;
                let month = self.next_month;
                let ghost batch = es@;
                proof {
                    let b = self.received@.push(batch);
                    assert(b.drop_last() =~= self.received@);
                }
                self.received = Ghost(self.received@.push(batch));
                self.fetched.append(&mut es);
                let mut r: Vec<Message> = Vec::new();
                r.push(Message::RefreshProgressing(month));
                if month == self.last_month {
                    self.finished = true;
                    let mut all: Vec<TimetEntry> = Vec::new();
                    std::mem::swap(&mut all, &mut self.fetched);
                    r.push(Message::RefreshFetched(all));
                } else {
                    self.next_month = month + 1;
                }
                r
            },
            Ok(None) => {
                self.finished = true;
                self.fetched = Vec::new();
                let mut r: Vec<Message> = Vec::new();
                r.push(Message::RefreshFailed("No entries in response".to_owned()));
                r
            },
            Err(t) => {
                self.finished = true;
                self.fetched = Vec::new();
                let mut r: Vec<Message> = Vec::new();
                r.push(Message::RefreshFailed(t));
                r
            },
        }
    }
}

} // verus!
