use crate::provider::{tracks_view, Track};
use vstd::prelude::*;

verus! {

/// What the consumer receives: a display name and a playable address.
#[derive(Debug, PartialEq, Eq)]
pub struct DownloadTask {
    pub name: String,
    pub url: String,
}

impl View for DownloadTask {
    type V = (Seq<char>, Seq<char>);

    open spec fn view(&self) -> (Seq<char>, Seq<char>) {
        (self.name@, self.url@)
    }
}

/// What to do when a hand-off to the consumer fails.
#[derive(Debug, PartialEq, Eq, Structural, Clone, Copy)]
pub enum DeliveryPolicy {
    /// Note the failure and go on with the remaining tracks.
    BestEffort,
    /// Stop: no further track is resolved.
    FailFast,
}

/// The tasks that a pass delivers when the first `urls.len()` tracks were
/// resolved to `urls`: one per non-empty address, in track order.
pub open spec fn tasks_spec(
    tracks: Seq<(u64, Seq<char>)>,
    urls: Seq<Seq<char>>,
) -> Seq<(Seq<char>, Seq<char>)>
    decreases urls.len(),
{
    if urls.len() == 0 {
        Seq::empty()
    } else {
        let k = urls.len() - 1;
        let prev = tasks_spec(tracks, urls.drop_last());
        if urls[k].len() > 0 {
            prev.push((tracks[k].1, urls[k]))
        } else {
            prev
        }
    }
}

/// How many of `urls` are non-empty.
pub open spec fn count_resolved(urls: Seq<Seq<char>>) -> nat
    decreases urls.len(),
{
    if urls.len() == 0 {
        0
    } else {
        count_resolved(urls.drop_last()) + if urls.last().len() > 0 {
            1nat
        } else {
            0nat
        }
    }
}

/// One dispatch pass over the tracks of a search, driven step by step by its
/// caller: ask `next_track` which identifier to resolve, hand the address back
/// to `on_resolved`, send the task that it returns, and report the outcome of
/// the send to `on_delivery`.
pub struct Dispatcher {
    tracks: Vec<Track>,
    next: usize,
    policy: DeliveryPolicy,
    failures: usize,
    pending: bool,
    stopped: bool,
    resolved: Ghost<Seq<Seq<char>>>,
}

impl Dispatcher {
    /// The tracks of the pass.
    pub closed spec fn tracks(&self) -> Seq<(u64, Seq<char>)> {
        tracks_view(self.tracks@)
    }

    /// The addresses handed back so far, one per track in order.
    pub closed spec fn resolved(&self) -> Seq<Seq<char>> {
        self.resolved@
    }

    /// The number of failed hand-offs reported so far.
    pub closed spec fn failures_spec(&self) -> nat {
        self.failures as nat
    }

    /// Whether a task was handed out whose send has not been reported yet.
    pub closed spec fn pending_spec(&self) -> bool {
        self.pending
    }

    /// Whether a failed hand-off stopped the pass.
    pub closed spec fn stopped_spec(&self) -> bool {
        self.stopped
    }

    /// The policy of the pass.
    pub closed spec fn policy_spec(&self) -> DeliveryPolicy {
        self.policy
    }

    /// Whether no track is left to resolve.
    pub open spec fn done_spec(&self) -> bool {
        self.stopped_spec() || self.resolved().len() >= self.tracks().len()
    }

    /// The tasks handed out so far.
    pub open spec fn delivered(&self) -> Seq<(Seq<char>, Seq<char>)> {
        tasks_spec(self.tracks(), self.resolved())
    }

    /// The pass is consistent: one address per track handled so far, and at
    /// most one failure per task handed out.
    pub closed spec fn wf(&self) -> bool {
        &&& self.next as int == self.resolved@.len()
        &&& self.next <= self.tracks@.len()
        &&& self.failures + (if self.pending { 1int } else { 0int }) <= self.next
        &&& (self.stopped ==> self.policy == DeliveryPolicy::FailFast)
    }

    /// A pass over `tracks`, nothing resolved yet.
    pub fn new(tracks: Vec<Track>, policy: DeliveryPolicy) -> (r: Dispatcher)
        ensures
            r.wf(),
            r.tracks() == tracks_view(tracks@),
            r.resolved() == Seq::<Seq<char>>::empty(),
            r.failures_spec() == 0,
            !r.pending_spec(),
            !r.stopped_spec(),
            r.policy_spec() == policy,
    {
        Dispatcher {
            tracks,
            next: 0,
            policy,
            failures: 0,
            pending: false,
            stopped: false,
            resolved: Ghost(Seq::empty()),
        }
    }

    /// The identifier to resolve next, or `None` once the pass is over.
    pub fn next_track(&self) -> (r: Option<u64>)
        requires
            self.wf(),
        ensures
            self.done_spec() ==> r is None,
            !self.done_spec() ==> r == Some(self.tracks()[self.resolved().len() as int].0),
    {
        assert(self.tracks().len() == self.tracks@.len());
        if self.stopped || self.next >= self.tracks.len() {
            None
        } else {
            Some(self.tracks[self.next].id)
        }
    }

    /// Takes the address that the current track resolved to. Returns the task
    /// to send where the address is non-empty; an empty one drops the track.
    pub fn on_resolved(&mut self, url: String) -> (r: Option<DownloadTask>)
        requires
            old(self).wf(),
            !old(self).done_spec(),
            !old(self).pending_spec(),
        ensures
            final(self).wf(),
            final(self).tracks() == old(self).tracks(),
            final(self).resolved() == old(self).resolved().push(url@),
            final(self).failures_spec() == old(self).failures_spec(),
            final(self).stopped_spec() == old(self).stopped_spec(),
            final(self).policy_spec() == old(self).policy_spec(),
            final(self).pending_spec() == r is Some,
            url@.len() == 0 <==> r is None,
            r matches Some(t) ==> t@ == (
                old(self).tracks()[old(self).resolved().len() as int].1,
                url@,
            ),
            final(self).delivered() == if url@.len() > 0 {
                old(self).delivered().push(
                    (old(self).tracks()[old(self).resolved().len() as int].1, url@),
                )
            } else {
                old(self).delivered()
            },
    {
        let ghost before = self.resolved@;
        assert(self.tracks().len() == self.tracks@.len());
        let i = self.next;
        let n = self.tracks.len();
        assert(i < n);
        self.next = i + 1;
        self.resolved = Ghost(before.push(url@));
        assert(before.push(url@).drop_last() =~= before);
        if url.as_str().is_empty() {
            None
        } else {
            self.pending = true;
            let name = self.tracks[i].name.clone();
            Some(DownloadTask { name, url })
        }
    }

    /// Takes the outcome of sending the last task. A failure is counted; under
    /// `FailFast` it also ends the pass.
    pub fn on_delivery(&mut self, sent: bool)
        requires
            old(self).wf(),
            old(self).pending_spec(),
        ensures
            final(self).wf(),
            final(self).tracks() == old(self).tracks(),
            final(self).resolved() == old(self).resolved(),
            final(self).delivered() == old(self).delivered(),
            final(self).policy_spec() == old(self).policy_spec(),
            !final(self).pending_spec(),
            final(self).failures_spec() == old(self).failures_spec() + if sent {
                0nat
            } else {
                1nat
            },
            final(self).stopped_spec() == (old(self).stopped_spec() || (!sent
                && old(self).policy_spec() == DeliveryPolicy::FailFast)),
    {
        self.pending = false;
        if !sent {
            self.failures = self.failures + 1;
            if self.policy == DeliveryPolicy::FailFast {
                self.stopped = true;
            }
        }
    }

    /// A pass that ran to its end without being stopped handled every track,
    /// and handed out exactly one task per track that resolved to an address.
    pub proof fn lemma_finished_pass(&self)
        requires
            self.wf(),
            self.done_spec(),
            !self.stopped_spec(),
        ensures
            self.resolved().len() == self.tracks().len(),
            self.delivered().len() == count_resolved(self.resolved()),
            self.delivered().len() <= self.tracks().len(),
    {
        assert(self.tracks().len() == self.tracks@.len());
        crate::laws::law_delivered_count(self.tracks(), self.resolved());
    }

    /// The number of failed hand-offs reported so far.
    pub fn failures(&self) -> (r: usize)
        ensures
            r == self.failures_spec(),
    {
        self.failures
    }

    /// Whether a failed hand-off stopped the pass.
    pub fn is_stopped(&self) -> (r: bool)
        ensures
            r == self.stopped_spec(),
    {
        self.stopped
    }
}

} // verus!
