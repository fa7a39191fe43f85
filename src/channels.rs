//! The job channel registry: a live viewer attaches to a job's output by
//! job id. No channel for an id is the ordinary "no viewer" answer.
use vstd::prelude::*;
use tokio::sync::broadcast::{Sender, Receiver};

verus! {

/// tokio's broadcast sender, held opaque per job.
#[verifier::external_type_specification]
#[verifier::external_body]
#[verifier::reject_recursive_types(T)]
pub struct ExBroadcastSender<T>(Sender<T>);

/// tokio's broadcast receiver, handed to a subscriber.
#[verifier::external_type_specification]
#[verifier::external_body]
#[verifier::reject_recursive_types(T)]
pub struct ExBroadcastReceiver<T>(Receiver<T>);

/// Relies on tokio's broadcast::Sender::subscribe: a new receiver of the
/// channel.
pub assume_specification<T>[ Sender::<T>::subscribe ](s: &Sender<T>) -> Receiver<T>;

/// First index at or after `i` of an entry keyed `id`.
pub open spec fn find_key(es: Seq<(String, Sender<String>)>, id: Seq<char>, i: int) -> Option<int>
    decreases es.len() - i,
{
    if i < 0 || i >= es.len() {
        None
    } else if es[i].0@ == id {
        Some(i)
    } else {
        find_key(es, id, i + 1)
    }
}

pub proof fn lemma_find_key(es: Seq<(String, Sender<String>)>, id: Seq<char>, i: int)
    requires
        0 <= i,
    ensures
        match find_key(es, id, i) {
            Some(k) => i <= k < es.len() && es[k].0@ == id,
            None => forall|j: int| i <= j < es.len() ==> es[j].0@ != id,
        },
    decreases es.len() - i,
{
    if i < es.len() && es[i].0@ != id {
        lemma_find_key(es, id, i + 1);
    }
}

/// Broadcast channels of string messages, keyed by job id.
pub struct JobChannels {
    entries: Vec<(String, Sender<String>)>,
}

impl JobChannels {
    /// The job ids that have a channel, in registration order.
    pub closed spec fn ids(&self) -> Seq<Seq<char>> {
        self.entries@.map_values(|e: (String, Sender<String>)| e.0@)
    }

    /// The channel of job `id`, where it has one.
    pub closed spec fn sender_of(&self, id: Seq<char>) -> Sender<String> {
        match find_key(self.entries@, id, 0) {
            Some(k) => self.entries@[k].1,
            None => arbitrary(),
        }
    }

    /// With unique keys, the entry at `j` is the one `sender_of` reads.
    proof fn lemma_sender_at(&self, j: int)
        requires
            self.wf(),
            0 <= j < self.entries@.len(),
        ensures
            self.sender_of(self.entries@[j].0@) == self.entries@[j].1,
            self.ids()[j] == self.entries@[j].0@,
    {
        let id = self.entries@[j].0@;
        lemma_find_key(self.entries@, id, 0);
        let k = find_key(self.entries@, id, 0)->0;
        if k < j {
            assert(self.entries@[k].0@ != self.entries@[j].0@);
        } else if k > j {
            assert(self.entries@[j].0@ != self.entries@[k].0@);
        }
    }

    /// No job id is registered twice.
    pub closed spec fn wf(&self) -> bool {
        forall|i: int, j: int|
            0 <= i < j < self.entries@.len() ==> self.entries@[i].0@ != self.entries@[j].0@
    }

    /// An empty registry.
    pub fn new() -> (r: JobChannels)
        ensures
            r.wf(),
            r.ids() == Seq::<Seq<char>>::empty(),
    {
        let r = JobChannels { entries: Vec::new() };
        assert(r.ids() =~= Seq::<Seq<char>>::empty());
        r
    }

    /// Position of `job_id`'s entry.
    fn position(&self, job_id: &String) -> (r: Option<usize>)
        requires
            self.wf(),
        ensures
            match r {
                Some(i) => i < self.ids().len() && self.ids()[i as int] == job_id@,
                None => !self.ids().contains(job_id@),
            },
    {
        let mut i: usize = 0;
        while i < self.entries.len()
            invariant
                i <= self.entries@.len(),
                forall|k: int| 0 <= k < i ==> self.entries@[k].0@ != job_id@,
            decreases self.entries@.len() - i,
        {
            if self.entries[i].0 == *job_id {
                return Some(i);
            }
            i = i + 1;
        }
        proof {
            if self.ids().contains(job_id@) {
                let k = choose|k: int| 0 <= k < self.ids().len() && self.ids()[k] == job_id@;
                assert(self.entries@[k].0@ == job_id@);
            }
        }
        None
    }

    /// Whether `job_id` has a channel.
    pub fn contains(&self, job_id: &str) -> (r: bool)
        requires
            self.wf(),
        ensures
            r == self.ids().contains(job_id@),
    {
        let key = job_id.to_string();
        self.position(&key).is_some()
    }

    /// A receiver on `job_id`'s channel, or `None` where the job has none:
    /// an unknown id is answered with `None`, never an error.
    pub fn subscribe(&self, job_id: &str) -> (r: Option<Receiver<String>>)
        requires
            self.wf(),
        ensures
            r.is_some() == self.ids().contains(job_id@),
    {
        let key = job_id.to_string();
        match self.position(&key) {
            Some(i) => Some(self.entries[i].1.subscribe()),
            None => None,
        }
    }

    /// Gives `job_id` the channel `sender`, in place of any it had.
    pub fn register(&mut self, job_id: String, sender: Sender<String>)
        requires
            old(self).wf(),
        ensures
            final(self).wf(),
            final(self).ids().to_set() == old(self).ids().to_set().insert(job_id@),
            final(self).sender_of(job_id@) == sender,
            forall|id: Seq<char>|
                id != job_id@ && old(self).ids().contains(id) ==> #[trigger] final(self).sender_of(
                    id,
                ) == old(self).sender_of(id),
    {
        let ghost sent = sender;
        let ghost key = job_id@;
        match self.position(&job_id) {
            Some(i) => {
                let ghost before = self.ids();
                self.entries.set(i, (job_id, sender));
                proof {
                    assert(self.ids() =~= before);
                    assert forall|k: int| 0 <= k < self.entries@.len() implies self.entries@[k].0@
                        == before[k] by {
                        assert(self.ids()[k] == self.entries@[k].0@);
                    }
                    self.lemma_sender_at(i as int);
                    assert forall|id: Seq<char>|
                        id != key && old(self).ids().contains(id) implies #[trigger] self.sender_of(id)
                        == old(self).sender_of(id) by {
                        let j = choose|j: int| 0 <= j < before.len() && before[j] == id;
                        old(self).lemma_sender_at(j);
                        self.lemma_sender_at(j);
                    }
                }
            },
            None => {
                let ghost before = self.ids();
                assert forall|k: int| 0 <= k < self.entries@.len() implies self.entries@[k].0@
                    != job_id@ by {
                    assert(before[k] == self.entries@[k].0@);
                }
                self.entries.push((job_id, sender));
                assert(self.entries@[before.len() as int].1 == sent);
                proof {
                    assert(self.ids() =~= before.push(key));
                    self.lemma_sender_at(before.len() as int);
                    assert forall|id: Seq<char>|
                        id != key && old(self).ids().contains(id) implies #[trigger] self.sender_of(id)
                        == old(self).sender_of(id) by {
                        let j = choose|j: int| 0 <= j < before.len() && before[j] == id;
                        old(self).lemma_sender_at(j);
                        self.lemma_sender_at(j);
                    }
                    assert(self.ids().to_set() =~= before.to_set().insert(job_id@)) by {
                        assert forall|x: Seq<char>| self.ids().contains(x) <==> (before.contains(x) || x == job_id@) by {
                            if before.contains(x) {
                                let k = choose|k: int| 0 <= k < before.len() && before[k] == x;
                                assert(self.ids()[k] == x);
                            }
                            if x == job_id@ {
                                assert(self.ids()[before.len() as int] == x);
                            }
                        }
                    }
                }
            },
        }
    }

    /// Drops `job_id`'s channel, if it has one.
    pub fn remove(&mut self, job_id: &str)
        requires
            old(self).wf(),
        ensures
            final(self).wf(),
            final(self).ids().to_set() == old(self).ids().to_set().remove(job_id@),
            forall|id: Seq<char>|
                id != job_id@ && old(self).ids().contains(id) ==> #[trigger] final(self).sender_of(
                    id,
                ) == old(self).sender_of(id),
    {
        let key = job_id.to_string();
        match self.position(&key) {
            Some(i) => {
                let ghost before = self.ids();
                let ghost old_entries = self.entries@;
                let _ = self.entries.remove(i);
                proof {
                    assert forall|id: Seq<char>|
                        id != job_id@ && old(self).ids().contains(id) implies #[trigger] self.sender_of(id)
                        == old(self).sender_of(id) by {
                        let j = choose|j: int| 0 <= j < before.len() && before[j] == id;
                        old(self).lemma_sender_at(j);
                        assert(j != i);
                        if j < i {
                            assert(self.entries@[j] == old_entries[j]);
                            self.lemma_sender_at(j);
                        } else {
                            assert(self.entries@[j - 1] == old_entries[j]);
                            self.lemma_sender_at(j - 1);
                        }
                    }
                    assert(self.ids() =~= before.remove(i as int));
                    assert(self.ids().to_set() =~= before.to_set().remove(job_id@)) by {
                        assert forall|x: Seq<char>| self.ids().contains(x) <==> (before.contains(x) && x != job_id@) by {
                            if self.ids().contains(x) {
                                let k = choose|k: int| 0 <= k < self.ids().len() && self.ids()[k] == x;
                                if k < i {
                                    assert(before[k] == x);
                                    assert(old_entries[k].0@ != old_entries[i as int].0@);
                                } else {
                                    assert(before[k + 1] == x);
                                    assert(old_entries[i as int].0@ != old_entries[k + 1].0@);
                                }
                            }
                            if before.contains(x) && x != job_id@ {
                                let k = choose|k: int| 0 <= k < before.len() && before[k] == x;
                                if k < i {
                                    assert(self.ids()[k] == x);
                                } else {
                                    assert(k != i);
                                    assert(self.ids()[k - 1] == x);
                                }
                            }
                        }
                    }
                }
            },
            None => {
                assert(self.ids().to_set() =~= self.ids().to_set().remove(job_id@));
            },
        }
    }
}

} // verus!
