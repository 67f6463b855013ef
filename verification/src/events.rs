use vstd::prelude::*;
use std::collections::HashMap;
use tokio::sync::broadcast::Sender;

verus! {

/// What changed in a session, as announced to its live viewers.
#[derive(Debug, Clone, Copy, PartialEq, Eq, Structural)]
pub enum EventKind {
    QuestionCreated,
    QuestionChanged,
    QuestionDeleted,
    DonationCreated,
    DonationChanged,
    DonationDeleted,
    Resync,
}

/// The name of an event kind on the wire.
pub open spec fn kind_name(k: EventKind) -> Seq<char> {
    match k {
        EventKind::QuestionCreated => "question_created"@,
        EventKind::QuestionChanged => "question_changed"@,
        EventKind::QuestionDeleted => "question_deleted"@,
        EventKind::DonationCreated => "donation_created"@,
        EventKind::DonationChanged => "donation_changed"@,
        EventKind::DonationDeleted => "donation_deleted"@,
        EventKind::Resync => "resync"@,
    }
}

impl EventKind {
    pub fn as_str(self) -> (s: &'static str)
        ensures
            s@ == kind_name(self),
    {
        match self {
            EventKind::QuestionCreated => "question_created",
            EventKind::QuestionChanged => "question_changed",
            EventKind::QuestionDeleted => "question_deleted",
            EventKind::DonationCreated => "donation_created",
            EventKind::DonationChanged => "donation_changed",
            EventKind::DonationDeleted => "donation_deleted",
            EventKind::Resync => "resync",
        }
    }
}

/// An event of a session feed: its kind and the question or donation it is about.
#[derive(Debug, Clone, Copy, PartialEq, Eq, Structural)]
pub struct SessionEvent {
    pub kind: EventKind,
    pub question_id: Option<i64>,
    pub donation_id: Option<i64>,
}

impl SessionEvent {
    pub fn question_created(question_id: i64) -> (e: SessionEvent)
        ensures
            e == (SessionEvent { kind: EventKind::QuestionCreated, question_id: Some(question_id), donation_id: None }),
    {
        SessionEvent { kind: EventKind::QuestionCreated, question_id: Some(question_id), donation_id: None }
    }

    pub fn question_changed(question_id: i64) -> (e: SessionEvent)
        ensures
            e == (SessionEvent { kind: EventKind::QuestionChanged, question_id: Some(question_id), donation_id: None }),
    {
        SessionEvent { kind: EventKind::QuestionChanged, question_id: Some(question_id), donation_id: None }
    }

    pub fn question_deleted(question_id: i64) -> (e: SessionEvent)
        ensures
            e == (SessionEvent { kind: EventKind::QuestionDeleted, question_id: Some(question_id), donation_id: None }),
    {
        SessionEvent { kind: EventKind::QuestionDeleted, question_id: Some(question_id), donation_id: None }
    }

    pub fn donation_created(donation_id: i64) -> (e: SessionEvent)
        ensures
            e == (SessionEvent { kind: EventKind::DonationCreated, question_id: None, donation_id: Some(donation_id) }),
    {
        SessionEvent { kind: EventKind::DonationCreated, question_id: None, donation_id: Some(donation_id) }
    }

    pub fn donation_changed(donation_id: i64) -> (e: SessionEvent)
        ensures
            e == (SessionEvent { kind: EventKind::DonationChanged, question_id: None, donation_id: Some(donation_id) }),
    {
        SessionEvent { kind: EventKind::DonationChanged, question_id: None, donation_id: Some(donation_id) }
    }

    pub fn donation_deleted(donation_id: i64) -> (e: SessionEvent)
        ensures
            e == (SessionEvent { kind: EventKind::DonationDeleted, question_id: None, donation_id: Some(donation_id) }),
    {
        SessionEvent { kind: EventKind::DonationDeleted, question_id: None, donation_id: Some(donation_id) }
    }

    pub fn resync() -> (e: SessionEvent)
        ensures
            e == (SessionEvent { kind: EventKind::Resync, question_id: None, donation_id: None }),
    {
        SessionEvent { kind: EventKind::Resync, question_id: None, donation_id: None }
    }
}


#[verifier::external_type_specification]
#[verifier::external_body]
#[verifier::reject_recursive_types(T)]
pub struct ExBroadcastSender<T>(tokio::sync::broadcast::Sender<T>);

/// How many events a session channel buffers for a slow viewer.
pub const CHANNEL_CAPACITY: usize = 256;

/// `tokio::sync::broadcast::channel(256)`: the sending half of a fresh channel; its
/// receiving half is dropped, viewers subscribe later.
#[verifier::external_body]
fn new_channel() -> Sender<SessionEvent> {
    tokio::sync::broadcast::channel(CHANNEL_CAPACITY).0
}

/// `Sender::clone`: another handle to the same channel, which sends where `s` sends and
/// counts the same receivers; the contract treats it as the same value.
#[verifier::external_body]
fn clone_sender(s: &Sender<SessionEvent>) -> (r: Sender<SessionEvent>)
    ensures
        r == *s,
{
    s.clone()
}

/// `Sender::receiver_count`: how many viewers are subscribed right now. It changes as
/// viewers come and go, so nothing is stated of it.
#[verifier::external_body]
fn receiver_count(s: &Sender<SessionEvent>) -> usize {
    s.receiver_count()
}

/// The live-event channels of the sessions, by session id.
pub struct SessionChannels {
    channels: HashMap<i64, Sender<SessionEvent>>,
}

impl View for SessionChannels {
    type V = Map<i64, Sender<SessionEvent>>;

    closed spec fn view(&self) -> Map<i64, Sender<SessionEvent>> {
        self.channels@
    }
}

impl SessionChannels {
    pub fn new() -> (c: SessionChannels)
        ensures
            c@ == Map::<i64, Sender<SessionEvent>>::empty(),
    {
        SessionChannels { channels: HashMap::new() }
    }

    /// The channel of a session, made on first use: a handle to the channel kept for the
    /// session, which an earlier call made where there was one.
    pub fn get_or_create_channel(&mut self, session_id: i64) -> (s: Sender<SessionEvent>)
        ensures
            channel_lookup(old(self)@, session_id, final(self)@, s),
    {
        broadcast use vstd::std_specs::hash::group_hash_axioms;
        match self.channels.get(&session_id) {
            Some(s) => {
                assert(old(self)@.dom().insert(session_id) =~= old(self)@.dom());
                clone_sender(s)
            },
            None => {
                let fresh = new_channel();
                let handle = clone_sender(&fresh);
                self.channels.insert(session_id, fresh);
                handle
            },
        }
    }

    /// Forgets the channels that no viewer listens to, reading each channel's receiver
    /// count; returns how many were forgotten. Which channels go follows from the counts
    /// it reads, as `drop_idle_channels` states.
    pub fn cleanup(&mut self) -> (removed: usize)
        ensures
            final(self)@.dom().subset_of(old(self)@.dom()),
            forall|k: i64| #[trigger] final(self)@.contains_key(k) ==> final(self)@[k] == old(self)@[k],
            removed == old(self)@.dom().len() - final(self)@.dom().len(),
    {
        broadcast use vstd::std_specs::hash::group_hash_axioms;
        let mut counts: Vec<(i64, usize)> = Vec::new();
        for k in self.channels.keys() {
            let count = match self.channels.get(k) {
                Some(s) => receiver_count(s),
                None => 1,
            };
            counts.push((*k, count));
        }
        let removed = self.drop_idle_channels(&counts);
        proof {
            assert(self.channels@.dom().subset_of(old(self)@.dom()));
        }
        removed
    }

    /// Forgets the channels of the sessions that `counts` reports with no receivers (an
    /// entry `(session_id, receiver_count)`); every other channel stays. Returns how many
    /// channels were forgotten.
    pub fn drop_idle_channels(&mut self, counts: &Vec<(i64, usize)>) -> (removed: usize)
        ensures
            final(self)@ == old(self)@.remove_keys(idle_sessions(counts@)),
            removed == old(self)@.dom().len() - final(self)@.dom().len(),
    {
        broadcast use vstd::std_specs::hash::group_hash_axioms;
        let ghost start = self.channels@;
        proof {
            assert(idle_sessions(counts@.take(0)) =~= Set::<i64>::empty());
            assert(start.remove_keys(Set::<i64>::empty()) =~= start);
        }
        let total = self.channels.len();
        let mut removed: usize = 0;
        let mut i: usize = 0;
        while i < counts.len()
            invariant
                total == start.len(),
                i <= counts@.len(),
                self.channels@ == start.remove_keys(idle_sessions(counts@.take(i as int))),
                removed == start.dom().len() - self.channels@.dom().len(),
                start.dom().finite(),
            decreases counts@.len() - i,
        {
            let (k, count) = counts[i];
            let ghost before = self.channels@;
            proof {
                lemma_idle_sessions_step(counts@, i as int);
            }
            if count == 0 {
                let present = match self.channels.get(&k) {
                    Some(_) => true,
                    None => false,
                };
                if present {
                    self.channels.remove(&k);
                    proof {
                        assert(before.dom().subset_of(start.dom()));
                        vstd::set_lib::lemma_len_subset(before.dom(), start.dom());
                        assert(self.channels@.dom() =~= before.dom().remove(k));
                        vstd::set_lib::lemma_len_subset(self.channels@.dom(), start.dom());
                    }
                    removed = removed + 1;
                }
                proof {
                    assert(self.channels@ =~= start.remove_keys(idle_sessions(counts@.take(i + 1))));
                }
            } else {
                proof {
                    assert(self.channels@ =~= start.remove_keys(idle_sessions(counts@.take(i + 1))));
                }
            }
            i = i + 1;
        }
        proof {
            assert(counts@.take(counts@.len() as int) =~= counts@);
        }
        removed
    }
}

/// The sessions that `counts` (entries `(session_id, receiver_count)`) reports with no
/// receivers.
pub open spec fn idle_sessions(counts: Seq<(i64, usize)>) -> Set<i64> {
    Set::new(|k: i64| exists|j: int| #[trigger] reports_idle(counts, j, k))
}

/// The `j`-th entry of `counts` reports session `k` with no receivers.
pub open spec fn reports_idle(counts: Seq<(i64, usize)>, j: int, k: i64) -> bool {
    0 <= j < counts.len() && counts[j].0 == k && counts[j].1 == 0
}

proof fn lemma_idle_sessions_step(counts: Seq<(i64, usize)>, i: int)
    requires
        0 <= i < counts.len(),
    ensures
        idle_sessions(counts.take(i + 1)) == if counts[i].1 == 0 {
            idle_sessions(counts.take(i)).insert(counts[i].0)
        } else {
            idle_sessions(counts.take(i))
        },
{
    let a = counts.take(i);
    let b = counts.take(i + 1);
    let want = if counts[i].1 == 0 { idle_sessions(a).insert(counts[i].0) } else { idle_sessions(a) };
    assert forall|x: i64| idle_sessions(b).contains(x) implies want.contains(x) by {
        let j = choose|j: int| #[trigger] reports_idle(b, j, x);
        if j < i {
            assert(reports_idle(a, j, x));
        }
    }
    assert forall|x: i64| want.contains(x) implies idle_sessions(b).contains(x) by {
        if idle_sessions(a).contains(x) {
            let j = choose|j: int| #[trigger] reports_idle(a, j, x);
            assert(reports_idle(b, j, x));
        } else {
            assert(reports_idle(b, i, x));
        }
    }
    assert(idle_sessions(b) =~= want);
}

/// The map of channels after looking up the channel of `session_id` in `before`, and the
/// handle that the lookup returns, as `get_or_create_channel` states them.
pub open spec fn channel_lookup(
    before: Map<i64, Sender<SessionEvent>>,
    session_id: i64,
    after: Map<i64, Sender<SessionEvent>>,
    handle: Sender<SessionEvent>,
) -> bool {
    &&& after.dom() == before.dom().insert(session_id)
    &&& forall|k: i64| #[trigger] before.contains_key(k) ==> after[k] == before[k]
    &&& handle == after[session_id]
}

/// Publishers and viewers of a session share one channel: once a lookup has made or found
/// the channel of a session, every later lookup of it (with lookups of any sessions in
/// between, and no cleanup) returns that same channel.
pub proof fn lemma_lookups_share_channel(
    maps: Seq<Map<i64, Sender<SessionEvent>>>,
    ids: Seq<i64>,
    handles: Seq<Sender<SessionEvent>>,
    i: int,
    j: int,
)
    requires
        maps.len() == ids.len() + 1,
        handles.len() == ids.len(),
        forall|n: int| 0 <= n < ids.len() ==> #[trigger] channel_lookup(maps[n], ids[n], maps[n + 1], handles[n]),
        0 <= i < j < ids.len(),
        ids[i] == ids[j],
    ensures
        handles[i] == handles[j],
    decreases j - i,
{
    assert(channel_lookup(maps[j], ids[j], maps[j + 1], handles[j]));
    assert(channel_lookup(maps[i], ids[i], maps[i + 1], handles[i]));
    lemma_lookup_keeps(maps, ids, handles, i + 1, j, ids[i]);
}

proof fn lemma_lookup_keeps(
    maps: Seq<Map<i64, Sender<SessionEvent>>>,
    ids: Seq<i64>,
    handles: Seq<Sender<SessionEvent>>,
    from: int,
    to: int,
    k: i64,
)
    requires
        maps.len() == ids.len() + 1,
        handles.len() == ids.len(),
        forall|n: int| 0 <= n < ids.len() ==> #[trigger] channel_lookup(maps[n], ids[n], maps[n + 1], handles[n]),
        0 <= from <= to <= ids.len(),
        maps[from].contains_key(k),
    ensures
        maps[to].contains_key(k),
        maps[to][k] == maps[from][k],
    decreases to - from,
{
    if from < to {
        assert(channel_lookup(maps[from], ids[from], maps[from + 1], handles[from]));
        assert(maps[from + 1].dom().contains(k));
        lemma_lookup_keeps(maps, ids, handles, from + 1, to, k);
    }
}

/// Dropping idle channels keeps every channel that still has viewers: a session that the
/// readings report only with receivers (some entry for it with a count above zero, none
/// with zero) keeps its very channel, so events sent on it still reach those viewers; a
/// session reported with no receivers loses its channel; and sessions no reading mentions
/// are left alone.
pub proof fn lemma_listened_channels_kept(
    before: Map<i64, Sender<SessionEvent>>,
    counts: Seq<(i64, usize)>,
    after: Map<i64, Sender<SessionEvent>>,
    k: i64,
)
    requires
        after == before.remove_keys(idle_sessions(counts)),
        before.contains_key(k),
    ensures
        (forall|j: int| 0 <= j < counts.len() && counts[j].0 == k ==> counts[j].1 > 0)
            ==> after.contains_key(k) && after[k] == before[k],
        (exists|j: int| 0 <= j < counts.len() && counts[j].0 == k && counts[j].1 == 0) ==> !after.contains_key(k),
{
    if forall|j: int| 0 <= j < counts.len() && counts[j].0 == k ==> counts[j].1 > 0 {
        assert(!idle_sessions(counts).contains(k));
    }
    if exists|j: int| 0 <= j < counts.len() && counts[j].0 == k && counts[j].1 == 0 {
        let j = choose|j: int| 0 <= j < counts.len() && counts[j].0 == k && counts[j].1 == 0;
        assert(reports_idle(counts, j, k));
    }
}

} // verus!
