//! The deduplication ledger: which source messages were already posted, and where.
use vstd::prelude::*;

use crate::discord::{ChannelId, MessageId};
use crate::slack::TimeStamp;

verus! {

/// The destination of one migrated source message.
#[derive(Debug)]
pub struct PostRecord {
    /// The posted message at the destination.
    pub id: MessageId,
    /// The source channel of the message.
    pub slack_channel_id: String,
    /// The destination channel it was posted to.
    pub discord_channel_id: ChannelId,
    /// The source timestamp of the message.
    pub slack_ts: TimeStamp,
    /// The destination thread of the message, where it has one.
    pub discord_thread_id: Option<ChannelId>,
}

/// What a ledger entry holds, as plain values.
pub struct RecordView {
    pub message: Seq<char>,
    pub source_channel: Seq<char>,
    pub dest_channel: Seq<char>,
    pub ts: (int, int),
    pub thread: Option<Seq<char>>,
}

/// A ledger key: the source channel and the source timestamp.
pub type LedgerKey = (Seq<char>, (int, int));

pub open spec fn opt_view(c: Option<ChannelId>) -> Option<Seq<char>> {
    match c {
        Some(t) => Some(t@),
        None => None,
    }
}

impl View for PostRecord {
    type V = RecordView;

    open spec fn view(&self) -> RecordView {
        RecordView {
            message: self.id@,
            source_channel: self.slack_channel_id@,
            dest_channel: self.discord_channel_id@,
            ts: self.slack_ts@,
            thread: opt_view(self.discord_thread_id),
        }
    }
}

pub fn duplicate_channel(c: &Option<ChannelId>) -> (r: Option<ChannelId>)
    ensures
        opt_view(r) == opt_view(*c),
{
    match c {
        Some(t) => Some(t.duplicate()),
        None => None,
    }
}

impl PostRecord {
    pub fn duplicate(&self) -> (r: PostRecord)
        ensures
            r@ == self@,
    {
        PostRecord {
            id: self.id.duplicate(),
            slack_channel_id: self.slack_channel_id.clone(),
            discord_channel_id: self.discord_channel_id.duplicate(),
            slack_ts: self.slack_ts,
            discord_thread_id: duplicate_channel(&self.discord_thread_id),
        }
    }
}

pub open spec fn key_of(r: RecordView) -> LedgerKey {
    (r.source_channel, r.ts)
}

/// The map from key to entry that a list of entries with distinct keys forms.
pub open spec fn entries_map(s: Seq<RecordView>) -> Map<LedgerKey, RecordView>
    decreases s.len(),
{
    if s.len() == 0 {
        Map::empty()
    } else {
        entries_map(s.drop_last()).insert(key_of(s.last()), s.last())
    }
}

pub open spec fn distinct_keys(s: Seq<RecordView>) -> bool {
    forall|i: int, j: int| 0 <= i < j < s.len() ==> key_of(s[i]) != key_of(s[j])
}

proof fn lemma_entries_map(s: Seq<RecordView>)
    requires
        distinct_keys(s),
    ensures
        forall|k: LedgerKey| #[trigger] entries_map(s).contains_key(k) <==> exists|i: int| 0 <= i < s.len() && key_of(s[i]) == k,
        forall|i: int| 0 <= i < s.len() ==> #[trigger] entries_map(s)[key_of(s[i])] == s[i],
    decreases s.len(),
{
    if s.len() > 0 {
        let t = s.drop_last();
        let last = s.last();
        assert forall|i: int, j: int| 0 <= i < j < t.len() implies key_of(t[i]) != key_of(t[j]) by {
            assert(t[i] == s[i] && t[j] == s[j]);
        }
        lemma_entries_map(t);
        assert(entries_map(s) == entries_map(t).insert(key_of(last), last));
        assert forall|k: LedgerKey| #[trigger] entries_map(s).contains_key(k) implies exists|i: int| 0 <= i < s.len() && key_of(s[i]) == k by {
            if k == key_of(last) {
                assert(key_of(s[s.len() - 1]) == k);
            } else {
                assert(entries_map(t).contains_key(k));
                let i = choose|i: int| 0 <= i < t.len() && key_of(t[i]) == k;
                assert(t[i] == s[i]);
                assert(key_of(s[i]) == k);
            }
        }
        assert forall|k: LedgerKey| (exists|i: int| 0 <= i < s.len() && key_of(s[i]) == k) implies #[trigger] entries_map(s).contains_key(k) by {
            let i = choose|i: int| 0 <= i < s.len() && key_of(s[i]) == k;
            if i < s.len() - 1 {
                assert(t[i] == s[i]);
                assert(entries_map(t).contains_key(k));
            }
        }
        assert forall|i: int| 0 <= i < s.len() implies #[trigger] entries_map(s)[key_of(s[i])] == s[i] by {
            if i < s.len() - 1 {
                assert(t[i] == s[i]);
                assert(key_of(s[i]) != key_of(s[s.len() - 1]));
                assert(entries_map(t)[key_of(t[i])] == t[i]);
            }
        }
    }
}

/// Why the ledger refused an entry.
#[derive(Clone, Copy, Debug, PartialEq, Eq, Structural)]
pub enum LedgerError {
    /// An entry for the same source channel and timestamp exists.
    DuplicateKey,
}

/// A record of migrated messages, at most one per source channel and timestamp.
pub struct Ledger {
    records: Vec<PostRecord>,
}

impl View for Ledger {
    type V = Map<LedgerKey, RecordView>;

    closed spec fn view(&self) -> Map<LedgerKey, RecordView> {
        entries_map(self.records@.map_values(|r: PostRecord| r@))
    }
}

impl Ledger {
    /// Entries have distinct keys.
    pub closed spec fn wf(&self) -> bool {
        distinct_keys(self.records@.map_values(|r: PostRecord| r@))
    }

    /// An empty ledger.
    pub fn new() -> (r: Ledger)
        ensures
            r.wf(),
            r@ == Map::<LedgerKey, RecordView>::empty(),
    {
        let r = Ledger { records: Vec::new() };
        assert(r.records@.map_values(|r: PostRecord| r@) =~= Seq::<RecordView>::empty());
        r
    }

    /// The number of entries.
    pub fn len(&self) -> (r: usize)
        requires
            self.wf(),
        ensures
            r == self@.len(),
    {
        proof {
            let s = self.records@.map_values(|r: PostRecord| r@);
            lemma_entries_map(s);
            lemma_map_len(s);
        }
        self.records.len()
    }

    /// The entry for `ts` in the source channel `channel`, if any. Nothing changes.
    pub fn lookup(&self, channel: &String, ts: &TimeStamp) -> (r: Option<&PostRecord>)
        requires
            self.wf(),
        ensures
            r is Some <==> self@.contains_key((channel@, ts@)),
            r is Some ==> self@[(channel@, ts@)] == r->0@,
    {
        let ghost s = self.records@.map_values(|r: PostRecord| r@);
        proof {
            lemma_entries_map(s);
        }
        let mut i: usize = 0;
        while i < self.records.len()
            invariant
                s == self.records@.map_values(|r: PostRecord| r@),
                distinct_keys(s),
                i <= self.records.len(),
                forall|j: int| 0 <= j < i ==> key_of(#[trigger] s[j]) != (channel@, ts@),
            decreases self.records.len() - i,
        {
            let r = &self.records[i];
            if r.slack_channel_id == *channel && r.slack_ts.same(ts) {
                assert(s[i as int] == r@);
                assert(key_of(s[i as int]) == (channel@, ts@));
                proof {
                    lemma_entries_map(s);
                }
                return Some(r);
            }
            assert(s[i as int] == r@);
            i = i + 1;
        }
        proof {
            lemma_entries_map(s);
            if entries_map(s).contains_key((channel@, ts@)) {
                let j = choose|j: int| 0 <= j < s.len() && key_of(s[j]) == (channel@, ts@);
                assert(key_of(s[j]) != (channel@, ts@));
            }
        }
        None
    }

    /// Adds `record`, unless an entry with its key exists.
    pub fn record(&mut self, record: PostRecord) -> (r: Result<(), LedgerError>)
        requires
            old(self).wf(),
        ensures
            final(self).wf(),
            r is Err <==> old(self)@.contains_key(key_of(record@)),
            r is Err ==> r == Err::<(), LedgerError>(LedgerError::DuplicateKey) && final(self)@ == old(self)@,
            r is Ok ==> final(self)@ == old(self)@.insert(key_of(record@), record@),
    {
        if self.lookup(&record.slack_channel_id, &record.slack_ts).is_some() {
            return Err(LedgerError::DuplicateKey);
        }
        proof {
            let s = self.records@.map_values(|r: PostRecord| r@);
            lemma_entries_map(s);
            assert forall|i: int| 0 <= i < s.len() implies key_of(#[trigger] s[i]) != key_of(record@) by {
                assert(self@.contains_key(key_of(s[i])));
            }
        }
        let ghost old_s = self.records@.map_values(|r: PostRecord| r@);
        self.records.push(record);
        assert(self.records@.map_values(|r: PostRecord| r@) =~= old_s.push(record@));
        assert(self.records@.map_values(|r: PostRecord| r@).drop_last() =~= old_s);
        Ok(())
    }
}

proof fn lemma_map_len(s: Seq<RecordView>)
    requires
        distinct_keys(s),
    ensures
        entries_map(s).len() == s.len(),
        entries_map(s).dom().finite(),
    decreases s.len(),
{
    if s.len() > 0 {
        let t = s.drop_last();
        lemma_map_len(t);
        lemma_entries_map(t);
        assert(!entries_map(t).contains_key(key_of(s.last()))) by {
            if entries_map(t).contains_key(key_of(s.last())) {
                let i = choose|i: int| 0 <= i < t.len() && key_of(t[i]) == key_of(s.last());
                assert(key_of(s[i]) == key_of(s[s.len() - 1]));
            }
        }
    }
}

} // verus!
