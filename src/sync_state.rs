use vstd::prelude::*;

use vstd::string::*;

use crate::clock::now_millis;
use crate::error::GxsyncError;

verus! {

/// What the ledger remembers of one message: the folder it was delivered
/// from, reserved flags, and when it was marked (Unix seconds).
#[derive(Debug)]
pub struct MessageState {
    pub folder_id: String,
    pub flags: u8,
    pub synced_at: u64,
}

/// The abstract content of a `MessageState`.
pub type RecordView = (Seq<char>, u8, u64);

impl View for MessageState {
    type V = RecordView;

    open spec fn view(&self) -> RecordView {
        (self.folder_id@, self.flags, self.synced_at)
    }
}

impl MessageState {
    pub fn new(folder_id: &str, flags: u8, synced_at: u64) -> (r: MessageState)
        ensures
            r@ == (folder_id@, flags, synced_at),
    {
        MessageState { folder_id: folder_id.to_owned(), flags, synced_at }
    }

    pub fn duplicate(&self) -> (r: MessageState)
        ensures
            r@ == self@,
    {
        MessageState { folder_id: self.folder_id.clone(), flags: self.flags, synced_at: self.synced_at }
    }
}

/// The map described by parallel sequences of keys and records, later
/// entries overriding earlier ones.
pub open spec fn map_of(ids: Seq<Seq<char>>, recs: Seq<RecordView>) -> Map<Seq<char>, RecordView>
    decreases ids.len(),
{
    if ids.len() == 0 || recs.len() != ids.len() {
        Map::empty()
    } else {
        map_of(ids.drop_last(), recs.drop_last()).insert(ids.last(), recs.last())
    }
}

pub open spec fn unique_keys(ids: Seq<Seq<char>>) -> bool {
    forall|i: int, j: int| 0 <= i < j < ids.len() ==> ids[i] != ids[j]
}

pub proof fn lemma_map_of_index(ids: Seq<Seq<char>>, recs: Seq<RecordView>, i: int)
    requires
        unique_keys(ids),
        ids.len() == recs.len(),
        0 <= i < ids.len(),
    ensures
        map_of(ids, recs).contains_key(ids[i]),
        map_of(ids, recs)[ids[i]] == recs[i],
    decreases ids.len(),
{
    if i < ids.len() - 1 {
        lemma_map_of_index(ids.drop_last(), recs.drop_last(), i);
    }
}

pub proof fn lemma_map_of_absent(ids: Seq<Seq<char>>, recs: Seq<RecordView>, k: Seq<char>)
    requires
        ids.len() == recs.len(),
        forall|i: int| 0 <= i < ids.len() ==> ids[i] != k,
    ensures
        !map_of(ids, recs).contains_key(k),
    decreases ids.len(),
{
    if ids.len() > 0 {
        lemma_map_of_absent(ids.drop_last(), recs.drop_last(), k);
    }
}

pub proof fn lemma_map_of_update(ids: Seq<Seq<char>>, recs: Seq<RecordView>, i: int, v: RecordView)
    requires
        unique_keys(ids),
        ids.len() == recs.len(),
        0 <= i < ids.len(),
    ensures
        map_of(ids, recs.update(i, v)) == map_of(ids, recs).insert(ids[i], v),
    decreases ids.len(),
{
    let n = ids.len();
    if i == n - 1 {
        assert(recs.update(i, v).drop_last() =~= recs.drop_last());
        assert(!map_of(ids.drop_last(), recs.drop_last()).contains_key(ids[i])) by {
            lemma_map_of_absent(ids.drop_last(), recs.drop_last(), ids[i]);
        }
        assert(map_of(ids, recs.update(i, v)) =~= map_of(ids, recs).insert(ids[i], v));
    } else {
        assert(recs.update(i, v).drop_last() =~= recs.drop_last().update(i, v));
        lemma_map_of_update(ids.drop_last(), recs.drop_last(), i, v);
        assert(map_of(ids, recs.update(i, v)) =~= map_of(ids, recs).insert(ids[i], v));
    }
}

/// The per-account dedup ledger: a mapping from message id to the record of
/// its last delivery. Each id occurs once.
#[derive(Debug)]
pub struct SyncState {
    ids: Vec<String>,
    records: Vec<MessageState>,
}

impl View for SyncState {
    type V = Map<Seq<char>, RecordView>;

    closed spec fn view(&self) -> Map<Seq<char>, RecordView> {
        map_of(self.id_seq(), self.record_seq())
    }
}

impl SyncState {
    pub closed spec fn id_seq(&self) -> Seq<Seq<char>> {
        self.ids@.map_values(|s: String| s@)
    }

    pub closed spec fn record_seq(&self) -> Seq<RecordView> {
        self.records@.map_values(|m: MessageState| m@)
    }

    /// Well-formedness: keys and records line up and no key repeats.
    pub closed spec fn wf(&self) -> bool {
        &&& self.ids@.len() == self.records@.len()
        &&& unique_keys(self.id_seq())
    }

    /// An empty ledger.
    pub fn new() -> (r: SyncState)
        ensures
            r.wf(),
            r@ == Map::<Seq<char>, RecordView>::empty(),
    {
        SyncState { ids: Vec::new(), records: Vec::new() }
    }

    /// Number of message ids held.
    pub fn len(&self) -> (r: usize)
        requires
            self.wf(),
        ensures
            r == self@.dom().len(),
            self@.dom().finite(),
    {
        proof {
            self.lemma_dom_len();
        }
        self.ids.len()
    }

    proof fn lemma_dom_len(&self)
        requires
            self.wf(),
        ensures
            self@.dom().len() == self.ids@.len(),
            self@.dom() == self.id_seq().to_set(),
    {
        lemma_dom_is_keys(self.id_seq(), self.record_seq());
        self.id_seq().unique_seq_to_set();
    }

    fn find(&self, message_id: &str) -> (r: Option<usize>)
        requires
            self.wf(),
        ensures
            match r {
                Some(i) => i < self.ids@.len() && self.ids@[i as int]@ == message_id@,
                None => forall|i: int| 0 <= i < self.ids@.len() ==> self.ids@[i]@ != message_id@,
            },
    {
        let key = message_id.to_owned();
        let mut i: usize = 0;
        while i < self.ids.len()
            invariant
                i <= self.ids@.len(),
                key@ == message_id@,
                forall|j: int| 0 <= j < i ==> self.ids@[j]@ != message_id@,
            decreases self.ids@.len() - i,
        {
            if self.ids[i] == key {
                return Some(i);
            }
            i = i + 1;
        }
        None
    }

    proof fn lemma_lookup(&self, r: Option<usize>, k: Seq<char>)
        requires
            self.wf(),
            match r {
                Some(i) => i < self.ids@.len() && self.ids@[i as int]@ == k,
                None => forall|i: int| 0 <= i < self.ids@.len() ==> self.ids@[i]@ != k,
            },
        ensures
            match r {
                Some(i) => self@.contains_key(k) && self@[k] == self.records@[i as int]@,
                None => !self@.contains_key(k),
            },
    {
        match r {
            Some(i) => {
                lemma_map_of_index(self.id_seq(), self.record_seq(), i as int);
            },
            None => {
                lemma_map_of_absent(self.id_seq(), self.record_seq(), k);
            },
        }
    }

    /// True iff a record exists for `message_id` and it was stored under
    /// exactly `folder_name`.
    pub fn is_synced(&self, folder_name: &str, message_id: &str) -> (r: bool)
        requires
            self.wf(),
        ensures
            r == synced_in(self@, folder_name@, message_id@),
    {
        let found = self.find(message_id);
        proof {
            self.lemma_lookup(found, message_id@);
        }
        match found {
            Some(i) => self.records[i].folder_id == folder_name.to_owned(),
            None => false,
        }
    }

    /// True iff a record exists for `message_id`, whatever its folder.
    pub fn contains(&self, message_id: &str) -> (r: bool)
        requires
            self.wf(),
        ensures
            r == self@.contains_key(message_id@),
    {
        let found = self.find(message_id);
        proof {
            self.lemma_lookup(found, message_id@);
        }
        found.is_some()
    }

    /// A copy of the record held for `message_id`.
    pub fn get(&self, message_id: &str) -> (r: Option<MessageState>)
        requires
            self.wf(),
        ensures
            match r {
                Some(m) => self@.contains_key(message_id@) && m@ == self@[message_id@],
                None => !self@.contains_key(message_id@),
            },
    {
        let found = self.find(message_id);
        proof {
            self.lemma_lookup(found, message_id@);
        }
        match found {
            Some(i) => Some(self.records[i].duplicate()),
            None => None,
        }
    }

    /// Inserts or overwrites the record for `message_id`.
    pub fn insert(&mut self, message_id: &str, state: MessageState)
        requires
            old(self).wf(),
        ensures
            final(self).wf(),
            final(self)@ == old(self)@.insert(message_id@, state@),
    {
        let found = self.find(message_id);
        match found {
            Some(i) => {
                proof {
                    lemma_map_of_update(self.id_seq(), self.record_seq(), i as int, state@);
                }
                let ghost before = self.record_seq();
                self.records.set(i, state);
                proof {
                    assert(self.record_seq() =~= before.update(i as int, state@));
                    assert(self.id_seq()[i as int] == message_id@);
                }
            },
            None => {
                let ghost ids0 = self.id_seq();
                let ghost recs0 = self.record_seq();
                self.ids.push(message_id.to_owned());
                self.records.push(state);
                proof {
                    assert(self.id_seq().drop_last() =~= ids0);
                    assert(self.record_seq().drop_last() =~= recs0);
                    assert(self.id_seq() =~= ids0.push(message_id@));
                }
            },
        }
    }

    /// Records that `message_id` was delivered from `folder_name` at Unix
    /// time `at`; the flags are zero.
    pub fn mark_synced_at(&mut self, folder_name: &str, message_id: &str, at: u64)
        requires
            old(self).wf(),
        ensures
            final(self).wf(),
            final(self)@ == old(self)@.insert(message_id@, (folder_name@, 0u8, at)),
    {
        self.insert(message_id, MessageState::new(folder_name, 0, at));
    }

    /// Records that `message_id` was delivered from `folder_name` now.
    pub fn mark_synced(&mut self, folder_name: &str, message_id: &str)
        requires
            old(self).wf(),
        ensures
            final(self).wf(),
            final(self)@ == old(self)@.insert(
                message_id@,
                (folder_name@, 0u8, final(self)@[message_id@].2),
            ),
    {
        let ms = now_millis();
        let secs = (ms / 1000) as u64;
        self.mark_synced_at(folder_name, message_id, secs);
    }
}

/// `message_id` has a record and that record names `folder_name`.
pub open spec fn synced_in(ledger: Map<Seq<char>, RecordView>, folder_name: Seq<char>, message_id: Seq<char>) -> bool {
    ledger.contains_key(message_id) && ledger[message_id].0 == folder_name
}

pub proof fn lemma_dom_is_keys(ids: Seq<Seq<char>>, recs: Seq<RecordView>)
    requires
        ids.len() == recs.len(),
    ensures
        map_of(ids, recs).dom() == ids.to_set(),
    decreases ids.len(),
{
    if ids.len() > 0 {
        lemma_dom_is_keys(ids.drop_last(), recs.drop_last());
        assert(ids.drop_last().push(ids.last()) =~= ids);
        ids.drop_last().lemma_push_to_set_commute(ids.last());
        assert(map_of(ids, recs).dom() =~= ids.to_set());
    } else {
        assert(ids.to_set() =~= Set::empty());
        assert(map_of(ids, recs).dom() =~= Set::empty());
    }
}

/// One ledger record as the ledger file holds it: message id, folder name,
/// flags and synced-at time.
pub type Entry = (String, String, u8, u64);

/// The abstract content of an `Entry`.
pub type EntryView = (Seq<char>, Seq<char>, u8, u64);

pub open spec fn entry_views(v: Vec<Entry>) -> Seq<EntryView> {
    v@.map_values(|e: Entry| (e.0@, e.1@, e.2, e.3))
}

/// The mapping a list of records describes, later records for an id
/// overriding earlier ones.
pub open spec fn entries_map(es: Seq<EntryView>) -> Map<Seq<char>, RecordView>
    decreases es.len(),
{
    if es.len() == 0 {
        Map::empty()
    } else {
        let e = es.last();
        entries_map(es.drop_last()).insert(e.0, (e.1, e.2, e.3))
    }
}

/// The bytes bincode writes, in its standard configuration, for a list of
/// records; `None` where it reports an error.
pub uninterp spec fn bincode_ledger(entries: Seq<EntryView>) -> Option<Seq<u8>>;

/// The list of records bincode reads, in its standard configuration, from
/// the start of a byte string; `None` where it reports an error.
pub uninterp spec fn bincode_entries(bytes: Seq<u8>) -> Option<Seq<EntryView>>;

/// Relies on `bincode::serde::encode_to_vec` with `bincode::config::standard()`:
/// the bytes depend on the records alone.
#[verifier::external_body]
fn encode_entries(entries: &Vec<Entry>) -> (r: Option<Vec<u8>>)
    ensures
        match r {
            Some(b) => bincode_ledger(entry_views(*entries)) == Some(b@),
            None => bincode_ledger(entry_views(*entries)) is None,
        },
{
    match bincode::serde::encode_to_vec(entries, bincode::config::standard()) {
        Ok(b) => Some(b),
        Err(_) => None,
    }
}

/// Relies on `bincode::serde::decode_from_slice` with
/// `bincode::config::standard()`: the records depend on the bytes alone.
#[verifier::external_body]
fn decode_entries(b: &[u8]) -> (r: Option<Vec<Entry>>)
    ensures
        match r {
            Some(v) => bincode_entries(b@) == Some(entry_views(v)),
            None => bincode_entries(b@) is None,
        },
{
    match bincode::serde::decode_from_slice::<Vec<Entry>, _>(b, bincode::config::standard()) {
        Ok((v, _)) => Some(v),
        Err(_) => None,
    }
}

impl SyncState {
    /// The ledger's records, in the order they are held.
    pub closed spec fn entry_seq(&self) -> Seq<EntryView> {
        Seq::new(
            self.ids@.len(),
            |i: int| (self.ids@[i]@, self.records@[i].folder_id@, self.records@[i].flags, self.records@[i].synced_at),
        )
    }

    /// The ledger file's bytes: its records, as bincode writes them.
    /// Fails, with an I/O error, only where bincode reports one.
    pub fn to_bytes(&self) -> (r: Result<Vec<u8>, GxsyncError>)
        requires
            self.wf(),
        ensures
            match bincode_ledger(self.entry_seq()) {
                Some(b) => r is Ok && r->Ok_0@ == b,
                None => r is Err && r->Err_0 is Io,
            },
    {
        let mut entries: Vec<Entry> = Vec::new();
        let mut i: usize = 0;
        while i < self.ids.len()
            invariant
                self.wf(),
                i <= self.ids@.len(),
                entry_views(entries) == self.entry_seq().subrange(0, i as int),
            decreases self.ids@.len() - i,
        {
            let rec = &self.records[i];
            let id = self.ids[i].clone();
            let folder = rec.folder_id.clone();
            assert(id@ == self.ids@[i as int]@ && folder@ == rec.folder_id@);
            let e: Entry = (id, folder, rec.flags, rec.synced_at);
            let ghost before = entry_views(entries);
            entries.push(e);
            proof {
                assert(entry_views(entries) =~= before.push(self.entry_seq()[i as int]));
                assert(entry_views(entries) =~= self.entry_seq().subrange(0, i + 1));
            }
            i = i + 1;
        }
        proof {
            assert(self.entry_seq().subrange(0, i as int) =~= self.entry_seq());
        }
        match encode_entries(&entries) {
            Some(b) => Ok(b),
            None => Err(GxsyncError::Io(String::from_str("cannot encode the ledger"))),
        }
    }

    /// Reads a ledger file. Fails, with a state error, exactly where bincode
    /// cannot read a list of records from the bytes; later records for an
    /// id override earlier ones.
    pub fn from_bytes(b: &[u8]) -> (r: Result<SyncState, GxsyncError>)
        ensures
            match bincode_entries(b@) {
                Some(es) => r is Ok && r->Ok_0.wf() && r->Ok_0@ == entries_map(es),
                None => r is Err && r->Err_0 is State,
            },
    {
        let entries = match decode_entries(b) {
            Some(v) => v,
            None => {
                return Err(GxsyncError::State(String::from_str("malformed ledger file")));
            },
        };
        let mut state = SyncState::new();
        let mut i: usize = 0;
        while i < entries.len()
            invariant
                i <= entries@.len(),
                state.wf(),
                state@ == entries_map(entry_views(entries).subrange(0, i as int)),
            decreases entries@.len() - i,
        {
            let e = &entries[i];
            let rec = MessageState { folder_id: e.1.clone(), flags: e.2, synced_at: e.3 };
            state.insert(e.0.as_str(), rec);
            proof {
                let es = entry_views(entries);
                assert(es.subrange(0, i + 1).drop_last() =~= es.subrange(0, i as int));
            }
            i = i + 1;
        }
        proof {
            assert(entry_views(entries).subrange(0, i as int) =~= entry_views(entries));
        }
        Ok(state)
    }
}

/// The records a ledger writes to its file describe that ledger exactly:
/// reading them back in order rebuilds the same mapping, for any number of
/// records. (What bincode does to the records is not stated here.)
pub proof fn lemma_entries_describe_ledger(s: &SyncState)
    requires
        s.wf(),
    ensures
        entries_map(s.entry_seq()) == s@,
{
    lemma_entries_prefix(s, s.ids@.len() as int);
    assert(s.entry_seq().subrange(0, s.ids@.len() as int) =~= s.entry_seq());
    assert(s.id_seq().subrange(0, s.ids@.len() as int) =~= s.id_seq());
    assert(s.record_seq().subrange(0, s.ids@.len() as int) =~= s.record_seq());
}

proof fn lemma_entries_prefix(s: &SyncState, n: int)
    requires
        s.wf(),
        0 <= n <= s.ids@.len(),
    ensures
        entries_map(s.entry_seq().subrange(0, n)) == map_of(
            s.id_seq().subrange(0, n),
            s.record_seq().subrange(0, n),
        ),
    decreases n,
{
    if n > 0 {
        lemma_entries_prefix(s, n - 1);
        assert(s.entry_seq().subrange(0, n).drop_last() =~= s.entry_seq().subrange(0, n - 1));
        assert(s.id_seq().subrange(0, n).drop_last() =~= s.id_seq().subrange(0, n - 1));
        assert(s.record_seq().subrange(0, n).drop_last() =~= s.record_seq().subrange(0, n - 1));
    } else {
        assert(s.id_seq().subrange(0, 0).len() == 0);
    }
}

} // verus!
