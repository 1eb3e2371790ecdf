use vstd::prelude::*;

use crate::clock::{in_window, in_window_spec, received_millis, rfc3339_millis};
use crate::filter::{in_scope, lower_of, opt_names, scope_rule};
use crate::sync_state::{synced_in, RecordView, SyncState};

verus! {

/// A remote folder as the mail service lists it.
#[derive(Debug)]
pub struct FolderInfo {
    pub id: String,
    pub display_name: String,
    pub total_item_count: u32,
    pub unread_item_count: u32,
}

/// A remote message summary: its id and the instant it was received, in
/// milliseconds since the Unix epoch.
#[derive(Debug)]
pub struct MessageInfo {
    pub id: String,
    pub received_ms: i64,
}

/// The abstract content of a `MessageInfo`.
pub type MessageView = (Seq<char>, i64);

impl View for MessageInfo {
    type V = MessageView;

    open spec fn view(&self) -> MessageView {
        (self.id@, self.received_ms)
    }
}

pub type Ledger = Map<Seq<char>, RecordView>;

pub open spec fn message_views(v: Vec<MessageInfo>) -> Seq<MessageView> {
    v@.map_values(|m: MessageInfo| m@)
}

impl MessageInfo {
    /// A message summary from its id and its RFC 3339 received timestamp;
    /// `None` where the timestamp is not RFC 3339.
    pub fn from_listing(id: &str, received: &str) -> (r: Option<MessageInfo>)
        ensures
            match rfc3339_millis(received@) {
                Some(t) => r is Some && r->Some_0@ == (id@, t),
                None => r is None,
            },
    {
        match received_millis(received) {
            Some(t) => Some(MessageInfo { id: id.to_owned(), received_ms: t }),
            None => None,
        }
    }
}

/// Whether one listed message is to be delivered: it lies in the window,
/// the ledger does not hold it under this folder, and this is no dry run.
pub open spec fn wants_delivery(ledger: Ledger, folder: Seq<char>, m: MessageView, start: i64, dry_run: bool) -> bool {
    in_window_spec(m.1, start) && !synced_in(ledger, folder, m.0) && !dry_run
}

/// Processing a folder's listing in order: the ledger afterwards and the
/// ids delivered, in delivery order. Each delivery is recorded at `at`
/// under `folder` before the next message is considered.
pub open spec fn folder_step(
    ledger: Ledger,
    folder: Seq<char>,
    msgs: Seq<MessageView>,
    start: i64,
    dry_run: bool,
    at: u64,
) -> (Ledger, Seq<Seq<char>>)
    decreases msgs.len(),
{
    if msgs.len() == 0 {
        (ledger, Seq::empty())
    } else {
        let (l, d) = folder_step(ledger, folder, msgs.drop_last(), start, dry_run, at);
        let m = msgs.last();
        if wants_delivery(l, folder, m, start, dry_run) {
            (l.insert(m.0, (folder, 0u8, at)), d.push(m.0))
        } else {
            (l, d)
        }
    }
}

/// One selected folder as a run sees it: its display name, its listing,
/// the start of its receipt-time window and the time its deliveries are
/// recorded at.
pub type FolderRun = (Seq<char>, Seq<MessageView>, i64, u64);

/// A whole account run over its selected folders, in order: the ledger
/// afterwards and every id delivered.
pub open spec fn account_step(ledger: Ledger, folders: Seq<FolderRun>, dry_run: bool) -> (Ledger, Seq<Seq<char>>)
    decreases folders.len(),
{
    if folders.len() == 0 {
        (ledger, Seq::empty())
    } else {
        let (l, d) = account_step(ledger, folders.drop_last(), dry_run);
        let f = folders.last();
        let (l2, d2) = folder_step(l, f.0, f.1, f.2, dry_run, f.3);
        (l2, d + d2)
    }
}

/// Marks which of the listed folders are in scope for the given folder
/// sets, comparing names without regard to case.
pub fn select_folders(
    folders: &Vec<FolderInfo>,
    wanted: &Option<Vec<String>>,
    unwanted: &Option<Vec<String>>,
) -> (r: Vec<bool>)
    ensures
        r@.len() == folders@.len(),
        forall|i: int|
            0 <= i < folders@.len() ==> r@[i] == scope_rule(
                lower_of(folders@[i].display_name@),
                opt_names(*wanted),
                opt_names(*unwanted),
            ),
{
    let mut r: Vec<bool> = Vec::new();
    let mut i: usize = 0;
    while i < folders.len()
        invariant
            i <= folders@.len(),
            r@.len() == i,
            forall|j: int|
                0 <= j < i ==> r@[j] == scope_rule(
                    lower_of(folders@[j].display_name@),
                    opt_names(*wanted),
                    opt_names(*unwanted),
                ),
        decreases folders@.len() - i,
    {
        let keep = in_scope(folders[i].display_name.as_str(), wanted, unwanted);
        r.push(keep);
        i = i + 1;
    }
    r
}

/// The ids of a folder's listing that are to be delivered, in listing
/// order and each once: those in the window that the ledger does not hold
/// under this folder; none in a dry run.
pub open spec fn to_deliver(
    ledger: Ledger,
    folder: Seq<char>,
    msgs: Seq<MessageView>,
    start: i64,
    dry_run: bool,
) -> Seq<Seq<char>>
    decreases msgs.len(),
{
    if msgs.len() == 0 {
        Seq::empty()
    } else {
        let prev = to_deliver(ledger, folder, msgs.drop_last(), start, dry_run);
        let m = msgs.last();
        if in_window_spec(m.1, start) && !synced_in(ledger, folder, m.0) && !dry_run
            && !prev.contains(m.0) {
            prev.push(m.0)
        } else {
            prev
        }
    }
}

/// The ledger after marking each of `ids`, in order, as delivered from
/// `folder` at `at`.
pub open spec fn mark_all(ledger: Ledger, folder: Seq<char>, ids: Seq<Seq<char>>, at: u64) -> Ledger
    decreases ids.len(),
{
    if ids.len() == 0 {
        ledger
    } else {
        mark_all(ledger, folder, ids.drop_last(), at).insert(ids.last(), (folder, 0u8, at))
    }
}

/// After marking `ids` under `folder`, an id is held under `folder` exactly
/// when it was before or is one of `ids`.
pub proof fn lemma_mark_all_synced(ledger: Ledger, folder: Seq<char>, ids: Seq<Seq<char>>, at: u64, k: Seq<char>)
    ensures
        synced_in(mark_all(ledger, folder, ids, at), folder, k) == (synced_in(ledger, folder, k)
            || ids.contains(k)),
    decreases ids.len(),
{
    if ids.len() > 0 {
        lemma_mark_all_synced(ledger, folder, ids.drop_last(), at, k);
        if ids.drop_last().contains(k) {
            let i = choose|i: int| 0 <= i < ids.drop_last().len() && ids.drop_last()[i] == k;
            assert(ids[i] == k);
        }
        if ids.contains(k) && k != ids.last() {
            let i = choose|i: int| 0 <= i < ids.len() && ids[i] == k;
            assert(ids.drop_last()[i] == k);
        }
    }
}

/// A folder step is the same as delivering `to_deliver` in order, each
/// marked under the folder at `at` once written.
pub proof fn lemma_folder_step_is_marking(
    ledger: Ledger,
    folder: Seq<char>,
    msgs: Seq<MessageView>,
    start: i64,
    dry_run: bool,
    at: u64,
)
    ensures
        folder_step(ledger, folder, msgs, start, dry_run, at) == (
            mark_all(ledger, folder, to_deliver(ledger, folder, msgs, start, dry_run), at),
            to_deliver(ledger, folder, msgs, start, dry_run),
        ),
    decreases msgs.len(),
{
    if msgs.len() > 0 {
        let prev = msgs.drop_last();
        lemma_folder_step_is_marking(ledger, folder, prev, start, dry_run, at);
        let d = to_deliver(ledger, folder, prev, start, dry_run);
        let m = msgs.last();
        lemma_mark_all_synced(ledger, folder, d, at, m.0);
        assert(d.push(m.0).drop_last() =~= d);
    }
}

/// Works out which messages of one selected folder's listing are to be
/// delivered: those in the window that the ledger does not hold under this
/// folder, each once, in listing order; none in a dry run. The ledger is
/// not changed: each id is marked only once its body is written.
pub fn sync_folder(
    state: &SyncState,
    folder_name: &str,
    messages: &Vec<MessageInfo>,
    start_ms: i64,
    dry_run: bool,
) -> (pending: Vec<String>)
    requires
        state.wf(),
    ensures
        crate::filter::names(pending) == to_deliver(
            state@,
            folder_name@,
            message_views(*messages),
            start_ms,
            dry_run,
        ),
{
    let mut out: Vec<String> = Vec::new();
    let mut i: usize = 0;
    while i < messages.len()
        invariant
            i <= messages@.len(),
            state.wf(),
            crate::filter::names(out) == to_deliver(
                state@,
                folder_name@,
                message_views(*messages).subrange(0, i as int),
                start_ms,
                dry_run,
            ),
        decreases messages@.len() - i,
    {
        let m = &messages[i];
        proof {
            assert(message_views(*messages).subrange(0, i + 1).drop_last() =~= message_views(
                *messages,
            ).subrange(0, i as int));
        }
        let ghost before = crate::filter::names(out);
        if in_window(m.received_ms, start_ms) && !dry_run && !state.is_synced(
            folder_name,
            m.id.as_str(),
        ) && !crate::filter::holds(&out, &m.id) {
            out.push(m.id.clone());
            proof {
                assert(crate::filter::names(out) =~= before.push(m.id@));
            }
        }
        i = i + 1;
    }
    proof {
        assert(message_views(*messages).subrange(0, i as int) =~= message_views(*messages));
    }
    out
}

// ---- laws ----

/// Every id that a folder step touches is one of its listing's ids; all
/// other records are left as they were.
pub proof fn lemma_folder_step_frame(
    ledger: Ledger,
    folder: Seq<char>,
    msgs: Seq<MessageView>,
    start: i64,
    dry_run: bool,
    at: u64,
    k: Seq<char>,
)
    requires
        forall|j: int| 0 <= j < msgs.len() ==> msgs[j].0 != k,
    ensures
        folder_step(ledger, folder, msgs, start, dry_run, at).0.contains_key(k) == ledger.contains_key(k),
        folder_step(ledger, folder, msgs, start, dry_run, at).0[k] == ledger[k],
    decreases msgs.len(),
{
    if msgs.len() > 0 {
        lemma_folder_step_frame(ledger, folder, msgs.drop_last(), start, dry_run, at, k);
    }
}

/// A record already held under `folder` stays held under `folder` through a
/// step over that folder.
pub proof fn lemma_folder_step_keeps(
    ledger: Ledger,
    folder: Seq<char>,
    msgs: Seq<MessageView>,
    start: i64,
    dry_run: bool,
    at: u64,
    k: Seq<char>,
)
    requires
        synced_in(ledger, folder, k),
    ensures
        synced_in(folder_step(ledger, folder, msgs, start, dry_run, at).0, folder, k),
    decreases msgs.len(),
{
    if msgs.len() > 0 {
        lemma_folder_step_keeps(ledger, folder, msgs.drop_last(), start, dry_run, at, k);
    }
}

/// After a step that is no dry run, every listed message in the window is
/// held under the folder.
pub proof fn lemma_folder_step_covers(
    ledger: Ledger,
    folder: Seq<char>,
    msgs: Seq<MessageView>,
    start: i64,
    at: u64,
)
    ensures
        forall|j: int|
            0 <= j < msgs.len() && in_window_spec(#[trigger] msgs[j].1, start) ==> synced_in(
                folder_step(ledger, folder, msgs, start, false, at).0,
                folder,
                msgs[j].0,
            ),
    decreases msgs.len(),
{
    if msgs.len() > 0 {
        let prev = msgs.drop_last();
        lemma_folder_step_covers(ledger, folder, prev, start, at);
        let l = folder_step(ledger, folder, prev, start, false, at).0;
        let m = msgs.last();
        assert forall|j: int|
            0 <= j < msgs.len() && in_window_spec(#[trigger] msgs[j].1, start) implies synced_in(
            folder_step(ledger, folder, msgs, start, false, at).0,
            folder,
            msgs[j].0,
        ) by {
            if j < msgs.len() - 1 {
                assert(msgs[j] == prev[j]);
                assert(synced_in(l, folder, msgs[j].0));
            }
        }
    }
}

/// A step over a listing whose messages in the window are all held under
/// the folder changes nothing and delivers nothing.
pub proof fn lemma_folder_step_settled(
    ledger: Ledger,
    folder: Seq<char>,
    msgs: Seq<MessageView>,
    start: i64,
    dry_run: bool,
    at: u64,
)
    requires
        forall|j: int|
            0 <= j < msgs.len() && in_window_spec(#[trigger] msgs[j].1, start) ==> synced_in(
                ledger,
                folder,
                msgs[j].0,
            ),
    ensures
        folder_step(ledger, folder, msgs, start, dry_run, at) == (ledger, Seq::<Seq<char>>::empty()),
    decreases msgs.len(),
{
    if msgs.len() > 0 {
        let prev = msgs.drop_last();
        assert forall|j: int|
            0 <= j < prev.len() && in_window_spec(#[trigger] prev[j].1, start) implies synced_in(
            ledger,
            folder,
            prev[j].0,
        ) by {
            assert(prev[j] == msgs[j]);
        }
        lemma_folder_step_settled(ledger, folder, prev, start, dry_run, at);
        assert(in_window_spec(msgs[msgs.len() - 1].1, start) ==> synced_in(ledger, folder, msgs.last().0));
    }
}

/// A dry run delivers nothing and leaves the ledger as it was, whatever the
/// listing holds.
pub proof fn lemma_dry_run_is_inert(
    ledger: Ledger,
    folder: Seq<char>,
    msgs: Seq<MessageView>,
    start: i64,
    at: u64,
)
    ensures
        folder_step(ledger, folder, msgs, start, true, at) == (ledger, Seq::<Seq<char>>::empty()),
    decreases msgs.len(),
{
    if msgs.len() > 0 {
        lemma_dry_run_is_inert(ledger, folder, msgs.drop_last(), start, at);
    }
}

/// A dry run of a whole account delivers nothing and leaves the ledger as
/// it was.
pub proof fn lemma_account_dry_run_is_inert(ledger: Ledger, folders: Seq<FolderRun>)
    ensures
        account_step(ledger, folders, true) == (ledger, Seq::<Seq<char>>::empty()),
    decreases folders.len(),
{
    if folders.len() > 0 {
        lemma_account_dry_run_is_inert(ledger, folders.drop_last());
        let f = folders.last();
        lemma_dry_run_is_inert(ledger, f.0, f.1, f.2, f.3);
        assert(Seq::<Seq<char>>::empty() + Seq::<Seq<char>>::empty() =~= Seq::<Seq<char>>::empty());
    }
}

/// No message id is listed in two different folders of a run.
pub open spec fn ids_apart(folders: Seq<FolderRun>) -> bool {
    forall|a: int, b: int, j: int, k: int|
        0 <= a < b < folders.len() && 0 <= j < folders[a].1.len() && 0 <= k < folders[b].1.len()
            ==> #[trigger] folders[a].1[j].0 != #[trigger] folders[b].1[k].0
}

/// Every message in the window of each folder of the run is held under
/// that folder's name.
pub open spec fn all_held(ledger: Ledger, folders: Seq<FolderRun>) -> bool {
    forall|a: int, j: int|
        0 <= a < folders.len() && 0 <= j < folders[a].1.len() && in_window_spec(
            #[trigger] folders[a].1[j].1,
            folders[a].2,
        ) ==> synced_in(ledger, folders[a].0, folders[a].1[j].0)
}

proof fn lemma_account_step_covers(ledger: Ledger, folders: Seq<FolderRun>)
    requires
        ids_apart(folders),
    ensures
        all_held(account_step(ledger, folders, false).0, folders),
    decreases folders.len(),
{
    if folders.len() > 0 {
        let prev = folders.drop_last();
        assert(ids_apart(prev)) by {
            assert forall|a: int, b: int, j: int, k: int|
                0 <= a < b < prev.len() && 0 <= j < prev[a].1.len() && 0 <= k < prev[b].1.len()
                    implies #[trigger] prev[a].1[j].0 != #[trigger] prev[b].1[k].0 by {
                assert(prev[a] == folders[a] && prev[b] == folders[b]);
            }
        }
        lemma_account_step_covers(ledger, prev);
        let l = account_step(ledger, prev, false).0;
        let f = folders.last();
        let n = folders.len() - 1;
        lemma_folder_step_covers(l, f.0, f.1, f.2, f.3);
        let l2 = folder_step(l, f.0, f.1, f.2, false, f.3).0;
        assert forall|a: int, j: int|
            0 <= a < folders.len() && 0 <= j < folders[a].1.len() && in_window_spec(
                #[trigger] folders[a].1[j].1,
                folders[a].2,
            ) implies synced_in(l2, folders[a].0, folders[a].1[j].0) by {
            if a < n {
                let k = folders[a].1[j].0;
                assert(prev[a] == folders[a]);
                assert(synced_in(l, folders[a].0, k));
                assert forall|q: int| 0 <= q < f.1.len() implies f.1[q].0 != k by {
                    assert(folders[a].1[j].0 != folders[n].1[q].0);
                }
                lemma_folder_step_frame(l, f.0, f.1, f.2, false, f.3, k);
            } else {
                assert(folders[a] == f);
            }
        }
    }
}

/// Where every message in each folder's window is already held, a run that
/// starts no earlier in any folder delivers nothing and changes nothing.
proof fn lemma_account_step_settled(ledger: Ledger, first: Seq<FolderRun>, folders: Seq<FolderRun>, dry_run: bool)
    requires
        all_held(ledger, first),
        first.len() == folders.len(),
        forall|a: int|
            #![trigger folders[a]]
            0 <= a < folders.len() ==> folders[a].0 == first[a].0 && folders[a].1 == first[a].1
                && folders[a].2 >= first[a].2,
    ensures
        account_step(ledger, folders, dry_run) == (ledger, Seq::<Seq<char>>::empty()),
    decreases folders.len(),
{
    if folders.len() > 0 {
        let n = folders.len() - 1;
        let fp = first.drop_last();
        let prev = folders.drop_last();
        assert(all_held(ledger, fp)) by {
            assert forall|a: int, j: int|
                0 <= a < fp.len() && 0 <= j < fp[a].1.len() && in_window_spec(
                    #[trigger] fp[a].1[j].1,
                    fp[a].2,
                ) implies synced_in(ledger, fp[a].0, fp[a].1[j].0) by {
                assert(fp[a] == first[a]);
            }
        }
        assert forall|a: int|
            #![trigger prev[a]]
            0 <= a < prev.len() implies prev[a].0 == fp[a].0 && prev[a].1 == fp[a].1 && prev[a].2
                >= fp[a].2 by {
            assert(prev[a] == folders[a] && fp[a] == first[a]);
        }
        lemma_account_step_settled(ledger, fp, prev, dry_run);
        let f = folders.last();
        assert(f == folders[n]);
        assert(f.1 == first[n].1 && f.2 >= first[n].2 && f.0 == first[n].0);
        assert forall|j: int| 0 <= j < f.1.len() && in_window_spec(#[trigger] f.1[j].1, f.2) implies synced_in(
            ledger,
            f.0,
            f.1[j].0,
        ) by {
            assert(first[n].1[j] == f.1[j]);
            assert(in_window_spec(first[n].1[j].1, first[n].2));
        }
        lemma_folder_step_settled(ledger, f.0, f.1, f.2, dry_run, f.3);
        assert(Seq::<Seq<char>>::empty() + Seq::<Seq<char>>::empty() =~= Seq::<Seq<char>>::empty());
    }
}

/// Running an account twice against unchanged folder listings: the second
/// run, whose windows start no earlier than the first's, delivers nothing
/// and leaves the ledger exactly as the first run left it. This holds where
/// no message id is listed in two different folders.
pub proof fn lemma_second_run_idempotent(
    ledger: Ledger,
    first: Seq<FolderRun>,
    second: Seq<FolderRun>,
    dry_run: bool,
)
    requires
        ids_apart(first),
        first.len() == second.len(),
        forall|a: int|
            #![trigger second[a]]
            0 <= a < second.len() ==> second[a].0 == first[a].0 && second[a].1 == first[a].1
                && second[a].2 >= first[a].2,
    ensures
        ({
            let after_first = account_step(ledger, first, false).0;
            account_step(after_first, second, dry_run) == (after_first, Seq::<Seq<char>>::empty())
        }),
{
    lemma_account_step_covers(ledger, first);
    lemma_account_step_settled(account_step(ledger, first, false).0, first, second, dry_run);
}

} // verus!
