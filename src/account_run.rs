use vstd::prelude::*;

use crate::config::{opt_text, NormalizedAccountConfig};
use crate::filter::{folder_set, folder_set_of, lower_of, names, opt_names, scope_rule};
use crate::sync::{
    account_step, lemma_folder_step_is_marking, mark_all, message_views, select_folders,
    sync_folder, to_deliver, ids_apart, lemma_second_run_idempotent, FolderInfo, FolderRun, Ledger,
    MessageInfo,
};
use crate::sync_state::SyncState;

verus! {

/// The next piece of outside work an account run asks for.
#[derive(Debug)]
pub enum Action {
    /// List the account's folders, then call `folders_listed`.
    ListFolders,
    /// List the messages of the folder at this index, then call
    /// `messages_listed` with it.
    ListMessages(usize),
    /// Fetch this message id's body and write it into the folder at this
    /// index, then call `delivered`.
    Deliver(usize, String),
    /// Persist the ledger, then call `ledger_saved`.
    SaveLedger,
    /// Nothing is left to do for this account.
    Done,
}

/// One write of a message body: folder name, message id, and the time the
/// ledger records for it.
pub type Written = (Seq<char>, Seq<char>, u64);

/// The ledger after recording each write, in order.
pub open spec fn apply_marks(ledger: Ledger, written: Seq<Written>) -> Ledger
    decreases written.len(),
{
    if written.len() == 0 {
        ledger
    } else {
        let w = written.last();
        apply_marks(ledger, written.drop_last()).insert(w.1, (w.0, 0u8, w.2))
    }
}

/// No selected folder lies in `from..`.
pub open spec fn none_selected_from(selected: Seq<bool>, from: int) -> bool {
    forall|j: int| from <= j < selected.len() ==> !selected[j]
}

/// A dry run delivers nothing from any listing.
pub proof fn lemma_dry_run_delivers_nothing(
    ledger: Ledger,
    folder: Seq<char>,
    msgs: Seq<crate::sync::MessageView>,
    start: i64,
)
    ensures
        to_deliver(ledger, folder, msgs, start, true) == Seq::<Seq<char>>::empty(),
    decreases msgs.len(),
{
    if msgs.len() > 0 {
        lemma_dry_run_delivers_nothing(ledger, folder, msgs.drop_last(), start);
    }
}

/// The decisions of one account's run, from a loaded ledger to a saved one:
/// folders are listed once, each selected folder's messages are listed in
/// order, the new ones are fetched and written one at a time, each marked in
/// the ledger only once written, and the ledger is saved once at the end.
/// Unselected folders are never listed.
pub struct AccountRun {
    pub dry_run: bool,
    pub wanted: Option<Vec<String>>,
    pub unwanted: Option<Vec<String>>,
    pub ledger: SyncState,
    pub folders: Vec<FolderInfo>,
    pub selected: Vec<bool>,
    pub listed: bool,
    pub cursor: usize,
    pub current: usize,
    pub pending: Vec<String>,
    pub sent: usize,
    pub saved: bool,
    /// The time the current folder's deliveries are recorded at.
    pub stamp: u64,
    /// The ledger the run started from.
    pub initial: Ghost<Ledger>,
    /// The selected folders listed so far, in order.
    pub history: Ghost<Seq<FolderRun>>,
    /// The ledger as the current folder's listing found it.
    pub base: Ghost<Ledger>,
    /// Every body written so far, in order.
    pub written: Ghost<Seq<Written>>,
}

impl AccountRun {
    /// The name of the folder whose deliveries are queued.
    pub open spec fn current_name(&self) -> Seq<char> {
        if self.current < self.folders@.len() {
            self.folders@[self.current as int].display_name@
        } else {
            Seq::empty()
        }
    }

    pub open spec fn wf(&self) -> bool {
        &&& self.ledger.wf()
        &&& self.selected@.len() == self.folders@.len()
        &&& forall|i: int|
            0 <= i < self.folders@.len() ==> self.selected@[i] == scope_rule(
                lower_of(#[trigger] self.folders@[i].display_name@),
                opt_names(self.wanted),
                opt_names(self.unwanted),
            )
        &&& self.cursor <= self.folders@.len()
        &&& self.sent <= self.pending@.len()
        &&& self.pending@.len() > 0 ==> self.current < self.folders@.len()
        &&& self.dry_run ==> self.pending@.len() == 0 && self.written@.len() == 0
        &&& !self.listed ==> self.folders@.len() == 0 && self.cursor == 0 && self.pending@.len()
            == 0 && self.history@.len() == 0
        &&& self.saved ==> self.listed && self.sent == self.pending@.len() && none_selected_from(
            self.selected@,
            self.cursor as int,
        )
        &&& self.ledger@ == apply_marks(self.initial@, self.written@)
        &&& self.ledger@ == mark_all(
            self.base@,
            self.current_name(),
            names(self.pending).subrange(0, self.sent as int),
            self.stamp,
        )
        &&& self.history@.len() == 0 ==> self.base@ == self.initial@ && self.pending@.len() == 0
        &&& self.history@.len() > 0 ==> {
            let last = self.history@.last();
            &&& self.base@ == account_step(self.initial@, self.history@.drop_last(), self.dry_run).0
            &&& self.current < self.folders@.len()
            &&& last.0 == self.current_name()
            &&& last.3 == self.stamp
            &&& names(self.pending) == to_deliver(self.base@, last.0, last.1, last.2, self.dry_run)
        }
    }

    /// The settings of the run that no step changes.
    pub open spec fn keeps_settings(&self, old: &AccountRun) -> bool {
        &&& self.dry_run == old.dry_run
        &&& opt_names(self.wanted) == opt_names(old.wanted)
        &&& opt_names(self.unwanted) == opt_names(old.unwanted)
        &&& self.initial@ == old.initial@
    }

    /// Where the run stands among the folders, unchanged.
    pub open spec fn keeps_position(&self, old: &AccountRun) -> bool {
        &&& self.folders@ == old.folders@
        &&& self.selected@ == old.selected@
        &&& self.listed == old.listed
        &&& self.cursor == old.cursor
        &&& self.current == old.current
        &&& names(self.pending) == names(old.pending)
        &&& self.stamp == old.stamp
        &&& self.history@ == old.history@
    }

    /// Once the queued deliveries are all written, the ledger is the one the
    /// folders listed so far give: the starting ledger with every new
    /// message of each of them marked.
    pub proof fn lemma_ledger_follows_history(&self)
        requires
            self.wf(),
            self.sent == self.pending@.len(),
        ensures
            self.ledger@ == account_step(self.initial@, self.history@, self.dry_run).0,
    {
        assert(names(self.pending).subrange(0, self.sent as int) =~= names(self.pending));
        if self.history@.len() > 0 {
            let last = self.history@.last();
            lemma_folder_step_is_marking(self.base@, last.0, last.1, last.2, self.dry_run, last.3);
        }
    }

    /// A run for `account` over the ledger loaded for it.
    pub fn new(account: &NormalizedAccountConfig, dry_run: bool, ledger: SyncState) -> (r: AccountRun)
        requires
            ledger.wf(),
        ensures
            r.wf(),
            r.ledger@ == ledger@,
            r.initial@ == ledger@,
            r.dry_run == dry_run,
            opt_names(r.wanted) == match opt_text(account.include_folders) {
                Some(l) => Some(folder_set_of(l)),
                None => None::<Seq<Seq<char>>>,
            },
            opt_names(r.unwanted) == match opt_text(account.exclude_folders) {
                Some(l) => Some(folder_set_of(l)),
                None => None::<Seq<Seq<char>>>,
            },
            !r.listed,
            !r.saved,
            r.history@ == Seq::<FolderRun>::empty(),
            r.written@ == Seq::<Written>::empty(),
    {
        let ghost start = ledger@;
        AccountRun {
            dry_run,
            wanted: folder_set(&account.include_folders),
            unwanted: folder_set(&account.exclude_folders),
            ledger,
            folders: Vec::new(),
            selected: Vec::new(),
            listed: false,
            cursor: 0,
            current: 0,
            pending: Vec::new(),
            sent: 0,
            saved: false,
            stamp: 0,
            initial: Ghost(start),
            history: Ghost(Seq::empty()),
            base: Ghost(start),
            written: Ghost(Seq::empty()),
        }
    }

    fn next_selected(&self) -> (r: Option<usize>)
        requires
            self.wf(),
        ensures
            match r {
                Some(j) => self.cursor <= j < self.folders@.len() && self.selected@[j as int]
                    && none_selected_from(self.selected@.subrange(0, j as int), self.cursor as int),
                None => none_selected_from(self.selected@, self.cursor as int),
            },
    {
        let mut j = self.cursor;
        while j < self.selected.len()
            invariant
                self.wf(),
                self.cursor <= j <= self.selected@.len(),
                forall|k: int| self.cursor <= k < j ==> !self.selected@[k],
            decreases self.selected@.len() - j,
        {
            if self.selected[j] {
                return Some(j);
            }
            j = j + 1;
        }
        None
    }

    /// What to do next. Queued deliveries come first; then the first
    /// selected folder not yet listed, skipping none; once every selected
    /// folder is done the ledger is saved, once.
    pub fn next_action(&self) -> (r: Action)
        requires
            self.wf(),
        ensures
            match r {
                Action::ListFolders => !self.listed,
                Action::ListMessages(j) => self.listed && !self.saved && self.sent
                    == self.pending@.len() && self.cursor <= j < self.folders@.len()
                    && self.selected@[j as int] && none_selected_from(
                    self.selected@.subrange(0, j as int),
                    self.cursor as int,
                ) && scope_rule(
                    lower_of(self.folders@[j as int].display_name@),
                    opt_names(self.wanted),
                    opt_names(self.unwanted),
                ),
                Action::Deliver(j, id) => !self.dry_run && self.listed && self.sent
                    < self.pending@.len() && j == self.current && j < self.folders@.len()
                    && id@ == self.pending@[self.sent as int]@,
                Action::SaveLedger => self.listed && !self.saved && self.sent == self.pending@.len()
                    && none_selected_from(self.selected@, self.cursor as int) && self.ledger@
                    == account_step(self.initial@, self.history@, self.dry_run).0,
                Action::Done => self.saved,
            },
    {
        if !self.listed {
            return Action::ListFolders;
        }
        if self.sent < self.pending.len() {
            return Action::Deliver(self.current, self.pending[self.sent].clone());
        }
        if self.saved {
            return Action::Done;
        }
        match self.next_selected() {
            Some(j) => Action::ListMessages(j),
            None => {
                proof {
                    self.lemma_ledger_follows_history();
                }
                Action::SaveLedger
            },
        }
    }

    /// The folders were listed: each is marked in or out of scope.
    pub fn folders_listed(&mut self, folders: Vec<FolderInfo>)
        requires
            old(self).wf(),
            !old(self).listed,
        ensures
            final(self).wf(),
            final(self).keeps_settings(&*old(self)),
            final(self).listed,
            !final(self).saved,
            final(self).folders@ == folders@,
            final(self).cursor == 0,
            final(self).pending@.len() == 0,
            final(self).sent == 0,
            final(self).ledger@ == old(self).ledger@,
            final(self).history@ == old(self).history@,
            final(self).written@ == old(self).written@,
    {
        let selected = select_folders(&folders, &self.wanted, &self.unwanted);
        self.folders = folders;
        self.selected = selected;
        self.listed = true;
    }

    /// The messages of the folder at `folder` were listed, with the window
    /// starting at `start_ms`: the new ones are queued for delivery, to be
    /// recorded at `at` as each is written. The ledger is not changed here.
    pub fn messages_listed(&mut self, folder: usize, messages: &Vec<MessageInfo>, start_ms: i64, at: u64)
        requires
            old(self).wf(),
            old(self).listed,
            !old(self).saved,
            old(self).sent == old(self).pending@.len(),
            old(self).cursor <= folder < old(self).folders@.len(),
            old(self).selected@[folder as int],
        ensures
            final(self).wf(),
            final(self).keeps_settings(&*old(self)),
            final(self).folders@ == old(self).folders@,
            final(self).selected@ == old(self).selected@,
            final(self).listed,
            !final(self).saved,
            final(self).current == folder,
            final(self).cursor == folder + 1,
            final(self).sent == 0,
            final(self).stamp == at,
            names(final(self).pending) == to_deliver(
                old(self).ledger@,
                old(self).folders@[folder as int].display_name@,
                message_views(*messages),
                start_ms,
                old(self).dry_run,
            ),
            final(self).ledger@ == old(self).ledger@,
            final(self).written@ == old(self).written@,
            final(self).history@ == old(self).history@.push(
                (old(self).folders@[folder as int].display_name@, message_views(*messages), start_ms, at),
            ),
    {
        proof {
            self.lemma_ledger_follows_history();
        }
        let count = self.folders.len();
        assert(folder < count);
        let name = self.folders[folder].display_name.clone();
        let pending = sync_folder(&self.ledger, name.as_str(), messages, start_ms, self.dry_run);
        proof {
            if self.dry_run {
                lemma_dry_run_delivers_nothing(self.ledger@, name@, message_views(*messages), start_ms);
                assert(names(pending).len() == pending@.len());
            }
        }
        let ghost entry: FolderRun = (name@, message_views(*messages), start_ms, at);
        proof {
            assert(self.history@.push(entry).drop_last() =~= self.history@);
        }
        self.base = Ghost(self.ledger@);
        self.history = Ghost(self.history@.push(entry));
        self.pending = pending;
        self.sent = 0;
        self.current = folder;
        self.cursor = folder + 1;
        self.stamp = at;
        proof {
            assert(names(self.pending).subrange(0, 0) =~= Seq::<Seq<char>>::empty());
        }
    }

    /// The body asked for by the last `Deliver` was written: its id is now
    /// marked in the ledger under the folder it was written to.
    pub fn delivered(&mut self)
        requires
            old(self).wf(),
            old(self).sent < old(self).pending@.len(),
        ensures
            final(self).wf(),
            final(self).keeps_settings(&*old(self)),
            final(self).keeps_position(&*old(self)),
            final(self).saved == old(self).saved,
            final(self).sent == old(self).sent + 1,
            final(self).ledger@ == old(self).ledger@.insert(
                old(self).pending@[old(self).sent as int]@,
                (old(self).current_name(), 0u8, old(self).stamp),
            ),
            final(self).written@ == old(self).written@.push(
                (old(self).current_name(), old(self).pending@[old(self).sent as int]@, old(self).stamp),
            ),
    {
        let total = self.pending.len();
        assert(self.sent < total);
        let name = self.folders[self.current].display_name.clone();
        let id = self.pending[self.sent].clone();
        let ghost w: Written = (name@, id@, self.stamp);
        let ghost marked = names(self.pending).subrange(0, self.sent + 1);
        proof {
            assert(marked.drop_last() =~= names(self.pending).subrange(0, self.sent as int));
            assert(self.written@.push(w).drop_last() =~= self.written@);
        }
        self.ledger.mark_synced_at(name.as_str(), id.as_str(), self.stamp);
        self.written = Ghost(self.written@.push(w));
        self.sent = self.sent + 1;
    }

    /// The ledger was persisted.
    pub fn ledger_saved(&mut self)
        requires
            old(self).wf(),
            old(self).listed,
            old(self).sent == old(self).pending@.len(),
            none_selected_from(old(self).selected@, old(self).cursor as int),
        ensures
            final(self).wf(),
            final(self).keeps_settings(&*old(self)),
            final(self).keeps_position(&*old(self)),
            final(self).saved,
            final(self).sent == old(self).sent,
            final(self).ledger@ == old(self).ledger@,
            final(self).written@ == old(self).written@,
    {
        self.saved = true;
    }
}

/// A dry run writes nothing and leaves the ledger exactly as it was loaded,
/// at every point of the run.
pub proof fn lemma_dry_run_keeps_ledger(run: &AccountRun)
    requires
        run.wf(),
        run.dry_run,
    ensures
        run.written@.len() == 0,
        run.ledger@ == run.initial@,
{
}

/// Every write of the run is recorded in the ledger, and nothing else
/// changed: the ledger is the loaded one with each written id marked under
/// the folder it was last written to.
pub proof fn lemma_ledger_is_loaded_plus_written(run: &AccountRun)
    requires
        run.wf(),
    ensures
        run.ledger@ == apply_marks(run.initial@, run.written@),
{
}

/// Rerunning an account from the ledger a finished run saved, against the
/// same folder listings (windows starting no earlier), delivers nothing and
/// leaves that ledger unchanged. This holds where no message id is listed in
/// two different folders.
pub proof fn lemma_rerun_delivers_nothing(first: &AccountRun, second: Seq<FolderRun>, dry_run: bool)
    requires
        first.wf(),
        first.saved,
        !first.dry_run,
        ids_apart(first.history@),
        second.len() == first.history@.len(),
        forall|a: int|
            #![trigger second[a]]
            0 <= a < second.len() ==> second[a].0 == first.history@[a].0 && second[a].1
                == first.history@[a].1 && second[a].2 >= first.history@[a].2,
    ensures
        account_step(first.ledger@, second, dry_run) == (first.ledger@, Seq::<Seq<char>>::empty()),
{
    first.lemma_ledger_follows_history();
    lemma_second_run_idempotent(first.initial@, first.history@, second, dry_run);
}

} // verus!
