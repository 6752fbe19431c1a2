//! The desktop application's run state: sites and accounts shown, the
//! check-in status of each account, the run counters and the log buffer.
//! Rendering, the database handle and the balance figures live at the edge.
use vstd::prelude::*;
use crate::storage::{Site, Account};
use crate::text::{owned, fmt_i64, fmt_u64, dec, dec_int, parse_i64, i64_text};
use crate::cookie::{CookieStatus, Timestamp, cookie_status, text_of, classify};

verus! {

/// Check-in status of one account.
#[derive(Debug, Clone, PartialEq)]
pub enum CheckInStatus {
    Idle,
    Running,
    Success,
    Failed(String),
}

/// Level of an interface log line.
#[derive(Debug, Clone, Copy, PartialEq, Eq, Structural)]
pub enum LogLevel {
    Info,
    Success,
    Warn,
    Error,
    Debug,
}

/// One interface log line.
#[derive(Debug, Clone)]
pub struct LogEntry {
    pub level: LogLevel,
    pub tag: String,
    pub message: String,
    pub timestamp: String,
}

/// The page shown; the detail page returns home through its breadcrumb.
#[derive(Debug, Clone, Copy, PartialEq, Eq, Structural)]
pub enum AppView {
    Home,
    /// Detail page of an account (by id).
    AccountDetail(i64),
}

/// Most log lines kept; past it the oldest are dropped in one batch.
pub const MAX_LOGS: usize = 5000;

/// How many of the oldest lines are dropped once the buffer overflows.
pub const LOG_DROP: usize = 2000;

/// The run state of the interface.
pub struct AppState {
    pub sites: Vec<Site>,
    pub accounts: Vec<Account>,
    /// Check-in status by account id, one entry per id.
    pub checkin_status: Vec<(i64, CheckInStatus)>,
    pub logs: Vec<LogEntry>,
    pub is_running: bool,
    /// Successes and failures of the current run.
    pub success_count: usize,
    pub fail_count: usize,
    pub view: AppView,
    pub log_drawer_open: bool,
}

/// No account id has two status entries.
pub open spec fn unique_ids(s: Seq<(i64, CheckInStatus)>) -> bool {
    forall|i: int, j: int| 0 <= i < j < s.len() ==> (#[trigger] s[i]).0 != (#[trigger] s[j]).0
}

/// The status map that the entries describe.
pub open spec fn status_map(s: Seq<(i64, CheckInStatus)>) -> Map<i64, CheckInStatus>
    decreases s.len(),
{
    if s.len() == 0 {
        Map::empty()
    } else {
        status_map(s.drop_last()).insert(s.last().0, s.last().1)
    }
}

/// The status of an account: its entry, or `Idle` without one.
pub open spec fn status_spec(m: Map<i64, CheckInStatus>, id: i64) -> CheckInStatus {
    if m.contains_key(id) {
        m[id]
    } else {
        CheckInStatus::Idle
    }
}

/// The ids of the accounts.
pub open spec fn account_ids(accounts: Seq<Account>) -> Set<i64> {
    Set::new(|id: i64| exists|i: int| 0 <= i < accounts.len() && (#[trigger] accounts[i]).id == id)
}

impl AppState {
    /// The well-formedness of the state: one status entry per id, and the
    /// log buffer within its bound.
    pub open spec fn wf(&self) -> bool {
        &&& unique_ids(self.checkin_status@)
        &&& self.logs@.len() <= MAX_LOGS
    }

    /// The status map.
    pub open spec fn statuses(&self) -> Map<i64, CheckInStatus> {
        status_map(self.checkin_status@)
    }

    /// Sites, accounts, the run flag and the page are as in `old`.
    pub open spec fn unchanged_rest(&self, old: Self) -> bool {
        &&& self.sites == old.sites
        &&& self.accounts == old.accounts
        &&& self.is_running == old.is_running
        &&& self.view == old.view
        &&& self.log_drawer_open == old.log_drawer_open
    }
}

proof fn lemma_status_map_at(s: Seq<(i64, CheckInStatus)>)
    requires
        unique_ids(s),
    ensures
        forall|i: int| 0 <= i < s.len() ==> status_map(s).contains_key(#[trigger] s[i].0) && status_map(s)[s[i].0] == s[i].1,
        forall|id: i64| #[trigger] status_map(s).contains_key(id) ==> exists|i: int| 0 <= i < s.len() && s[i].0 == id,
    decreases s.len(),
{
    if s.len() > 0 {
        let d = s.drop_last();
        assert(unique_ids(d)) by {
            assert forall|i: int, j: int| 0 <= i < j < d.len() implies (#[trigger] d[i]).0 != (#[trigger] d[j]).0 by {
                assert(d[i] == s[i]);
                assert(d[j] == s[j]);
            }
        }
        lemma_status_map_at(d);
        assert forall|i: int| 0 <= i < s.len() implies status_map(s).contains_key(#[trigger] s[i].0) && status_map(s)[s[i].0] == s[i].1 by {
            if i < s.len() - 1 {
                assert(d[i] == s[i]);
                assert(s[i].0 != s[s.len() - 1].0);
            }
        }
        assert forall|id: i64| #[trigger] status_map(s).contains_key(id) implies exists|i: int| 0 <= i < s.len() && s[i].0 == id by {
            if id != s.last().0 {
                assert(status_map(d).contains_key(id));
                let i = choose|i: int| 0 <= i < d.len() && d[i].0 == id;
                assert(s[i] == d[i]);
            }
        }
    }
}

fn find_status(s: &Vec<(i64, CheckInStatus)>, id: i64) -> (r: Option<usize>)
    ensures
        r matches Some(i) ==> i < s@.len() && s@[i as int].0 == id,
        r is None ==> forall|i: int| 0 <= i < s@.len() ==> (#[trigger] s@[i]).0 != id,
{
    let mut i: usize = 0;
    while i < s.len()
        invariant
            i <= s@.len(),
            forall|k: int| 0 <= k < i ==> (#[trigger] s@[k]).0 != id,
        decreases s.len() - i,
    {
        if s[i].0 == id {
            return Some(i);
        }
        i = i + 1;
    }
    None
}

fn copy_status(s: &CheckInStatus) -> (r: CheckInStatus)
    ensures
        r == *s,
{
    match s {
        CheckInStatus::Idle => CheckInStatus::Idle,
        CheckInStatus::Running => CheckInStatus::Running,
        CheckInStatus::Success => CheckInStatus::Success,
        CheckInStatus::Failed(e) => CheckInStatus::Failed(e.clone()),
    }
}

/// Sets the status of `id` in the entries.
fn put_status(s: &mut Vec<(i64, CheckInStatus)>, id: i64, status: CheckInStatus)
    requires
        unique_ids(old(s)@),
    ensures
        unique_ids(final(s)@),
        status_map(final(s)@) == status_map(old(s)@).insert(id, status),
{
    proof {
        lemma_status_map_at(s@);
    }
    let ghost before = s@;
    match find_status(s, id) {
        Some(i) => {
            s.set(i, (id, status));
            proof {
                assert(unique_ids(s@)) by {
                    assert forall|a: int, b: int| 0 <= a < b < s@.len() implies (#[trigger] s@[a]).0 != (#[trigger] s@[b]).0 by {
                        assert(s@[a].0 == before[a].0);
                        assert(s@[b].0 == before[b].0);
                    }
                }
                lemma_status_map_at(s@);
                assert(status_map(s@) =~= status_map(before).insert(id, status)) by {
                    assert forall|k: i64| #[trigger] status_map(s@).contains_key(k) <==> status_map(before).insert(id, status).contains_key(k) by {
                        if status_map(s@).contains_key(k) {
                            let j = choose|j: int| 0 <= j < s@.len() && s@[j].0 == k;
                            assert(before[j].0 == k);
                        }
                        if status_map(before).contains_key(k) {
                            let j = choose|j: int| 0 <= j < before.len() && before[j].0 == k;
                            assert(s@[j].0 == k);
                        }
                    }
                    assert forall|k: i64| #[trigger] status_map(s@).contains_key(k) implies status_map(s@)[k] == status_map(before).insert(id, status)[k] by {
                        let j = choose|j: int| 0 <= j < s@.len() && s@[j].0 == k;
                        if j != i {
                            assert(before[j] == s@[j]);
                        }
                    }
                }
            }
        },
        None => {
            s.push((id, status));
            proof {
                assert(s@.drop_last() =~= before);
            }
        },
    }
}

impl AppState {
    /// The initial state: every account idle, nothing running, home page.
    pub fn new(sites: Vec<Site>, accounts: Vec<Account>) -> (r: Self)
        ensures
            r.wf(),
            r.sites@ == sites@,
            r.accounts@ == accounts@,
            r.statuses().dom() == account_ids(accounts@),
            forall|id: i64| #[trigger] r.statuses().contains_key(id) ==> r.statuses()[id] == CheckInStatus::Idle,
            r.logs@.len() == 0,
            !r.is_running,
            r.success_count == 0,
            r.fail_count == 0,
            r.view == AppView::Home,
            !r.log_drawer_open,
    {
        let mut st: Vec<(i64, CheckInStatus)> = Vec::new();
        let mut i: usize = 0;
        while i < accounts.len()
            invariant
                i <= accounts@.len(),
                unique_ids(st@),
                status_map(st@).dom() == account_ids(accounts@.take(i as int)),
                forall|id: i64| #[trigger] status_map(st@).contains_key(id) ==> status_map(st@)[id] == CheckInStatus::Idle,
            decreases accounts.len() - i,
        {
            put_status(&mut st, accounts[i].id, CheckInStatus::Idle);
            proof {
                let t = accounts@.take(i + 1);
                assert(account_ids(t) =~= account_ids(accounts@.take(i as int)).insert(accounts@[i as int].id)) by {
                    assert forall|id: i64| account_ids(t).contains(id) <==> account_ids(accounts@.take(i as int)).insert(accounts@[i as int].id).contains(id) by {
                        if account_ids(t).contains(id) {
                            let j = choose|j: int| 0 <= j < t.len() && (#[trigger] t[j]).id == id;
                            if j < i {
                                assert(accounts@.take(i as int)[j] == t[j]);
                            }
                        }
                        if account_ids(accounts@.take(i as int)).contains(id) {
                            let j = choose|j: int| 0 <= j < i && (#[trigger] accounts@.take(i as int)[j]).id == id;
                            assert(t[j] == accounts@.take(i as int)[j]);
                        }
                        if id == accounts@[i as int].id {
                            assert(t[i as int] == accounts@[i as int]);
                        }
                    }
                }
            }
            i = i + 1;
        }
        assert(accounts@.take(accounts@.len() as int) =~= accounts@);
        AppState {
            sites,
            accounts,
            checkin_status: st,
            logs: Vec::new(),
            is_running: false,
            success_count: 0,
            fail_count: 0,
            view: AppView::Home,
            log_drawer_open: false,
        }
    }

    /// Appends a log line; once the buffer exceeds its bound, the oldest
    /// lines are dropped in one batch.
    pub fn add_log(&mut self, level: LogLevel, tag: &str, message: &str, timestamp: String)
        requires
            old(self).wf(),
        ensures
            final(self).wf(),
            final(self).logs@.len() > 0,
            final(self).logs@.last().level == level,
            final(self).logs@.last().tag@ == tag@,
            final(self).logs@.last().message@ == message@,
            final(self).logs@.last().timestamp == timestamp,
            old(self).logs@.len() < MAX_LOGS ==> final(self).logs@ == old(self).logs@.push(final(self).logs@.last()),
            old(self).logs@.len() == MAX_LOGS ==> final(self).logs@ == old(self).logs@.skip(LOG_DROP as int).push(
                final(self).logs@.last(),
            ),
            final(self).checkin_status == old(self).checkin_status,
            final(self).sites == old(self).sites,
            final(self).accounts == old(self).accounts,
            final(self).success_count == old(self).success_count,
            final(self).fail_count == old(self).fail_count,
            final(self).is_running == old(self).is_running,
            final(self).unchanged_rest(*old(self)),
    {
        let entry = LogEntry {
            level,
            tag: crate::config_loader::types::lit(tag),
            message: crate::config_loader::types::lit(message),
            timestamp,
        };
        let ghost before = self.logs@;
        self.logs.push(entry);
        if self.logs.len() > MAX_LOGS {
            let kept = self.logs.split_off(LOG_DROP);
            assert(kept@ =~= before.skip(LOG_DROP as int).push(entry));
            self.logs = kept;
        }
    }
}

/// The error of a failed status.
pub open spec fn failure_text(s: CheckInStatus) -> Option<Seq<char>> {
    match s {
        CheckInStatus::Failed(e) => Some(e@),
        _ => None,
    }
}

/// Position of the first element of `s` whose id is `id` (the length when none).
pub open spec fn first_account(s: Seq<Account>, id: i64) -> int
    decreases s.len(),
{
    if s.len() == 0 {
        0
    } else if s[0].id == id {
        0
    } else {
        1 + first_account(s.drop_first(), id)
    }
}

/// Position of the first site whose id is `id` (the length when none).
pub open spec fn first_site(s: Seq<Site>, id: i64) -> int
    decreases s.len(),
{
    if s.len() == 0 {
        0
    } else if s[0].id == id {
        0
    } else {
        1 + first_site(s.drop_first(), id)
    }
}

proof fn lemma_first_account(s: Seq<Account>, id: i64, i: int)
    requires
        0 <= i <= s.len(),
        forall|j: int| 0 <= j < i ==> (#[trigger] s[j]).id != id,
        i < s.len() ==> s[i].id == id,
    ensures
        first_account(s, id) == i,
    decreases i,
{
    if i > 0 {
        assert(s[0].id != id);
        assert forall|j: int| 0 <= j < i - 1 implies (#[trigger] s.drop_first()[j]).id != id by {
            assert(s.drop_first()[j] == s[j + 1]);
        }
        if i < s.len() {
            assert(s.drop_first()[i - 1] == s[i]);
        }
        lemma_first_account(s.drop_first(), id, i - 1);
    }
}

proof fn lemma_first_site(s: Seq<Site>, id: i64, i: int)
    requires
        0 <= i <= s.len(),
        forall|j: int| 0 <= j < i ==> (#[trigger] s[j]).id != id,
        i < s.len() ==> s[i].id == id,
    ensures
        first_site(s, id) == i,
    decreases i,
{
    if i > 0 {
        assert(s[0].id != id);
        assert forall|j: int| 0 <= j < i - 1 implies (#[trigger] s.drop_first()[j]).id != id by {
            assert(s.drop_first()[j] == s[j + 1]);
        }
        if i < s.len() {
            assert(s.drop_first()[i - 1] == s[i]);
        }
        lemma_first_site(s.drop_first(), id, i - 1);
    }
}

/// The statuses after a data reload: those of accounts still present are
/// kept, accounts new to the list start idle, the others are dropped.
pub open spec fn reloaded_statuses(old_map: Map<i64, CheckInStatus>, accounts: Seq<Account>) -> Map<i64, CheckInStatus> {
    Map::new(|id: i64| account_ids(accounts).contains(id), |id: i64| status_spec(old_map, id))
}

impl AppState {
    /// Empties the log buffer.
    pub fn clear_logs(&mut self)
        requires
            old(self).wf(),
        ensures
            final(self).wf(),
            final(self).logs@.len() == 0,
            final(self).checkin_status == old(self).checkin_status,
    {
        self.logs.clear();
    }

    /// Records the status of an account.
    pub fn set_status(&mut self, account_id: i64, status: CheckInStatus)
        requires
            old(self).wf(),
        ensures
            final(self).wf(),
            final(self).statuses() == old(self).statuses().insert(account_id, status),
            final(self).logs == old(self).logs,
            final(self).success_count == old(self).success_count,
            final(self).fail_count == old(self).fail_count,
            final(self).unchanged_rest(*old(self)),
    {
        put_status(&mut self.checkin_status, account_id, status);
    }

    /// The status of an account (`Idle` when none was recorded).
    pub fn status_of(&self, account_id: i64) -> (r: CheckInStatus)
        requires
            self.wf(),
        ensures
            r == status_spec(self.statuses(), account_id),
    {
        proof {
            lemma_status_map_at(self.checkin_status@);
        }
        match find_status(&self.checkin_status, account_id) {
            Some(i) => copy_status(&self.checkin_status[i].1),
            None => CheckInStatus::Idle,
        }
    }

    /// The number of accounts.
    pub fn total_accounts(&self) -> (r: usize)
        ensures
            r == self.accounts@.len(),
    {
        self.accounts.len()
    }

    /// The first account with the given id.
    pub fn account_by_id(&self, id: i64) -> (r: Option<&Account>)
        ensures
            first_account(self.accounts@, id) < self.accounts@.len() ==> r == Some(&self.accounts@[first_account(self.accounts@, id)]),
            first_account(self.accounts@, id) >= self.accounts@.len() ==> r is None,
    {
        let mut i: usize = 0;
        while i < self.accounts.len()
            invariant
                i <= self.accounts@.len(),
                forall|j: int| 0 <= j < i ==> (#[trigger] self.accounts@[j]).id != id,
            decreases self.accounts.len() - i,
        {
            if self.accounts[i].id == id {
                proof {
                    lemma_first_account(self.accounts@, id, i as int);
                }
                return Some(&self.accounts[i]);
            }
            i = i + 1;
        }
        proof {
            lemma_first_account(self.accounts@, id, i as int);
        }
        None
    }

    /// The first site with the given id.
    pub fn site_by_id(&self, id: i64) -> (r: Option<&Site>)
        ensures
            first_site(self.sites@, id) < self.sites@.len() ==> r == Some(&self.sites@[first_site(self.sites@, id)]),
            first_site(self.sites@, id) >= self.sites@.len() ==> r is None,
    {
        let mut i: usize = 0;
        while i < self.sites.len()
            invariant
                i <= self.sites@.len(),
                forall|j: int| 0 <= j < i ==> (#[trigger] self.sites@[j]).id != id,
            decreases self.sites.len() - i,
        {
            if self.sites[i].id == id {
                proof {
                    lemma_first_site(self.sites@, id, i as int);
                }
                return Some(&self.sites[i]);
            }
            i = i + 1;
        }
        proof {
            lemma_first_site(self.sites@, id, i as int);
        }
        None
    }

    /// The accounts of a site, in order.
    pub fn accounts_of_site(&self, site_id: i64) -> (r: Vec<&Account>)
        ensures
            r@.map_values(|a: &Account| *a) == self.accounts@.filter(|a: Account| a.site_id == site_id),
    {
        let mut r: Vec<&Account> = Vec::new();
        let mut i: usize = 0;
        while i < self.accounts.len()
            invariant
                i <= self.accounts@.len(),
                r@.map_values(|a: &Account| *a) == self.accounts@.take(i as int).filter(|a: Account| a.site_id == site_id),
            decreases self.accounts.len() - i,
        {
            let ghost t = self.accounts@.take(i + 1);
            assert(t.drop_last() =~= self.accounts@.take(i as int));
            proof {
                reveal(Seq::filter);
            }
            let ghost before = r@;
            if self.accounts[i].site_id == site_id {
                r.push(&self.accounts[i]);
                assert(r@.map_values(|a: &Account| *a) =~= before.map_values(|a: &Account| *a).push(self.accounts@[i as int]));
            }
            assert(t.last() == self.accounts@[i as int]);
            i = i + 1;
        }
        assert(self.accounts@.take(self.accounts@.len() as int) =~= self.accounts@);
        r
    }

    /// Records the outcome of an account's check-in: success or failure
    /// (with its error, `unknown` without one), counted once.
    pub fn process_result(&mut self, account_id: i64, success: bool, error: Option<String>)
        requires
            old(self).wf(),
            old(self).success_count < usize::MAX,
            old(self).fail_count < usize::MAX,
        ensures
            final(self).wf(),
            success ==> final(self).success_count == old(self).success_count + 1 && final(self).fail_count
                == old(self).fail_count && final(self).statuses() == old(self).statuses().insert(
                account_id,
                CheckInStatus::Success,
            ),
            !success ==> final(self).fail_count == old(self).fail_count + 1,
            !success ==> final(self).success_count == old(self).success_count,
            !success ==> final(self).statuses().remove(account_id) == old(self).statuses().remove(account_id),
            !success ==> final(self).statuses().contains_key(account_id) && failure_text(final(self).statuses()[account_id])
                == Some(match error {
                Some(m) => m@,
                None => "unknown"@,
            }),
            final(self).logs == old(self).logs,
            final(self).unchanged_rest(*old(self)),
    {
        if success {
            self.success_count = self.success_count + 1;
            self.set_status(account_id, CheckInStatus::Success);
        } else {
            self.fail_count = self.fail_count + 1;
            let err = match error {
                Some(m) => m,
                None => crate::config_loader::types::lit("unknown"),
            };
            let ghost e = err;
            self.set_status(account_id, CheckInStatus::Failed(err));
            assert(self.statuses().remove(account_id) =~= old(self).statuses().remove(account_id));
        }
    }

    /// Prepares a new run: counters back to zero and every recorded status idle.
    pub fn reset_for_new_run(&mut self)
        requires
            old(self).wf(),
        ensures
            final(self).wf(),
            final(self).success_count == 0,
            final(self).fail_count == 0,
            final(self).statuses().dom() == old(self).statuses().dom(),
            forall|id: i64| #[trigger] final(self).statuses().contains_key(id) ==> final(self).statuses()[id]
                == CheckInStatus::Idle,
            final(self).logs == old(self).logs,
            final(self).unchanged_rest(*old(self)),
    {
        self.success_count = 0;
        self.fail_count = 0;
        let ghost before = self.checkin_status@;
        let mut st: Vec<(i64, CheckInStatus)> = Vec::new();
        let mut i: usize = 0;
        proof {
            lemma_status_map_at(before);
        }
        while i < self.checkin_status.len()
            invariant
                i <= self.checkin_status@.len(),
                self.checkin_status@ == before,
                unique_ids(before),
                unique_ids(st@),
                st@.len() == i,
                forall|k: int| 0 <= k < i ==> (#[trigger] st@[k]).0 == before[k].0 && st@[k].1 == CheckInStatus::Idle,
            decreases self.checkin_status.len() - i,
        {
            let id = self.checkin_status[i].0;
            let ghost prev = st@;
            st.push((id, CheckInStatus::Idle));
            proof {
                assert(unique_ids(st@)) by {
                    assert forall|a: int, b: int| 0 <= a < b < st@.len() implies (#[trigger] st@[a]).0 != (#[trigger] st@[b]).0 by {
                        assert(st@[a].0 == before[a].0);
                        assert(st@[b].0 == before[b].0);
                    }
                }
            }
            i = i + 1;
        }
        proof {
            lemma_status_map_at(st@);
            assert(status_map(st@).dom() =~= status_map(before).dom()) by {
                assert forall|id: i64| status_map(st@).dom().contains(id) <==> status_map(before).dom().contains(id) by {
                    if status_map(st@).contains_key(id) {
                        let j = choose|j: int| 0 <= j < st@.len() && st@[j].0 == id;
                        assert(before[j].0 == id);
                    }
                    if status_map(before).contains_key(id) {
                        let j = choose|j: int| 0 <= j < before.len() && before[j].0 == id;
                        assert(st@[j].0 == id);
                    }
                }
            }
            assert forall|id: i64| #[trigger] status_map(st@).contains_key(id) implies status_map(st@)[id] == CheckInStatus::Idle by {
                let j = choose|j: int| 0 <= j < st@.len() && st@[j].0 == id;
            }
        }
        self.checkin_status = st;
    }

    /// Replaces the shown sites and accounts after an edit: statuses of
    /// accounts still present are kept, new accounts start idle, those of
    /// removed accounts are dropped.
    pub fn replace_data(&mut self, sites: Vec<Site>, accounts: Vec<Account>)
        requires
            old(self).wf(),
        ensures
            final(self).wf(),
            final(self).sites@ == sites@,
            final(self).accounts@ == accounts@,
            final(self).statuses() == reloaded_statuses(old(self).statuses(), accounts@),
            final(self).logs == old(self).logs,
            final(self).success_count == old(self).success_count,
            final(self).fail_count == old(self).fail_count,
    {
        let ghost old_map = self.statuses();
        let mut st: Vec<(i64, CheckInStatus)> = Vec::new();
        let mut i: usize = 0;
        while i < accounts.len()
            invariant
                i <= accounts@.len(),
                self.wf(),
                old_map == status_map(self.checkin_status@),
                unique_ids(st@),
                status_map(st@) == reloaded_statuses(old_map, accounts@.take(i as int)),
            decreases accounts.len() - i,
        {
            let id = accounts[i].id;
            let s = self.status_of(id);
            let ghost prev = st@;
            proof {
                lemma_status_map_at(st@);
            }
            match find_status(&st, id) {
                Some(_) => {},
                None => {
                    put_status(&mut st, id, s);
                },
            }
            proof {
                let t = accounts@.take(i + 1);
                assert(t.drop_last() =~= accounts@.take(i as int));
                assert(t[i as int] == accounts@[i as int]);
                assert(account_ids(t) =~= account_ids(accounts@.take(i as int)).insert(id)) by {
                    assert forall|x: i64| account_ids(t).contains(x) <==> account_ids(accounts@.take(i as int)).insert(id).contains(x) by {
                        if account_ids(t).contains(x) {
                            let j = choose|j: int| 0 <= j < t.len() && (#[trigger] t[j]).id == x;
                            if j < i {
                                assert(accounts@.take(i as int)[j] == t[j]);
                            }
                        }
                        if account_ids(accounts@.take(i as int)).contains(x) {
                            let j = choose|j: int| 0 <= j < i && (#[trigger] accounts@.take(i as int)[j]).id == x;
                            assert(t[j] == accounts@.take(i as int)[j]);
                        }
                    }
                }
                if status_map(prev).contains_key(id) {
                    assert(reloaded_statuses(old_map, accounts@.take(i as int)).contains_key(id));
                    assert(st@ == prev);
                }
                assert(status_map(st@) =~= reloaded_statuses(old_map, t));
            }
            i = i + 1;
        }
        assert(accounts@.take(accounts@.len() as int) =~= accounts@);
        self.checkin_status = st;
        self.sites = sites;
        self.accounts = accounts;
    }
}

/// The colour role of a badge or log tag in the theme.
#[derive(Debug, Clone, Copy, PartialEq, Eq, Structural)]
pub enum Tone {
    Muted,
    Info,
    Success,
    Warning,
    Danger,
}

/// The tag a log line is shown with.
pub open spec fn level_tag(l: LogLevel) -> Seq<char> {
    match l {
        LogLevel::Info => "INFO"@,
        LogLevel::Success => "OK"@,
        LogLevel::Warn => "WARN"@,
        LogLevel::Error => "ERR"@,
        LogLevel::Debug => "DBG"@,
    }
}

/// The colour of a log line's tag.
pub open spec fn level_tone(l: LogLevel) -> Tone {
    match l {
        LogLevel::Info => Tone::Info,
        LogLevel::Success => Tone::Success,
        LogLevel::Warn => Tone::Warning,
        LogLevel::Error => Tone::Danger,
        LogLevel::Debug => Tone::Muted,
    }
}

impl LogLevel {
    /// The tag of the log panel: `INFO`, `OK`, `WARN`, `ERR` or `DBG`.
    pub fn tag(&self) -> (r: String)
        ensures
            r@ == level_tag(*self),
    {
        match self {
            LogLevel::Info => owned("INFO"),
            LogLevel::Success => owned("OK"),
            LogLevel::Warn => owned("WARN"),
            LogLevel::Error => owned("ERR"),
            LogLevel::Debug => owned("DBG"),
        }
    }

    /// The colour of the tag.
    pub fn tone(&self) -> (r: Tone)
        ensures
            r == level_tone(*self),
    {
        match self {
            LogLevel::Info => Tone::Info,
            LogLevel::Success => Tone::Success,
            LogLevel::Warn => Tone::Warning,
            LogLevel::Error => Tone::Danger,
            LogLevel::Debug => Tone::Muted,
        }
    }
}

/// The colour of a check-in status badge.
pub open spec fn status_tone(s: CheckInStatus) -> Tone {
    match s {
        CheckInStatus::Idle => Tone::Muted,
        CheckInStatus::Running => Tone::Warning,
        CheckInStatus::Success => Tone::Success,
        CheckInStatus::Failed(_) => Tone::Danger,
    }
}

/// The short badge of a status in the account list dialog.
pub open spec fn status_label(s: CheckInStatus) -> Seq<char> {
    match s {
        CheckInStatus::Idle => "空闲"@,
        CheckInStatus::Running => "签到中"@,
        CheckInStatus::Success => "成功"@,
        CheckInStatus::Failed(_) => "失败"@,
    }
}

/// The badge of a status on an account card.
pub open spec fn status_card_label(s: CheckInStatus) -> Seq<char> {
    match s {
        CheckInStatus::Idle => "Idle"@,
        CheckInStatus::Running => "Running..."@,
        CheckInStatus::Success => "Success"@,
        CheckInStatus::Failed(_) => "Failed"@,
    }
}

impl CheckInStatus {
    /// The badge of the account list dialog: its text and colour.
    pub fn badge(&self) -> (r: (String, Tone))
        ensures
            r.0@ == status_label(*self),
            r.1 == status_tone(*self),
    {
        match self {
            CheckInStatus::Idle => (owned("空闲"), Tone::Muted),
            CheckInStatus::Running => (owned("签到中"), Tone::Warning),
            CheckInStatus::Success => (owned("成功"), Tone::Success),
            CheckInStatus::Failed(_) => (owned("失败"), Tone::Danger),
        }
    }

    /// The badge of an account card: its text and colour.
    pub fn card_badge(&self) -> (r: (String, Tone))
        ensures
            r.0@ == status_card_label(*self),
            r.1 == status_tone(*self),
    {
        match self {
            CheckInStatus::Idle => (owned("Idle"), Tone::Muted),
            CheckInStatus::Running => (owned("Running..."), Tone::Warning),
            CheckInStatus::Success => (owned("Success"), Tone::Success),
            CheckInStatus::Failed(_) => (owned("Failed"), Tone::Danger),
        }
    }
}

/// The cookie badge of an account row: waiting for a login without a
/// cookie, else the cookie's expiry status.
pub open spec fn cookie_badge_of(has_cookie: bool, s: CookieStatus) -> (Seq<char>, Tone) {
    if !has_cookie {
        ("待登录"@, Tone::Warning)
    } else {
        match s {
            CookieStatus::Valid => ("有效"@, Tone::Success),
            CookieStatus::ExpiringSoon => ("即将到期"@, Tone::Warning),
            CookieStatus::Expired => ("已过期"@, Tone::Danger),
            CookieStatus::Unknown => ("会话期"@, Tone::Muted),
        }
    }
}

/// The cookie badge for a known expiry status.
pub fn cookie_badge_for(has_cookie: bool, s: CookieStatus) -> (r: (String, Tone))
    ensures
        (r.0@, r.1) == cookie_badge_of(has_cookie, s),
{
    if !has_cookie {
        return (owned("待登录"), Tone::Warning);
    }
    match s {
        CookieStatus::Valid => (owned("有效"), Tone::Success),
        CookieStatus::ExpiringSoon => (owned("即将到期"), Tone::Warning),
        CookieStatus::Expired => (owned("已过期"), Tone::Danger),
        CookieStatus::Unknown => (owned("会话期"), Tone::Muted),
    }
}

/// The cookie badge of an account row, its expiry read against the clock.
pub fn cookie_badge(has_cookie: bool, expires_at: Option<&str>) -> (r: (String, Tone))
    ensures
        exists|now: Timestamp| (r.0@, r.1) == cookie_badge_of(has_cookie, #[trigger] cookie_status(text_of(expires_at), now)),
        !has_cookie ==> (r.0@, r.1) == cookie_badge_of(false, CookieStatus::Unknown),
        expires_at is None ==> (r.0@, r.1) == cookie_badge_of(has_cookie, CookieStatus::Unknown),
{
    let s = classify(expires_at);
    cookie_badge_for(has_cookie, s)
}

/// Whether a log line passes the panel's level filter (none shows all).
pub open spec fn shown_by(filter: Option<LogLevel>, e: LogEntry) -> bool {
    match filter {
        None => true,
        Some(l) => e.level == l,
    }
}

impl AppState {
    /// The log lines the panel shows under a level filter, oldest first.
    pub fn visible_logs(&self, filter: Option<LogLevel>) -> (r: Vec<&LogEntry>)
        ensures
            r@.map_values(|e: &LogEntry| *e) == self.logs@.filter(|e: LogEntry| shown_by(filter, e)),
    {
        let mut r: Vec<&LogEntry> = Vec::new();
        let mut i: usize = 0;
        while i < self.logs.len()
            invariant
                i <= self.logs@.len(),
                r@.map_values(|e: &LogEntry| *e) == self.logs@.take(i as int).filter(|e: LogEntry| shown_by(filter, e)),
            decreases self.logs.len() - i,
        {
            let ghost t = self.logs@.take(i + 1);
            assert(t.drop_last() =~= self.logs@.take(i as int));
            proof {
                reveal(Seq::filter);
            }
            let ghost before = r@;
            let keep = match filter {
                None => true,
                Some(l) => self.logs[i].level == l,
            };
            if keep {
                r.push(&self.logs[i]);
                assert(r@.map_values(|e: &LogEntry| *e) =~= before.map_values(|e: &LogEntry| *e).push(self.logs@[i as int]));
            }
            assert(t.last() == self.logs@[i as int]);
            i = i + 1;
        }
        assert(self.logs@.take(self.logs@.len() as int) =~= self.logs@);
        r
    }

    /// How many accounts of a site have no cookie yet (the site card's
    /// "needs login" count).
    pub fn accounts_needing_cookie(&self, site_id: i64) -> (r: usize)
        ensures
            r == self.accounts@.filter(|a: Account| a.site_id == site_id && a.cookies_json is None).len(),
    {
        let mut n: usize = 0;
        let mut i: usize = 0;
        while i < self.accounts.len()
            invariant
                i <= self.accounts@.len(),
                n == self.accounts@.take(i as int).filter(|a: Account| a.site_id == site_id && a.cookies_json is None).len(),
                n <= i,
            decreases self.accounts.len() - i,
        {
            let ghost t = self.accounts@.take(i + 1);
            assert(t.drop_last() =~= self.accounts@.take(i as int));
            proof {
                reveal(Seq::filter);
            }
            assert(t.last() == self.accounts@[i as int]);
            if self.accounts[i].site_id == site_id && self.accounts[i].cookies_json.is_none() {
                n = n + 1;
            }
            i = i + 1;
        }
        assert(self.accounts@.take(self.accounts@.len() as int) =~= self.accounts@);
        n
    }
}

/// `new` is `old` with one line appended, the oldest lines dropped in one
/// batch when the buffer was full.
pub open spec fn appended(old: Seq<LogEntry>, new: Seq<LogEntry>) -> bool {
    &&& new.len() > 0
    &&& old.len() < MAX_LOGS ==> new == old.push(new.last())
    &&& old.len() >= MAX_LOGS ==> new == old.skip(LOG_DROP as int).push(new.last())
}

/// Whether the last log line has this level, tag and message.
pub open spec fn last_line(logs: Seq<LogEntry>, level: LogLevel, tag: Seq<char>, message: Seq<char>) -> bool {
    &&& logs.len() > 0
    &&& logs.last().level == level
    &&& logs.last().tag@ == tag
    &&& logs.last().message@ == message
}

/// The error text of a failed check-in or login (`unknown error` without one).
pub open spec fn error_or(error: Option<String>, fallback: Seq<char>) -> Seq<char> {
    match error {
        Some(e) => e@,
        None => fallback,
    }
}

/// What a login run reports back for one account: the runner's answer
/// (its result, if it returned one: success and error) or its own failure.
pub type LoginReply = Result<Option<(bool, Option<String>)>, String>;

impl AppState {
    /// The name of an account as the run log shows it: its name, or its id
    /// when the account is unknown.
    pub open spec fn run_name(&self, id: i64) -> Seq<char> {
        let k = first_account(self.accounts@, id);
        if k < self.accounts@.len() {
            self.accounts@[k].name@
        } else {
            dec_int(id as int)
        }
    }

    /// The name of an account as the login log shows it: its name, or
    /// nothing when the account is unknown.
    pub open spec fn login_name(&self, id: i64) -> Seq<char> {
        let k = first_account(self.accounts@, id);
        if k < self.accounts@.len() {
            self.accounts@[k].name@
        } else {
            Seq::<char>::empty()
        }
    }

    fn name_or(&self, id: i64, use_id: bool) -> (r: String)
        ensures
            use_id ==> r@ == self.run_name(id),
            !use_id ==> r@ == self.login_name(id),
    {
        match self.account_by_id(id) {
            Some(a) => a.name.clone(),
            None => if use_id {
                fmt_i64(id)
            } else {
                String::new()
            },
        }
    }

    /// Starts a check-in run unless one is running: counters reset, every
    /// status idle, and a start line logged.  Returns whether it started.
    pub fn begin_run(&mut self, timestamp: String) -> (started: bool)
        requires
            old(self).wf(),
        ensures
            final(self).wf(),
            started == !old(self).is_running,
            !started ==> *final(self) == *old(self),
            started ==> {
                &&& final(self).is_running
                &&& final(self).success_count == 0
                &&& final(self).fail_count == 0
                &&& final(self).statuses().dom() == old(self).statuses().dom()
                &&& forall|id: i64| #[trigger] final(self).statuses().contains_key(id)
                    ==> final(self).statuses()[id] == CheckInStatus::Idle
                &&& appended(old(self).logs@, final(self).logs@)
                &&& last_line(final(self).logs@, LogLevel::Info, "System"@, "开始签到..."@)
                &&& final(self).accounts == old(self).accounts
            },
    {
        if self.is_running {
            return false;
        }
        self.is_running = true;
        self.reset_for_new_run();
        self.add_log(LogLevel::Info, "System", "开始签到...", timestamp);
        true
    }

    /// Ends a run that found no account to check in.
    pub fn abandon_run(&mut self, timestamp: String)
        requires
            old(self).wf(),
        ensures
            final(self).wf(),
            !final(self).is_running,
            appended(old(self).logs@, final(self).logs@),
            last_line(final(self).logs@, LogLevel::Warn, "System"@, "没有匹配的账户可签到"@),
            final(self).checkin_status == old(self).checkin_status,
            final(self).success_count == old(self).success_count,
            final(self).fail_count == old(self).fail_count,
            final(self).accounts == old(self).accounts,
    {
        self.is_running = false;
        self.add_log(LogLevel::Warn, "System", "没有匹配的账户可签到", timestamp);
    }

    /// Marks an account of the run as running.
    pub fn mark_running(&mut self, id: i64, timestamp: String)
        requires
            old(self).wf(),
        ensures
            final(self).wf(),
            final(self).statuses() == old(self).statuses().insert(id, CheckInStatus::Running),
            appended(old(self).logs@, final(self).logs@),
            last_line(final(self).logs@, LogLevel::Info, old(self).run_name(id), "签到开始"@),
            final(self).success_count == old(self).success_count,
            final(self).fail_count == old(self).fail_count,
            final(self).unchanged_rest(*old(self)),
    {
        self.set_status(id, CheckInStatus::Running);
        let name = self.name_or(id, true);
        self.add_log(LogLevel::Info, name.as_str(), "签到开始", timestamp);
    }

    /// Logs the launch of the runner for `count` accounts.
    pub fn log_launch(&mut self, count: usize, timestamp: String)
        requires
            old(self).wf(),
        ensures
            final(self).wf(),
            appended(old(self).logs@, final(self).logs@),
            last_line(final(self).logs@, LogLevel::Info, "System"@, "启动 Playwright,共 "@ + dec(count as nat) + " 个账户..."@),
            final(self).checkin_status == old(self).checkin_status,
            final(self).success_count == old(self).success_count,
            final(self).fail_count == old(self).fail_count,
            final(self).unchanged_rest(*old(self)),
    {
        let n = fmt_u64(count as u64);
        let msg = owned("启动 Playwright,共 ").concat(n.as_str()).concat(" 个账户...");
        self.add_log(LogLevel::Info, "System", msg.as_str(), timestamp);
    }

    /// The account id a result names (its name is the id in decimal); an
    /// unreadable name is logged and yields nothing.
    pub fn accept_result_name(&mut self, name: &str, timestamp: String) -> (r: Option<i64>)
        requires
            old(self).wf(),
        ensures
            final(self).wf(),
            r == i64_text(name@),
            r is Some ==> *final(self) == *old(self),
            r is None ==> appended(old(self).logs@, final(self).logs@) && last_line(
                final(self).logs@,
                LogLevel::Warn,
                "System"@,
                "收到无法识别的结果标识: "@ + name@,
            ),
            final(self).checkin_status == old(self).checkin_status,
            final(self).success_count == old(self).success_count,
            final(self).fail_count == old(self).fail_count,
            final(self).unchanged_rest(*old(self)),
    {
        let id = parse_i64(name);
        if id.is_none() {
            let msg = owned("收到无法识别的结果标识: ").concat(name);
            self.add_log(LogLevel::Warn, "System", msg.as_str(), timestamp);
        }
        id
    }

    /// Records the result the runner returned for an account: logged as a
    /// success or a failure (with its error, `unknown error` without one),
    /// then counted once.
    pub fn record_result(&mut self, id: i64, success: bool, error: Option<String>, timestamp: String)
        requires
            old(self).wf(),
            old(self).success_count < usize::MAX,
            old(self).fail_count < usize::MAX,
        ensures
            final(self).wf(),
            appended(old(self).logs@, final(self).logs@),
            success ==> last_line(final(self).logs@, LogLevel::Success, old(self).run_name(id), "签到成功"@),
            !success ==> last_line(
                final(self).logs@,
                LogLevel::Error,
                old(self).run_name(id),
                "签到失败: "@ + error_or(error, "unknown error"@),
            ),
            success ==> final(self).success_count == old(self).success_count + 1
                && final(self).fail_count == old(self).fail_count
                && final(self).statuses() == old(self).statuses().insert(id, CheckInStatus::Success),
            !success ==> final(self).fail_count == old(self).fail_count + 1
                && final(self).success_count == old(self).success_count
                && final(self).statuses().remove(id) == old(self).statuses().remove(id)
                && final(self).statuses().contains_key(id)
                && failure_text(final(self).statuses()[id]) == Some(error_or(error, "unknown"@)),
            final(self).unchanged_rest(*old(self)),
    {
        let name = self.name_or(id, true);
        if success {
            self.add_log(LogLevel::Success, name.as_str(), "签到成功", timestamp);
        } else {
            let e = match &error {
                Some(e) => e.clone(),
                None => owned("unknown error"),
            };
            let msg = owned("签到失败: ").concat(e.as_str());
            self.add_log(LogLevel::Error, name.as_str(), msg.as_str(), timestamp);
        }
        let ghost logs = self.logs;
        self.process_result(id, success, error);
        assert(self.logs == logs);
    }

    /// Records that the runner returned no result for an account: a failure
    /// without result, counted once.
    pub fn record_missing_result(&mut self, id: i64, timestamp: String)
        requires
            old(self).wf(),
            old(self).fail_count < usize::MAX,
        ensures
            final(self).wf(),
            appended(old(self).logs@, final(self).logs@),
            last_line(final(self).logs@, LogLevel::Error, old(self).run_name(id), "签到器未返回结果"@),
            final(self).statuses().remove(id) == old(self).statuses().remove(id),
            final(self).statuses().contains_key(id),
            failure_text(final(self).statuses()[id]) == Some("无结果"@),
            final(self).fail_count == old(self).fail_count + 1,
            final(self).success_count == old(self).success_count,
            final(self).unchanged_rest(*old(self)),
    {
        let name = self.name_or(id, true);
        self.add_log(LogLevel::Error, name.as_str(), "签到器未返回结果", timestamp);
        self.set_status(id, CheckInStatus::Failed(owned("无结果")));
        assert(self.statuses().remove(id) =~= old(self).statuses().remove(id));
        self.fail_count = self.fail_count + 1;
    }

    /// Records that the runner itself failed: every dispatched account fails
    /// with its error, each counted once.
    pub fn record_run_error(&mut self, ids: &Vec<i64>, error: &str, timestamp: String)
        requires
            old(self).wf(),
            old(self).fail_count + ids@.len() <= usize::MAX,
        ensures
            final(self).wf(),
            appended(old(self).logs@, final(self).logs@),
            last_line(final(self).logs@, LogLevel::Error, "System"@, "Playwright 运行失败: "@ + error@),
            final(self).fail_count == old(self).fail_count + ids@.len(),
            final(self).success_count == old(self).success_count,
            forall|id: i64| #[trigger] final(self).statuses().contains_key(id) && !ids@.contains(id)
                ==> old(self).statuses().contains_key(id) && final(self).statuses()[id] == old(self).statuses()[id],
            forall|id: i64| !ids@.contains(id) && #[trigger] old(self).statuses().contains_key(id)
                ==> final(self).statuses().contains_key(id),
            forall|k: int| 0 <= k < ids@.len() ==> final(self).statuses().contains_key(#[trigger] ids@[k])
                && failure_text(final(self).statuses()[ids@[k]]) == Some(error@),
            final(self).unchanged_rest(*old(self)),
    {
        let msg = owned("Playwright 运行失败: ").concat(error);
        self.add_log(LogLevel::Error, "System", msg.as_str(), timestamp);
        let ghost logs = self.logs;
        let ghost base = self.statuses();
        let mut i: usize = 0;
        while i < ids.len()
            invariant
                i <= ids@.len(),
                self.wf(),
                self.logs == logs,
                self.fail_count == old(self).fail_count + i,
                old(self).fail_count + ids@.len() <= usize::MAX,
                self.success_count == old(self).success_count,
                self.unchanged_rest(*old(self)),
                base == old(self).statuses(),
                forall|id: i64| #[trigger] self.statuses().contains_key(id) && !ids@.take(i as int).contains(id)
                    ==> base.contains_key(id) && self.statuses()[id] == base[id],
                forall|id: i64| !ids@.take(i as int).contains(id) && #[trigger] base.contains_key(id)
                    ==> self.statuses().contains_key(id),
                forall|k: int| 0 <= k < i ==> self.statuses().contains_key(#[trigger] ids@[k])
                    && failure_text(self.statuses()[ids@[k]]) == Some(error@),
            decreases ids.len() - i,
        {
            let id = ids[i];
            self.set_status(id, CheckInStatus::Failed(owned(error)));
            self.fail_count = self.fail_count + 1;
            proof {
                let t = ids@.take(i + 1);
                assert(t =~= ids@.take(i as int).push(id));
                assert forall|x: i64| #[trigger] ids@.take(i as int).contains(x) implies t.contains(x) by {
                    let j = choose|j: int| 0 <= j < i && ids@.take(i as int)[j] == x;
                    assert(t[j] == x);
                }
                assert(t.contains(id)) by {
                    assert(t[i as int] == id);
                }
                assert forall|x: i64| t.contains(x) implies x == id || ids@.take(i as int).contains(x) by {
                    let j = choose|j: int| 0 <= j < t.len() && t[j] == x;
                    if j < i {
                        assert(ids@.take(i as int)[j] == x);
                    }
                }
            }
            i = i + 1;
        }
        assert(ids@.take(ids@.len() as int) =~= ids@);
    }

    /// Ends a run: logged with its success and failure counts.
    pub fn finish_run(&mut self, timestamp: String)
        requires
            old(self).wf(),
        ensures
            final(self).wf(),
            !final(self).is_running,
            appended(old(self).logs@, final(self).logs@),
            last_line(
                final(self).logs@,
                LogLevel::Info,
                "System"@,
                "签到完成:成功 "@ + dec(old(self).success_count as nat) + ",失败 "@ + dec(old(self).fail_count as nat),
            ),
            final(self).checkin_status == old(self).checkin_status,
            final(self).success_count == old(self).success_count,
            final(self).fail_count == old(self).fail_count,
            final(self).accounts == old(self).accounts,
    {
        self.is_running = false;
        let s = fmt_u64(self.success_count as u64);
        let f = fmt_u64(self.fail_count as u64);
        let msg = owned("签到完成:成功 ").concat(s.as_str()).concat(",失败 ").concat(f.as_str());
        self.add_log(LogLevel::Info, "System", msg.as_str(), timestamp);
    }

    /// Whether a login can be dispatched for an account: it exists, has both
    /// user name and password, and its site is known.
    pub open spec fn login_ready_spec(&self, id: i64) -> bool {
        let k = first_account(self.accounts@, id);
        &&& k < self.accounts@.len()
        &&& self.accounts@[k].username is Some
        &&& self.accounts@[k].password is Some
        &&& first_site(self.sites@, self.accounts@[k].site_id) < self.sites@.len()
    }

    /// Whether a login can be dispatched for an account (see `login_ready_spec`).
    pub fn login_ready(&self, id: i64) -> (r: bool)
        ensures
            r == self.login_ready_spec(id),
    {
        match self.account_by_id(id) {
            None => false,
            Some(a) => a.username.is_some() && a.password.is_some() && self.site_by_id(a.site_id).is_some(),
        }
    }

    /// Starts a login: the account is running and the attempt logged.
    pub fn begin_login(&mut self, id: i64, timestamp: String)
        requires
            old(self).wf(),
        ensures
            final(self).wf(),
            final(self).statuses() == old(self).statuses().insert(id, CheckInStatus::Running),
            appended(old(self).logs@, final(self).logs@),
            last_line(final(self).logs@, LogLevel::Info, old(self).login_name(id), "账密登录中..."@),
            final(self).success_count == old(self).success_count,
            final(self).fail_count == old(self).fail_count,
            final(self).unchanged_rest(*old(self)),
    {
        self.set_status(id, CheckInStatus::Running);
        let name = self.name_or(id, false);
        self.add_log(LogLevel::Info, name.as_str(), "账密登录中...", timestamp);
    }

    /// A login that cannot be dispatched (see `login_ready`) fails for want
    /// of credentials.
    pub fn refuse_login(&mut self, id: i64, timestamp: String)
        requires
            old(self).wf(),
        ensures
            final(self).wf(),
            final(self).statuses().remove(id) == old(self).statuses().remove(id),
            final(self).statuses().contains_key(id),
            failure_text(final(self).statuses()[id]) == Some("缺少账号密码"@),
            appended(old(self).logs@, final(self).logs@),
            last_line(final(self).logs@, LogLevel::Error, old(self).login_name(id), "账密登录需要先填写用户名和密码"@),
            final(self).success_count == old(self).success_count,
            final(self).fail_count == old(self).fail_count,
            final(self).unchanged_rest(*old(self)),
    {
        self.set_status(id, CheckInStatus::Failed(owned("缺少账号密码")));
        assert(self.statuses().remove(id) =~= old(self).statuses().remove(id));
        let name = self.name_or(id, false);
        self.add_log(LogLevel::Error, name.as_str(), "账密登录需要先填写用户名和密码", timestamp);
    }

    /// Records how a login ended: success (the cookies are stored at the
    /// edge), a failure with its error (`登录失败` without one), no result, or
    /// a failure of the runner itself.  Logins are not counted.
    pub fn record_login(&mut self, id: i64, reply: LoginReply, timestamp: String)
        requires
            old(self).wf(),
        ensures
            final(self).wf(),
            appended(old(self).logs@, final(self).logs@),
            final(self).statuses().remove(id) == old(self).statuses().remove(id),
            final(self).statuses().contains_key(id),
            match reply {
                Ok(Some((true, _))) => final(self).statuses()[id] == CheckInStatus::Success && last_line(
                    final(self).logs@,
                    LogLevel::Success,
                    old(self).login_name(id),
                    "账密登录成功,已更新 Cookie"@,
                ),
                Ok(Some((false, e))) => failure_text(final(self).statuses()[id]) == Some(error_or(e, "登录失败"@))
                    && last_line(
                    final(self).logs@,
                    LogLevel::Error,
                    old(self).login_name(id),
                    "账密登录失败: "@ + error_or(e, "登录失败"@),
                ),
                Ok(None) => failure_text(final(self).statuses()[id]) == Some("无结果"@) && last_line(
                    final(self).logs@,
                    LogLevel::Error,
                    old(self).login_name(id),
                    "登录器未返回结果"@,
                ),
                Err(e) => failure_text(final(self).statuses()[id]) == Some(e@) && last_line(
                    final(self).logs@,
                    LogLevel::Error,
                    old(self).login_name(id),
                    "登录器运行失败: "@ + e@,
                ),
            },
            final(self).success_count == old(self).success_count,
            final(self).fail_count == old(self).fail_count,
            final(self).unchanged_rest(*old(self)),
    {
        let name = self.name_or(id, false);
        match reply {
            Ok(Some((true, _))) => {
                self.set_status(id, CheckInStatus::Success);
                self.add_log(LogLevel::Success, name.as_str(), "账密登录成功,已更新 Cookie", timestamp);
            },
            Ok(Some((false, e))) => {
                let err = match e {
                    Some(m) => m,
                    None => owned("登录失败"),
                };
                let msg = owned("账密登录失败: ").concat(err.as_str());
                self.set_status(id, CheckInStatus::Failed(err));
                self.add_log(LogLevel::Error, name.as_str(), msg.as_str(), timestamp);
            },
            Ok(None) => {
                self.set_status(id, CheckInStatus::Failed(owned("无结果")));
                self.add_log(LogLevel::Error, name.as_str(), "登录器未返回结果", timestamp);
            },
            Err(e) => {
                let msg = owned("登录器运行失败: ").concat(e.as_str());
                self.set_status(id, CheckInStatus::Failed(e));
                self.add_log(LogLevel::Error, name.as_str(), msg.as_str(), timestamp);
            },
        }
        assert(self.statuses().remove(id) =~= old(self).statuses().remove(id));
    }
}

/// Once every recorded status is idle (as after `reset_for_new_run`), every
/// account reads as idle through `status_of`, recorded or not.
pub proof fn law_idle_after_reset(m: Map<i64, CheckInStatus>, id: i64)
    requires
        forall|k: i64| #[trigger] m.contains_key(k) ==> m[k] == CheckInStatus::Idle,
    ensures
        status_spec(m, id) == CheckInStatus::Idle,
{
}

} // verus!
