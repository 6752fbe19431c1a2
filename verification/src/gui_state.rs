//! Navigation state of the second desktop front end: which page is shown,
//! which dialog is open and what a delete confirmation is about.
use vstd::prelude::*;
use crate::models::Account;
use crate::config_loader::source::{SourceKind, kind_name, parse_kind, law_parse_inverts_as_str};
use crate::cli_args::{kinds_of, kinds_in};
use crate::text::{join, join_strings, views};
use crate::text::{seq_lt, split_on, dec, owned, str_lt, split_pieces, fmt_u64, lemma_split_nonempty};

verus! {

/// The main page.
#[derive(Debug, Clone, PartialEq, Eq, Structural)]
pub enum ViewKind {
    Home,
    /// Detail page of an account (by id).
    AccountDetail(i64),
}

/// What a delete confirmation is about.
#[derive(Debug, Clone)]
pub enum DeleteTarget {
    Site { id: i64, name: String, account_count: usize },
    Account { id: i64, name: String },
}

/// The dialog shown over the page.
#[derive(Debug, Clone)]
pub enum ModalKind {
    /// The accounts of a site.
    AccountList(i64),
    /// Creating (no id) or editing a site.
    SiteForm(Option<i64>),
    /// Creating (no account id) or editing an account of a site.
    AccountForm { site_id: i64, account_id: Option<i64> },
    ConfirmDelete(DeleteTarget),
}

/// Level of a log line.
#[derive(Debug, Clone, Copy, PartialEq, Eq, Structural)]
pub enum LogLevel {
    Info,
    Success,
    Warning,
    Error,
}


/// The cookie line of an account in a site's account list: with an issue
/// time and an expiry, the expiry (RFC 3339 text) compared as text with the
/// current instant's text gives "expired" or the expiry date (the text
/// before its `T`); with an issue time but no expiry, the expiry is unknown;
/// without an issue time there is no cookie.
pub open spec fn cookie_line_text(issued: Option<Seq<char>>, expires: Option<Seq<char>>, now: Seq<char>) -> Seq<char> {
    match issued {
        None => "无 Cookie"@,
        Some(_) => match expires {
            None => "Cookie（有效期未知）"@,
            Some(exp) => if seq_lt(exp, now) {
                "⚠ Cookie 已过期"@
            } else {
                "Cookie 至 "@ + split_on(exp, 'T')[0]
            },
        },
    }
}

/// The view of an optional text.
pub open spec fn opt_view(o: Option<String>) -> Option<Seq<char>> {
    match o {
        Some(s) => Some(s@),
        None => None,
    }
}

/// The cookie line of an account, given the current instant as RFC 3339 text.
pub fn cookie_line(account: &Account, now: &str) -> (r: String)
    ensures
        r@ == cookie_line_text(opt_view(account.cookie_issued_at), opt_view(account.cookie_expires_at), now@),
{
    match &account.cookie_issued_at {
        None => owned("无 Cookie"),
        Some(_) => match &account.cookie_expires_at {
            None => owned("Cookie（有效期未知）"),
            Some(exp) => {
                if str_lt(exp.as_str(), now) {
                    owned("⚠ Cookie 已过期")
                } else {
                    let parts = split_pieces(exp.as_str(), 'T');
                    proof {
                        lemma_split_nonempty(exp@, 'T');
                    }
                    owned("Cookie 至 ").concat(parts[0].as_str())
                }
            },
        },
    }
}

/// `chrono::Utc::now().to_rfc3339()`: the current instant as text; it
/// depends on the clock, so nothing is promised of it.
#[verifier::external_body]
fn utc_now_text() -> (r: String) {
    chrono::Utc::now().to_rfc3339()
}

/// The cookie line of an account against the clock's current instant.
pub fn cookie_line_now(account: &Account) -> (r: String)
    ensures
        exists|now: Seq<char>| r@ == cookie_line_text(opt_view(account.cookie_issued_at), opt_view(account.cookie_expires_at), now),
        account.cookie_issued_at is None ==> r@ == "无 Cookie"@,
        account.cookie_issued_at is Some && account.cookie_expires_at is None ==> r@ == "Cookie（有效期未知）"@,
{
    let now = utc_now_text();
    cookie_line(account, now.as_str())
}

/// The account count on a site card, with the number of expired cookies
/// where there are any.
pub open spec fn accounts_label_text(accounts: nat, expired: nat) -> Seq<char> {
    if expired > 0 {
        "账户："@ + dec(accounts) + " 个（"@ + dec(expired) + " 个 Cookie 过期 ⚠）"@
    } else {
        "账户："@ + dec(accounts) + " 个"@
    }
}

/// The account count line of a site card.
pub fn accounts_label(account_count: usize, expired_count: usize) -> (r: String)
    ensures
        r@ == accounts_label_text(account_count as nat, expired_count as nat),
{
    let n = fmt_u64(account_count as u64);
    let head = owned("账户：").concat(n.as_str());
    if expired_count > 0 {
        let e = fmt_u64(expired_count as u64);
        head.concat(" 个（").concat(e.as_str()).concat(" 个 Cookie 过期 ⚠）")
    } else {
        head.concat(" 个")
    }
}


/// The question a delete confirmation asks.
pub open spec fn delete_prompt_text(t: DeleteTarget) -> Seq<char> {
    match t {
        DeleteTarget::Site { name, account_count, .. } => "确定删除站点「"@ + name@ + "」？将同时删除其下 "@
            + dec(account_count as nat) + " 个账户及全部缓存数据，此操作不可恢复。"@,
        DeleteTarget::Account { name, .. } => "确定删除账户「"@ + name@ + "」？此操作不可恢复。"@,
    }
}

/// The log line after a confirmed delete succeeded.
pub open spec fn deleted_text(t: DeleteTarget) -> Seq<char> {
    match t {
        DeleteTarget::Site { name, .. } => "已删除站点「"@ + name@ + "」"@,
        DeleteTarget::Account { name, .. } => "已删除账户「"@ + name@ + "」"@,
    }
}

impl DeleteTarget {
    /// The question of the confirmation dialog.
    pub fn prompt(&self) -> (r: String)
        ensures
            r@ == delete_prompt_text(*self),
    {
        match self {
            DeleteTarget::Site { name, account_count, .. } => {
                let n = fmt_u64(*account_count as u64);
                owned("确定删除站点「").concat(name.as_str()).concat("」？将同时删除其下 ").concat(n.as_str()).concat(
                    " 个账户及全部缓存数据，此操作不可恢复。",
                )
            },
            DeleteTarget::Account { name, .. } => owned("确定删除账户「").concat(name.as_str()).concat("」？此操作不可恢复。"),
        }
    }

    /// The log line once the delete went through.
    pub fn done_message(&self) -> (r: String)
        ensures
            r@ == deleted_text(*self),
    {
        match self {
            DeleteTarget::Site { name, .. } => owned("已删除站点「").concat(name.as_str()).concat("」"),
            DeleteTarget::Account { name, .. } => owned("已删除账户「").concat(name.as_str()).concat("」"),
        }
    }
}

/// The log line after a site was saved: updated when editing, else created.
pub fn site_saved_message(editing: bool, name: &str) -> (r: String)
    ensures
        r@ == (if editing { "已更新站点「"@ } else { "已新建站点「"@ }) + name@ + "」"@,
{
    let head = if editing { owned("已更新站点「") } else { owned("已新建站点「") };
    head.concat(name).concat("」")
}

/// The log line after an account was saved: updated when editing, else added.
pub fn account_saved_message(editing: bool, name: &str) -> (r: String)
    ensures
        r@ == (if editing { "已更新账户「"@ } else { "已新增账户「"@ }) + name@ + "」"@,
{
    let head = if editing { owned("已更新账户「") } else { owned("已新增账户「") };
    head.concat(name).concat("」")
}


/// The tallies of a background check-in over all sites, and the log lines
/// it sends.  Balances are formatted by the caller.
pub struct RunTally {
    pub success: usize,
    pub fail: usize,
}

/// `[site] ` in front of a per-site line.
pub open spec fn site_tag(site: Seq<char>) -> Seq<char> {
    "["@ + site + "] "@
}

impl RunTally {
    /// No account processed yet.
    pub fn new() -> (r: Self)
        ensures
            r.success == 0,
            r.fail == 0,
    {
        RunTally { success: 0, fail: 0 }
    }

    /// A site without accounts is skipped.
    pub fn site_skipped(site: &str) -> (r: (LogLevel, String))
        ensures
            r.0 == LogLevel::Info,
            r.1@ == site_tag(site@) + "该站点暂无账户，跳过"@,
    {
        (LogLevel::Info, owned("[").concat(site).concat("] ").concat("该站点暂无账户，跳过"))
    }

    /// The accounts of a site could not be read.
    pub fn site_unreadable(site: &str, error: &str) -> (r: (LogLevel, String))
        ensures
            r.0 == LogLevel::Error,
            r.1@ == site_tag(site@) + "读取账户失败: "@ + error@,
    {
        (LogLevel::Error, owned("[").concat(site).concat("] ").concat("读取账户失败: ").concat(error))
    }

    /// A site's accounts are handed to the runner.
    pub fn site_started(site: &str, accounts: usize) -> (r: (LogLevel, String))
        ensures
            r.0 == LogLevel::Info,
            r.1@ == site_tag(site@) + "开始签到 "@ + dec(accounts as nat) + " 个账户…"@,
    {
        let n = fmt_u64(accounts as u64);
        (LogLevel::Info, owned("[").concat(site).concat("] ").concat("开始签到 ").concat(n.as_str()).concat(" 个账户…"))
    }

    /// Counts one account's result; a success carries `balance_note` (the
    /// balance after the check-in as shown, or nothing), a failure its error
    /// (`未知错误` without one).
    pub fn record(&mut self, site: &str, account: &str, success: bool, error: Option<String>, balance_note: &str) -> (r: (
        LogLevel,
        String,
    ))
        requires
            old(self).success < usize::MAX,
            old(self).fail < usize::MAX,
        ensures
            success ==> final(self).success == old(self).success + 1 && final(self).fail == old(self).fail
                && r.0 == LogLevel::Success && r.1@ == site_tag(site@) + account@ + " 签到成功"@ + balance_note@,
            !success ==> final(self).fail == old(self).fail + 1 && final(self).success == old(self).success
                && r.0 == LogLevel::Error && r.1@ == site_tag(site@) + account@ + " 签到失败："@ + match error {
                Some(e) => e@,
                None => "未知错误"@,
            },
    {
        let head = owned("[").concat(site).concat("] ").concat(account);
        if success {
            self.success = self.success + 1;
            (LogLevel::Success, head.concat(" 签到成功").concat(balance_note))
        } else {
            self.fail = self.fail + 1;
            let e = match error {
                Some(e) => e,
                None => owned("未知错误"),
            };
            (LogLevel::Error, head.concat(" 签到失败：").concat(e.as_str()))
        }
    }

    /// The runner failed for a site: all its accounts count as failed.
    pub fn site_failed(&mut self, site: &str, error: &str, accounts: usize) -> (r: (LogLevel, String))
        requires
            old(self).fail + accounts <= usize::MAX,
        ensures
            final(self).fail == old(self).fail + accounts,
            final(self).success == old(self).success,
            r.0 == LogLevel::Error,
            r.1@ == site_tag(site@) + "调用 Playwright 失败: "@ + error@,
    {
        self.fail = self.fail + accounts;
        (LogLevel::Error, owned("[").concat(site).concat("] ").concat("调用 Playwright 失败: ").concat(error))
    }

    /// The closing line with both counts.
    pub fn summary(&self) -> (r: (LogLevel, String))
        ensures
            r.0 == LogLevel::Info,
            r.1@ == "签到完成：成功 "@ + dec(self.success as nat) + " / 失败 "@ + dec(self.fail as nat),
    {
        let s = fmt_u64(self.success as u64);
        let f = fmt_u64(self.fail as u64);
        (LogLevel::Info, owned("签到完成：成功 ").concat(s.as_str()).concat(" / 失败 ").concat(f.as_str()))
    }
}


/// The tag a line of the log drawer starts with.
pub open spec fn drawer_tag(l: LogLevel) -> Seq<char> {
    match l {
        LogLevel::Info => "[INFO]"@,
        LogLevel::Success => "[OK]"@,
        LogLevel::Warning => "[WARN]"@,
        LogLevel::Error => "[ERR]"@,
    }
}

impl LogLevel {
    /// The tag of the log drawer: `[INFO]`, `[OK]`, `[WARN]` or `[ERR]`.
    pub fn tag(&self) -> (r: String)
        ensures
            r@ == drawer_tag(*self),
    {
        match self {
            LogLevel::Info => owned("[INFO]"),
            LogLevel::Success => owned("[OK]"),
            LogLevel::Warning => owned("[WARN]"),
            LogLevel::Error => owned("[ERR]"),
        }
    }
}


/// The sources ticked in the settings dialog, in merge order (environment,
/// file, database).
pub open spec fn enabled_sources(env: bool, file: bool, sqlite: bool) -> Seq<SourceKind> {
    let a = if env { seq![SourceKind::Env] } else { Seq::<SourceKind>::empty() };
    let b = if file { a.push(SourceKind::File) } else { a };
    if sqlite { b.push(SourceKind::Sqlite) } else { b }
}

/// The names of some sources.
pub open spec fn source_names(ks: Seq<SourceKind>) -> Seq<Seq<char>> {
    ks.map_values(|k: SourceKind| kind_name(k))
}

/// What the settings dialog stores for its ticks: the names of the ticked
/// sources joined by commas, or nothing when none is ticked (the dialog
/// refuses to save then).
pub fn sources_setting(env: bool, file: bool, sqlite: bool) -> (r: Option<String>)
    ensures
        r is None <==> enabled_sources(env, file, sqlite).len() == 0,
        r matches Some(v) ==> v@ == join(source_names(enabled_sources(env, file, sqlite)), ","@),
{
    let mut names: Vec<String> = Vec::new();
    let ghost ks: Seq<SourceKind> = Seq::empty();
    if env {
        names.push(owned(SourceKind::Env.as_str()));
        proof { ks = ks.push(SourceKind::Env); }
    }
    if file {
        names.push(owned(SourceKind::File.as_str()));
        proof { ks = ks.push(SourceKind::File); }
    }
    if sqlite {
        names.push(owned(SourceKind::Sqlite.as_str()));
        proof { ks = ks.push(SourceKind::Sqlite); }
    }
    assert(ks =~= enabled_sources(env, file, sqlite));
    assert(views(names@) =~= source_names(ks));
    if names.len() == 0 {
        None
    } else {
        Some(join_strings(&names, ","))
    }
}

/// The line logged after the sources were saved.
pub fn sources_saved_message(setting: &str) -> (r: String)
    ensures
        r@ == "数据源已更新: ["@ + setting@ + "]（重启后完全生效）"@,
{
    owned("数据源已更新: [").concat(setting).concat("]（重启后完全生效）")
}

/// Every source, in merge order.
pub open spec fn all_sources() -> Seq<SourceKind> {
    seq![SourceKind::Env, SourceKind::File, SourceKind::Sqlite]
}

/// The sources a stored setting enables: those it names (separated by
/// commas, unknown names ignored), or all of them when nothing is stored or
/// it names none.
pub open spec fn stored_sources_spec(setting: Option<Seq<char>>) -> Seq<SourceKind> {
    match setting {
        None => all_sources(),
        Some(v) => {
            let l = kinds_of(split_on(v, ','));
            if l.len() == 0 {
                all_sources()
            } else {
                l
            }
        },
    }
}

/// The sources enabled by the stored setting (see `stored_sources_spec`).
pub fn stored_sources(setting: Option<String>) -> (r: Vec<SourceKind>)
    ensures
        r@ == stored_sources_spec(opt_view(setting)),
{
    let all = vec![SourceKind::Env, SourceKind::File, SourceKind::Sqlite];
    assert(all@ =~= all_sources());
    match setting {
        None => all,
        Some(v) => {
            let l = kinds_in(&v);
            if l.len() == 0 {
                all
            } else {
                l
            }
        },
    }
}

/// Splitting text with no separator in it gives the text itself, and text
/// appended without a separator extends the last piece.
proof fn lemma_split_extend(x: Seq<char>, y: Seq<char>, sep: char)
    requires
        !y.contains(sep),
    ensures
        split_on(x + y, sep) == split_on(x, sep).update(
            split_on(x, sep).len() - 1,
            split_on(x, sep).last() + y,
        ),
    decreases y.len(),
{
    lemma_split_nonempty(x, sep);
    if y.len() == 0 {
        assert(x + y =~= x);
        assert(split_on(x, sep).last() + y =~= split_on(x, sep).last());
        assert(split_on(x, sep).update(split_on(x, sep).len() - 1, split_on(x, sep).last()) =~= split_on(x, sep));
    } else {
        let z = y.drop_last();
        assert(!z.contains(sep)) by {
            if z.contains(sep) {
                let i = choose|i: int| 0 <= i < z.len() && z[i] == sep;
                assert(y[i] == sep);
            }
        }
        lemma_split_extend(x, z, sep);
        assert((x + y).drop_last() =~= x + z);
        assert((x + y).last() == y.last());
        assert(y.last() != sep) by {
            assert(y[y.len() - 1] == y.last());
        }
        let r = split_on(x + z, sep);
        let q = split_on(x, sep);
        assert(r.len() == q.len());
        assert(r.last() == q.last() + z);
        assert(r.update(r.len() - 1, r.last().push(y.last())) =~= q.update(q.len() - 1, q.last() + y)) by {
            assert(q.last() + z + seq![y.last()] =~= q.last() + y);
            assert((q.last() + z).push(y.last()) =~= q.last() + y);
        }
    }
}

/// Joining pieces without the separator and splitting them again gives the
/// pieces back.
proof fn lemma_split_join(parts: Seq<Seq<char>>, sep: char)
    requires
        parts.len() > 0,
        forall|i: int| 0 <= i < parts.len() ==> !(#[trigger] parts[i]).contains(sep),
    ensures
        split_on(join(parts, seq![sep]), sep) == parts,
    decreases parts.len(),
{
    if parts.len() == 1 {
        lemma_split_extend(Seq::<char>::empty(), parts[0], sep);
        assert(Seq::<char>::empty() + parts[0] =~= parts[0]);
        assert(Seq::<char>::empty() + parts[0] =~= parts[0]);
        assert(split_on(Seq::<char>::empty(), sep) =~= seq![Seq::<char>::empty()]);
        assert(seq![Seq::<char>::empty()].update(0, Seq::<char>::empty() + parts[0]) =~= parts);
    } else {
        let init = parts.drop_last();
        assert forall|i: int| 0 <= i < init.len() implies !(#[trigger] init[i]).contains(sep) by {
            assert(init[i] == parts[i]);
        }
        lemma_split_join(init, sep);
        let a = join(init, seq![sep]) + seq![sep];
        assert(a.drop_last() =~= join(init, seq![sep]));
        assert(a.last() == sep);
        assert(!parts.last().contains(sep)) by {
            assert(parts[parts.len() - 1] == parts.last());
        }
        lemma_split_extend(a, parts.last(), sep);
        assert(join(parts, seq![sep]) == a + parts.last());
        let q = split_on(a, sep);
        assert(q == init.push(Seq::<char>::empty()));
        assert(q.update(q.len() - 1, q.last() + parts.last()) =~= parts) by {
            assert(Seq::<char>::empty() + parts.last() =~= parts.last());
        }
    }
}

proof fn lemma_kinds_of_names(ks: Seq<SourceKind>)
    ensures
        kinds_of(source_names(ks)) == ks,
    decreases ks.len(),
{
    if ks.len() > 0 {
        lemma_kinds_of_names(ks.drop_last());
        assert(source_names(ks).drop_last() =~= source_names(ks.drop_last()));
        law_parse_inverts_as_str(ks.last());
        assert(source_names(ks).last() == kind_name(ks.last()));
        assert(ks.drop_last().push(ks.last()) =~= ks);
    } else {
        assert(source_names(ks).len() == 0);
    }
}

/// What the settings dialog stores is read back as the same selection of
/// sources, in the same order.
pub proof fn law_settings_read_back(env: bool, file: bool, sqlite: bool)
    requires
        env || file || sqlite,
    ensures
        stored_sources_spec(Some(join(source_names(enabled_sources(env, file, sqlite)), ","@)))
            == enabled_sources(env, file, sqlite),
{
    reveal_strlit(",");
    reveal_strlit("env");
    reveal_strlit("file");
    reveal_strlit("sqlite");
    let ks = enabled_sources(env, file, sqlite);
    let names = source_names(ks);
    assert(","@ =~= seq![',']);
    assert forall|i: int| 0 <= i < names.len() implies !(#[trigger] names[i]).contains(',') by {
        let k = ks[i];
        assert(names[i] == kind_name(k));
        if names[i].contains(',') {
            let j = choose|j: int| 0 <= j < names[i].len() && names[i][j] == ',';
            match k {
                SourceKind::Env => assert("env"@[j] != ','),
                SourceKind::File => assert("file"@[j] != ','),
                SourceKind::Sqlite => assert("sqlite"@[j] != ','),
            }
        }
    }
    lemma_split_join(names, ',');
    lemma_kinds_of_names(ks);
}


/// The site name heading an account list: the site's name, "未知站点" when
/// the site is not found, "未连接" when there is no database.
pub open spec fn account_list_title_text(connected: bool, site_name: Option<Seq<char>>) -> Seq<char> {
    if !connected {
        "未连接"@
    } else {
        match site_name {
            Some(n) => n,
            None => "未知站点"@,
        }
    }
}

/// The site name heading an account list (see `account_list_title_text`).
pub fn account_list_title(connected: bool, site_name: Option<String>) -> (r: String)
    ensures
        r@ == account_list_title_text(connected, opt_view(site_name)),
{
    if !connected {
        owned("未连接")
    } else {
        match site_name {
            Some(n) => n,
            None => owned("未知站点"),
        }
    }
}

} // verus!
