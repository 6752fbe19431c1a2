//! Provider (site) and account configuration of the check-in runner, and
//! the validation of accounts.
use vstd::prelude::*;
use crate::text::{trim, join, dec, trim_str, str_eq, fmt_u64, owned, split_on, count_containing, count_pieces_containing};
use crate::config_loader::types::{lit, copy_opt};

verus! {

/// A provider (site).
#[derive(Debug, Clone)]
pub struct ProviderConfig {
    /// The provider's name, matched by the `provider` field of accounts.
    pub name: String,
    /// The site's domain, with scheme.
    pub domain: String,
    pub login_path: String,
    /// `Some(path)`: check-in needs a call to `path`; `None`: visiting signs in.
    pub sign_in_path: Option<String>,
    pub user_info_path: String,
    pub api_user_key: String,
}

impl ProviderConfig {
    /// A field-for-field copy.
    pub fn copy(&self) -> (r: Self)
        ensures
            r == *self,
    {
        ProviderConfig {
            name: self.name.clone(),
            domain: self.domain.clone(),
            login_path: self.login_path.clone(),
            sign_in_path: copy_opt(&self.sign_in_path),
            user_info_path: self.user_info_path.clone(),
            api_user_key: self.api_user_key.clone(),
        }
    }

    pub fn needs_manual_check_in(&self) -> (r: bool)
        ensures
            r == self.sign_in_path.is_some(),
    {
        self.sign_in_path.is_some()
    }
}

/// The provider registered under `name` in `entries`, the last registration winning.
pub open spec fn lookup_provider(entries: Seq<(String, ProviderConfig)>, name: Seq<char>) -> Option<ProviderConfig>
    decreases entries.len(),
{
    if entries.len() == 0 {
        None
    } else if entries.last().0@ == name {
        Some(entries.last().1)
    } else {
        lookup_provider(entries.drop_last(), name)
    }
}

/// No name is registered twice.
pub open spec fn unique_names(entries: Seq<(String, ProviderConfig)>) -> bool {
    forall|i: int, j: int| 0 <= i < j < entries.len() ==> (#[trigger] entries[i]).0@ != (#[trigger] entries[j]).0@
}

/// The application configuration: providers by name.
#[derive(Debug, Clone)]
pub struct AppConfig {
    pub providers: Vec<(String, ProviderConfig)>,
}

proof fn lemma_lookup_at(entries: Seq<(String, ProviderConfig)>, name: Seq<char>)
    requires
        unique_names(entries),
    ensures
        forall|i: int| 0 <= i < entries.len() && (#[trigger] entries[i]).0@ == name ==> lookup_provider(entries, name) == Some(entries[i].1),
        (forall|i: int| 0 <= i < entries.len() ==> (#[trigger] entries[i]).0@ != name) ==> lookup_provider(entries, name) is None,
    decreases entries.len(),
{
    if entries.len() > 0 {
        let d = entries.drop_last();
        assert(unique_names(d)) by {
            assert forall|i: int, j: int| 0 <= i < j < d.len() implies (#[trigger] d[i]).0@ != (#[trigger] d[j]).0@ by {
                assert(d[i] == entries[i]);
                assert(d[j] == entries[j]);
            }
        }
        lemma_lookup_at(d, name);
        assert forall|i: int| 0 <= i < entries.len() && (#[trigger] entries[i]).0@ == name implies lookup_provider(entries, name) == Some(entries[i].1) by {
            if i < entries.len() - 1 {
                assert(d[i] == entries[i]);
                assert(entries[i].0@ != entries[entries.len() - 1].0@);
            }
        }
        if forall|i: int| 0 <= i < entries.len() ==> (#[trigger] entries[i]).0@ != name {
            assert forall|i: int| 0 <= i < d.len() implies (#[trigger] d[i]).0@ != name by {
                assert(d[i] == entries[i]);
            }
            assert(entries[entries.len() - 1].0@ != name);
        }
    }
}

fn find_provider(entries: &Vec<(String, ProviderConfig)>, name: &str) -> (r: Option<usize>)
    ensures
        match r {
            Some(i) => i < entries@.len() && entries@[i as int].0@ == name@,
            None => forall|i: int| 0 <= i < entries@.len() ==> (#[trigger] entries@[i]).0@ != name@,
        },
{
    let mut i: usize = 0;
    while i < entries.len()
        invariant
            i <= entries@.len(),
            forall|k: int| 0 <= k < i ==> (#[trigger] entries@[k]).0@ != name@,
        decreases entries@.len() - i,
    {
        if str_eq(entries[i].0.as_str(), name) {
            return Some(i);
        }
        i = i + 1;
    }
    None
}

impl AppConfig {
    /// The provider registered under `name`.
    pub fn get_provider(&self, name: &str) -> (r: Option<&ProviderConfig>)
        requires
            unique_names(self.providers@),
        ensures
            match r {
                Some(p) => lookup_provider(self.providers@, name@) == Some(*p),
                None => lookup_provider(self.providers@, name@) is None,
            },
    {
        proof {
            lemma_lookup_at(self.providers@, name@);
        }
        match find_provider(&self.providers, name) {
            Some(i) => Some(&self.providers[i].1),
            None => None,
        }
    }
}

/// Registers each entry of `more` in order, replacing the provider of the same name.
pub fn extend_providers(base: &mut Vec<(String, ProviderConfig)>, more: Vec<(String, ProviderConfig)>)
    requires
        unique_names(old(base)@),
    ensures
        unique_names(final(base)@),
        forall|k: Seq<char>| #[trigger] lookup_provider(final(base)@, k) == lookup_provider(old(base)@ + more@, k),
{
    let ghost start = base@;
    let mut i: usize = 0;
    while i < more.len()
        invariant
            i <= more@.len(),
            unique_names(base@),
            forall|k: Seq<char>| #[trigger] lookup_provider(base@, k) == lookup_provider(start + more@.take(i as int), k),
        decreases more@.len() - i,
    {
        let key = more[i].0.clone();
        let p = more[i].1.copy();
        let ghost prev = base@;
        proof {
            lemma_lookup_at(prev, key@);
        }
        assert((key, p) == more@[i as int]);
        match find_provider(base, key.as_str()) {
            Some(j) => {
                base.set(j, (key, p));
                assert(base@[j as int] == (key, p));
            },
            None => {
                base.push((key, p));
            },
        }
        proof {
            assert(unique_names(base@)) by {
                assert forall|a: int, b: int| 0 <= a < b < base@.len() implies (#[trigger] base@[a]).0@ != (#[trigger] base@[b]).0@ by {
                    if b < prev.len() && a != b {
                    }
                }
            }
            lemma_lookup_at(base@, key@);
            assert((start + more@.take(i + 1)) =~= (start + more@.take(i as int)).push(more@[i as int]));
            let full = start + more@.take(i + 1);
            assert(full.last() == more@[i as int]);
            assert(full.drop_last() == start + more@.take(i as int));
            assert forall|k: Seq<char>| #[trigger] lookup_provider(base@, k) == lookup_provider(full, k) by {
                lemma_lookup_at(base@, k);
                lemma_lookup_at(prev, k);
                if k == key@ {
                    assert(lookup_provider(full, k) == Some(p));
                    if base@.len() == prev.len() {
                        let j = choose|j: int| 0 <= j < base@.len() && base@[j] == (key, p);
                        assert(base@[j].0@ == k);
                    } else {
                        assert(base@[base@.len() - 1].0@ == k);
                    }
                } else {
                    assert(lookup_provider(full, k) == lookup_provider(start + more@.take(i as int), k));
                    if exists|m: int| 0 <= m < prev.len() && (#[trigger] prev[m]).0@ == k {
                        let m = choose|m: int| 0 <= m < prev.len() && (#[trigger] prev[m]).0@ == k;
                        assert(base@[m] == prev[m]);
                    } else {
                        assert forall|m: int| 0 <= m < base@.len() implies (#[trigger] base@[m]).0@ != k by {
                            if m < prev.len() && base@[m] != prev[m] {
                                assert(base@[m].0@ == key@);
                            } else if m >= prev.len() {
                                assert(base@[m].0@ == key@);
                            }
                        }
                    }
                }
            }
        }
        i = i + 1;
    }
    assert(more@.take(more@.len() as int) =~= more@);
}


/// The `cookies` value of an account, as far as the runner reads it.
#[derive(Debug, Clone)]
pub enum CookieValue {
    /// A JSON object: its entries in order, each with its value when that is a string.
    Object(Vec<(String, Option<String>)>),
    /// A JSON string such as `"k1=v1; k2=v2"`.
    Text(String),
    /// Any other JSON value (null, number, boolean, array).
    Other,
}

/// Two cookie values hold the same content.
pub open spec fn same_cookie_value(a: CookieValue, b: CookieValue) -> bool {
    match (a, b) {
        (CookieValue::Object(x), CookieValue::Object(y)) => x@ == y@,
        (CookieValue::Text(x), CookieValue::Text(y)) => x == y,
        (CookieValue::Other, CookieValue::Other) => true,
        _ => false,
    }
}

impl CookieValue {
    /// A copy of the value.
    pub fn copy(&self) -> (r: Self)
        ensures
            same_cookie_value(r, *self),
    {
        match self {
            CookieValue::Object(entries) => {
                let mut v: Vec<(String, Option<String>)> = Vec::new();
                let mut i: usize = 0;
                while i < entries.len()
                    invariant
                        i <= entries@.len(),
                        v@ == entries@.take(i as int),
                    decreases entries.len() - i,
                {
                    let k = entries[i].0.clone();
                    let val = copy_opt(&entries[i].1);
                    v.push((k, val));
                    assert(v@ =~= entries@.take(i + 1));
                    i = i + 1;
                }
                assert(entries@.take(entries@.len() as int) =~= entries@);
                assert(v@ =~= entries@);
                CookieValue::Object(v)
            },
            CookieValue::Text(t) => CookieValue::Text(t.clone()),
            CookieValue::Other => CookieValue::Other,
        }
    }
}

/// An account.
#[derive(Debug, Clone)]
pub struct AccountConfig {
    /// Cookies used to authenticate in the browser.
    pub cookies: CookieValue,
    /// The user id sent in the provider's `api_user_key` header.
    pub api_user: String,
    /// The provider's name (`anyrouter` by default).
    pub provider: String,
    /// An alias shown in logs and notifications.
    pub name: Option<String>,
    pub username: Option<String>,
    pub password: Option<String>,
    /// The single sign-on platform (`github` or `linuxdo`).
    pub sso_provider: Option<String>,
    /// The user name or e-mail on the single sign-on platform.
    pub sso_username: Option<String>,
    /// The password on the single sign-on platform.
    pub sso_password: Option<String>,
}

/// The trimmed text of `o` when that is not empty.
pub open spec fn trimmed_nonempty(o: Option<Seq<char>>) -> Option<Seq<char>> {
    match o {
        Some(s) => if trim(s).len() > 0 { Some(trim(s)) } else { None },
        None => None,
    }
}

/// The view of an optional text.
pub open spec fn opt_text(o: Option<String>) -> Option<Seq<char>> {
    match o {
        Some(s) => Some(s@),
        None => None,
    }
}

/// The name shown for the account at position `index`.
pub open spec fn display_name_spec(name: Option<String>, index: nat) -> Seq<char> {
    match trimmed_nonempty(opt_text(name)) {
        Some(t) => t,
        None => "Account "@ + dec(index + 1),
    }
}

/// The string value under `key` in the entries of an object (first match).
pub open spec fn entry_value(es: Seq<(String, Option<String>)>, key: Seq<char>) -> Option<Seq<char>>
    decreases es.len(),
{
    if es.len() == 0 {
        None
    } else if es[0].0@ == key {
        opt_text(es[0].1)
    } else {
        entry_value(es.drop_first(), key)
    }
}

/// The trimmed, non-empty string under `key` of an object cookie value.
pub open spec fn cookie_meta_spec(c: CookieValue, key: Seq<char>) -> Option<Seq<char>> {
    match c {
        CookieValue::Object(es) => trimmed_nonempty(entry_value(es@, key)),
        _ => None,
    }
}

/// The explicit field when set (trimmed, non-empty), else the legacy cookie field.
pub open spec fn resolved_spec(explicit: Option<String>, c: CookieValue, legacy_key: Seq<char>) -> Option<Seq<char>> {
    match trimmed_nonempty(opt_text(explicit)) {
        Some(t) => Some(t),
        None => cookie_meta_spec(c, legacy_key),
    }
}

/// Whether a cookie name is a metadata field (leading underscore).
pub open spec fn is_meta_key(k: Seq<char>) -> bool {
    k.len() > 0 && k[0] == '_'
}

/// The names of the object entries that are cookies, in order.
pub open spec fn cookie_names(es: Seq<(String, Option<String>)>) -> Seq<Seq<char>>
    decreases es.len(),
{
    if es.len() == 0 {
        Seq::empty()
    } else {
        let rest = cookie_names(es.drop_last());
        if is_meta_key(es.last().0@) { rest } else { rest.push(es.last().0@) }
    }
}

/// The number of `;`-separated pieces of a cookie string that hold `=`.
pub open spec fn cookie_piece_count(s: Seq<char>) -> nat {
    count_containing(split_on(s, ';'), '=')
}

/// Whether the account carries usable cookies.
pub open spec fn has_cookie_material_spec(c: CookieValue) -> bool {
    match c {
        CookieValue::Object(es) => cookie_names(es@).len() > 0,
        CookieValue::Text(s) => cookie_piece_count(s@) > 0,
        CookieValue::Other => false,
    }
}

/// The one-line cookie summary.
pub open spec fn cookie_summary_spec(c: CookieValue) -> Seq<char> {
    match c {
        CookieValue::Object(es) => if cookie_names(es@).len() == 0 {
            "no cookies"@
        } else {
            join(cookie_names(es@), ", "@)
        },
        CookieValue::Text(s) => if cookie_piece_count(s@) == 0 {
            "no cookies"@
        } else {
            dec(cookie_piece_count(s@)) + " cookie(s) from string"@
        },
        CookieValue::Other => "no cookies"@,
    }
}

fn trimmed_nonempty_of(o: &Option<String>) -> (r: Option<String>)
    ensures
        opt_text(r) == trimmed_nonempty(opt_text(*o)),
{
    match o {
        Some(s) => {
            let t = trim_str(s.as_str());
            if t.as_str().is_empty() { None } else { Some(t) }
        },
        None => None,
    }
}

fn cookie_meta_field(c: &CookieValue, key: &str) -> (r: Option<String>)
    ensures
        opt_text(r) == cookie_meta_spec(*c, key@),
{
    match c {
        CookieValue::Object(es) => {
            let mut i: usize = 0;
            assert(es@.skip(0) =~= es@);
            while i < es.len()
                invariant
                    i <= es@.len(),
                    cookie_meta_spec(*c, key@) == trimmed_nonempty(entry_value(es@, key@)),
                    entry_value(es@, key@) == entry_value(es@.skip(i as int), key@),
                decreases es@.len() - i,
            {
                assert(es@.skip(i as int).drop_first() =~= es@.skip(i + 1));
                if str_eq(es[i].0.as_str(), key) {
                    assert(es@.skip(i as int)[0] == es@[i as int]);
                    assert(entry_value(es@.skip(i as int), key@) == opt_text(es@[i as int].1));
                    return trimmed_nonempty_of(&es[i].1);
                }
                i = i + 1;
            }
            None
        },
        _ => None,
    }
}

fn is_meta_name(k: &String) -> (r: bool)
    ensures
        r == is_meta_key(k@),
{
    if k.as_str().is_empty() {
        false
    } else {
        let c = k.as_str().get_char(0);
        c == '_'
    }
}

impl AccountConfig {
    /// The account's alias when set (trimmed), else `Account <index + 1>`.
    pub fn get_display_name(&self, index: usize) -> (r: String)
        requires
            index < usize::MAX,
        ensures
            r@ == display_name_spec(self.name, index as nat),
    {
        match trimmed_nonempty_of(&self.name) {
            Some(t) => t,
            None => {
                let mut r = lit("Account ");
                let n = fmt_u64((index + 1) as u64);
                r.append(n.as_str());
                r
            },
        }
    }

    /// The effective user name: `username`, else `cookies._username`.
    pub fn resolved_username(&self) -> (r: Option<String>)
        ensures
            opt_text(r) == resolved_spec(self.username, self.cookies, "_username"@),
    {
        match trimmed_nonempty_of(&self.username) {
            Some(t) => Some(t),
            None => cookie_meta_field(&self.cookies, "_username"),
        }
    }

    /// The effective password: `password`, else `cookies._password`.
    pub fn resolved_password(&self) -> (r: Option<String>)
        ensures
            opt_text(r) == resolved_spec(self.password, self.cookies, "_password"@),
    {
        match trimmed_nonempty_of(&self.password) {
            Some(t) => Some(t),
            None => cookie_meta_field(&self.cookies, "_password"),
        }
    }

    /// The effective SSO platform: `sso_provider`, else `cookies._sso_provider`.
    pub fn resolved_sso_provider(&self) -> (r: Option<String>)
        ensures
            opt_text(r) == resolved_spec(self.sso_provider, self.cookies, "_sso_provider"@),
    {
        match trimmed_nonempty_of(&self.sso_provider) {
            Some(t) => Some(t),
            None => cookie_meta_field(&self.cookies, "_sso_provider"),
        }
    }

    /// The effective SSO user name: `sso_username`, else `cookies._sso_username`.
    pub fn resolved_sso_username(&self) -> (r: Option<String>)
        ensures
            opt_text(r) == resolved_spec(self.sso_username, self.cookies, "_sso_username"@),
    {
        match trimmed_nonempty_of(&self.sso_username) {
            Some(t) => Some(t),
            None => cookie_meta_field(&self.cookies, "_sso_username"),
        }
    }

    /// The effective SSO password: `sso_password`, else `cookies._sso_password`.
    pub fn resolved_sso_password(&self) -> (r: Option<String>)
        ensures
            opt_text(r) == resolved_spec(self.sso_password, self.cookies, "_sso_password"@),
    {
        match trimmed_nonempty_of(&self.sso_password) {
            Some(t) => Some(t),
            None => cookie_meta_field(&self.cookies, "_sso_password"),
        }
    }

    /// Whether cookies are given: an object with a name not starting with
    /// `_`, or a string with a `;`-separated piece holding `=`.
    pub fn has_cookie_material(&self) -> (r: bool)
        ensures
            r == has_cookie_material_spec(self.cookies),
    {
        match &self.cookies {
            CookieValue::Object(es) => {
                let mut i: usize = 0;
                while i < es.len()
                    invariant
                        i <= es@.len(),
                        has_cookie_material_spec(self.cookies) == (cookie_names(es@).len() > 0),
                        cookie_names(es@.take(i as int)).len() == 0,
                    decreases es@.len() - i,
                {
                    assert(es@.take(i + 1).drop_last() =~= es@.take(i as int));
                    if !is_meta_name(&es[i].0) {
                        proof {
                            lemma_cookie_names_grow(es@, i as int + 1);
                            assert(cookie_names(es@).len() > 0);
                        }
                        return true;
                    }
                    i = i + 1;
                }
                assert(es@.take(es@.len() as int) =~= es@);
                false
            },
            CookieValue::Text(s) => count_pieces_containing(s.as_str(), ';', '=') > 0,
            CookieValue::Other => false,
        }
    }

    /// A one-line description of the cookies for the log.
    pub fn cookie_summary(&self) -> (r: String)
        ensures
            r@ == cookie_summary_spec(self.cookies),
    {
        match &self.cookies {
            CookieValue::Object(es) => {
                let mut out = String::new();
                let mut count: usize = 0;
                let mut i: usize = 0;
                while i < es.len()
                    invariant
                        i <= es@.len(),
                        count as nat == cookie_names(es@.take(i as int)).len(),
                        count <= i,
                        out@ == join(cookie_names(es@.take(i as int)), ", "@),
                    decreases es@.len() - i,
                {
                    assert(es@.take(i + 1).drop_last() =~= es@.take(i as int));
                    let ghost names = cookie_names(es@.take(i as int));
                    if !is_meta_name(&es[i].0) {
                        if count > 0 {
                            out.append(", ");
                        }
                        out.append(es[i].0.as_str());
                        count = count + 1;
                        proof {
                            let np = names.push(es@[i as int].0@);
                            assert(np.drop_last() =~= names);
                            if names.len() == 0 {
                                assert(out@ =~= np[0]);
                            }
                        }
                    }
                    i = i + 1;
                }
                assert(es@.take(es@.len() as int) =~= es@);
                if count == 0 {
                    lit("no cookies")
                } else {
                    out
                }
            },
            CookieValue::Text(s) => {
                let n = count_pieces_containing(s.as_str(), ';', '=');
                if n == 0 {
                    lit("no cookies")
                } else {
                    let mut r = fmt_u64(n);
                    r.append(" cookie(s) from string");
                    r
                }
            },
            CookieValue::Other => lit("no cookies"),
        }
    }
}

proof fn lemma_cookie_names_grow(es: Seq<(String, Option<String>)>, k: int)
    requires
        0 < k <= es.len(),
        !is_meta_key(es[k - 1].0@),
    ensures
        cookie_names(es).len() > 0,
    decreases es.len(),
{
    if k < es.len() {
        assert(es.drop_last()[k - 1] == es[k - 1]);
        lemma_cookie_names_grow(es.drop_last(), k);
        assert(cookie_names(es).len() >= cookie_names(es.drop_last()).len());
    }
}

/// The message `[<name>] <what>`.
pub open spec fn tagged(name: Seq<char>, what: Seq<char>) -> Seq<char> {
    "["@ + name + "] "@ + what
}

/// Why the account at position `index` is rejected, if it is: `api_user`
/// and `provider` are required, user name and password come together, the
/// three SSO fields come together, and cookies, a login or an SSO login
/// must be given.
pub open spec fn account_problem(a: AccountConfig, index: nat) -> Option<Seq<char>> {
    let name = display_name_spec(a.name, index);
    let user = resolved_spec(a.username, a.cookies, "_username"@);
    let pass = resolved_spec(a.password, a.cookies, "_password"@);
    let sso_p = resolved_spec(a.sso_provider, a.cookies, "_sso_provider"@);
    let sso_u = resolved_spec(a.sso_username, a.cookies, "_sso_username"@);
    let sso_w = resolved_spec(a.sso_password, a.cookies, "_sso_password"@);
    if trim(a.api_user@).len() == 0 {
        Some(tagged(name, "Missing required field: api_user"@))
    } else if trim(a.provider@).len() == 0 {
        Some(tagged(name, "Missing required field: provider"@))
    } else if user.is_some() != pass.is_some() {
        Some(tagged(name, "username/password must be provided together"@))
    } else if sso_p.is_some() != sso_u.is_some() || sso_u.is_some() != sso_w.is_some() {
        Some(tagged(name, "sso_provider/sso_username/sso_password must be provided together"@))
    } else if !has_cookie_material_spec(a.cookies) && user.is_none() && sso_p.is_none() {
        Some(tagged(name, "Missing authentication material: provide cookies or username/password"@))
    } else {
        None
    }
}

/// The problem of the first rejected account at or after position `i`.
pub open spec fn first_problem(accs: Seq<AccountConfig>, i: nat) -> Option<Seq<char>>
    decreases accs.len() - i,
{
    if i >= accs.len() {
        None
    } else {
        match account_problem(accs[i as int], i) {
            Some(m) => Some(m),
            None => first_problem(accs, i + 1),
        }
    }
}

fn tag(name: &String, what: &str) -> (r: String)
    ensures
        r@ == tagged(name@, what@),
{
    let mut r = lit("[");
    r.append(name.as_str());
    r.append("] ");
    r.append(what);
    r
}

/// Checks every account in order and reports the first one that lacks a
/// required field or authentication material.
pub fn validate_accounts(accounts: &[AccountConfig]) -> (r: Result<(), String>)
    requires
        accounts@.len() < usize::MAX,
    ensures
        match r {
            Ok(()) => first_problem(accounts@, 0) is None,
            Err(m) => first_problem(accounts@, 0) == Some(m@),
        },
{
    let mut i: usize = 0;
    while i < accounts.len()
        invariant
            i <= accounts@.len() < usize::MAX,
            first_problem(accounts@, 0) == first_problem(accounts@, i as nat),
        decreases accounts@.len() - i,
    {
        let account = &accounts[i];
        let name = account.get_display_name(i);
        let api_user = trim_str(account.api_user.as_str());
        if api_user.as_str().is_empty() {
            return Err(tag(&name, "Missing required field: api_user"));
        }
        let provider = trim_str(account.provider.as_str());
        if provider.as_str().is_empty() {
            return Err(tag(&name, "Missing required field: provider"));
        }
        let username = account.resolved_username();
        let password = account.resolved_password();
        if username.is_some() != password.is_some() {
            return Err(tag(&name, "username/password must be provided together"));
        }
        let sso_provider = account.resolved_sso_provider();
        let sso_username = account.resolved_sso_username();
        let sso_password = account.resolved_sso_password();
        if sso_provider.is_some() != sso_username.is_some() || sso_username.is_some() != sso_password.is_some() {
            return Err(tag(&name, "sso_provider/sso_username/sso_password must be provided together"));
        }
        if !account.has_cookie_material() && username.is_none() && sso_provider.is_none() {
            return Err(tag(&name, "Missing authentication material: provide cookies or username/password"));
        }
        assert(account_problem(accounts@[i as int], i as nat) is None);
        i = i + 1;
    }
    Ok(())
}

/// A provider with the new-api paths `/login`, `/api/user/self` and the
/// header `new-api-user`.
pub open spec fn builtin_provider(e: (String, ProviderConfig), name: Seq<char>, domain: Seq<char>, sign_in_path: Option<Seq<char>>) -> bool {
    &&& e.0@ == name
    &&& e.1.name@ == name
    &&& e.1.domain@ == domain
    &&& e.1.login_path@ == "/login"@
    &&& opt_text(e.1.sign_in_path) == sign_in_path
    &&& e.1.user_info_path@ == "/api/user/self"@
    &&& e.1.api_user_key@ == "new-api-user"@
}

fn new_api_provider(name: &str, domain: &str, sign_in_path: Option<String>) -> (r: (String, ProviderConfig))
    ensures
        builtin_provider(r, name@, domain@, opt_text(sign_in_path)),
{
    (owned(name), ProviderConfig {
        name: owned(name),
        domain: owned(domain),
        login_path: lit("/login"),
        sign_in_path,
        user_info_path: lit("/api/user/self"),
        api_user_key: lit("new-api-user"),
    })
}

/// The built-in providers: `anyrouter` (explicit sign-in) and
/// `agentrouter` (signed in by visiting).
pub fn built_in_providers() -> (r: Vec<(String, ProviderConfig)>)
    ensures
        r@.len() == 2,
        builtin_provider(r@[0], "anyrouter"@, "https://anyrouter.top"@, Some("/api/user/sign_in"@)),
        builtin_provider(r@[1], "agentrouter"@, "https://agentrouter.org"@, None),
        unique_names(r@),
{
    let mut r: Vec<(String, ProviderConfig)> = Vec::new();
    r.push(new_api_provider("anyrouter", "https://anyrouter.top", Some(lit("/api/user/sign_in"))));
    r.push(new_api_provider("agentrouter", "https://agentrouter.org", None));
    proof {
        reveal_strlit("anyrouter");
        reveal_strlit("agentrouter");
        assert(r@[0].0@.len() != r@[1].0@.len());
    }
    r
}

/// A provider's entry after naming: a blank name takes the entry's key.
pub open spec fn named_entry(e: (String, ProviderConfig)) -> (String, ProviderConfig) {
    if trim(e.1.name@).len() == 0 {
        (e.0, ProviderConfig { name: e.0, ..e.1 })
    } else {
        e
    }
}

/// Gives every provider whose name is blank the name it is registered under.
pub fn fill_provider_names(providers: &mut Vec<(String, ProviderConfig)>)
    ensures
        final(providers)@ == old(providers)@.map_values(|e: (String, ProviderConfig)| named_entry(e)),
{
    let ghost start = providers@;
    let mut i: usize = 0;
    while i < providers.len()
        invariant
            i <= providers@.len() == start.len(),
            forall|k: int| 0 <= k < i ==> providers@[k] == named_entry(#[trigger] start[k]),
            forall|k: int| i <= k < start.len() ==> providers@[k] == #[trigger] start[k],
        decreases providers@.len() - i,
    {
        let blank = trim_str(providers[i].1.name.as_str()).as_str().is_empty();
        if blank {
            let key = providers[i].0.clone();
            let mut p = providers[i].1.copy();
            p.name = key.clone();
            providers.set(i, (key, p));
        }
        i = i + 1;
    }
    assert(providers@ =~= start.map_values(|e: (String, ProviderConfig)| named_entry(e)));
}

// ---------------------------------------------------------------------------
// Runtime configuration: providers and accounts from the file or environment
// ---------------------------------------------------------------------------

/// A configuration file that was found and decoded.
#[derive(Debug, Clone)]
pub struct LoadedFileConfig {
    /// The file's path as displayed.
    pub path: String,
    /// Its `providers` object, one entry per key.
    pub providers: Vec<(String, ProviderConfig)>,
    /// Its `accounts` array.
    pub accounts: Vec<AccountConfig>,
}

/// Everything a run needs: the providers, the accounts and the file they came from.
#[derive(Debug, Clone)]
pub struct RuntimeConfig {
    pub app_config: AppConfig,
    pub accounts: Vec<AccountConfig>,
    pub config_file_path: Option<String>,
}

/// The providers registered on top of the built-in ones: the file's (each
/// named after its key when blank) when a file was found, else those of the
/// `PROVIDERS` variable when it decoded.
pub open spec fn extra_providers(
    file: Option<LoadedFileConfig>,
    providers_var: Option<Result<Vec<(String, ProviderConfig)>, String>>,
) -> Seq<(String, ProviderConfig)> {
    match file {
        Some(f) => f.providers@.map_values(|e: (String, ProviderConfig)| named_entry(e)),
        None => match providers_var {
            Some(Ok(p)) => p@.map_values(|e: (String, ProviderConfig)| named_entry(e)),
            _ => Seq::empty(),
        },
    }
}

/// The error of an undecodable `PROVIDERS` variable (read only without a file).
pub open spec fn providers_error(
    file: Option<LoadedFileConfig>,
    providers_var: Option<Result<Vec<(String, ProviderConfig)>, String>>,
) -> Option<Seq<char>> {
    match file {
        Some(_) => None,
        None => match providers_var {
            Some(Err(m)) => Some("Failed to parse PROVIDERS environment variable: "@ + m@),
            _ => None,
        },
    }
}

/// The accounts of the run: the file's (which must list some) when a file
/// was found, else the decoded `ANYROUTER_ACCOUNTS` variable (which must be set).
pub open spec fn runtime_accounts(
    file: Option<LoadedFileConfig>,
    accounts_var: Option<Result<Vec<AccountConfig>, String>>,
) -> Result<Seq<AccountConfig>, Seq<char>> {
    match file {
        Some(f) => if f.accounts@.len() == 0 {
            Err("No accounts found in configuration file: "@ + f.path@)
        } else {
            Ok(f.accounts@)
        },
        None => match accounts_var {
            None => Err("conf.json not found and ANYROUTER_ACCOUNTS environment variable not found"@),
            Some(Err(m)) => Err("Account configuration JSON parse failed from ANYROUTER_ACCOUNTS environment variable: "@ + m@),
            Some(Ok(a)) => Ok(a@),
        },
    }
}

/// The outcome of loading the runtime configuration, as an error message or
/// the accounts (the providers are stated separately).
pub open spec fn runtime_outcome(
    file: Option<LoadedFileConfig>,
    providers_var: Option<Result<Vec<(String, ProviderConfig)>, String>>,
    accounts_var: Option<Result<Vec<AccountConfig>, String>>,
) -> Result<Seq<AccountConfig>, Seq<char>> {
    match providers_error(file, providers_var) {
        Some(m) => Err(m),
        None => match runtime_accounts(file, accounts_var) {
            Err(m) => Err(m),
            Ok(accs) => match first_problem(accs, 0) {
                Some(m) => Err(m),
                None => Ok(accs),
            },
        },
    }
}

/// Assembles the runtime configuration from what was found: the decoded
/// configuration file, if any, else the decoded `PROVIDERS` and
/// `ANYROUTER_ACCOUNTS` variables (`None` when unset, `Err` with the
/// decoder's message when they do not decode).  The providers are the
/// built-in ones extended by the file's or the variable's, a later
/// registration of a name replacing an earlier one; the accounts must pass
/// validation.
pub fn load_runtime_config(
    file: Option<LoadedFileConfig>,
    providers_var: Option<Result<Vec<(String, ProviderConfig)>, String>>,
    accounts_var: Option<Result<Vec<AccountConfig>, String>>,
) -> (r: Result<RuntimeConfig, String>)
    requires
        file matches Some(f) ==> f.accounts@.len() < usize::MAX,
        accounts_var matches Some(Ok(a)) ==> a@.len() < usize::MAX,
    ensures
        r matches Err(m) ==> runtime_outcome(file, providers_var, accounts_var) == Err::<Seq<AccountConfig>, Seq<char>>(m@),
        r matches Ok(c) ==> runtime_outcome(file, providers_var, accounts_var) == Ok::<Seq<AccountConfig>, Seq<char>>(c.accounts@),
        r matches Ok(c) ==> c.config_file_path == match file {
            Some(f) => Some(f.path),
            None => None,
        },
        r matches Ok(c) ==> unique_names(c.app_config.providers@) && exists|b: Seq<(String, ProviderConfig)>|
            b.len() == 2 && builtin_provider(b[0], "anyrouter"@, "https://anyrouter.top"@, Some("/api/user/sign_in"@))
                && builtin_provider(b[1], "agentrouter"@, "https://agentrouter.org"@, None) && forall|k: Seq<char>|
                #[trigger] lookup_provider(c.app_config.providers@, k) == lookup_provider(
                    b + extra_providers(file, providers_var),
                    k,
                ),
{
    let ghost file0 = file;
    let ghost pv0 = providers_var;
    let mut providers = built_in_providers();
    let ghost b = providers@;
    let (path, accounts) = match file {
        Some(f) => {
            let LoadedFileConfig { path, providers: from_file, accounts } = f;
            let mut named = from_file;
            fill_provider_names(&mut named);
            extend_providers(&mut providers, named);
            if accounts.len() == 0 {
                let mut m = lit("No accounts found in configuration file: ");
                m.append(path.as_str());
                return Err(m);
            }
            (Some(path), accounts)
        },
        None => {
            match providers_var {
                Some(Ok(custom)) => {
                    let mut named = custom;
                    fill_provider_names(&mut named);
                    extend_providers(&mut providers, named);
                },
                Some(Err(e)) => {
                    let mut m = lit("Failed to parse PROVIDERS environment variable: ");
                    m.append(e.as_str());
                    return Err(m);
                },
                None => {
                    assert(b + Seq::<(String, ProviderConfig)>::empty() =~= b);
                },
            }
            match accounts_var {
                None => {
                    return Err(lit("conf.json not found and ANYROUTER_ACCOUNTS environment variable not found"));
                },
                Some(Err(e)) => {
                    let mut m = lit("Account configuration JSON parse failed from ANYROUTER_ACCOUNTS environment variable: ");
                    m.append(e.as_str());
                    return Err(m);
                },
                Some(Ok(a)) => (None, a),
            }
        },
    };
    match validate_accounts(accounts.as_slice()) {
        Err(m) => Err(m),
        Ok(()) => {
            let c = RuntimeConfig { app_config: AppConfig { providers }, accounts, config_file_path: path };
            assert(c.accounts@ == match runtime_accounts(file0, accounts_var) {
                Ok(a) => a,
                Err(_) => c.accounts@,
            });
            Ok(c)
        },
    }
}


/// The configuration files looked for, in order, when
/// `ANYROUTER_CONFIG_FILE` is not set.
pub open spec fn config_candidates() -> Seq<Seq<char>> {
    seq!["conf.json"@, "anyrouter-config.json"@, "anyrouter-config.toml"@]
}

/// The first candidate from position `i` on that exists.
pub open spec fn first_existing(exists: Seq<bool>, i: nat) -> Option<Seq<char>>
    decreases 3 - i,
{
    if i >= 3 {
        None
    } else if exists[i as int] {
        Some(config_candidates()[i as int])
    } else {
        first_existing(exists, i + 1)
    }
}

/// The configuration file to read: `ANYROUTER_CONFIG_FILE` trimmed when it
/// is set (an error when that is blank), else the first candidate that is
/// a file, else none.
pub open spec fn config_file_choice(var: Option<Seq<char>>, exists: Seq<bool>) -> Result<Option<Seq<char>>, Seq<char>> {
    match var {
        Some(v) => if trim(v).len() == 0 {
            Err("ANYROUTER_CONFIG_FILE is set but empty"@)
        } else {
            Ok(Some(trim(v)))
        },
        None => Ok(first_existing(exists, 0)),
    }
}

/// The file the optional sections (e-mail, logging) read: a blank
/// `ANYROUTER_CONFIG_FILE` is ignored.
pub open spec fn optional_config_choice(var: Option<Seq<char>>, exists: Seq<bool>) -> Option<Seq<char>> {
    match trimmed_nonempty(var) {
        Some(t) => Some(t),
        None => first_existing(exists, 0),
    }
}

/// The candidate file names, in the order they are looked for.
pub fn config_file_candidates() -> (r: Vec<String>)
    ensures
        r@.len() == 3,
        r@.map_values(|c: String| c@) == config_candidates(),
{
    let r = vec![lit("conf.json"), lit("anyrouter-config.json"), lit("anyrouter-config.toml")];
    assert(r@.map_values(|c: String| c@) =~= config_candidates());
    r
}

fn first_existing_of(exists: &Vec<bool>) -> (r: Option<String>)
    requires
        exists@.len() == 3,
    ensures
        opt_text(r) == first_existing(exists@, 0),
{
    let names = config_file_candidates();
    let mut i: usize = 0;
    while i < 3
        invariant
            i <= 3,
            exists@.len() == 3,
            names@.len() == 3,
            names@.map_values(|c: String| c@) == config_candidates(),
            first_existing(exists@, 0) == first_existing(exists@, i as nat),
        decreases 3 - i,
    {
        if exists[i] {
            assert(names@.map_values(|c: String| c@)[i as int] == names@[i as int]@);
            return Some(lit(names[i].as_str()));
        }
        i = i + 1;
    }
    None
}

/// Chooses the configuration file from the value of `ANYROUTER_CONFIG_FILE`
/// (if set) and whether each candidate exists as a file.
pub fn choose_config_file(var: Option<String>, exists: &Vec<bool>) -> (r: Result<Option<String>, String>)
    requires
        exists@.len() == 3,
    ensures
        match r {
            Ok(o) => config_file_choice(opt_text(var), exists@) == Ok::<Option<Seq<char>>, Seq<char>>(opt_text(o)),
            Err(e) => config_file_choice(opt_text(var), exists@) == Err::<Option<Seq<char>>, Seq<char>>(e@),
        },
{
    match var {
        Some(v) => {
            let t = trim_str(v.as_str());
            if t.as_str().is_empty() {
                Err(lit("ANYROUTER_CONFIG_FILE is set but empty"))
            } else {
                Ok(Some(t))
            }
        },
        None => Ok(first_existing_of(exists)),
    }
}

/// Chooses the file the optional sections read (see `optional_config_choice`).
pub fn choose_optional_config_file(var: Option<String>, exists: &Vec<bool>) -> (r: Option<String>)
    requires
        exists@.len() == 3,
    ensures
        opt_text(r) == optional_config_choice(opt_text(var), exists@),
{
    match trimmed_nonempty_of(&var) {
        Some(t) => Some(t),
        None => first_existing_of(exists),
    }
}

} // verus!
