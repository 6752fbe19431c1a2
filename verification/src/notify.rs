//! E-mail notification settings.
//!
//! Sending the message over SMTP happens at the edge; this module decides
//! which settings are used, whether notification is configured, and the
//! server and sender to use.
use vstd::prelude::*;
use std::collections::HashMap;
use crate::text::{trim, trim_str, split_on, split_pieces, views, chars_of, string_of, str_eq, owned};
use crate::checkin::opt_text;
use crate::config_loader::types::{lit, copy_opt};

verus! {

/// The e-mail settings of one origin (configuration file, environment,
/// reference file); each field as given, if given.
#[derive(Debug, Clone, Default)]
pub struct EmailFileConfig {
    pub user: Option<String>,
    pub pass: Option<String>,
    pub to: Option<String>,
    pub sender: Option<String>,
    pub smtp_server: Option<String>,
}

/// The e-mail notifier's settings.
#[derive(Debug, Clone)]
pub struct EmailNotifier {
    /// SMTP login (usually the address).
    pub email_user: String,
    /// SMTP password or authorisation code.
    pub email_pass: String,
    /// Recipient.
    pub email_to: String,
    /// Sender address (the `From` field).
    pub email_sender: String,
    /// SMTP server; empty to derive it from the login's domain.
    pub smtp_server: String,
}

/// The notifier built from parts: an empty sender is the login.
pub open spec fn notifier_of(user: String, pass: String, to: String, sender: String, smtp: String) -> EmailNotifier {
    EmailNotifier {
        email_user: user,
        email_pass: pass,
        email_to: to,
        email_sender: if sender@.len() == 0 { user } else { sender },
        smtp_server: smtp,
    }
}

/// The text of an optional field, empty when absent.
pub open spec fn or_empty(o: Option<String>) -> Seq<char> {
    match o { Some(s) => s@, None => Seq::empty() }
}

/// Notification is configured when login, password and recipient are all set.
pub open spec fn configured(n: EmailNotifier) -> bool {
    n.email_user@.len() > 0 && n.email_pass@.len() > 0 && n.email_to@.len() > 0
}

/// Whether settings of one origin configure notification.
pub open spec fn config_is_complete(c: EmailFileConfig) -> bool {
    or_empty(c.user).len() > 0 && or_empty(c.pass).len() > 0 && or_empty(c.to).len() > 0
}

/// The position of the first complete settings, if any.
pub open spec fn first_complete(cs: Seq<EmailFileConfig>) -> Option<int>
    decreases cs.len(),
{
    if cs.len() == 0 {
        None
    } else {
        match first_complete(cs.drop_last()) {
            Some(i) => Some(i),
            None => if config_is_complete(cs.last()) { Some(cs.len() - 1) } else { None },
        }
    }
}

/// The notifier's fields, as texts, built from settings `c`.
pub open spec fn notifier_matches(n: EmailNotifier, c: EmailFileConfig) -> bool {
    &&& n.email_user@ == or_empty(c.user)
    &&& n.email_pass@ == or_empty(c.pass)
    &&& n.email_to@ == or_empty(c.to)
    &&& n.email_sender@ == (if or_empty(c.sender).len() == 0 { or_empty(c.user) } else { or_empty(c.sender) })
    &&& n.smtp_server@ == or_empty(c.smtp_server)
}

/// The SMTP server to use: the configured one, else `smtp.` and the part
/// of the login after its last `@`.
pub open spec fn smtp_server_spec(n: EmailNotifier) -> Seq<char> {
    if n.smtp_server@.len() == 0 {
        "smtp."@ + split_on(n.email_user@, '@').last()
    } else {
        n.smtp_server@
    }
}

/// A configured SMTP server is the one used, whatever the login.
pub proof fn law_configured_smtp_server_is_used(n: EmailNotifier)
    requires
        n.smtp_server@.len() > 0,
    ensures
        smtp_server_spec(n) == n.smtp_server@,
{
}

/// With no SMTP server configured, the server is `smtp.` followed by the
/// domain of the login (the part after its `@`).
pub proof fn law_smtp_server_from_login_domain(n: EmailNotifier, local: Seq<char>, domain: Seq<char>)
    requires
        n.smtp_server@.len() == 0,
        n.email_user@ == local + "@"@ + domain,
        !domain.contains('@'),
    ensures
        smtp_server_spec(n) == "smtp."@ + domain,
{
    reveal_strlit("@");
    assert(local + "@"@ + domain =~= local.push('@') + domain);
    crate::text::lemma_split_last_after_sep(local, '@', domain);
}

fn text_or_empty(o: &Option<String>) -> (r: String)
    ensures
        r@ == or_empty(*o),
{
    match o {
        Some(s) => s.clone(),
        None => String::new(),
    }
}

impl EmailNotifier {
    /// A notifier from its parts; an empty sender is the login.
    pub fn from_parts(email_user: String, email_pass: String, email_to: String, email_sender: String, smtp_server: String) -> (r: Self)
        ensures
            r == notifier_of(email_user, email_pass, email_to, email_sender, smtp_server),
    {
        let sender = if email_sender.as_str().is_empty() { email_user.clone() } else { email_sender };
        EmailNotifier { email_sender: sender, email_user, email_pass, email_to, smtp_server }
    }

    /// The notifier of one origin's settings (absent fields are empty).
    pub fn from_file_config(config: &EmailFileConfig) -> (r: Self)
        ensures
            notifier_matches(r, *config),
    {
        Self::from_parts(
            text_or_empty(&config.user),
            text_or_empty(&config.pass),
            text_or_empty(&config.to),
            text_or_empty(&config.sender),
            text_or_empty(&config.smtp_server),
        )
    }

    /// Whether login, password and recipient are all set.
    pub fn is_configured(&self) -> (r: bool)
        ensures
            r == configured(*self),
    {
        !self.email_user.as_str().is_empty() && !self.email_pass.as_str().is_empty() && !self.email_to.as_str().is_empty()
    }

    /// The notifier of the first origin, in the order given (configuration
    /// file, environment, reference file), whose settings are complete;
    /// with none complete, the unconfigured notifier.
    pub fn from_env(candidates: Vec<EmailFileConfig>) -> (r: Self)
        ensures
            match first_complete(candidates@) {
                Some(i) => notifier_matches(r, candidates@[i]),
                None => r.email_user@.len() == 0 && r.email_pass@.len() == 0 && r.email_to@.len() == 0
                    && r.email_sender@.len() == 0 && r.smtp_server@.len() == 0,
            },
    {
        let mut i: usize = 0;
        while i < candidates.len()
            invariant
                i <= candidates@.len(),
                first_complete(candidates@.take(i as int)) is None,
            decreases candidates@.len() - i,
        {
            let n = Self::from_file_config(&candidates[i]);
            proof {
                assert(candidates@.take(i + 1).drop_last() =~= candidates@.take(i as int));
                assert(configured(n) == config_is_complete(candidates@[i as int]));
            }
            if n.is_configured() {
                proof {
                    lemma_first_complete_prefix(candidates@, i as int + 1);
                }
                return n;
            }
            i = i + 1;
        }
        assert(candidates@.take(candidates@.len() as int) =~= candidates@);
        Self::from_parts(String::new(), String::new(), String::new(), String::new(), String::new())
    }

    /// The SMTP server to connect to.
    pub fn smtp_server_to_use(&self) -> (r: String)
        ensures
            r@ == smtp_server_spec(*self),
    {
        if self.smtp_server.as_str().is_empty() {
            let pieces = split_pieces(self.email_user.as_str(), '@');
            proof {
                crate::text::lemma_split_nonempty(self.email_user@, '@');
                assert(views(pieces@).last() == pieces@[pieces@.len() - 1]@);
            }
            let mut r = lit("smtp.");
            r.append(pieces[pieces.len() - 1].as_str());
            r
        } else {
            self.smtp_server.clone()
        }
    }

    /// Why a message cannot be sent with these settings: `Email
    /// configuration not set` unless login, password and recipient are set.
    pub fn send_refusal(&self) -> (r: Option<String>)
        ensures
            r is None <==> configured(*self),
            r matches Some(m) ==> m@ == "Email configuration not set"@,
    {
        if self.is_configured() {
            None
        } else {
            Some(lit("Email configuration not set"))
        }
    }

    /// The `From` header: `AnyRouter Assistant <sender>`.
    pub fn from_header(&self) -> (r: String)
        ensures
            r@ == "AnyRouter Assistant <"@ + self.email_sender@ + ">"@,
    {
        let mut r = lit("AnyRouter Assistant <");
        r.append(self.email_sender.as_str());
        r.append(">");
        r
    }
}

proof fn lemma_first_complete_prefix(cs: Seq<EmailFileConfig>, k: int)
    requires
        0 < k <= cs.len(),
        first_complete(cs.take(k - 1)) is None,
        config_is_complete(cs[k - 1]),
    ensures
        first_complete(cs) == Some(k - 1),
    decreases cs.len(),
{
    if k < cs.len() {
        assert(cs.drop_last().take(k) =~= cs.take(k));
        assert(cs.drop_last().take(k - 1) =~= cs.take(k - 1));
        lemma_first_complete_prefix(cs.drop_last(), k);
    } else {
        assert(cs.drop_last() =~= cs.take(k - 1));
    }
}

/// The notification manager (e-mail is its only channel).
pub struct NotificationKit {
    pub email: EmailNotifier,
}

impl NotificationKit {
    /// The manager with the notifier chosen from the candidate settings.
    pub fn from_env(candidates: Vec<EmailFileConfig>) -> (r: Self)
        ensures
            match first_complete(candidates@) {
                Some(i) => notifier_matches(r.email, candidates@[i]),
                None => !configured(r.email) && r.email.email_user@.len() == 0 && r.email.email_pass@.len() == 0
                    && r.email.email_to@.len() == 0 && r.email.email_sender@.len() == 0 && r.email.smtp_server@.len() == 0,
            },
    {
        NotificationKit { email: EmailNotifier::from_env(candidates) }
    }
}

// ---------------------------------------------------------------------------
// The reference mail-settings file: `"label": "value"` lines
// ---------------------------------------------------------------------------

/// The object of strings that a JSON text denotes (a key given twice keeps
/// its last value); nothing where the text is not such an object.
pub uninterp spec fn json_string_object(text: Seq<char>) -> Option<Map<Seq<char>, Seq<char>>>;

/// `entries` lists the members of `m`, each key once, in some order.
pub open spec fn lists_members(entries: Seq<(String, String)>, m: Map<Seq<char>, Seq<char>>) -> bool {
    &&& forall|i: int| 0 <= i < entries.len() ==> #[trigger] m.contains_key(entries[i].0@) && m[entries[i].0@]
        == entries[i].1@
    &&& forall|i: int, j: int| 0 <= i < j < entries.len() ==> #[trigger] entries[i].0@ != #[trigger] entries[j].0@
    &&& forall|k: Seq<char>| #[trigger] m.contains_key(k) ==> exists|i: int| 0 <= i < entries.len() && #[trigger] entries[i].0@ == k
}

/// `serde_json::from_str` into a `HashMap<String, String>`: the named object,
/// whose members come out in the map's (unspecified) iteration order.
#[verifier::external_body]
fn decode_string_object(text: &str) -> (r: Option<Vec<(String, String)>>)
    ensures
        r is Some <==> json_string_object(text@) is Some,
        r matches Some(v) ==> lists_members(v@, json_string_object(text@)->0),
{
    match serde_json::from_str::<HashMap<String, String>>(text) {
        Ok(m) => Some(m.into_iter().collect()),
        Err(_) => None,
    }
}

/// The text without its leading byte-order marks.
pub open spec fn strip_boms(s: Seq<char>) -> Seq<char>
    decreases s.len(),
{
    if s.len() > 0 && s[0] == '\u{feff}' {
        strip_boms(s.drop_first())
    } else {
        s
    }
}

/// The reference file's text made into a JSON object: trimmed, without
/// leading byte-order marks, and wrapped in braces.
pub open spec fn wrapped_reference(content: Seq<char>) -> Seq<char> {
    "{"@ + strip_boms(trim(content)) + "}"@
}

/// The trimmed value of the first of `keys` that the object has.
pub open spec fn lookup_trimmed(m: Map<Seq<char>, Seq<char>>, keys: Seq<Seq<char>>) -> Option<Seq<char>>
    decreases keys.len(),
{
    if keys.len() == 0 {
        None
    } else if m.contains_key(keys[0]) {
        Some(trim(m[keys[0]]))
    } else {
        lookup_trimmed(m, keys.drop_first())
    }
}

/// The settings that a reference object gives: each field from the first of
/// its labels (Chinese label first) that the object has.
pub open spec fn reference_fields(m: Map<Seq<char>, Seq<char>>) -> (Option<Seq<char>>, Option<Seq<char>>, Option<Seq<char>>, Option<Seq<char>>, Option<Seq<char>>) {
    (
        lookup_trimmed(m, seq!["发送方邮箱"@, "email_user"@, "user"@]),
        lookup_trimmed(m, seq!["16位授权码"@, "email_pass"@, "pass"@]),
        lookup_trimmed(m, seq!["接收邮件的邮箱"@, "email_to"@, "to"@]),
        lookup_trimmed(m, seq!["sender"@, "发件人"@]),
        lookup_trimmed(m, seq!["邮件服务器地址"@, "custom_smtp_server"@, "smtp_server"@]),
    )
}

fn strip_leading_boms(s: &str) -> (r: String)
    ensures
        r@ == strip_boms(s@),
{
    let v = chars_of(s);
    let mut i: usize = 0;
    assert(v@.subrange(0, v@.len() as int) =~= v@);
    while i < v.len() && v[i] == '\u{feff}'
        invariant
            i <= v@.len(),
            v@ == s@,
            strip_boms(s@) == strip_boms(v@.subrange(i as int, v@.len() as int)),
        decreases v.len() - i,
    {
        assert(v@.subrange(i as int, v@.len() as int).drop_first() =~= v@.subrange(i + 1, v@.len() as int));
        i = i + 1;
    }
    string_of(&v, i, v.len())
}

fn find_value(entries: &Vec<(String, String)>, key: &str) -> (r: Option<usize>)
    ensures
        r matches Some(i) ==> i < entries@.len() && entries@[i as int].0@ == key@,
        r is None ==> forall|i: int| 0 <= i < entries@.len() ==> entries@[i].0@ != key@,
{
    let mut i: usize = 0;
    while i < entries.len()
        invariant
            i <= entries@.len(),
            forall|j: int| 0 <= j < i ==> entries@[j].0@ != key@,
        decreases entries.len() - i,
    {
        if str_eq(entries[i].0.as_str(), key) {
            return Some(i);
        }
        i = i + 1;
    }
    None
}

fn lookup_trimmed_of(entries: &Vec<(String, String)>, keys: &[&str]) -> (r: Option<String>)
    ensures
        forall|m: Map<Seq<char>, Seq<char>>| lists_members(entries@, m) ==> opt_text(r) == #[trigger] lookup_trimmed(
            m,
            crate::checkin::key_views(keys@),
        ),
{
    let mut k: usize = 0;
    let ghost all = crate::checkin::key_views(keys@);
    assert(all.skip(0) =~= all);
    while k < keys.len()
        invariant
            k <= keys@.len(),
            all == crate::checkin::key_views(keys@),
            forall|m: Map<Seq<char>, Seq<char>>| lists_members(entries@, m) ==> #[trigger] lookup_trimmed(m, all)
                == lookup_trimmed(m, all.skip(k as int)),
        decreases keys.len() - k,
    {
        let ghost rest = all.skip(k as int);
        assert(rest[0] == keys@[k as int]@);
        assert(rest.drop_first() =~= all.skip(k + 1));
        match find_value(entries, keys[k]) {
            Some(i) => {
                let t = trim_str(entries[i].1.as_str());
                proof {
                    assert forall|m: Map<Seq<char>, Seq<char>>| lists_members(entries@, m) implies #[trigger] lookup_trimmed(m, all)
                        == Some(t@) by {
                        assert(m.contains_key(entries@[i as int].0@));
                    }
                }
                return Some(t);
            },
            None => {
                proof {
                    assert forall|m: Map<Seq<char>, Seq<char>>| lists_members(entries@, m) implies #[trigger] lookup_trimmed(m, all)
                        == lookup_trimmed(m, all.skip(k + 1)) by {
                        if m.contains_key(rest[0]) {
                            let j = choose|j: int| 0 <= j < entries@.len() && #[trigger] entries@[j].0@ == rest[0];
                            assert(entries@[j].0@ != keys@[k as int]@);
                        }
                    }
                }
            },
        }
        k = k + 1;
    }
    None
}

/// Reads the reference mail-settings file, whose body is a list of
/// `"label": "value"` members (a JSON object without its braces).  `None`
/// when the body is not such an object or names none of the settings.
pub fn parse_reference_email_config(content: &str) -> (r: Option<EmailFileConfig>)
    ensures
        match json_string_object(wrapped_reference(content@)) {
            None => r is None,
            Some(m) => {
                let f = reference_fields(m);
                if f.0 is None && f.1 is None && f.2 is None && f.3 is None && f.4 is None {
                    r is None
                } else {
                    r matches Some(c) && opt_text(c.user) == f.0 && opt_text(c.pass) == f.1 && opt_text(c.to)
                        == f.2 && opt_text(c.sender) == f.3 && opt_text(c.smtp_server) == f.4
                }
            },
        },
{
    let trimmed = trim_str(content);
    let body = strip_leading_boms(trimmed.as_str());
    let mut wrapped = lit("{");
    wrapped.append(body.as_str());
    wrapped.append("}");
    let entries = match decode_string_object(wrapped.as_str()) {
        Some(e) => e,
        None => return None,
    };
    let ghost m = json_string_object(wrapped_reference(content@))->0;
    let users = ["发送方邮箱", "email_user", "user"];
    assert(crate::checkin::key_views(users@) =~= seq!["发送方邮箱"@, "email_user"@, "user"@]);
    let passes = ["16位授权码", "email_pass", "pass"];
    assert(crate::checkin::key_views(passes@) =~= seq!["16位授权码"@, "email_pass"@, "pass"@]);
    let tos = ["接收邮件的邮箱", "email_to", "to"];
    assert(crate::checkin::key_views(tos@) =~= seq!["接收邮件的邮箱"@, "email_to"@, "to"@]);
    let senders = ["sender", "发件人"];
    assert(crate::checkin::key_views(senders@) =~= seq!["sender"@, "发件人"@]);
    let servers = ["邮件服务器地址", "custom_smtp_server", "smtp_server"];
    assert(crate::checkin::key_views(servers@) =~= seq!["邮件服务器地址"@, "custom_smtp_server"@, "smtp_server"@]);
    let config = EmailFileConfig {
        user: lookup_trimmed_of(&entries, &users),
        pass: lookup_trimmed_of(&entries, &passes),
        to: lookup_trimmed_of(&entries, &tos),
        sender: lookup_trimmed_of(&entries, &senders),
        smtp_server: lookup_trimmed_of(&entries, &servers),
    };
    if config.user.is_some() || config.pass.is_some() || config.to.is_some() || config.sender.is_some()
        || config.smtp_server.is_some() {
        Some(config)
    } else {
        None
    }
}

} // verus!
