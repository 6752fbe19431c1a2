//! Text reports of a check-in run.
use vstd::prelude::*;
use crate::text::{trim, join, views, dec, dec_int, trim_str, join_strings, fmt_i64, fmt_u64, ascii_lower, contains, str_contains, str_eq, copy_string};
use crate::config_loader::source::lower_ascii;
use crate::json::JsonValue;
use crate::config_loader::types::lit;
use crate::playwright::{CookieReport, CookieReportEntry};

verus! {

/// `"true"` or `"false"`.
pub open spec fn bool_text(b: bool) -> Seq<char> {
    if b { "true"@ } else { "false"@ }
}

/// How long a cookie lives, as the report words it.
pub open spec fn lifetime_text(c: CookieReportEntry) -> Seq<char> {
    if c.is_session {
        "session cookie (no explicit expiry)"@
    } else if c.expires_at is Some {
        let at = c.expires_at->0@;
        match c.expires_in {
            Some(within) => if within@.len() > 0 {
                "expires at "@ + at + " ("@ + within@ + ")"@
            } else {
                "expires at "@ + at
            },
            None => "expires at "@ + at,
        }
    } else if c.max_age_seconds is Some {
        "max-age="@ + dec_int(c.max_age_seconds->0 as int) + "s"@
    } else {
        "expiry unknown"@
    }
}

/// `label=value` when the value is present and not empty.
pub open spec fn attr_if(label: Seq<char>, v: Option<String>) -> Seq<Seq<char>> {
    match v {
        Some(s) => if s@.len() > 0 { seq![label + s@] } else { Seq::empty() },
        None => Seq::empty(),
    }
}

/// The attributes listed for a cookie.
pub open spec fn cookie_attrs(c: CookieReportEntry) -> Seq<Seq<char>> {
    attr_if("source="@, c.source) + attr_if("domain="@, c.domain) + attr_if("path="@, c.path)
        + attr_if("sameSite="@, c.same_site)
        + seq!["secure="@ + bool_text(c.secure), "httpOnly="@ + bool_text(c.http_only)]
}

/// The report line of one cookie.
pub open spec fn cookie_line(c: CookieReportEntry) -> Seq<char> {
    "Cookie "@ + c.name@ + ": "@ + lifetime_text(c) + " ["@ + join(cookie_attrs(c), ", "@) + "]"@
}

/// The report line of each cookie, in order.
pub open spec fn cookie_lines(cs: Seq<CookieReportEntry>) -> Seq<Seq<char>>
    decreases cs.len(),
{
    if cs.len() == 0 {
        Seq::empty()
    } else {
        cookie_lines(cs.drop_last()).push(cookie_line(cs.last()))
    }
}

/// The trimmed note, when it is not blank.
pub open spec fn note_text(r: CookieReport) -> Option<Seq<char>> {
    match r.note {
        Some(n) => if trim(n@).len() > 0 { Some(trim(n@)) } else { None },
        None => None,
    }
}

/// Each cookie's report line ends with that cookie's own flags: `secure=`
/// and its secure flag, then `httpOnly=` and its HTTP-only flag, each
/// written `true` or `false`.
pub proof fn law_cookie_line_shows_own_flags(c: CookieReportEntry)
    ensures
        ("secure="@ + (if c.secure { "true"@ } else { "false"@ }) + ", "@ + "httpOnly="@
            + (if c.http_only { "true"@ } else { "false"@ }) + "]"@).is_suffix_of(cookie_line(c)),
{
    let attrs = cookie_attrs(c);
    let n = attrs.len();
    let p = attrs.subrange(0, n - 2);
    let x = attrs[n - 2];
    let y = attrs[n - 1];
    assert(attrs.drop_last().drop_last() =~= p);
    assert(attrs.drop_last().last() == x);
    let joined_front = if p.len() == 0 { Seq::<char>::empty() } else { join(p, ", "@) + ", "@ };
    assert(join(attrs.drop_last(), ", "@) == joined_front + x) by {
        if p.len() == 0 {
            assert(attrs.drop_last().len() == 1);
            assert(joined_front + x =~= x);
        } else {
            assert(join(attrs.drop_last(), ", "@) == join(p, ", "@) + ", "@ + x);
            assert(join(p, ", "@) + ", "@ + x =~= joined_front + x);
        }
    }
    assert(join(attrs, ", "@) == join(attrs.drop_last(), ", "@) + ", "@ + y);
    let head = "Cookie "@ + c.name@ + ": "@ + lifetime_text(c) + " ["@ + joined_front;
    let tail = "secure="@ + (if c.secure { "true"@ } else { "false"@ }) + ", "@ + "httpOnly="@
        + (if c.http_only { "true"@ } else { "false"@ }) + "]"@;
    assert(cookie_line(c) =~= head + tail);
    assert((head + tail).subrange(head.len() as int, (head + tail).len() as int) =~= tail);
}

/// The report of a login lists, among its lines, the line of each of its
/// cookies.
pub proof fn law_report_lists_each_cookie(r: CookieReport, i: int)
    requires
        0 <= i < r.cookies@.len(),
    ensures
        report_lines(r).contains(cookie_line(r.cookies@[i])),
{
    lemma_cookie_lines_at(r.cookies@, i);
    let front = (if r.request_cookie_names@.len() > 0 {
        seq!["Login request cookies: "@ + join(views(r.request_cookie_names@), ", "@)]
    } else {
        Seq::empty()
    }) + (if r.response_cookie_names@.len() > 0 {
        seq!["Login response Set-Cookie: "@ + join(views(r.response_cookie_names@), ", "@)]
    } else {
        Seq::empty()
    });
    let at = front.len() + i;
    assert(report_lines(r)[at] == cookie_lines(r.cookies@)[i]);
}

proof fn lemma_cookie_lines_at(cs: Seq<CookieReportEntry>, i: int)
    requires
        0 <= i < cs.len(),
    ensures
        cookie_lines(cs).len() == cs.len(),
        cookie_lines(cs)[i] == cookie_line(cs[i]),
    decreases cs.len(),
{
    if cs.len() > 1 {
        lemma_cookie_lines_at(cs.drop_last(), if i < cs.len() - 1 { i } else { 0 });
        if i < cs.len() - 1 {
            assert(cs.drop_last()[i] == cs[i]);
        }
    } else {
        assert(cookie_lines(cs.drop_last()).len() == 0);
    }
}

/// Whether the report carries nothing to show.
pub open spec fn report_is_blank(r: CookieReport) -> bool {
    r.request_cookie_names@.len() == 0 && r.response_cookie_names@.len() == 0 && r.cookies@.len() == 0
        && note_text(r) is None
}

/// The lines of a cookie report.
pub open spec fn report_lines(r: CookieReport) -> Seq<Seq<char>> {
    (if r.request_cookie_names@.len() > 0 {
        seq!["Login request cookies: "@ + join(views(r.request_cookie_names@), ", "@)]
    } else {
        Seq::empty()
    }) + (if r.response_cookie_names@.len() > 0 {
        seq!["Login response Set-Cookie: "@ + join(views(r.response_cookie_names@), ", "@)]
    } else {
        Seq::empty()
    }) + cookie_lines(r.cookies@) + match note_text(r) {
        Some(t) => seq!["Cookie note: "@ + t],
        None => Seq::empty(),
    }
}

fn bool_str(b: bool) -> (r: &'static str)
    ensures
        r@ == bool_text(b),
{
    if b { "true" } else { "false" }
}

fn push_attr(attrs: &mut Vec<String>, label: &str, v: &Option<String>)
    ensures
        views(final(attrs)@) == views(old(attrs)@) + attr_if(label@, *v),
{
    match v {
        Some(s) => {
            if !s.as_str().is_empty() {
                let mut t = lit(label);
                t.append(s.as_str());
                attrs.push(t);
                assert(views(attrs@) =~= views(old(attrs)@) + attr_if(label@, *v));
                return;
            }
        },
        None => {},
    }
    assert(views(attrs@) =~= views(old(attrs)@) + attr_if(label@, *v));
}

fn lifetime_of(c: &CookieReportEntry) -> (r: String)
    ensures
        r@ == lifetime_text(*c),
{
    if c.is_session {
        lit("session cookie (no explicit expiry)")
    } else {
        match &c.expires_at {
            Some(at) => {
                let mut r = lit("expires at ");
                r.append(at.as_str());
                match &c.expires_in {
                    Some(within) => {
                        if !within.as_str().is_empty() {
                            r.append(" (");
                            r.append(within.as_str());
                            r.append(")");
                        }
                    },
                    None => {},
                }
                r
            },
            None => match c.max_age_seconds {
                Some(m) => {
                    let mut r = lit("max-age=");
                    let n = fmt_i64(m);
                    r.append(n.as_str());
                    r.append("s");
                    r
                },
                None => lit("expiry unknown"),
            },
        }
    }
}

fn cookie_line_of(c: &CookieReportEntry) -> (r: String)
    ensures
        r@ == cookie_line(*c),
{
    let mut attrs: Vec<String> = Vec::new();
    push_attr(&mut attrs, "source=", &c.source);
    push_attr(&mut attrs, "domain=", &c.domain);
    push_attr(&mut attrs, "path=", &c.path);
    push_attr(&mut attrs, "sameSite=", &c.same_site);
    let ghost before = views(attrs@);
    let mut s = lit("secure=");
    s.append(bool_str(c.secure));
    attrs.push(s);
    let mut h = lit("httpOnly=");
    h.append(bool_str(c.http_only));
    attrs.push(h);
    assert(views(attrs@) =~= cookie_attrs(*c));
    let mut r = lit("Cookie ");
    r.append(c.name.as_str());
    r.append(": ");
    let life = lifetime_of(c);
    r.append(life.as_str());
    r.append(" [");
    let joined = join_strings(&attrs, ", ");
    r.append(joined.as_str());
    r.append("]");
    r
}

/// The cookie analysis of a login as log text; `None` when the report
/// carries nothing.
pub fn format_cookie_report(report: &CookieReport) -> (r: Option<String>)
    ensures
        match r {
            None => report_is_blank(*report),
            Some(t) => !report_is_blank(*report) && t@ == join(report_lines(*report), "\n"@),
        },
{
    let note = match &report.note {
        Some(n) => {
            let t = trim_str(n.as_str());
            if t.as_str().is_empty() { None } else { Some(t) }
        },
        None => None,
    };
    assert(match note { Some(t) => note_text(*report) == Some(t@), None => note_text(*report) is None });
    if report.request_cookie_names.len() == 0 && report.response_cookie_names.len() == 0
        && report.cookies.len() == 0 && note.is_none() {
        return None;
    }
    let mut lines: Vec<String> = Vec::new();
    if report.request_cookie_names.len() > 0 {
        let mut l = lit("Login request cookies: ");
        let j = join_strings(&report.request_cookie_names, ", ");
        l.append(j.as_str());
        lines.push(l);
    }
    if report.response_cookie_names.len() > 0 {
        let mut l = lit("Login response Set-Cookie: ");
        let j = join_strings(&report.response_cookie_names, ", ");
        l.append(j.as_str());
        lines.push(l);
    }
    let ghost head = views(lines@);
    assert(head =~= (if report.request_cookie_names@.len() > 0 {
        seq!["Login request cookies: "@ + join(views(report.request_cookie_names@), ", "@)]
    } else {
        Seq::empty()
    }) + (if report.response_cookie_names@.len() > 0 {
        seq!["Login response Set-Cookie: "@ + join(views(report.response_cookie_names@), ", "@)]
    } else {
        Seq::empty()
    }));
    let mut i: usize = 0;
    while i < report.cookies.len()
        invariant
            i <= report.cookies@.len(),
            views(lines@) == head + cookie_lines(report.cookies@.take(i as int)),
        decreases report.cookies@.len() - i,
    {
        let line = cookie_line_of(&report.cookies[i]);
        let ghost before = lines@;
        lines.push(line);
        proof {
            assert(views(lines@) =~= views(before).push(line@));
            assert(report.cookies@.take(i + 1).drop_last() =~= report.cookies@.take(i as int));
            assert(report.cookies@.take(i + 1).last() == report.cookies@[i as int]);
            assert(views(lines@) =~= head + cookie_lines(report.cookies@.take(i + 1)));
        }
        i = i + 1;
    }
    assert(report.cookies@.take(report.cookies@.len() as int) =~= report.cookies@);
    match note {
        Some(t) => {
            let mut l = lit("Cookie note: ");
            l.append(t.as_str());
            lines.push(l);
        },
        None => {},
    }
    assert(views(lines@) =~= report_lines(*report));
    Some(join_strings(&lines, "\n"))
}

// ---------------------------------------------------------------------------
// User summary from the `/api/user/self` reply
// ---------------------------------------------------------------------------

/// Equality of two keys ignoring ASCII case (`str::eq_ignore_ascii_case`).
pub open spec fn same_key(a: Seq<char>, b: Seq<char>) -> bool {
    ascii_lower(a) == ascii_lower(b)
}

/// Index of the first member whose key equals `key` ignoring ASCII case;
/// the member count when there is none.
pub open spec fn find_member(m: Seq<(String, JsonValue)>, key: Seq<char>) -> int
    decreases m.len(),
{
    if m.len() == 0 {
        0
    } else if same_key(m[0].0@, key) {
        0
    } else {
        1 + find_member(m.drop_first(), key)
    }
}

/// Keys that never appear in a summary: the balance fields, shown on their
/// own, and anything that looks like a credential.
pub open spec fn hidden_key(key: Seq<char>) -> bool {
    let k = ascii_lower(key);
    ||| k == "quota"@
    ||| k == "used_quota"@
    ||| k == "raw_quota"@
    ||| k == "raw_used_quota"@
    ||| contains(k, "token"@)
    ||| contains(k, "secret"@)
    ||| contains(k, "password"@)
    ||| contains(k, "passwd"@)
    ||| contains(k, "cookie"@)
    ||| contains(k, "session"@)
    ||| contains(k, "authorization"@)
    ||| contains(k, "auth"@)
    ||| contains(k, "api_key"@)
}

/// The display text of a JSON value: a non-blank string trimmed, a number
/// or boolean as printed, and for an object the text of its first member
/// among `name`, `title`, `label`, `id` that has one; nothing otherwise.
pub open spec fn summary_text(v: JsonValue) -> Option<Seq<char>>
    decreases v, 0int,
{
    match v {
        JsonValue::Str(s) => if trim(s@).len() == 0 {
            None
        } else {
            Some(trim(s@))
        },
        JsonValue::Number(n) => Some(n@),
        JsonValue::Bool(b) => Some(bool_text(b)),
        JsonValue::Object(m) => {
            let a = member_text(m@, "name"@);
            if a is Some {
                a
            } else {
                let b = member_text(m@, "title"@);
                if b is Some {
                    b
                } else {
                    let c = member_text(m@, "label"@);
                    if c is Some {
                        c
                    } else {
                        member_text(m@, "id"@)
                    }
                }
            }
        },
        _ => None,
    }
}

/// The display text of the member named `key` (ignoring ASCII case), if any.
pub open spec fn member_text(m: Seq<(String, JsonValue)>, key: Seq<char>) -> Option<Seq<char>>
    decreases m, 1int,
{
    let i = find_member(m, key);
    if 0 <= i < m.len() {
        summary_text(m[i].1)
    } else {
        None
    }
}

/// The field that the first usable key of `keys` gives: `label: text` and
/// the member's key lowered.  A key is usable when a member bears it, the
/// member is not hidden and its value has a display text.
pub open spec fn first_field(m: Seq<(String, JsonValue)>, label: Seq<char>, keys: Seq<Seq<char>>) -> Option<(Seq<char>, Seq<char>)>
    decreases keys.len(),
{
    if keys.len() == 0 {
        None
    } else {
        let i = find_member(m, keys[0]);
        if 0 <= i < m.len() && !hidden_key(m[i].0@) && summary_text(m[i].1) is Some {
            Some((label + ": "@ + summary_text(m[i].1)->0, ascii_lower(m[i].0@)))
        } else {
            first_field(m, label, keys.drop_first())
        }
    }
}

/// The summary parts and used keys after adding one labelled field.
pub open spec fn add_field(acc: (Seq<Seq<char>>, Seq<Seq<char>>), f: Option<(Seq<char>, Seq<char>)>) -> (Seq<Seq<char>>, Seq<Seq<char>>) {
    match f {
        Some(x) => (acc.0.push(x.0), acc.1.push(x.1)),
        None => acc,
    }
}

/// The six labelled fields, in order: ID, user name, e-mail, status, group, tier.
pub open spec fn labelled_fields(m: Seq<(String, JsonValue)>) -> (Seq<Seq<char>>, Seq<Seq<char>>) {
    let s0 = (Seq::<Seq<char>>::empty(), Seq::<Seq<char>>::empty());
    let s1 = add_field(s0, first_field(m, "ID"@, seq!["id"@, "user_id"@, "uid"@]));
    let s2 = add_field(s1, first_field(m, "用户名"@, seq!["username"@, "user_name"@, "name"@, "display_name"@, "nickname"@]));
    let s3 = add_field(s2, first_field(m, "邮箱"@, seq!["email"@]));
    let s4 = add_field(s3, first_field(m, "状态"@, seq!["status"@]));
    let s5 = add_field(s4, first_field(m, "分组"@, seq!["group"@, "group_name"@, "role"@]));
    add_field(s5, first_field(m, "等级"@, seq!["tier"@, "level"@]))
}

/// The parts after the remaining members, in order, fill the summary up to
/// six: each member not used yet, not hidden and with a display text adds
/// `key: text`.
pub open spec fn rest_fields(m: Seq<(String, JsonValue)>, parts: Seq<Seq<char>>, used: Seq<Seq<char>>) -> Seq<Seq<char>>
    decreases m.len(),
{
    if m.len() == 0 || parts.len() >= 6 {
        parts
    } else {
        let k = m[0].0@;
        let skip = used.contains(ascii_lower(k)) || hidden_key(k);
        let next = if !skip && summary_text(m[0].1) is Some {
            parts.push(k + ": "@ + summary_text(m[0].1)->0)
        } else {
            parts
        };
        rest_fields(m.drop_first(), next, used)
    }
}

/// The summary of a user record: its parts joined by ` | `, nothing when the
/// record is not an object or yields no part.
pub open spec fn user_summary(v: Option<JsonValue>) -> Option<Seq<char>> {
    match v {
        Some(JsonValue::Object(m)) => {
            let f = labelled_fields(m@);
            let parts = rest_fields(m@, f.0, f.1);
            if parts.len() == 0 {
                None
            } else {
                Some(join(parts, " | "@))
            }
        },
        _ => None,
    }
}

/// The characters of an optional string.
pub open spec fn opt_text(o: Option<String>) -> Option<Seq<char>> {
    match o {
        Some(s) => Some(s@),
        None => None,
    }
}

proof fn lemma_find_member_is(m: Seq<(String, JsonValue)>, key: Seq<char>, i: int)
    requires
        0 <= i <= m.len(),
        forall|j: int| 0 <= j < i ==> !same_key(#[trigger] m[j].0@, key),
        i < m.len() ==> same_key(m[i].0@, key),
    ensures
        find_member(m, key) == i,
    decreases i,
{
    if i > 0 {
        assert(!same_key(m[0].0@, key));
        assert forall|j: int| 0 <= j < i - 1 implies !same_key(#[trigger] m.drop_first()[j].0@, key) by {
            assert(m.drop_first()[j] == m[j + 1]);
        }
        if i < m.len() {
            assert(m.drop_first()[i - 1] == m[i]);
        }
        lemma_find_member_is(m.drop_first(), key, i - 1);
    }
}

/// Equality of two texts ignoring ASCII case.
fn eq_ignore_case(a: &str, b: &str) -> (r: bool)
    ensures
        r == same_key(a@, b@),
{
    let x = lower_ascii(a);
    let y = lower_ascii(b);
    str_eq(x.as_str(), y.as_str())
}

fn find_member_index(m: &Vec<(String, JsonValue)>, key: &str) -> (r: usize)
    ensures
        r as int == find_member(m@, key@),
        r <= m@.len(),
{
    let mut i: usize = 0;
    while i < m.len()
        invariant
            i <= m@.len(),
            forall|j: int| 0 <= j < i ==> !same_key(#[trigger] m@[j].0@, key@),
        decreases m.len() - i,
    {
        if eq_ignore_case(m[i].0.as_str(), key) {
            proof {
                lemma_find_member_is(m@, key@, i as int);
            }
            return i;
        }
        i = i + 1;
    }
    proof {
        lemma_find_member_is(m@, key@, i as int);
    }
    i
}

/// Whether a user-record key is kept out of summaries.
fn should_hide_user_info_key(key: &str) -> (r: bool)
    ensures
        r == hidden_key(key@),
{
    let lowered = lower_ascii(key);
    let k = lowered.as_str();
    str_eq(k, "quota") || str_eq(k, "used_quota") || str_eq(k, "raw_quota") || str_eq(k, "raw_used_quota")
        || str_contains(k, "token") || str_contains(k, "secret") || str_contains(k, "password")
        || str_contains(k, "passwd") || str_contains(k, "cookie") || str_contains(k, "session")
        || str_contains(k, "authorization") || str_contains(k, "auth") || str_contains(k, "api_key")
}

fn value_to_summary_text(value: &JsonValue) -> (r: Option<String>)
    ensures
        opt_text(r) == summary_text(*value),
    decreases *value, 0int,
{
    match value {
        JsonValue::Str(s) => {
            let t = trim_str(s.as_str());
            if t.as_str().is_empty() {
                None
            } else {
                Some(t)
            }
        },
        JsonValue::Number(n) => Some(copy_string(n)),
        JsonValue::Bool(b) => Some(lit(bool_str(*b))),
        JsonValue::Object(m) => {
            let a = member_text_of(m, "name");
            if a.is_some() {
                return a;
            }
            let b = member_text_of(m, "title");
            if b.is_some() {
                return b;
            }
            let c = member_text_of(m, "label");
            if c.is_some() {
                return c;
            }
            member_text_of(m, "id")
        },
        _ => None,
    }
}

fn member_text_of(m: &Vec<(String, JsonValue)>, key: &str) -> (r: Option<String>)
    ensures
        opt_text(r) == member_text(m@, key@),
    decreases m@, 1int,
{
    let i = find_member_index(m, key);
    if i < m.len() {
        value_to_summary_text(&m[i].1)
    } else {
        None
    }
}

/// The views of a list of key texts.
pub open spec fn key_views(keys: Seq<&str>) -> Seq<Seq<char>> {
    keys.map_values(|k: &str| k@)
}

fn push_first_field(
    parts: &mut Vec<String>,
    used_keys: &mut Vec<String>,
    m: &Vec<(String, JsonValue)>,
    label: &str,
    keys: &[&str],
)
    ensures
        (views(final(parts)@), views(final(used_keys)@)) == add_field(
            (views(old(parts)@), views(old(used_keys)@)),
            first_field(m@, label@, key_views(keys@)),
        ),
{
    let mut k: usize = 0;
    assert(key_views(keys@).skip(0) =~= key_views(keys@));
    while k < keys.len()
        invariant
            k <= keys@.len(),
            parts@ == old(parts)@,
            used_keys@ == old(used_keys)@,
            first_field(m@, label@, key_views(keys@)) == first_field(m@, label@, key_views(keys@).skip(k as int)),
        decreases keys.len() - k,
    {
        let ghost rest = key_views(keys@).skip(k as int);
        assert(rest[0] == keys@[k as int]@);
        assert(rest.drop_first() =~= key_views(keys@).skip(k + 1));
        let i = find_member_index(m, keys[k]);
        if i < m.len() {
            let (actual_key, value) = (&m[i].0, &m[i].1);
            if !should_hide_user_info_key(actual_key.as_str()) {
                match value_to_summary_text(value) {
                    Some(text) => {
                        let mut part = lit(label);
                        part.append(": ");
                        part.append(text.as_str());
                        parts.push(part);
                        used_keys.push(lower_ascii(actual_key.as_str()));
                        proof {
                            assert(views(parts@) =~= views(old(parts)@).push(label@ + ": "@ + text@));
                            assert(views(used_keys@) =~= views(old(used_keys)@).push(ascii_lower(m@[i as int].0@)));
                        }
                        return;
                    },
                    None => {},
                }
            }
        }
        k = k + 1;
    }
    assert(key_views(keys@).skip(k as int).len() == 0);
}

fn contains_text(v: &Vec<String>, t: &str) -> (r: bool)
    ensures
        r == views(v@).contains(t@),
{
    let mut i: usize = 0;
    while i < v.len()
        invariant
            i <= v@.len(),
            forall|j: int| 0 <= j < i ==> v@[j]@ != t@,
        decreases v.len() - i,
    {
        if str_eq(v[i].as_str(), t) {
            assert(views(v@)[i as int] == t@);
            return true;
        }
        i = i + 1;
    }
    assert forall|j: int| 0 <= j < views(v@).len() implies views(v@)[j] != t@ by {
        assert(views(v@)[j] == v@[j]@);
    }
    false
}

/// Summarises the `/api/user/self` record for logs and notifications: up to
/// six `label: value` parts joined by ` | `, labelled fields first (ID, user
/// name, e-mail, status, group, tier, each from the first usable of its
/// candidate keys), then other members in order, never a hidden key.
/// `None` when the record is not an object or yields nothing.
pub fn format_user_info_summary(user_info: Option<&JsonValue>) -> (r: Option<String>)
    ensures
        opt_text(r) == user_summary(
            match user_info {
                Some(v) => Some(*v),
                None => None,
            },
        ),
{
    let v = match user_info {
        Some(v) => v,
        None => return None,
    };
    let m = match v.as_object() {
        Some(m) => m,
        None => return None,
    };
    let mut parts: Vec<String> = Vec::new();
    let mut used_keys: Vec<String> = Vec::new();
    assert(views(parts@) =~= Seq::<Seq<char>>::empty());
    assert(views(used_keys@) =~= Seq::<Seq<char>>::empty());
    let ids = ["id", "user_id", "uid"];
    assert(ids@ =~= seq!["id", "user_id", "uid"]);
    push_first_field(&mut parts, &mut used_keys, m, "ID", &ids);
    assert(key_views(seq!["id", "user_id", "uid"]) =~= seq!["id"@, "user_id"@, "uid"@]);
    let names = ["username", "user_name", "name", "display_name", "nickname"];
    assert(names@ =~= seq!["username", "user_name", "name", "display_name", "nickname"]);
    push_first_field(&mut parts, &mut used_keys, m, "用户名", &names);
    assert(key_views(seq!["username", "user_name", "name", "display_name", "nickname"]) =~= seq!["username"@, "user_name"@, "name"@, "display_name"@, "nickname"@]);
    let emails = ["email"];
    assert(emails@ =~= seq!["email"]);
    push_first_field(&mut parts, &mut used_keys, m, "邮箱", &emails);
    assert(key_views(seq!["email"]) =~= seq!["email"@]);
    let statuses = ["status"];
    assert(statuses@ =~= seq!["status"]);
    push_first_field(&mut parts, &mut used_keys, m, "状态", &statuses);
    assert(key_views(seq!["status"]) =~= seq!["status"@]);
    let groups = ["group", "group_name", "role"];
    assert(groups@ =~= seq!["group", "group_name", "role"]);
    push_first_field(&mut parts, &mut used_keys, m, "分组", &groups);
    assert(key_views(seq!["group", "group_name", "role"]) =~= seq!["group"@, "group_name"@, "role"@]);
    let tiers = ["tier", "level"];
    assert(tiers@ =~= seq!["tier", "level"]);
    push_first_field(&mut parts, &mut used_keys, m, "等级", &tiers);
    assert(key_views(seq!["tier", "level"]) =~= seq!["tier"@, "level"@]);
    let ghost f = labelled_fields(m@);
    assert(views(parts@) == f.0 && views(used_keys@) == f.1);
    let ghost used = f.1;
    let mut i: usize = 0;
    assert(m@.skip(0) =~= m@);
    while i < m.len() && parts.len() < 6
        invariant
            i <= m@.len(),
            views(used_keys@) == used,
            rest_fields(m@, f.0, used) == rest_fields(m@.skip(i as int), views(parts@), used),
        decreases m.len() - i,
    {
        let ghost rest = m@.skip(i as int);
        assert(rest[0] == m@[i as int]);
        assert(rest.drop_first() =~= m@.skip(i + 1));
        let key = &m[i].0;
        let lowered = lower_ascii(key.as_str());
        if !contains_text(&used_keys, lowered.as_str()) && !should_hide_user_info_key(key.as_str()) {
            match value_to_summary_text(&m[i].1) {
                Some(text) => {
                    let mut part = copy_string(key);
                    part.append(": ");
                    part.append(text.as_str());
                    let ghost before = views(parts@);
                    parts.push(part);
                    assert(views(parts@) =~= before.push(key@ + ": "@ + text@));
                },
                None => {},
            }
        }
        i = i + 1;
    }
    let ghost done = rest_fields(m@, f.0, used);
    assert(done == views(parts@)) by {
        if i == m.len() {
            assert(m@.skip(i as int).len() == 0);
        }
        assert(views(parts@).len() == parts@.len());
    }
    if parts.len() == 0 {
        None
    } else {
        Some(join_strings(&parts, " | "))
    }
}

// ---------------------------------------------------------------------------
// E-mail report of a check-in run
// ---------------------------------------------------------------------------

/// Which way an amount points, as the comparisons `> 0` and `< 0` of the
/// underlying floating-point number decide (`Unordered` for a number that compares with
/// nothing, such as NaN).
#[derive(Debug, Clone, Copy, PartialEq, Eq, Structural)]
pub enum Direction {
    Up,
    Down,
    Zero,
    Unordered,
}

/// A dollar amount as the report shows it: the amount printed with two
/// decimals, its magnitude printed with two decimals, and its direction.
#[derive(Debug, Clone)]
pub struct Amount {
    pub text: String,
    pub magnitude: String,
    pub direction: Direction,
}

/// The balance of an account at one moment.
#[derive(Debug, Clone)]
pub struct BalanceSnapshot {
    pub quota: Amount,
    pub used_quota: Amount,
}

/// How a check-in moved an account's balance.
#[derive(Debug, Clone)]
pub struct BalanceChangeSummary {
    pub check_in_reward: Amount,
    pub usage_increase: Amount,
    pub balance_change: Amount,
}

/// One account's block in the e-mail report.
#[derive(Debug, Clone)]
pub struct CheckInReportItem {
    pub name: String,
    pub success: bool,
    pub user_info: Option<String>,
    pub before: Option<BalanceSnapshot>,
    pub after: Option<BalanceSnapshot>,
    pub balance_change: Option<BalanceChangeSummary>,
    pub error: Option<String>,
}

impl BalanceSnapshot {
    pub fn new(quota: Amount, used_quota: Amount) -> (r: Self)
        ensures
            r.quota == quota,
            r.used_quota == used_quota,
    {
        BalanceSnapshot { quota, used_quota }
    }
}

impl BalanceChangeSummary {
    pub fn new(check_in_reward: Amount, usage_increase: Amount, balance_change: Amount) -> (r: Self)
        ensures
            r.check_in_reward == check_in_reward,
            r.usage_increase == usage_increase,
            r.balance_change == balance_change,
    {
        BalanceChangeSummary { check_in_reward, usage_increase, balance_change }
    }
}

impl CheckInReportItem {
    /// An item with only a name and an outcome.
    pub fn new(name: String, success: bool) -> (r: Self)
        ensures
            r.name == name,
            r.success == success,
            r.user_info is None,
            r.before is None,
            r.after is None,
            r.balance_change is None,
            r.error is None,
    {
        CheckInReportItem {
            name,
            success,
            user_info: None,
            before: None,
            after: None,
            balance_change: None,
            error: None,
        }
    }

    pub fn set_name(&mut self, value: String) -> (r: &mut Self)
        ensures
            *r == (CheckInReportItem { name: value, ..*old(self) }),
            *final(self) == *final(r),
    {
        self.name = value;
        self
    }

    pub fn set_success(&mut self, value: bool) -> (r: &mut Self)
        ensures
            *r == (CheckInReportItem { success: value, ..*old(self) }),
            *final(self) == *final(r),
    {
        self.success = value;
        self
    }

    pub fn set_user_info(&mut self, value: Option<String>) -> (r: &mut Self)
        ensures
            *r == (CheckInReportItem { user_info: value, ..*old(self) }),
            *final(self) == *final(r),
    {
        self.user_info = value;
        self
    }

    pub fn set_before(&mut self, value: Option<BalanceSnapshot>) -> (r: &mut Self)
        ensures
            *r == (CheckInReportItem { before: value, ..*old(self) }),
            *final(self) == *final(r),
    {
        self.before = value;
        self
    }

    pub fn set_after(&mut self, value: Option<BalanceSnapshot>) -> (r: &mut Self)
        ensures
            *r == (CheckInReportItem { after: value, ..*old(self) }),
            *final(self) == *final(r),
    {
        self.after = value;
        self
    }

    pub fn set_balance_change(&mut self, value: Option<BalanceChangeSummary>) -> (r: &mut Self)
        ensures
            *r == (CheckInReportItem { balance_change: value, ..*old(self) }),
            *final(self) == *final(r),
    {
        self.balance_change = value;
        self
    }

    pub fn set_error(&mut self, value: Option<String>) -> (r: &mut Self)
        ensures
            *r == (CheckInReportItem { error: value, ..*old(self) }),
            *final(self) == *final(r),
    {
        self.error = value;
        self
    }
}

/// A balance snapshot as the report words it.
pub open spec fn snapshot_text(s: Option<BalanceSnapshot>) -> Seq<char> {
    match s {
        Some(x) => "余额 $"@ + x.quota.text@ + " | 累计消耗 $"@ + x.used_quota.text@,
        None => "未获取"@,
    }
}

/// A signed change line: `+$` or `-$` and the magnitude, `$0.00` otherwise.
pub open spec fn money_change_text(label: Seq<char>, a: Amount) -> Seq<char> {
    match a.direction {
        Direction::Up => label + ": +$"@ + a.magnitude@,
        Direction::Down => label + ": -$"@ + a.magnitude@,
        _ => label + ": $0.00"@,
    }
}

/// A trimmed non-blank optional text.
pub open spec fn filled(t: Option<String>) -> Option<Seq<char>> {
    match t {
        Some(x) => if trim(x@).len() > 0 {
            Some(trim(x@))
        } else {
            None
        },
        None => None,
    }
}

/// The lines of one account's block.
pub open spec fn item_lines(index: nat, total: nat, item: CheckInReportItem) -> Seq<Seq<char>> {
    let head = seq![
        "账号 "@ + dec(index + 1) + "/"@ + dec(total) + ": "@ + item.name@,
        "状态: "@ + if item.success {
            "签到成功"@
        } else {
            "签到失败"@
        },
    ];
    let info = match filled(item.user_info) {
        Some(u) => seq!["用户信息: "@ + u],
        None => Seq::empty(),
    };
    let err = if item.success {
        Seq::empty()
    } else {
        seq![
            "失败信息: "@ + match filled(item.error) {
                Some(e) => e,
                None => "未知错误"@,
            },
        ]
    };
    let balances = seq!["签到前: "@ + snapshot_text(item.before), "签到后: "@ + snapshot_text(item.after)];
    let change = match item.balance_change {
        Some(c) => seq![money_change_text("签到获得"@, c.check_in_reward)] + (if c.usage_increase.direction
            != Direction::Zero {
            seq!["期间消耗: $"@ + c.usage_increase.text@]
        } else {
            Seq::empty()
        }) + seq![money_change_text("余额变化"@, c.balance_change)],
        None => seq!["余额变化: 无法计算"@],
    };
    head + info + err + balances + change
}

/// One account's block as text.
pub open spec fn item_text(index: nat, total: nat, item: CheckInReportItem) -> Seq<char> {
    join(item_lines(index, total, item), "\n"@)
}

/// Whenever an account's user info is not blank, its block shows it, trimmed,
/// on the line after the status: `用户信息: ` and the user info, whether the
/// check-in succeeded or failed.
pub proof fn law_report_item_shows_user_info(index: nat, total: nat, item: CheckInReportItem)
    requires
        item.user_info is Some,
        trim(item.user_info->0@).len() > 0,
    ensures
        item_lines(index, total, item).len() > 2,
        item_lines(index, total, item)[2] == "用户信息: "@ + trim(item.user_info->0@),
{
}

/// How many of the items report a successful check-in.
pub open spec fn success_count(items: Seq<CheckInReportItem>) -> nat
    decreases items.len(),
{
    if items.len() == 0 {
        0
    } else {
        success_count(items.drop_last()) + if items.last().success {
            1nat
        } else {
            0nat
        }
    }
}

/// The blocks of the first items, separated by empty lines.
pub open spec fn item_blocks(items: Seq<CheckInReportItem>, total: nat) -> Seq<Seq<char>>
    decreases items.len(),
{
    if items.len() == 0 {
        Seq::empty()
    } else {
        let n = (items.len() - 1) as nat;
        item_blocks(items.drop_last(), total) + (if n > 0 {
            seq![Seq::<char>::empty()]
        } else {
            Seq::empty()
        }) + seq![item_text(n, total, items.last())]
    }
}

/// The lines of the whole e-mail report.
pub open spec fn email_report_lines(executed_at: Seq<char>, items: Seq<CheckInReportItem>) -> Seq<Seq<char>> {
    let total = items.len();
    let ok = success_count(items);
    let failed = (total - ok) as nat;
    seq![
        "AnyRouter 签到报告"@,
        "===================="@,
        "执行时间: "@ + executed_at,
        "账户总数: "@ + dec(total),
        "成功: "@ + dec(ok) + "/"@ + dec(total),
        "失败: "@ + dec(failed) + "/"@ + dec(total),
        Seq::empty(),
        "账号明细"@,
        "--------"@,
    ] + if items.len() == 0 {
        seq!["无账号结果。"@]
    } else {
        item_blocks(items, total)
    }
}

proof fn lemma_success_count_bound(items: Seq<CheckInReportItem>)
    ensures
        success_count(items) <= items.len(),
    decreases items.len(),
{
    if items.len() > 0 {
        lemma_success_count_bound(items.drop_last());
    }
}

fn snapshot_of(s: &Option<BalanceSnapshot>) -> (r: String)
    ensures
        r@ == snapshot_text(*s),
{
    match s {
        Some(x) => {
            let mut r = lit("余额 $");
            r.append(x.quota.text.as_str());
            r.append(" | 累计消耗 $");
            r.append(x.used_quota.text.as_str());
            r
        },
        None => lit("未获取"),
    }
}

fn money_change_of(label: &str, a: &Amount) -> (r: String)
    ensures
        r@ == money_change_text(label@, *a),
{
    let mut r = lit(label);
    match a.direction {
        Direction::Up => {
            r.append(": +$");
            r.append(a.magnitude.as_str());
        },
        Direction::Down => {
            r.append(": -$");
            r.append(a.magnitude.as_str());
        },
        _ => {
            r.append(": $0.00");
        },
    }
    r
}

fn filled_of(t: &Option<String>) -> (r: Option<String>)
    ensures
        opt_text(r) == filled(*t),
{
    match t {
        Some(x) => {
            let y = trim_str(x.as_str());
            if y.as_str().is_empty() {
                None
            } else {
                Some(y)
            }
        },
        None => None,
    }
}

/// One account's block of the e-mail report: its position and name, its
/// outcome, user summary and error where present, balances before and after,
/// and the changes (or that they could not be computed).
pub fn format_check_in_report_item(index: usize, total: usize, item: &CheckInReportItem) -> (r: String)
    requires
        index < usize::MAX,
    ensures
        r@ == item_text(index as nat, total as nat, *item),
{
    let mut lines: Vec<String> = Vec::new();
    let mut head = lit("账号 ");
    let pos = fmt_u64((index + 1) as u64);
    head.append(pos.as_str());
    head.append("/");
    let all = fmt_u64(total as u64);
    head.append(all.as_str());
    head.append(": ");
    head.append(item.name.as_str());
    lines.push(head);
    let mut state = lit("状态: ");
    state.append(if item.success { "签到成功" } else { "签到失败" });
    lines.push(state);
    let ghost l0 = views(lines@);
    match filled_of(&item.user_info) {
        Some(u) => {
            let mut l = lit("用户信息: ");
            l.append(u.as_str());
            lines.push(l);
        },
        None => {},
    }
    let ghost l1 = views(lines@);
    if !item.success {
        let mut l = lit("失败信息: ");
        match filled_of(&item.error) {
            Some(e) => l.append(e.as_str()),
            None => l.append("未知错误"),
        }
        lines.push(l);
    }
    let ghost l2 = views(lines@);
    let mut b = lit("签到前: ");
    let before = snapshot_of(&item.before);
    b.append(before.as_str());
    lines.push(b);
    let mut a = lit("签到后: ");
    let after = snapshot_of(&item.after);
    a.append(after.as_str());
    lines.push(a);
    let ghost l3 = views(lines@);
    match &item.balance_change {
        Some(c) => {
            lines.push(money_change_of("签到获得", &c.check_in_reward));
            if c.usage_increase.direction != Direction::Zero {
                let mut l = lit("期间消耗: $");
                l.append(c.usage_increase.text.as_str());
                lines.push(l);
            }
            lines.push(money_change_of("余额变化", &c.balance_change));
        },
        None => {
            lines.push(lit("余额变化: 无法计算"));
        },
    }
    assert(views(lines@) =~= item_lines(index as nat, total as nat, *item));
    join_strings(&lines, "\n")
}

/// The whole e-mail report: a header with the run time and the success and
/// failure counts, then every account's block in order, separated by empty
/// lines (or a note that there are none).
pub fn format_check_in_email_report(executed_at: &str, items: &[CheckInReportItem]) -> (r: String)
    ensures
        r@ == join(email_report_lines(executed_at@, items@), "\n"@),
{
    let total = items.len();
    let mut success: usize = 0;
    let mut i: usize = 0;
    while i < items.len()
        invariant
            i <= items@.len(),
            success == success_count(items@.take(i as int)),
            success <= i,
        decreases items.len() - i,
    {
        assert(items@.take(i + 1).drop_last() =~= items@.take(i as int));
        if items[i].success {
            success = success + 1;
        }
        i = i + 1;
    }
    assert(items@.take(items@.len() as int) =~= items@);
    let failed = total - success;
    let mut lines: Vec<String> = Vec::new();
    lines.push(lit("AnyRouter 签到报告"));
    lines.push(lit("===================="));
    let mut l = lit("执行时间: ");
    l.append(executed_at);
    lines.push(l);
    let mut l = lit("账户总数: ");
    let t = fmt_u64(total as u64);
    l.append(t.as_str());
    lines.push(l);
    let mut l = lit("成功: ");
    let s = fmt_u64(success as u64);
    l.append(s.as_str());
    l.append("/");
    l.append(t.as_str());
    lines.push(l);
    let mut l = lit("失败: ");
    let f = fmt_u64(failed as u64);
    l.append(f.as_str());
    l.append("/");
    l.append(t.as_str());
    lines.push(l);
    lines.push(String::new());
    lines.push(lit("账号明细"));
    lines.push(lit("--------"));
    let ghost header = views(lines@);
    if items.len() == 0 {
        lines.push(lit("无账号结果。"));
    } else {
        let mut k: usize = 0;
        while k < items.len()
            invariant
                k <= items@.len(),
                total == items@.len(),
                views(lines@) == header + item_blocks(items@.take(k as int), total as nat),
            decreases items.len() - k,
        {
            let ghost before = views(lines@);
            if k > 0 {
                let e = String::new();
                assert(e@ =~= Seq::<char>::empty());
                lines.push(e);
            }
            let ghost mid = views(lines@);
            assert(mid =~= before + (if k > 0 {
                seq![Seq::<char>::empty()]
            } else {
                Seq::<Seq<char>>::empty()
            }));
            let block = format_check_in_report_item(k, total, &items[k]);
            lines.push(block);
            proof {
                let t = items@.take(k + 1);
                assert(t.drop_last() =~= items@.take(k as int));
                assert(t.last() == items@[k as int]);
                assert(views(lines@) =~= mid.push(block@));
                assert(item_blocks(t, total as nat) == item_blocks(items@.take(k as int), total as nat) + (if k > 0 {
                    seq![Seq::<char>::empty()]
                } else {
                    Seq::<Seq<char>>::empty()
                }) + seq![item_text(k as nat, total as nat, items@[k as int])]);
                assert(views(lines@) =~= header + item_blocks(t, total as nat));
            }
            k = k + 1;
        }
        assert(items@.take(items@.len() as int) =~= items@);
    }
    assert(views(lines@) =~= email_report_lines(executed_at@, items@));
    join_strings(&lines, "\n")
}


/// The parts of the summary of a user object, before joining.
pub open spec fn summary_parts(m: Seq<(String, JsonValue)>) -> Seq<Seq<char>> {
    rest_fields(m, labelled_fields(m).0, labelled_fields(m).1)
}

/// Two user objects with the same keys in the same order whose values
/// differ only under hidden keys.
pub open spec fn differ_only_in_hidden(m1: Seq<(String, JsonValue)>, m2: Seq<(String, JsonValue)>) -> bool {
    &&& m1.len() == m2.len()
    &&& forall|i: int| 0 <= i < m1.len() ==> (#[trigger] m1[i]).0@ == m2[i].0@
    &&& forall|i: int| 0 <= i < m1.len() && !hidden_key(m1[i].0@) ==> (#[trigger] m1[i]).1 == m2[i].1
}

proof fn lemma_find_member_same(m1: Seq<(String, JsonValue)>, m2: Seq<(String, JsonValue)>, key: Seq<char>)
    requires
        differ_only_in_hidden(m1, m2),
    ensures
        find_member(m1, key) == find_member(m2, key),
        0 <= find_member(m1, key) <= m1.len(),
    decreases m1.len(),
{
    if m1.len() > 0 {
        assert(m1[0].0@ == m2[0].0@);
        lemma_drop_first_differ(m1, m2);
        lemma_find_member_same(m1.drop_first(), m2.drop_first(), key);
    }
}

proof fn lemma_drop_first_differ(m1: Seq<(String, JsonValue)>, m2: Seq<(String, JsonValue)>)
    requires
        differ_only_in_hidden(m1, m2),
        m1.len() > 0,
    ensures
        differ_only_in_hidden(m1.drop_first(), m2.drop_first()),
{
    let a = m1.drop_first();
    let b = m2.drop_first();
    assert forall|i: int| 0 <= i < a.len() implies (#[trigger] a[i]).0@ == b[i].0@ by {
        assert(a[i] == m1[i + 1]);
        assert(b[i] == m2[i + 1]);
    }
    assert forall|i: int| 0 <= i < a.len() && !hidden_key(a[i].0@) implies (#[trigger] a[i]).1 == b[i].1 by {
        assert(a[i] == m1[i + 1]);
        assert(b[i] == m2[i + 1]);
    }
}

proof fn lemma_first_field_same(m1: Seq<(String, JsonValue)>, m2: Seq<(String, JsonValue)>, label: Seq<char>, keys: Seq<Seq<char>>)
    requires
        differ_only_in_hidden(m1, m2),
    ensures
        first_field(m1, label, keys) == first_field(m2, label, keys),
    decreases keys.len(),
{
    if keys.len() > 0 {
        lemma_find_member_same(m1, m2, keys[0]);
        let i = find_member(m1, keys[0]);
        if 0 <= i < m1.len() {
            assert(m1[i].0@ == m2[i].0@);
        }
        lemma_first_field_same(m1, m2, label, keys.drop_first());
    }
}

proof fn lemma_rest_same(m1: Seq<(String, JsonValue)>, m2: Seq<(String, JsonValue)>, parts: Seq<Seq<char>>, used: Seq<Seq<char>>)
    requires
        differ_only_in_hidden(m1, m2),
    ensures
        rest_fields(m1, parts, used) == rest_fields(m2, parts, used),
    decreases m1.len(),
{
    if m1.len() > 0 && parts.len() < 6 {
        assert(m1[0].0@ == m2[0].0@);
        lemma_drop_first_differ(m1, m2);
        let k = m1[0].0@;
        let skip = used.contains(ascii_lower(k)) || hidden_key(k);
        let next = if !skip && summary_text(m1[0].1) is Some {
            parts.push(k + ": "@ + summary_text(m1[0].1)->0)
        } else {
            parts
        };
        if !hidden_key(k) {
            assert(m1[0].1 == m2[0].1);
        }
        lemma_rest_same(m1.drop_first(), m2.drop_first(), next, used);
    }
}

proof fn lemma_rest_len(m: Seq<(String, JsonValue)>, parts: Seq<Seq<char>>, used: Seq<Seq<char>>)
    requires
        parts.len() <= 6,
    ensures
        rest_fields(m, parts, used).len() <= 6,
    decreases m.len(),
{
    if m.len() > 0 && parts.len() < 6 {
        let k = m[0].0@;
        let skip = used.contains(ascii_lower(k)) || hidden_key(k);
        let next = if !skip && summary_text(m[0].1) is Some {
            parts.push(k + ": "@ + summary_text(m[0].1)->0)
        } else {
            parts
        };
        lemma_rest_len(m.drop_first(), next, used);
    }
}

/// The summary of a user object joins at most six parts with ` | `, and the
/// values under hidden keys (balances and anything that looks like a
/// credential) never reach it: two objects that differ only there have the
/// same summary.
pub proof fn law_user_summary_hides_and_caps(u1: Vec<(String, JsonValue)>, u2: Vec<(String, JsonValue)>)
    requires
        differ_only_in_hidden(u1@, u2@),
    ensures
        summary_parts(u1@).len() <= 6,
        user_summary(Some(JsonValue::Object(u1))) is Some ==> user_summary(Some(JsonValue::Object(u1)))
            == Some(join(summary_parts(u1@), " | "@)),
        summary_parts(u1@) == summary_parts(u2@),
        user_summary(Some(JsonValue::Object(u1))) == user_summary(Some(JsonValue::Object(u2))),
{
    let m1 = u1@;
    let m2 = u2@;
    lemma_first_field_same(m1, m2, "ID"@, seq!["id"@, "user_id"@, "uid"@]);
    lemma_first_field_same(m1, m2, "用户名"@, seq!["username"@, "user_name"@, "name"@, "display_name"@, "nickname"@]);
    lemma_first_field_same(m1, m2, "邮箱"@, seq!["email"@]);
    lemma_first_field_same(m1, m2, "状态"@, seq!["status"@]);
    lemma_first_field_same(m1, m2, "分组"@, seq!["group"@, "group_name"@, "role"@]);
    lemma_first_field_same(m1, m2, "等级"@, seq!["tier"@, "level"@]);
    assert(labelled_fields(m1) == labelled_fields(m2));
    assert(labelled_fields(m1).0.len() <= 6);
    lemma_rest_same(m1, m2, labelled_fields(m1).0, labelled_fields(m1).1);
    lemma_rest_len(m1, labelled_fields(m1).0, labelled_fields(m1).1);
}

} // verus!
