//! The kinds of configuration source and their names.
use vstd::prelude::*;
use crate::text::{ascii_lower, trim, trim_start, trim_end, lower_char, chars_of, trim_str, str_eq, is_ws};

verus! {

/// A configuration source.
#[derive(Debug, Clone, Copy, PartialEq, Eq, Structural)]
pub enum SourceKind {
    Env,
    File,
    Sqlite,
}

/// A source of configuration.  Reading it (environment, file, database)
/// happens at the edge; each source decodes what it read through its own
/// verified functions.
pub trait ConfigSource {
    /// Which kind of source this is.
    fn kind(&self) -> SourceKind;
}

/// The name of a source kind.
pub open spec fn kind_name(k: SourceKind) -> Seq<char> {
    match k {
        SourceKind::Env => "env"@,
        SourceKind::File => "file"@,
        SourceKind::Sqlite => "sqlite"@,
    }
}

/// The source that a name denotes: case and surrounding whitespace are
/// ignored, and `db` is another name for `sqlite`.
///
/// Case is folded over ASCII letters; no other character lower-cases into
/// one of these names.
pub open spec fn parse_kind(s: Seq<char>) -> Option<SourceKind> {
    let k = ascii_lower(trim(s));
    if k == "env"@ {
        Some(SourceKind::Env)
    } else if k == "file"@ {
        Some(SourceKind::File)
    } else if k == "sqlite"@ || k == "db"@ {
        Some(SourceKind::Sqlite)
    } else {
        None
    }
}

/// `s` with ASCII upper-case letters lowered.
pub fn lower_ascii(s: &str) -> (r: String)
    ensures
        r@ == ascii_lower(s@),
{
    let v = chars_of(s);
    let mut r = String::new();
    let mut i: usize = 0;
    while i < v.len()
        invariant
            i <= v.len(),
            v@ == s@,
            r@ == ascii_lower(v@.subrange(0, i as int)),
        decreases v.len() - i,
    {
        let c = v[i];
        let d = if 'A' <= c && c <= 'Z' {
            let u = (c as u32) + 32;
            char_of(u)
        } else {
            c
        };
        r.push(d);
        i = i + 1;
        assert(ascii_lower(v@.subrange(0, i as int)) =~= ascii_lower(v@.subrange(0, i - 1)).push(lower_char(c)));
    }
    assert(v@.subrange(0, i as int) =~= v@);
    r
}

fn char_of(u: u32) -> (c: char)
    requires
        97 <= u <= 122,
    ensures
        c == u as char,
        c as u32 == u,
{
    let b = u as u8;
    b as char
}

impl SourceKind {
    /// Parses a source name (see `parse_kind`).
    pub fn parse(s: &str) -> (r: Option<Self>)
        ensures
            r == parse_kind(s@),
    {
        let t = trim_str(s);
        let k = lower_ascii(t.as_str());
        if str_eq(k.as_str(), "env") {
            Some(SourceKind::Env)
        } else if str_eq(k.as_str(), "file") {
            Some(SourceKind::File)
        } else if str_eq(k.as_str(), "sqlite") || str_eq(k.as_str(), "db") {
            Some(SourceKind::Sqlite)
        } else {
            None
        }
    }

    /// The canonical name.
    pub fn as_str(&self) -> (r: &'static str)
        ensures
            r@ == kind_name(*self),
    {
        match self {
            SourceKind::Env => "env",
            SourceKind::File => "file",
            SourceKind::Sqlite => "sqlite",
        }
    }
}

/// The canonical name of every kind parses back to that kind.
pub proof fn law_parse_inverts_as_str(k: SourceKind)
    ensures
        parse_kind(kind_name(k)) == Some(k),
{
    reveal_strlit("env");
    reveal_strlit("file");
    reveal_strlit("sqlite");
    reveal_strlit("db");
    let s = kind_name(k);
    assert(trim_start(s) == s);
    assert(trim_end(s) == s);
    assert(ascii_lower(s) =~= s);
}


proof fn lemma_trim_start_head(s: Seq<char>)
    ensures
        trim_start(s).len() > 0 ==> !is_ws(trim_start(s)[0]),
        trim_start(s).len() <= s.len(),
        trim_start(s) == s.skip(s.len() - trim_start(s).len()),
    decreases s.len(),
{
    if s.len() > 0 && is_ws(s[0]) {
        lemma_trim_start_head(s.drop_first());
        assert(s.drop_first().skip(s.drop_first().len() - trim_start(s.drop_first()).len())
            =~= s.skip(s.len() - trim_start(s).len()));
    } else {
        assert(s.skip(0) =~= s);
    }
}

proof fn lemma_trim_end_tail(s: Seq<char>)
    ensures
        trim_end(s).len() > 0 ==> !is_ws(trim_end(s).last()),
        trim_end(s) == s.take(trim_end(s).len() as int),
        trim_end(s).len() <= s.len(),
    decreases s.len(),
{
    if s.len() > 0 && is_ws(s.last()) {
        lemma_trim_end_tail(s.drop_last());
        assert(s.drop_last().take(trim_end(s).len() as int) =~= s.take(trim_end(s).len() as int));
    } else {
        assert(s.take(s.len() as int) =~= s);
    }
}

/// A trimmed text begins and ends with a non-whitespace character.
proof fn lemma_trim_ends(s: Seq<char>)
    ensures
        trim(s).len() > 0 ==> !is_ws(trim(s)[0]) && !is_ws(trim(s).last()),
{
    let t = trim_start(s);
    lemma_trim_start_head(s);
    lemma_trim_end_tail(t);
    if trim(s).len() > 0 {
        assert(trim(s)[0] == t[0]);
    }
}

/// A text that begins and ends with non-whitespace is its own trim.
proof fn lemma_trim_fixed(x: Seq<char>)
    requires
        x.len() > 0 ==> !is_ws(x[0]) && !is_ws(x.last()),
    ensures
        trim(x) == x,
{
    assert(trim_start(x) == x);
    assert(trim_end(x) == x);
}

/// ASCII lower-casing neither makes nor unmakes whitespace, and lowers a
/// lowered text to itself.
proof fn lemma_ascii_lower_props(t: Seq<char>)
    ensures
        ascii_lower(t).len() == t.len(),
        forall|i: int| 0 <= i < t.len() ==> is_ws(#[trigger] ascii_lower(t)[i]) == is_ws(t[i]),
        ascii_lower(ascii_lower(t)) == ascii_lower(t),
{
    assert forall|i: int| 0 <= i < t.len() implies is_ws(#[trigger] ascii_lower(t)[i]) == is_ws(t[i]) by {
        let c = t[i];
        if 'A' <= c && c <= 'Z' {
            assert(ascii_lower(t)[i] == lower_char(c));
            let u: u32 = ((c as u32) + 32) as u32;
            assert(0x61 <= u <= 0x7a);
            assert((u as char) as u32 == u);
        }
    }
    assert forall|i: int| 0 <= i < t.len() implies #[trigger] ascii_lower(ascii_lower(t))[i] == ascii_lower(t)[i] by {
        let c = t[i];
        if 'A' <= c && c <= 'Z' {
            let u: u32 = ((c as u32) + 32) as u32;
            assert(0x61 <= u <= 0x7a);
            assert((u as char) as u32 == u);
        }
    }
    assert(ascii_lower(ascii_lower(t)) =~= ascii_lower(t));
}

/// A source name is read ignoring surrounding whitespace and ASCII case:
/// the text names the same source as its trimmed, lower-cased form, and it
/// names one exactly when that form is `env`, `file`, `sqlite` or `db`.
pub proof fn law_parse_ignores_space_and_case(s: Seq<char>)
    ensures
        parse_kind(s) == parse_kind(ascii_lower(trim(s))),
        parse_kind(s) is Some <==> {
            let k = ascii_lower(trim(s));
            k == "env"@ || k == "file"@ || k == "sqlite"@ || k == "db"@
        },
{
    let t = trim(s);
    let k = ascii_lower(t);
    lemma_trim_ends(s);
    lemma_ascii_lower_props(t);
    if k.len() > 0 {
        assert(k[0] == ascii_lower(t)[0]);
        assert(k.last() == k[k.len() - 1]);
        assert(t.last() == t[t.len() - 1]);
    }
    lemma_trim_fixed(k);
}

} // verus!
