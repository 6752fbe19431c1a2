//! Command-line selection of configuration sources:
//! `--sources env,file,sqlite` names the sources and their order,
//! `--skip-source <name>` (repeatable) leaves one out; by default all three
//! are read in the order env, file, sqlite.
use vstd::prelude::*;
use crate::text::{split_on, split_pieces, str_eq};
use crate::config_loader::source::{SourceKind, parse_kind};

verus! {

/// The kinds named by `parts`, unknown names dropped.
pub open spec fn kinds_of(parts: Seq<Seq<char>>) -> Seq<SourceKind>
    decreases parts.len(),
{
    if parts.len() == 0 {
        Seq::empty()
    } else {
        let rest = kinds_of(parts.drop_last());
        match parse_kind(parts.last()) {
            Some(k) => rest.push(k),
            None => rest,
        }
    }
}

/// Reads the arguments from position `i`, given the explicit list and the
/// skipped kinds seen so far.
pub open spec fn scan_args(args: Seq<Seq<char>>, i: int, explicit: Option<Seq<SourceKind>>, skip: Seq<SourceKind>) -> (Option<Seq<SourceKind>>, Seq<SourceKind>)
    decreases args.len() - i,
{
    if i < 0 || i >= args.len() {
        (explicit, skip)
    } else if args[i] == "--sources"@ {
        if i + 1 < args.len() {
            let list = kinds_of(split_on(args[i + 1], ','));
            scan_args(args, i + 2, if list.len() > 0 { Some(list) } else { explicit }, skip)
        } else {
            (explicit, skip)
        }
    } else if args[i] == "--skip-source"@ {
        if i + 1 < args.len() {
            scan_args(args, i + 2, explicit, match parse_kind(args[i + 1]) { Some(k) => skip.push(k), None => skip })
        } else {
            (explicit, skip)
        }
    } else {
        scan_args(args, i + 1, explicit, skip)
    }
}

/// The default order of the sources.
pub open spec fn default_sources() -> Seq<SourceKind> {
    seq![SourceKind::Env, SourceKind::File, SourceKind::Sqlite]
}

/// The sources the arguments select, in order.
pub open spec fn selected_sources(args: Seq<Seq<char>>) -> Seq<SourceKind> {
    let (explicit, skip) = scan_args(args, 0, None, Seq::empty());
    let base = match explicit { Some(l) => l, None => default_sources() };
    base.filter(|k: SourceKind| !skip.contains(k))
}

/// The view of an optional list.
pub open spec fn opt_seq(o: Option<Vec<SourceKind>>) -> Option<Seq<SourceKind>> {
    match o {
        Some(l) => Some(l@),
        None => None,
    }
}

pub(crate) fn kinds_in(val: &String) -> (r: Vec<SourceKind>)
    ensures
        r@ == kinds_of(split_on(val@, ',')),
{
    let parts = split_pieces(val.as_str(), ',');
    let ghost ps = parts@.map_values(|p: String| p@);
    let mut out: Vec<SourceKind> = Vec::new();
    let mut i: usize = 0;
    while i < parts.len()
        invariant
            i <= parts@.len(),
            ps == parts@.map_values(|p: String| p@),
            out@ == kinds_of(ps.take(i as int)),
        decreases parts@.len() - i,
    {
        assert(ps.take(i + 1).drop_last() =~= ps.take(i as int));
        match SourceKind::parse(parts[i].as_str()) {
            Some(k) => out.push(k),
            None => {},
        }
        i = i + 1;
    }
    assert(ps.take(parts@.len() as int) =~= ps);
    out
}

fn contains_kind(v: &Vec<SourceKind>, k: SourceKind) -> (r: bool)
    ensures
        r == v@.contains(k),
{
    let mut i: usize = 0;
    while i < v.len()
        invariant
            i <= v@.len(),
            forall|j: int| 0 <= j < i ==> v@[j] != k,
        decreases v@.len() - i,
    {
        if v[i] == k {
            return true;
        }
        i = i + 1;
    }
    false
}

/// The configuration sources selected by the command-line arguments
/// (program name excluded).
pub fn parse_sources(args: Vec<String>) -> (r: Vec<SourceKind>)
    ensures
        r@ == selected_sources(args@.map_values(|a: String| a@)),
{
    let ghost av = args@.map_values(|a: String| a@);
    let mut explicit: Option<Vec<SourceKind>> = None;
    let mut skip: Vec<SourceKind> = Vec::new();
    let n = args.len();
    let mut i: usize = 0;
    while i < n
        invariant
            n == args@.len(),
            av == args@.map_values(|a: String| a@),
            i <= n + 1,
            scan_args(av, 0, None, Seq::empty()) == scan_args(av, i as int, opt_seq(explicit), skip@),
        decreases n + 1 - i,
    {
        if str_eq(args[i].as_str(), "--sources") {
            if i + 1 < n {
                let list = kinds_in(&args[i + 1]);
                if list.len() > 0 {
                    explicit = Some(list);
                }
                i = i + 2;
            } else {
                i = n;
            }
        } else if str_eq(args[i].as_str(), "--skip-source") {
            if i + 1 < n {
                match SourceKind::parse(args[i + 1].as_str()) {
                    Some(k) => skip.push(k),
                    None => {},
                }
                i = i + 2;
            } else {
                i = n;
            }
        } else {
            i = i + 1;
        }
    }
    let base = match explicit {
        Some(l) => l,
        None => {
            let mut d: Vec<SourceKind> = Vec::new();
            d.push(SourceKind::Env);
            d.push(SourceKind::File);
            d.push(SourceKind::Sqlite);
            assert(d@ =~= default_sources());
            d
        },
    };
    let ghost pred = |k: SourceKind| !skip@.contains(k);
    let mut out: Vec<SourceKind> = Vec::new();
    let mut j: usize = 0;
    while j < base.len()
        invariant
            j <= base@.len(),
            out@ == base@.take(j as int).filter(pred),
            pred == (|k: SourceKind| !skip@.contains(k)),
        decreases base@.len() - j,
    {
        proof {
            reveal_with_fuel(Seq::filter, 1);
            assert(base@.take(j + 1).drop_last() =~= base@.take(j as int));
        }
        let k = base[j];
        if !contains_kind(&skip, k) {
            out.push(k);
        }
        j = j + 1;
    }
    assert(base@.take(base@.len() as int) =~= base@);
    out
}

} // verus!
