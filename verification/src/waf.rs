//! The WAF JavaScript challenge (`acw_sc__v2`).  A challenge page carries a
//! script that computes the cookie; the script is run under Node.js with a
//! stub `document` that captures the cookie it sets.  Fetching the page and
//! running Node happen at the edge; this module decides what the page is,
//! builds the script to run and turns Node's output into cookies.
use vstd::prelude::*;
use crate::text::{contains, str_contains, trim, trim_str, chars_of, string_of};
use crate::config_loader::types::lit;

verus! {

/// Name of the cookie that the challenge computes.
pub open spec fn waf_cookie_name() -> Seq<char> {
    "acw_sc__v2"@
}

/// What a reply to the sign-in request turned out to be.
#[derive(Debug, Clone, PartialEq, Eq)]
pub enum ChallengePage {
    /// Not a challenge page: no cookie is needed.
    NotChallenge,
    /// A challenge page without a `<script>` tag.
    NoScriptStart,
    /// A challenge page without a `</script>` tag.
    NoScriptEnd,
    /// The challenge script (between the first `<script>` and the first `</script>`).
    Script(String),
}

/// The position of the first occurrence of `needle` in `hay`, if any.
#[verifier::opaque]
pub open spec fn first_index(hay: Seq<char>, needle: Seq<char>) -> Option<int> {
    if contains(hay, needle) {
        Some(
            choose|i: int|
                0 <= i && i + needle.len() <= hay.len() && #[trigger] hay.subrange(i, i + needle.len()) == needle
                    && forall|j: int| 0 <= j < i ==> #[trigger] hay.subrange(j, j + needle.len()) != needle,
        )
    } else {
        None
    }
}

/// The page is a challenge when it mentions `acw_sc__v2` or `arg1`.
pub open spec fn is_challenge(html: Seq<char>) -> bool {
    contains(html, "acw_sc__v2"@) || contains(html, "arg1"@)
}

/// A page whose first `</script>` lies inside or before its first `<script>`
/// tag, which the extraction cannot cut.
pub open spec fn tags_misordered(html: Seq<char>) -> bool {
    match (first_index(html, "<script>"@), first_index(html, "</script>"@)) {
        (Some(a), Some(b)) => b < a + 8,
        _ => false,
    }
}

/// What the page is.
pub open spec fn page_kind(html: Seq<char>) -> ChallengePageView {
    if !is_challenge(html) {
        ChallengePageView::NotChallenge
    } else {
        match first_index(html, "<script>"@) {
            None => ChallengePageView::NoScriptStart,
            Some(a) => match first_index(html, "</script>"@) {
                None => ChallengePageView::NoScriptEnd,
                Some(b) => ChallengePageView::Script(html.subrange(a + 8, b)),
            },
        }
    }
}

/// `ChallengePage` with the script as characters.
pub enum ChallengePageView {
    NotChallenge,
    NoScriptStart,
    NoScriptEnd,
    Script(Seq<char>),
}

/// The characters of a `ChallengePage`.
pub open spec fn page_view(p: ChallengePage) -> ChallengePageView {
    match p {
        ChallengePage::NotChallenge => ChallengePageView::NotChallenge,
        ChallengePage::NoScriptStart => ChallengePageView::NoScriptStart,
        ChallengePage::NoScriptEnd => ChallengePageView::NoScriptEnd,
        ChallengePage::Script(s) => ChallengePageView::Script(s@),
    }
}

proof fn lemma_no_index(hay: Seq<char>, needle: Seq<char>)
    requires
        !contains(hay, needle),
    ensures
        first_index(hay, needle) is None,
{
    reveal(first_index);
}

proof fn lemma_first_index(hay: Seq<char>, needle: Seq<char>, i: int)
    requires
        0 <= i && i + needle.len() <= hay.len(),
        hay.subrange(i, i + needle.len()) == needle,
        forall|j: int| 0 <= j < i ==> #[trigger] hay.subrange(j, j + needle.len()) != needle,
    ensures
        first_index(hay, needle) == Some(i),
{
    reveal(first_index);
    assert(contains(hay, needle));
    let k = choose|k: int|
        0 <= k && k + needle.len() <= hay.len() && #[trigger] hay.subrange(k, k + needle.len()) == needle
            && forall|j: int| 0 <= j < k ==> #[trigger] hay.subrange(j, j + needle.len()) != needle;
    assert(k == i) by {
        if k < i {
            assert(hay.subrange(k, k + needle.len()) != needle);
        } else if k > i {
            assert(hay.subrange(i, i + needle.len()) != needle);
        }
    }
}

fn index_of(h: &Vec<char>, needle: &str) -> (r: Option<usize>)
    ensures
        r matches Some(i) ==> first_index(h@, needle@) == Some(i as int),
        r matches Some(i) ==> i + needle@.len() <= h@.len(),
        r is None ==> first_index(h@, needle@) is None,
{
    let n = chars_of(needle);
    if n.len() > h.len() {
        proof {
            lemma_no_index(h@, needle@);
        }
        return None;
    }
    let last = h.len() - n.len();
    let mut i: usize = 0;
    loop
        invariant
            n@ == needle@,
            n@.len() <= h@.len(),
            last == h@.len() - n@.len(),
            i <= last,
            forall|k: int| 0 <= k < i ==> #[trigger] h@.subrange(k, k + n@.len()) != n@,
        decreases last - i,
    {
        let same = crate::text::matches_at(h, &n, i);
        if same {
            proof {
                lemma_first_index(h@, needle@, i as int);
            }
            return Some(i);
        }
        if i == last {
            assert(!contains(h@, needle@));
            proof {
                lemma_no_index(h@, needle@);
            }
            return None;
        }
        i = i + 1;
    }
}

/// Decides what a reply to the sign-in request is: not a challenge (it
/// mentions neither `acw_sc__v2` nor `arg1`), a challenge without script
/// tags, or the script between the first `<script>` and the first `</script>`.
pub fn challenge_script(html: &str) -> (r: ChallengePage)
    requires
        is_challenge(html@) ==> !tags_misordered(html@),
    ensures
        page_view(r) == page_kind(html@),
{
    if !str_contains(html, "acw_sc__v2") && !str_contains(html, "arg1") {
        return ChallengePage::NotChallenge;
    }
    let h = chars_of(html);
    let start = match index_of(&h, "<script>") {
        Some(a) => a,
        None => return ChallengePage::NoScriptStart,
    };
    let end = match index_of(&h, "</script>") {
        Some(b) => b,
        None => return ChallengePage::NoScriptEnd,
    };
    proof {
        reveal_strlit("<script>");
        reveal_strlit("</script>");
        assert("<script>"@.len() == 8);
    }
    assert(h@ == html@);
    assert(end as int >= start + 8);
    ChallengePage::Script(string_of(&h, start + 8, end))
}

/// Whether the page is a challenge page (see `is_challenge`).
pub fn is_challenge_page(html: &str) -> (r: bool)
    ensures
        r == is_challenge(html@),
{
    str_contains(html, "acw_sc__v2") || str_contains(html, "arg1")
}

/// Whether the page's first `</script>` lies inside or before its first
/// `<script>` tag (see `tags_misordered`).
pub fn script_tags_misordered(html: &str) -> (r: bool)
    ensures
        r == tags_misordered(html@),
{
    let h = chars_of(html);
    proof {
        reveal_strlit("<script>");
        assert("<script>"@.len() == 8);
    }
    let start = index_of(&h, "<script>");
    let end = index_of(&h, "</script>");
    match (start, end) {
        (Some(a), Some(b)) => b < a || b - a < 8,
        _ => false,
    }
}

/// The lines that stub the DOM before the challenge script runs: a
/// `document` whose `cookie` setter captures `acw_sc__v2`.
pub open spec fn node_prelude() -> Seq<char> {
    NODE_PRELUDE@
}

/// The line that prints the captured cookie after the challenge script.
pub open spec fn node_epilogue() -> Seq<char> {
    NODE_EPILOGUE@
}

/// Stub of the DOM that captures the `acw_sc__v2` cookie the script sets.
pub const NODE_PRELUDE: &'static str = "
var __acw_result = '';
var document = {};
Object.defineProperty(document, 'cookie', {
  set: function(val) {
    var parts = String(val).split(';')[0].split('=');
    if (parts[0] === 'acw_sc__v2') { __acw_result = parts[1]; }
  },
  get: function() { return ''; },
  configurable: true
});
document.location = { href: 'https://anyrouter.top/', reload: function(){} };
var window = globalThis;
var navigator = { userAgent: 'Mozilla/5.0 (Windows NT 10.0; Win64; x64) AppleWebKit/537.36' };
";

/// Prints the captured cookie once the script has run.
pub const NODE_EPILOGUE: &'static str = "\n;process.stdout.write(__acw_result);\n";

/// The Node.js program that runs a challenge script: the DOM stub, the
/// script itself, then the line that prints the captured cookie.
pub fn build_node_script(challenge_js: &str) -> (r: String)
    ensures
        r@ == node_prelude() + challenge_js@ + node_epilogue(),
{
    let mut script = lit(NODE_PRELUDE);
    script.append(challenge_js);
    script.append(NODE_EPILOGUE);
    script
}

/// The cookie value that a Node.js run printed: its trimmed standard output
/// when the run succeeded and printed something.
pub fn node_result(succeeded: bool, stdout: &str) -> (r: Option<String>)
    ensures
        r matches Some(v) ==> succeeded && trim(stdout@).len() > 0 && v@ == trim(stdout@),
        r is None ==> !succeeded || trim(stdout@).len() == 0,
{
    if !succeeded {
        return None;
    }
    let t = trim_str(stdout);
    if t.as_str().is_empty() {
        None
    } else {
        Some(t)
    }
}

/// The cookies that a solved challenge yields: `acw_sc__v2` set to the
/// computed value; nothing when no value, or an empty one, was computed.
pub fn waf_cookies(value: Option<String>) -> (r: Option<Vec<(String, String)>>)
    ensures
        match value {
            Some(v) => if v@.len() > 0 {
                r matches Some(c) && c@.len() == 1 && c@[0].0@ == waf_cookie_name() && c@[0].1@ == v@
            } else {
                r is None
            },
            None => r is None,
        },
{
    match value {
        Some(v) => {
            if v.as_str().is_empty() {
                None
            } else {
                let mut c: Vec<(String, String)> = Vec::new();
                c.push((lit("acw_sc__v2"), v));
                Some(c)
            }
        },
        None => None,
    }
}

} // verus!
