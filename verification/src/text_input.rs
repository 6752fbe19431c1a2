//! The editing model of the desktop front end's text field: its content,
//! the selection (byte offsets into the UTF-8 text, with the side the cursor
//! is on), the range marked by an input method, and what each key, mouse and
//! input-method event does to them.  Offsets exchanged with the platform are
//! counted in UTF-16 code units; cursor moves step over whole grapheme
//! clusters; a masked field shows one bullet per cluster.  Layout and
//! painting stay with the windowing toolkit, which hands in the indices that
//! a mouse position maps to.
use vstd::prelude::*;
use vstd::utf8::{encode_utf8, encode_scalar, char_is_scalar};
use core::ops::Range;
use crate::text::{chars_of, string_of};
use unicode_segmentation::UnicodeSegmentation;

verus! {

// ----------------------------------------------------------------------------
// Byte and UTF-16 lengths of text
// ----------------------------------------------------------------------------

/// The number of bytes of a character's UTF-8 encoding.
pub open spec fn u8w(c: char) -> nat {
    let v = c as u32;
    if v <= 0x7f {
        1
    } else if v <= 0x7ff {
        2
    } else if v <= 0xffff {
        3
    } else {
        4
    }
}

/// The number of UTF-16 code units of a character.
pub open spec fn u16w(c: char) -> nat {
    if (c as u32) <= 0xffff {
        1
    } else {
        2
    }
}

/// The UTF-8 byte length of a text.
pub open spec fn blen(s: Seq<char>) -> nat
    decreases s.len(),
{
    if s.len() == 0 {
        0
    } else {
        blen(s.drop_last()) + u8w(s.last())
    }
}

/// The UTF-16 length of a text.
pub open spec fn wlen(s: Seq<char>) -> nat
    decreases s.len(),
{
    if s.len() == 0 {
        0
    } else {
        wlen(s.drop_last()) + u16w(s.last())
    }
}

/// Whether byte offset `b` falls between two characters of `s` (or at
/// either end).
pub open spec fn boundary(s: Seq<char>, b: int) -> bool {
    exists|k: int| 0 <= k <= s.len() && #[trigger] blen(s.take(k)) == b
}

/// The number of characters before the character boundary at byte `b`.
pub open spec fn char_idx(s: Seq<char>, b: int) -> int {
    choose|k: int| 0 <= k <= s.len() && #[trigger] blen(s.take(k)) == b
}

/// The characters between two byte boundaries (`&text[a..b]`).
pub open spec fn byte_slice(s: Seq<char>, a: int, b: int) -> Seq<char> {
    s.subrange(char_idx(s, a), char_idx(s, b))
}

/// The first character count at which the UTF-8 length reaches `b`, or the
/// whole text, searching from `k` on.
pub open spec fn reach8(s: Seq<char>, b: int, k: nat) -> nat
    decreases s.len() - k,
{
    if k >= s.len() || blen(s.take(k as int)) >= b {
        k
    } else {
        reach8(s, b, k + 1)
    }
}

/// The first character count at which the UTF-16 length reaches `o`, or the
/// whole text, searching from `k` on.
pub open spec fn reach16(s: Seq<char>, o: int, k: nat) -> nat
    decreases s.len() - k,
{
    if k >= s.len() || wlen(s.take(k as int)) >= o {
        k
    } else {
        reach16(s, o, k + 1)
    }
}

/// The UTF-16 offset of byte offset `b`: the UTF-16 length of the
/// characters that start before `b`.
pub open spec fn to16(s: Seq<char>, b: int) -> nat {
    wlen(s.take(reach8(s, b, 0) as int))
}

/// The byte offset of UTF-16 offset `o`: the byte length of the characters
/// that start before `o`.
pub open spec fn from16(s: Seq<char>, o: int) -> nat {
    blen(s.take(reach16(s, o, 0) as int))
}

proof fn lemma_blen_step(s: Seq<char>, k: int)
    requires
        0 <= k < s.len(),
    ensures
        blen(s.take(k + 1)) == blen(s.take(k)) + u8w(s[k]),
        wlen(s.take(k + 1)) == wlen(s.take(k)) + u16w(s[k]),
{
    assert(s.take(k + 1).drop_last() =~= s.take(k));
    assert(s.take(k + 1).last() == s[k]);
}

proof fn lemma_blen_whole(s: Seq<char>)
    ensures
        s.take(s.len() as int) == s,
{
    assert(s.take(s.len() as int) =~= s);
}

/// Byte and UTF-16 lengths grow strictly with the number of characters.
proof fn lemma_take_strict(s: Seq<char>, j: int, k: int)
    requires
        0 <= j < k <= s.len(),
    ensures
        blen(s.take(j)) < blen(s.take(k)),
        wlen(s.take(j)) < wlen(s.take(k)),
    decreases k - j,
{
    lemma_blen_step(s, k - 1);
    if j < k - 1 {
        lemma_take_strict(s, j, k - 1);
    }
}

/// A boundary names exactly one character count.
proof fn lemma_char_idx(s: Seq<char>, k: int)
    requires
        0 <= k <= s.len(),
    ensures
        boundary(s, blen(s.take(k)) as int),
        char_idx(s, blen(s.take(k)) as int) == k,
{
    let b = blen(s.take(k)) as int;
    assert(boundary(s, b));
    let c = char_idx(s, b);
    if c < k {
        lemma_take_strict(s, c, k);
    } else if c > k {
        lemma_take_strict(s, k, c);
    }
}

/// The byte length of the whole text is that of its UTF-8 encoding.
proof fn lemma_blen_encode(s: Seq<char>)
    ensures
        blen(s) == encode_utf8(s).len(),
    decreases s.len(),
{
    if s.len() > 0 {
        let r = s.drop_first();
        lemma_blen_encode(r);
        let c = s[0];
        let v = c as u32;
        char_is_scalar(c);
        assert(encode_scalar(v).len() == u8w(c));
        lemma_blen_concat(seq![c], r);
        assert(seq![c] + r =~= s);
        assert(seq![c].drop_last() =~= Seq::<char>::empty());
        assert(blen(Seq::<char>::empty()) == 0);
        assert(blen(seq![c]) == u8w(c));
        assert(encode_utf8(s) == encode_scalar(v) + encode_utf8(r));
    }
}

/// Byte and UTF-16 lengths add up over a concatenation.
proof fn lemma_blen_concat(a: Seq<char>, b: Seq<char>)
    ensures
        blen(a + b) == blen(a) + blen(b),
        wlen(a + b) == wlen(a) + wlen(b),
    decreases b.len(),
{
    if b.len() == 0 {
        assert(a + b =~= a);
    } else {
        lemma_blen_concat(a, b.drop_last());
        assert((a + b).drop_last() =~= a + b.drop_last());
        assert((a + b).last() == b.last());
    }
}

/// Searching from `j` finds the character count of a boundary at or after `j`.
proof fn lemma_reach_at(s: Seq<char>, k: int, j: nat)
    requires
        0 <= j <= k <= s.len(),
    ensures
        reach8(s, blen(s.take(k)) as int, j) == k,
        reach16(s, wlen(s.take(k)) as int, j) == k,
    decreases k - j,
{
    if j < k {
        lemma_take_strict(s, j as int, k);
        lemma_reach_at(s, k, j + 1);
    }
}

/// The UTF-16 offset of a character boundary converts back to the same byte
/// offset, and the byte offset of a UTF-16 boundary back to the same UTF-16
/// offset.
pub proof fn law_utf16_round_trip(s: Seq<char>, k: int)
    requires
        0 <= k <= s.len(),
    ensures
        to16(s, blen(s.take(k)) as int) == wlen(s.take(k)),
        from16(s, to16(s, blen(s.take(k)) as int) as int) == blen(s.take(k)),
        from16(s, wlen(s.take(k)) as int) == blen(s.take(k)),
        to16(s, from16(s, wlen(s.take(k)) as int) as int) == wlen(s.take(k)),
{
    lemma_reach_at(s, k, 0);
}


/// `s` with bytes `a..b` replaced by `ins`.
pub open spec fn spliced(s: Seq<char>, a: int, b: int, ins: Seq<char>) -> Seq<char> {
    s.take(char_idx(s, a)) + ins + s.skip(char_idx(s, b))
}

/// Whether a byte range is ordered and both its ends fall between characters.
pub open spec fn range_ok(s: Seq<char>, r: Range<usize>) -> bool {
    r.start <= r.end && boundary(s, r.start as int) && boundary(s, r.end as int)
}

proof fn lemma_wlen_le_blen(s: Seq<char>)
    ensures
        wlen(s) <= blen(s),
    decreases s.len(),
{
    if s.len() > 0 {
        lemma_wlen_le_blen(s.drop_last());
    }
}

proof fn lemma_take_le(s: Seq<char>, k: int)
    requires
        0 <= k <= s.len(),
    ensures
        blen(s.take(k)) <= blen(s),
        wlen(s.take(k)) <= wlen(s),
{
    lemma_blen_whole(s);
    if k < s.len() {
        lemma_take_strict(s, k, s.len() as int);
    }
}

proof fn lemma_reach_bounds(s: Seq<char>, b: int, k: nat)
    requires
        k <= s.len(),
    ensures
        k <= reach8(s, b, k) <= s.len(),
        k <= reach16(s, b, k) <= s.len(),
    decreases s.len() - k,
{
    if k < s.len() {
        lemma_reach_bounds(s, b, k + 1);
    }
}

/// Converted offsets fall between characters.
proof fn lemma_utf16_boundaries(s: Seq<char>, o: int)
    ensures
        boundary(s, from16(s, o) as int),
        from16(s, o) <= blen(s),
{
    lemma_reach_bounds(s, o, 0);
    let k = reach16(s, o, 0) as int;
    lemma_char_idx(s, k);
    lemma_take_le(s, k);
}

/// The number of bytes of a character (`char::len_utf8`).
fn utf8_width(c: char) -> (r: usize)
    ensures
        r == u8w(c),
{
    let v = c as u32;
    if v <= 0x7f {
        1
    } else if v <= 0x7ff {
        2
    } else if v <= 0xffff {
        3
    } else {
        4
    }
}

/// The number of UTF-16 units of a character (`char::len_utf16`).
fn utf16_width(c: char) -> (r: usize)
    ensures
        r == u16w(c),
{
    if (c as u32) <= 0xffff {
        1
    } else {
        2
    }
}

/// The UTF-8 byte length of a text (`str::len`).
fn byte_len(s: &str) -> (n: usize)
    ensures
        n == blen(s@),
{
    proof {
        lemma_blen_encode(s@);
    }
    s.as_bytes().len()
}

/// The number of characters before byte boundary `b`.
fn char_index(v: &Vec<char>, b: usize) -> (k: usize)
    requires
        boundary(v@, b as int),
    ensures
        k <= v@.len(),
        blen(v@.take(k as int)) == b,
        k == char_idx(v@, b as int),
{
    let ghost w = choose|w: int| 0 <= w <= v@.len() && #[trigger] blen(v@.take(w)) == b;
    let mut i: usize = 0;
    let mut acc: usize = 0;
    while acc < b
        invariant
            0 <= w <= v@.len(),
            v@.len() == v.len(),
            blen(v@.take(w)) == b,
            i <= w,
            acc == blen(v@.take(i as int)),
            acc <= b,
        decreases b - acc,
    {
        proof {
            if i == w {
                assert(false);
            }
            lemma_blen_step(v@, i as int);
            if i + 1 < w {
                lemma_take_strict(v@, i + 1, w);
            }
        }
        acc = acc + utf8_width(v[i]);
        i = i + 1;
    }
    proof {
        if i < w {
            lemma_take_strict(v@, i as int, w);
        }
        lemma_char_idx(v@, i as int);
    }
    i
}

/// The characters of `v` between byte boundaries `a <= b`.
fn slice_bytes(v: &Vec<char>, a: usize, b: usize) -> (r: String)
    requires
        boundary(v@, a as int),
        boundary(v@, b as int),
        a <= b,
    ensures
        r@ == byte_slice(v@, a as int, b as int),
{
    let ka = char_index(v, a);
    let kb = char_index(v, b);
    if kb < ka {
        proof {
            lemma_take_strict(v@, kb as int, ka as int);
        }
        assert(false);
    }
    string_of(v, ka, kb)
}

/// `v[..ka]`, then `ins`, then `v[kb..]`.
fn splice_chars(v: &Vec<char>, ka: usize, kb: usize, ins: &str) -> (r: String)
    requires
        ka <= kb <= v@.len(),
    ensures
        r@ == v@.take(ka as int) + ins@ + v@.skip(kb as int),
{
    let mut r = string_of(v, 0, ka);
    assert(v@.subrange(0, ka as int) =~= v@.take(ka as int));
    let w = chars_of(ins);
    let mut i: usize = 0;
    while i < w.len()
        invariant
            i <= w@.len(),
            w@ == ins@,
            r@ == v@.take(ka as int) + w@.take(i as int),
        decreases w.len() - i,
    {
        r.push(w[i]);
        i = i + 1;
        assert(r@ =~= v@.take(ka as int) + w@.take(i as int));
    }
    assert(w@.take(w@.len() as int) =~= w@);
    let ghost head = r@;
    let mut j: usize = kb;
    while j < v.len()
        invariant
            kb <= j <= v@.len(),
            r@ == head + v@.subrange(kb as int, j as int),
        decreases v.len() - j,
    {
        r.push(v[j]);
        j = j + 1;
        assert(r@ =~= head + v@.subrange(kb as int, j as int));
    }
    assert(v@.subrange(kb as int, v@.len() as int) =~= v@.skip(kb as int));
    r
}


// ----------------------------------------------------------------------------
// Grapheme clusters
// ----------------------------------------------------------------------------

/// The byte offsets at which the extended grapheme clusters of a text start,
/// in order (as `unicode_segmentation` finds them).
pub uninterp spec fn grapheme_starts(s: Seq<char>) -> Seq<usize>;

/// What a segmentation into clusters always satisfies: clusters cover the
/// text, the first starts at byte 0, and each later one starts further on,
/// between two characters of the text.
pub open spec fn starts_ok(s: Seq<char>, g: Seq<usize>) -> bool {
    &&& (g.len() == 0 <==> s.len() == 0)
    &&& (g.len() > 0 ==> g[0] == 0)
    &&& forall|i: int, j: int| 0 <= i < j < g.len() ==> g[i] < g[j]
    &&& forall|i: int| #![trigger g[i]] 0 <= i < g.len() ==> exists|k: int| 0 <= k < s.len() && #[trigger] blen(s.take(k)) == g[i]
}

/// `UnicodeSegmentation::grapheme_indices(s, true)`, keeping each cluster's
/// byte offset.  The offsets are named `grapheme_starts`; beyond that the
/// contract states only what a segmentation into non-empty clusters at
/// character boundaries gives (see `starts_ok`), not the Unicode rules that
/// place the boundaries.
#[verifier::external_body]
fn grapheme_offsets(s: &str) -> (r: Vec<usize>)
    ensures
        r@ == grapheme_starts(s@),
        starts_ok(s@, r@),
{
    s.grapheme_indices(true).map(|(i, _)| i).collect()
}

/// The last cluster start before byte `o`, or 0.
pub open spec fn prev_start(g: Seq<usize>, o: int) -> int
    decreases g.len(),
{
    if g.len() == 0 {
        0
    } else if (g.last() as int) < o {
        g.last() as int
    } else {
        prev_start(g.drop_last(), o)
    }
}

/// The first cluster start after byte `o`, or `end`.
pub open spec fn next_start(g: Seq<usize>, o: int, end: int) -> int
    decreases g.len(),
{
    if g.len() == 0 {
        end
    } else if (g[0] as int) > o {
        g[0] as int
    } else {
        next_start(g.drop_first(), o, end)
    }
}

proof fn lemma_prev_start_in(g: Seq<usize>, o: int)
    ensures
        prev_start(g, o) == 0 || exists|i: int| 0 <= i < g.len() && g[i] == prev_start(g, o),
    decreases g.len(),
{
    if g.len() > 0 && !((g.last() as int) < o) {
        lemma_prev_start_in(g.drop_last(), o);
        if prev_start(g.drop_last(), o) != 0 {
            let i = choose|i: int| 0 <= i < g.drop_last().len() && g.drop_last()[i] == prev_start(g.drop_last(), o);
            assert(g[i] == g.drop_last()[i]);
        }
    } else if g.len() > 0 {
        assert(g[g.len() - 1] == g.last());
    }
}

proof fn lemma_next_start_in(g: Seq<usize>, o: int, end: int)
    ensures
        next_start(g, o, end) == end || exists|i: int| 0 <= i < g.len() && g[i] == next_start(g, o, end),
    decreases g.len(),
{
    if g.len() > 0 && !((g[0] as int) > o) {
        lemma_next_start_in(g.drop_first(), o, end);
        if next_start(g.drop_first(), o, end) != end {
            let i = choose|i: int| 0 <= i < g.drop_first().len() && g.drop_first()[i] == next_start(g.drop_first(), o, end);
            assert(g[i + 1] == g.drop_first()[i]);
        }
    }
}

/// A cluster start falls between two characters.
proof fn lemma_start_boundary(s: Seq<char>, g: Seq<usize>, i: int)
    requires
        starts_ok(s, g),
        0 <= i < g.len(),
    ensures
        boundary(s, g[i] as int),
        g[i] < blen(s),
{
    let k = choose|k: int| 0 <= k < s.len() && #[trigger] blen(s.take(k)) == g[i];
    lemma_char_idx(s, k);
    lemma_blen_whole(s);
    lemma_take_strict(s, k, s.len() as int);
}

/// There are no more clusters than bytes.
proof fn lemma_starts_count(s: Seq<char>, g: Seq<usize>)
    requires
        starts_ok(s, g),
    ensures
        g.len() <= blen(s),
{
    if g.len() > 0 {
        lemma_starts_ge_index(g, g.len() - 1);
        lemma_start_boundary(s, g, g.len() - 1);
    }
}

proof fn lemma_starts_ge_index(g: Seq<usize>, i: int)
    requires
        0 <= i < g.len(),
        forall|a: int, b: int| 0 <= a < b < g.len() ==> g[a] < g[b],
    ensures
        g[i] >= i,
    decreases i,
{
    if i > 0 {
        lemma_starts_ge_index(g, i - 1);
    }
}

/// The start of the cluster before byte `o` in `s`, or 0.
fn previous_start(s: &str, o: usize) -> (r: usize)
    ensures
        r == prev_start(grapheme_starts(s@), o as int),
        boundary(s@, r as int),
{
    let g = grapheme_offsets(s);
    let mut j: usize = g.len();
    assert(g@.take(j as int) =~= g@);
    while j > 0
        invariant
            j <= g@.len(),
            g@ == grapheme_starts(s@),
            starts_ok(s@, g@),
            prev_start(g@, o as int) == prev_start(g@.take(j as int), o as int),
        decreases j,
    {
        assert(g@.take(j as int).drop_last() =~= g@.take(j - 1));
        assert(g@.take(j as int).last() == g@[j - 1]);
        if g[j - 1] < o {
            proof {
                lemma_start_boundary(s@, g@, j - 1);
            }
            return g[j - 1];
        }
        j = j - 1;
    }
    proof {
        lemma_char_idx(s@, 0);
        assert(s@.take(0) =~= Seq::<char>::empty());
    }
    0
}

/// The start of the cluster after byte `o` in `s`, or the end of `s`.
fn following_start(s: &str, o: usize) -> (r: usize)
    ensures
        r == next_start(grapheme_starts(s@), o as int, blen(s@) as int),
        boundary(s@, r as int),
{
    let g = grapheme_offsets(s);
    let n = byte_len(s);
    let mut i: usize = 0;
    assert(g@.skip(0) =~= g@);
    while i < g.len()
        invariant
            i <= g@.len(),
            g@ == grapheme_starts(s@),
            starts_ok(s@, g@),
            n == blen(s@),
            next_start(g@, o as int, n as int) == next_start(g@.skip(i as int), o as int, n as int),
        decreases g.len() - i,
    {
        assert(g@.skip(i as int).drop_first() =~= g@.skip(i + 1));
        assert(g@.skip(i as int)[0] == g@[i as int]);
        if g[i] > o {
            proof {
                lemma_start_boundary(s@, g@, i as int);
            }
            return g[i];
        }
        i = i + 1;
    }
    proof {
        assert(g@.skip(i as int).len() == 0);
        lemma_char_idx(s@, s@.len() as int);
        lemma_blen_whole(s@);
    }
    n
}


// ----------------------------------------------------------------------------
// The field
// ----------------------------------------------------------------------------

/// A single- or multi-line text field.
pub struct TextInput {
    pub content: String,
    pub placeholder: String,
    /// Shown as one bullet per grapheme cluster (passwords).
    pub masked: bool,
    pub multiline: bool,
    /// Visible rows of a multi-line field.
    pub rows: usize,
    /// The selection, in bytes of `content`; empty for a bare cursor.
    pub selected_range: Range<usize>,
    /// Whether the cursor is at the start of the selection.
    pub selection_reversed: bool,
    /// The text an input method is composing.
    pub marked_range: Option<Range<usize>>,
    /// Whether a mouse drag is extending the selection.
    pub is_selecting: bool,
}

/// The empty selection at `o`.
pub open spec fn at(o: usize) -> Range<usize> {
    Range { start: o, end: o }
}

/// Where the cursor is: at the start of a reversed selection, else at its end.
pub open spec fn cursor_of(r: Range<usize>, rev: bool) -> usize {
    if rev {
        r.start
    } else {
        r.end
    }
}

/// The selection after moving its cursor end to `o`, flipping sides when the
/// cursor crosses the anchor.
pub open spec fn select_to_spec(r: Range<usize>, rev: bool, o: usize) -> (Range<usize>, bool) {
    let a = if rev { o } else { r.start };
    let b = if rev { r.end } else { o };
    if b < a {
        (Range { start: b, end: a }, !rev)
    } else {
        (Range { start: a, end: b }, rev)
    }
}

/// The text with every line break turned into a space.
pub open spec fn one_line(s: Seq<char>) -> Seq<char> {
    s.map_values(|c: char| if c == '\n' { ' ' } else { c })
}

/// A masked text: one bullet per cluster.
pub open spec fn bullets(n: nat) -> Seq<char> {
    Seq::new(n, |i: int| '•')
}

impl TextInput {
    /// The field's invariant: the selection and the marked range are ordered
    /// and fall between characters of the content.
    pub open spec fn valid(&self) -> bool {
        &&& blen(self.content@) <= usize::MAX
        &&& range_ok(self.content@, self.selected_range)
        &&& (self.marked_range matches Some(m) ==> range_ok(self.content@, m))
    }

    /// The cluster starts of the content.
    pub open spec fn graphemes(&self) -> Seq<usize> {
        grapheme_starts(self.content@)
    }

    /// The byte length of the content.
    pub open spec fn end_offset(&self) -> usize {
        blen(self.content@) as usize
    }

    /// The cursor offset.
    pub open spec fn cursor(&self) -> usize {
        cursor_of(self.selected_range, self.selection_reversed)
    }

    /// Everything but the selection is as in `old`.
    pub open spec fn same_text(&self, old: Self) -> bool {
        &&& self.content@ == old.content@
        &&& self.marked_range == old.marked_range
        &&& self.same_settings(old)
    }

    /// Placeholder, masking, rows and drag state are as in `old`.
    pub open spec fn same_settings(&self, old: Self) -> bool {
        &&& self.placeholder@ == old.placeholder@
        &&& self.masked == old.masked
        &&& self.multiline == old.multiline
        &&& self.rows == old.rows
        &&& self.is_selecting == old.is_selecting
    }

    /// The byte range an edit replaces: the given UTF-16 range converted,
    /// else the marked range, else the selection.
    pub open spec fn target(&self, range_utf16: Option<Range<usize>>) -> Range<usize> {
        match range_utf16 {
            Some(r) => Range {
                start: from16(self.content@, r.start as int) as usize,
                end: from16(self.content@, r.end as int) as usize,
            },
            None => match self.marked_range {
                Some(m) => m,
                None => self.selected_range,
            },
        }
    }

    /// Whether a given UTF-16 range converts to an ordered byte range.
    pub open spec fn ordered16(&self, range_utf16: Option<Range<usize>>) -> bool {
        range_utf16 matches Some(r) ==> from16(self.content@, r.start as int) <= from16(self.content@, r.end as int)
    }

    /// `self` is `old` with bytes `t` replaced by `ins`, the cursor after the
    /// inserted text and nothing marked.
    pub open spec fn spliced_from(&self, old: Self, t: Range<usize>, ins: Seq<char>) -> bool {
        &&& self.content@ == spliced(old.content@, t.start as int, t.end as int, ins)
        &&& self.selected_range == at((t.start + blen(ins)) as usize)
        &&& self.marked_range is None
        &&& self.same_settings(old)
    }

    /// A single-line field holding `initial`, the cursor at its end.
    pub fn new(placeholder: &str, initial: &str, masked: bool) -> (r: Self)
        ensures
            r.valid(),
            r.content@ == initial@,
            r.placeholder@ == placeholder@,
            r.masked == masked,
            !r.multiline,
            r.rows == 1,
            r.selected_range == at(blen(initial@) as usize),
            !r.selection_reversed,
            r.marked_range is None,
            !r.is_selecting,
    {
        let len = byte_len(initial);
        proof {
            lemma_char_idx(initial@, initial@.len() as int);
            lemma_blen_whole(initial@);
        }
        TextInput {
            content: initial.to_owned(),
            placeholder: placeholder.to_owned(),
            masked,
            multiline: false,
            rows: 1,
            selected_range: len..len,
            selection_reversed: false,
            marked_range: None,
            is_selecting: false,
        }
    }

    /// A wrapping multi-line field (for long texts such as cookies), at
    /// least two rows high.
    pub fn new_multiline(placeholder: &str, initial: &str, rows: usize) -> (r: Self)
        ensures
            r.valid(),
            r.content@ == initial@,
            r.placeholder@ == placeholder@,
            !r.masked,
            r.multiline,
            r.rows == if rows < 2 { 2 } else { rows },
            r.selected_range == at(blen(initial@) as usize),
            !r.selection_reversed,
            r.marked_range is None,
            !r.is_selecting,
    {
        let mut input = Self::new(placeholder, initial, false);
        input.multiline = true;
        input.rows = if rows < 2 { 2 } else { rows };
        input
    }

    /// The current text.
    pub fn text(&self) -> (r: String)
        ensures
            r@ == self.content@,
    {
        self.content.clone()
    }

    /// The byte offset of UTF-16 offset `o`.
    pub fn offset_from_utf16(&self, o: usize) -> (r: usize)
        requires
            blen(self.content@) <= usize::MAX,
        ensures
            r == from16(self.content@, o as int),
    {
        let v = chars_of(self.content.as_str());
        let ghost s = v@;
        let mut i: usize = 0;
        let mut u8c: usize = 0;
        let mut u16c: usize = 0;
        proof {
            assert(s.take(0) =~= Seq::<char>::empty());
            lemma_reach_bounds(s, o as int, 0);
        }
        while i < v.len() && u16c < o
            invariant
                s == v@,
                s == self.content@,
                blen(s) <= usize::MAX,
                i <= s.len(),
                u8c == blen(s.take(i as int)),
                u16c == wlen(s.take(i as int)),
                reach16(s, o as int, 0) == reach16(s, o as int, i as nat),
            decreases v.len() - i,
        {
            proof {
                lemma_blen_step(s, i as int);
                lemma_take_le(s, i + 1);
                lemma_wlen_le_blen(s.take(i + 1));
            }
            u16c = u16c + utf16_width(v[i]);
            u8c = u8c + utf8_width(v[i]);
            i = i + 1;
        }
        u8c
    }

    /// The UTF-16 offset of byte offset `b`.
    pub fn offset_to_utf16(&self, b: usize) -> (r: usize)
        requires
            blen(self.content@) <= usize::MAX,
        ensures
            r == to16(self.content@, b as int),
    {
        let v = chars_of(self.content.as_str());
        let ghost s = v@;
        let mut i: usize = 0;
        let mut u8c: usize = 0;
        let mut u16c: usize = 0;
        proof {
            assert(s.take(0) =~= Seq::<char>::empty());
        }
        while i < v.len() && u8c < b
            invariant
                s == v@,
                s == self.content@,
                blen(s) <= usize::MAX,
                i <= s.len(),
                u8c == blen(s.take(i as int)),
                u16c == wlen(s.take(i as int)),
                reach8(s, b as int, 0) == reach8(s, b as int, i as nat),
            decreases v.len() - i,
        {
            proof {
                lemma_blen_step(s, i as int);
                lemma_take_le(s, i + 1);
                lemma_wlen_le_blen(s.take(i + 1));
            }
            u16c = u16c + utf16_width(v[i]);
            u8c = u8c + utf8_width(v[i]);
            i = i + 1;
        }
        u16c
    }
}


impl TextInput {
    /// Puts a bare cursor at `offset`.
    pub fn move_to(&mut self, offset: usize)
        requires
            old(self).valid(),
            boundary(old(self).content@, offset as int),
        ensures
            final(self).valid(),
            final(self).same_text(*old(self)),
            final(self).selected_range == at(offset),
            final(self).selection_reversed == old(self).selection_reversed,
    {
        self.selected_range = offset..offset;
    }

    /// The cursor offset: the start of a reversed selection, else its end.
    pub fn cursor_offset(&self) -> (r: usize)
        ensures
            r == self.cursor(),
    {
        if self.selection_reversed {
            self.selected_range.start
        } else {
            self.selected_range.end
        }
    }

    /// Moves the cursor end of the selection to `offset`, keeping its anchor.
    pub fn select_to(&mut self, offset: usize)
        requires
            old(self).valid(),
            boundary(old(self).content@, offset as int),
        ensures
            final(self).valid(),
            final(self).same_text(*old(self)),
            (final(self).selected_range, final(self).selection_reversed)
                == select_to_spec(old(self).selected_range, old(self).selection_reversed, offset),
    {
        if self.selection_reversed {
            self.selected_range.start = offset;
        } else {
            self.selected_range.end = offset;
        }
        if self.selected_range.end < self.selected_range.start {
            self.selection_reversed = !self.selection_reversed;
            self.selected_range = self.selected_range.end..self.selected_range.start;
        }
    }

    /// The start of the grapheme cluster before `offset`, or 0.
    pub fn previous_boundary(&self, offset: usize) -> (r: usize)
        ensures
            r == prev_start(self.graphemes(), offset as int),
            boundary(self.content@, r as int),
    {
        previous_start(self.content.as_str(), offset)
    }

    /// The start of the grapheme cluster after `offset`, or the end.
    pub fn next_boundary(&self, offset: usize) -> (r: usize)
        ensures
            r == next_start(self.graphemes(), offset as int, blen(self.content@) as int),
            boundary(self.content@, r as int),
    {
        following_start(self.content.as_str(), offset)
    }

    /// Left arrow: one cluster back, or to the start of the selection.
    pub fn left(&mut self)
        requires
            old(self).valid(),
        ensures
            final(self).valid(),
            final(self).same_text(*old(self)),
            final(self).selection_reversed == old(self).selection_reversed,
            final(self).selected_range == if old(self).selected_range.start == old(self).selected_range.end {
                at(prev_start(old(self).graphemes(), old(self).cursor() as int) as usize)
            } else {
                at(old(self).selected_range.start)
            },
    {
        if self.selected_range.start == self.selected_range.end {
            let to = self.previous_boundary(self.cursor_offset());
            self.move_to(to);
        } else {
            let to = self.selected_range.start;
            self.move_to(to);
        }
    }

    /// Right arrow: one cluster on, or to the end of the selection.
    pub fn right(&mut self)
        requires
            old(self).valid(),
        ensures
            final(self).valid(),
            final(self).same_text(*old(self)),
            final(self).selection_reversed == old(self).selection_reversed,
            final(self).selected_range == if old(self).selected_range.start == old(self).selected_range.end {
                at(next_start(old(self).graphemes(), old(self).selected_range.end as int, blen(old(self).content@) as int) as usize)
            } else {
                at(old(self).selected_range.end)
            },
    {
        if self.selected_range.start == self.selected_range.end {
            let to = self.next_boundary(self.selected_range.end);
            self.move_to(to);
        } else {
            let to = self.selected_range.end;
            self.move_to(to);
        }
    }

    /// Shift+Left: extends the selection one cluster back.
    pub fn select_left(&mut self)
        requires
            old(self).valid(),
        ensures
            final(self).valid(),
            final(self).same_text(*old(self)),
            (final(self).selected_range, final(self).selection_reversed) == select_to_spec(
                old(self).selected_range,
                old(self).selection_reversed,
                prev_start(old(self).graphemes(), old(self).cursor() as int) as usize,
            ),
    {
        let to = self.previous_boundary(self.cursor_offset());
        self.select_to(to);
    }

    /// Shift+Right: extends the selection one cluster on.
    pub fn select_right(&mut self)
        requires
            old(self).valid(),
        ensures
            final(self).valid(),
            final(self).same_text(*old(self)),
            (final(self).selected_range, final(self).selection_reversed) == select_to_spec(
                old(self).selected_range,
                old(self).selection_reversed,
                next_start(old(self).graphemes(), old(self).cursor() as int, blen(old(self).content@) as int) as usize,
            ),
    {
        let to = self.next_boundary(self.cursor_offset());
        self.select_to(to);
    }

    /// Selects the whole text.
    pub fn select_all(&mut self)
        requires
            old(self).valid(),
        ensures
            final(self).valid(),
            final(self).same_text(*old(self)),
            (final(self).selected_range, final(self).selection_reversed)
                == select_to_spec(at(0), old(self).selection_reversed, old(self).end_offset()),
            final(self).selected_range == (Range { start: 0usize, end: old(self).end_offset() }),
    {
        let len = byte_len(self.content.as_str());
        proof {
            lemma_char_idx(self.content@, 0);
            assert(self.content@.take(0) =~= Seq::<char>::empty());
            lemma_char_idx(self.content@, self.content@.len() as int);
            lemma_blen_whole(self.content@);
        }
        self.move_to(0);
        self.select_to(len);
    }

    /// Home: the cursor to the start.
    pub fn home(&mut self)
        requires
            old(self).valid(),
        ensures
            final(self).valid(),
            final(self).same_text(*old(self)),
            final(self).selected_range == at(0),
            final(self).selection_reversed == old(self).selection_reversed,
    {
        proof {
            lemma_char_idx(self.content@, 0);
            assert(self.content@.take(0) =~= Seq::<char>::empty());
        }
        self.move_to(0);
    }

    /// End: the cursor to the end.
    pub fn end(&mut self)
        requires
            old(self).valid(),
        ensures
            final(self).valid(),
            final(self).same_text(*old(self)),
            final(self).selected_range == at(old(self).end_offset()),
            final(self).selection_reversed == old(self).selection_reversed,
    {
        let len = byte_len(self.content.as_str());
        proof {
            lemma_char_idx(self.content@, self.content@.len() as int);
            lemma_blen_whole(self.content@);
        }
        self.move_to(len);
    }
}


/// Splicing `ins` between two boundaries of `s`: the byte length of the
/// result and the boundary right after the inserted text.
proof fn lemma_splice(s: Seq<char>, a: int, b: int, ins: Seq<char>)
    requires
        boundary(s, a),
        boundary(s, b),
        a <= b,
    ensures
        char_idx(s, a) <= char_idx(s, b),
        blen(spliced(s, a, b, ins)) >= a + blen(ins),
        boundary(spliced(s, a, b, ins), a + blen(ins)),
        boundary(spliced(s, a, b, ins), a),
{
    let ka = char_idx(s, a);
    let kb = char_idx(s, b);
    if kb < ka {
        lemma_take_strict(s, kb, ka);
    }
    let t = spliced(s, a, b, ins);
    let head = s.take(ka) + ins;
    assert(t == head + s.skip(kb));
    lemma_blen_concat(head, s.skip(kb));
    lemma_blen_concat(s.take(ka), ins);
    assert(t.take(head.len() as int) =~= head);
    lemma_char_idx(t, head.len() as int);
    assert(t.take(ka) =~= s.take(ka));
    lemma_char_idx(t, ka);
}

impl TextInput {
    /// The bytes `a..b` of the content.
    fn slice(&self, a: usize, b: usize) -> (r: String)
        requires
            boundary(self.content@, a as int),
            boundary(self.content@, b as int),
            a <= b,
        ensures
            r@ == byte_slice(self.content@, a as int, b as int),
    {
        let v = chars_of(self.content.as_str());
        slice_bytes(&v, a, b)
    }

    /// The byte range an edit replaces (see `target`).
    fn target_range(&self, range_utf16: &Option<Range<usize>>) -> (r: Range<usize>)
        requires
            self.valid(),
            self.ordered16(*range_utf16),
        ensures
            r == self.target(*range_utf16),
            range_ok(self.content@, r),
    {
        match range_utf16 {
            Some(r) => {
                let a = self.offset_from_utf16(r.start);
                let b = self.offset_from_utf16(r.end);
                proof {
                    lemma_utf16_boundaries(self.content@, r.start as int);
                    lemma_utf16_boundaries(self.content@, r.end as int);
                }
                a..b
            },
            None => match &self.marked_range {
                Some(m) => m.start..m.end,
                None => self.selected_range.start..self.selected_range.end,
            },
        }
    }

    /// The content with bytes `t` replaced by `new_text`, and its byte length.
    fn spliced_content(&self, t: &Range<usize>, new_text: &str) -> (r: (String, usize))
        requires
            self.valid(),
            range_ok(self.content@, *t),
        ensures
            r.0@ == spliced(self.content@, t.start as int, t.end as int, new_text@),
            r.1 == blen(new_text@),
            t.start + blen(new_text@) <= blen(r.0@) <= usize::MAX,
    {
        let v = chars_of(self.content.as_str());
        let ka = char_index(&v, t.start);
        let kb = char_index(&v, t.end);
        proof {
            lemma_splice(self.content@, t.start as int, t.end as int, new_text@);
        }
        let text = splice_chars(&v, ka, kb, new_text);
        let total = byte_len(text.as_str());
        let ins = byte_len(new_text);
        (text, ins)
    }

    /// Replaces the given UTF-16 range (else the marked text, else the
    /// selection) with `new_text`, leaves the cursor after it and ends any
    /// composition.
    pub fn replace_text_in_range(&mut self, range_utf16: Option<Range<usize>>, new_text: &str)
        requires
            old(self).valid(),
            old(self).ordered16(range_utf16),
        ensures
            final(self).valid(),
            final(self).spliced_from(*old(self), old(self).target(range_utf16), new_text@),
            final(self).selection_reversed == old(self).selection_reversed,
    {
        let t = self.target_range(&range_utf16);
        let (text, ins) = self.spliced_content(&t, new_text);
        proof {
            lemma_splice(self.content@, t.start as int, t.end as int, new_text@);
        }
        self.content = text;
        self.selected_range = (t.start + ins)..(t.start + ins);
        self.marked_range = None;
    }

    /// Replaces like `replace_text_in_range` but marks the inserted text as
    /// being composed; a given UTF-16 selection inside the new text is
    /// shifted by the replaced range (its end by the range's end).
    pub fn replace_and_mark_text_in_range(
        &mut self,
        range_utf16: Option<Range<usize>>,
        new_text: &str,
        new_selected_range_utf16: Option<Range<usize>>,
    )
        requires
            old(self).valid(),
            old(self).ordered16(range_utf16),
            new_selected_range_utf16 matches Some(n) ==> {
                let t = old(self).target(range_utf16);
                let c = spliced(old(self).content@, t.start as int, t.end as int, new_text@);
                &&& from16(c, n.start as int) + t.start <= usize::MAX
                &&& from16(c, n.end as int) + t.end <= usize::MAX
            },
        ensures
            ({
                let t = old(self).target(range_utf16);
                let c = spliced(old(self).content@, t.start as int, t.end as int, new_text@);
                &&& final(self).content@ == c
                &&& final(self).marked_range == if new_text@.len() > 0 {
                    Some(Range { start: t.start, end: (t.start + blen(new_text@)) as usize })
                } else {
                    None
                }
                &&& final(self).selected_range == match new_selected_range_utf16 {
                    Some(n) => Range {
                        start: (from16(c, n.start as int) + t.start) as usize,
                        end: (from16(c, n.end as int) + t.end) as usize,
                    },
                    None => at((t.start + blen(new_text@)) as usize),
                }
            }),
            final(self).selection_reversed == old(self).selection_reversed,
            final(self).same_settings(*old(self)),
            new_selected_range_utf16 is None ==> final(self).valid(),
    {
        let t = self.target_range(&range_utf16);
        let (text, ins) = self.spliced_content(&t, new_text);
        proof {
            lemma_splice(self.content@, t.start as int, t.end as int, new_text@);
        }
        self.content = text;
        if !new_text.is_empty() {
            self.marked_range = Some(t.start..(t.start + ins));
        } else {
            self.marked_range = None;
        }
        proof {
            lemma_blen_whole(self.content@);
        }
        match new_selected_range_utf16 {
            Some(n) => {
                let a = self.offset_from_utf16(n.start);
                let b = self.offset_from_utf16(n.end);
                self.selected_range = (a + t.start)..(b + t.end);
            },
            None => {
                self.selected_range = (t.start + ins)..(t.start + ins);
            },
        }
    }

    /// The text of a UTF-16 range, and (in `actual_range`) that range
    /// snapped to character boundaries.
    pub fn text_for_range(&self, range_utf16: Range<usize>, actual_range: &mut Option<Range<usize>>) -> (r: Option<String>)
        requires
            self.valid(),
            from16(self.content@, range_utf16.start as int) <= from16(self.content@, range_utf16.end as int),
        ensures
            ({
                let a = from16(self.content@, range_utf16.start as int) as int;
                let b = from16(self.content@, range_utf16.end as int) as int;
                &&& r matches Some(t) && t@ == byte_slice(self.content@, a, b)
                &&& *final(actual_range) == Some(Range { start: to16(self.content@, a) as usize, end: to16(self.content@, b) as usize })
            }),
    {
        let a = self.offset_from_utf16(range_utf16.start);
        let b = self.offset_from_utf16(range_utf16.end);
        proof {
            lemma_utf16_boundaries(self.content@, range_utf16.start as int);
            lemma_utf16_boundaries(self.content@, range_utf16.end as int);
        }
        let a16 = self.offset_to_utf16(a);
        let b16 = self.offset_to_utf16(b);
        *actual_range = Some(a16..b16);
        Some(self.slice(a, b))
    }

    /// The selection in UTF-16 offsets, and which side the cursor is on.
    pub fn selected_text_range(&self) -> (r: Option<(Range<usize>, bool)>)
        requires
            self.valid(),
        ensures
            r == Some((
                Range {
                    start: to16(self.content@, self.selected_range.start as int) as usize,
                    end: to16(self.content@, self.selected_range.end as int) as usize,
                },
                self.selection_reversed,
            )),
    {
        let a = self.offset_to_utf16(self.selected_range.start);
        let b = self.offset_to_utf16(self.selected_range.end);
        Some((a..b, self.selection_reversed))
    }

    /// The marked range in UTF-16 offsets.
    pub fn marked_text_range(&self) -> (r: Option<Range<usize>>)
        requires
            self.valid(),
        ensures
            r == match self.marked_range {
                Some(m) => Some(
                    Range {
                        start: to16(self.content@, m.start as int) as usize,
                        end: to16(self.content@, m.end as int) as usize,
                    },
                ),
                None => None::<Range<usize>>,
            },
    {
        match &self.marked_range {
            Some(m) => {
                let a = self.offset_to_utf16(m.start);
                let b = self.offset_to_utf16(m.end);
                Some(a..b)
            },
            None => None,
        }
    }

    /// Ends the composition, keeping its text.
    pub fn unmark_text(&mut self)
        requires
            old(self).valid(),
        ensures
            final(self).valid(),
            final(self).content@ == old(self).content@,
            final(self).marked_range is None,
            final(self).selected_range == old(self).selected_range,
            final(self).selection_reversed == old(self).selection_reversed,
            final(self).same_settings(*old(self)),
    {
        self.marked_range = None;
    }
}


/// `text` with each line break turned into a space.
fn flatten_lines(text: &str) -> (r: String)
    ensures
        r@ == one_line(text@),
{
    let v = chars_of(text);
    let mut r = String::new();
    let mut i: usize = 0;
    while i < v.len()
        invariant
            i <= v@.len(),
            v@ == text@,
            r@ == one_line(v@.take(i as int)),
        decreases v.len() - i,
    {
        let c = v[i];
        r.push(if c == '\n' { ' ' } else { c });
        i = i + 1;
        assert(r@ =~= one_line(v@.take(i as int)));
    }
    assert(v@.take(v@.len() as int) =~= v@);
    r
}

impl TextInput {
    /// The selection and its side after backspace or delete has widened an
    /// empty selection to `to`, as `select_to` would.
    pub open spec fn widened(&self, to: usize) -> (Range<usize>, bool) {
        if self.selected_range.start == self.selected_range.end {
            select_to_spec(self.selected_range, self.selection_reversed, to)
        } else {
            (self.selected_range, self.selection_reversed)
        }
    }

    /// What an edit that deletes towards `to` does: nothing where the cursor
    /// already is at `to` with nothing selected, else the selection is widened
    /// to `to` and the marked text, or else that selection, is removed.
    pub open spec fn deleted_towards(&self, old: Self, to: usize) -> bool {
        if old.selected_range.start == old.selected_range.end && old.cursor() == to {
            *self == old
        } else {
            let (sel, rev) = old.widened(to);
            let t = match old.marked_range {
                Some(m) => m,
                None => sel,
            };
            &&& self.spliced_from(old, t, Seq::<char>::empty())
            &&& self.selection_reversed == rev
        }
    }

    /// Backspace: deletes the selection, or the cluster before the cursor.
    pub fn backspace(&mut self)
        requires
            old(self).valid(),
        ensures
            final(self).valid(),
            final(self).deleted_towards(*old(self), prev_start(old(self).graphemes(), old(self).cursor() as int) as usize),
    {
        let prev = self.previous_boundary(self.cursor_offset());
        if self.selected_range.start == self.selected_range.end {
            if self.cursor_offset() == prev {
                return;
            }
            self.select_to(prev);
        }
        self.replace_text_in_range(None, "");
        proof {
            reveal_strlit("");
        }
    }

    /// Delete: deletes the selection, or the cluster after the cursor.
    pub fn delete(&mut self)
        requires
            old(self).valid(),
        ensures
            final(self).valid(),
            final(self).deleted_towards(
                *old(self),
                next_start(old(self).graphemes(), old(self).cursor() as int, blen(old(self).content@) as int) as usize,
            ),
    {
        let next = self.next_boundary(self.cursor_offset());
        if self.selected_range.start == self.selected_range.end {
            if self.cursor_offset() == next {
                return;
            }
            self.select_to(next);
        }
        self.replace_text_in_range(None, "");
        proof {
            reveal_strlit("");
        }
    }

    /// The selected text, which copying puts on the clipboard; nothing for
    /// an empty selection.
    pub fn copy(&self) -> (r: Option<String>)
        requires
            self.valid(),
        ensures
            self.selected_range.start == self.selected_range.end ==> r is None,
            self.selected_range.start != self.selected_range.end ==> (r matches Some(t)
                && t@ == byte_slice(self.content@, self.selected_range.start as int, self.selected_range.end as int)),
    {
        if self.selected_range.start == self.selected_range.end {
            None
        } else {
            Some(self.slice(self.selected_range.start, self.selected_range.end))
        }
    }

    /// Cut: returns the selected text for the clipboard and removes the
    /// marked text, or else the selection; nothing happens for an empty
    /// selection.
    pub fn cut(&mut self) -> (r: Option<String>)
        requires
            old(self).valid(),
        ensures
            final(self).valid(),
            old(self).selected_range.start == old(self).selected_range.end ==> r is None && *final(self) == *old(self),
            old(self).selected_range.start != old(self).selected_range.end ==> {
                &&& r matches Some(t) && t@ == byte_slice(
                    old(self).content@,
                    old(self).selected_range.start as int,
                    old(self).selected_range.end as int,
                )
                &&& final(self).spliced_from(*old(self), old(self).target(None), Seq::<char>::empty())
                &&& final(self).selection_reversed == old(self).selection_reversed
            },
    {
        if self.selected_range.start == self.selected_range.end {
            return None;
        }
        let text = self.slice(self.selected_range.start, self.selected_range.end);
        self.replace_text_in_range(None, "");
        proof {
            reveal_strlit("");
        }
        Some(text)
    }

    /// Paste: the clipboard text, line breaks made spaces, replaces the
    /// marked text or else the selection.
    pub fn paste(&mut self, text: &str)
        requires
            old(self).valid(),
        ensures
            final(self).valid(),
            final(self).spliced_from(*old(self), old(self).target(None), one_line(text@)),
            final(self).selection_reversed == old(self).selection_reversed,
    {
        let flat = flatten_lines(text);
        self.replace_text_in_range(None, flat.as_str());
    }

    /// A press at the text index under the mouse: extends the selection
    /// with Shift, else places the cursor, and starts a drag.
    pub fn mouse_down(&mut self, index: usize, shift: bool)
        requires
            old(self).valid(),
            boundary(old(self).content@, index as int),
        ensures
            final(self).valid(),
            final(self).is_selecting,
            final(self).content@ == old(self).content@,
            final(self).marked_range == old(self).marked_range,
            shift ==> (final(self).selected_range, final(self).selection_reversed)
                == select_to_spec(old(self).selected_range, old(self).selection_reversed, index),
            !shift ==> final(self).selected_range == at(index)
                && final(self).selection_reversed == old(self).selection_reversed,
    {
        self.is_selecting = true;
        if shift {
            self.select_to(index);
        } else {
            self.move_to(index);
        }
    }

    /// The mouse button is released: the drag ends.
    pub fn mouse_up(&mut self)
        requires
            old(self).valid(),
        ensures
            final(self).valid(),
            !final(self).is_selecting,
            final(self).content@ == old(self).content@,
            final(self).marked_range == old(self).marked_range,
            final(self).selected_range == old(self).selected_range,
            final(self).selection_reversed == old(self).selection_reversed,
    {
        self.is_selecting = false;
    }

    /// The mouse moves over text index `index`: a drag extends the selection.
    pub fn mouse_move(&mut self, index: usize)
        requires
            old(self).valid(),
            boundary(old(self).content@, index as int),
        ensures
            final(self).valid(),
            final(self).same_text(*old(self)),
            old(self).is_selecting ==> (final(self).selected_range, final(self).selection_reversed)
                == select_to_spec(old(self).selected_range, old(self).selection_reversed, index),
            !old(self).is_selecting ==> final(self).selected_range == old(self).selected_range
                && final(self).selection_reversed == old(self).selection_reversed,
    {
        if self.is_selecting {
            self.select_to(index);
        }
    }
}


/// The UTF-8 length of the bullet that masks one cluster.
pub const BULLET_BYTES: usize = 3;

proof fn lemma_prefix_slice(s: Seq<char>, b: int)
    requires
        boundary(s, b),
    ensures
        byte_slice(s, 0, b) == s.take(char_idx(s, b)),
        0 <= char_idx(s, b) <= s.len(),
        blen(s.take(char_idx(s, b))) == b,
{
    lemma_char_idx(s, 0);
    assert(s.take(0) =~= Seq::<char>::empty());
    assert(s.subrange(0, char_idx(s, b)) =~= s.take(char_idx(s, b)));
}

impl TextInput {
    /// Where content offset `b` falls in the shown text: the same offset,
    /// or for a masked field three bytes per cluster of the text before it.
    pub fn content_offset_to_display(&self, b: usize) -> (r: usize)
        requires
            self.valid(),
            boundary(self.content@, b as int),
            blen(self.content@) * 3 <= usize::MAX,
        ensures
            r == if !self.masked {
                b as int
            } else {
                (grapheme_starts(byte_slice(self.content@, 0, b as int)).len() * 3) as int
            },
    {
        if !self.masked {
            return b;
        }
        proof {
            lemma_prefix_slice(self.content@, b as int);
            lemma_char_idx(self.content@, 0);
            assert(self.content@.take(0) =~= Seq::<char>::empty());
        }
        let before = self.slice(0, b);
        let g = grapheme_offsets(before.as_str());
        proof {
            lemma_starts_count(before@, g@);
            lemma_take_le(self.content@, char_idx(self.content@, b as int));
        }
        g.len() * BULLET_BYTES
    }

    /// The content offset of an offset into the shown text: the same offset,
    /// or for a masked field the start of the cluster whose bullet it falls
    /// in (the end past the last).
    pub fn display_offset_to_content(&self, d: usize) -> (r: usize)
        requires
            self.valid(),
        ensures
            r == if !self.masked {
                d as int
            } else if d / 3 < self.graphemes().len() {
                self.graphemes()[(d / 3) as int] as int
            } else {
                blen(self.content@) as int
            },
            self.masked ==> boundary(self.content@, r as int),
    {
        if !self.masked {
            return d;
        }
        let g = grapheme_offsets(self.content.as_str());
        let i = d / BULLET_BYTES;
        if i < g.len() {
            proof {
                lemma_start_boundary(self.content@, g@, i as int);
            }
            g[i]
        } else {
            proof {
                lemma_char_idx(self.content@, self.content@.len() as int);
                lemma_blen_whole(self.content@);
            }
            byte_len(self.content.as_str())
        }
    }

    /// The text shown: the content, or one bullet per cluster when masked.
    pub fn display_text(&self) -> (r: String)
        ensures
            r@ == if self.masked && self.content@.len() > 0 {
                bullets(self.graphemes().len())
            } else {
                self.content@
            },
    {
        if self.masked && !self.content.as_str().is_empty() {
            let g = grapheme_offsets(self.content.as_str());
            let n = g.len();
            let mut r = String::new();
            let mut i: usize = 0;
            while i < n
                invariant
                    i <= n,
                    r@ == bullets(i as nat),
                decreases n - i,
            {
                r.push('•');
                i = i + 1;
                assert(r@ =~= bullets(i as nat));
            }
            r
        } else {
            self.content.clone()
        }
    }
}

/// Removing a range and inserting the removed text where it was gives the
/// text back: a cut followed by a paste at the cursor undoes the cut.
pub proof fn law_remove_then_reinsert(s: Seq<char>, a: int, b: int)
    requires
        boundary(s, a),
        boundary(s, b),
        a <= b,
    ensures
        spliced(spliced(s, a, b, Seq::<char>::empty()), a, a, byte_slice(s, a, b)) == s,
{
    let ka = char_idx(s, a);
    let kb = char_idx(s, b);
    if kb < ka {
        lemma_take_strict(s, kb, ka);
    }
    let t = spliced(s, a, b, Seq::<char>::empty());
    assert(t =~= s.take(ka) + s.skip(kb));
    assert(t.take(ka) =~= s.take(ka));
    lemma_char_idx(s, ka);
    lemma_char_idx(t, ka);
    let u = spliced(t, a, a, byte_slice(s, a, b));
    assert(u =~= s.take(ka) + s.subrange(ka, kb) + s.skip(kb));
    assert(u =~= s);
}

} // verus!
