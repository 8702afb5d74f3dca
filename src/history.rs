//! The clipboard history store: an ordered list of entries (index 0 is the
//! top), pinned entries first, bounded by a configurable size, with
//! deduplication, one-shot self-paste suppression and age-based cleanup.
use vstd::prelude::*;
use crate::fingerprint::{hash_text, text_hash};
use crate::text::{blank, is_blank};
use crate::media::{encode_base64, encode_png, base64_of, png_of, rgba_len};
use crate::runtime::{new_id, now_millis};
use crate::format::{image_preview, image_preview_text, text_preview, text_preview_of};

verus! {

/// Size used when no size (or 0) is configured.
pub const DEFAULT_MAX_HISTORY_SIZE: usize = 50;

/// Largest size that can be configured.
pub const MAX_HISTORY_SIZE_LIMIT: usize = 100000;

/// What a history entry holds.
#[derive(Debug, Clone)]
pub enum ClipboardContent {
    /// Plain text.
    Text(String),
    /// Text with an HTML rendition.
    RichText { plain: String, html: String },
    /// An image, as base64 of its PNG encoding.
    Image { base64: String, width: u32, height: u32 },
}

/// One history entry.
#[derive(Debug, Clone)]
pub struct ClipboardItem {
    /// Unique identifier.
    pub id: String,
    /// The content.
    pub content: ClipboardContent,
    /// When it was admitted, in milliseconds since the Unix epoch.
    pub timestamp: i64,
    /// Pinned entries precede all others and are never evicted.
    pub pinned: bool,
    /// Favorited entries are never evicted.
    pub favorited: bool,
    /// Display text.
    pub preview: String,
    /// Stable hash of an image's pixels; `None` for text.
    pub content_hash: Option<u64>,
}

/// The text an entry holds, if it holds text.
pub open spec fn text_of(c: ClipboardContent) -> Option<Seq<char>> {
    match c {
        ClipboardContent::Text(t) => Some(t@),
        ClipboardContent::RichText { plain, .. } => Some(plain@),
        ClipboardContent::Image { .. } => None,
    }
}

/// Protected entries (pinned or favorited) survive eviction and clearing.
pub open spec fn protected(it: ClipboardItem) -> bool {
    it.pinned || it.favorited
}

pub open spec fn pinned_pred() -> spec_fn(ClipboardItem) -> bool {
    |it: ClipboardItem| it.pinned
}

pub open spec fn unpinned_pred() -> spec_fn(ClipboardItem) -> bool {
    |it: ClipboardItem| !it.pinned
}

pub open spec fn protected_pred() -> spec_fn(ClipboardItem) -> bool {
    |it: ClipboardItem| protected(it)
}

/// Keeps every entry but unpinned ones holding the text `t`.
pub open spec fn not_stale_copy_pred(t: Seq<char>) -> spec_fn(ClipboardItem) -> bool {
    |it: ClipboardItem| it.pinned || text_of(it.content) != Some(t)
}

/// Keeps every entry whose id is not `id`.
pub open spec fn other_id_pred(id: Seq<char>) -> spec_fn(ClipboardItem) -> bool {
    |it: ClipboardItem| it.id@ != id
}

/// Pinned entries all come before unpinned ones.
pub open spec fn pinned_first(s: Seq<ClipboardItem>) -> bool {
    forall|i: int, j: int| 0 <= i < j < s.len() && (#[trigger] s[j]).pinned ==> (#[trigger] s[i]).pinned
}

/// Index of the first unpinned entry, or the length when there is none.
pub open spec fn first_unpinned(s: Seq<ClipboardItem>) -> int
    decreases s.len(),
{
    if s.len() == 0 {
        0
    } else if !s[0].pinned {
        0
    } else {
        1 + first_unpinned(s.drop_first())
    }
}

/// Index of the last entry that may be evicted, or -1.
pub open spec fn last_removable(s: Seq<ClipboardItem>) -> int
    decreases s.len(),
{
    if s.len() == 0 {
        -1
    } else if !protected(s.last()) {
        s.len() - 1
    } else {
        last_removable(s.drop_last())
    }
}

/// Evicts the oldest unprotected entries until the list fits `max`, or no
/// unprotected entry is left.
pub open spec fn enforce_limit(s: Seq<ClipboardItem>, max: nat) -> Seq<ClipboardItem>
    decreases s.len(),
{
    if s.len() <= max {
        s
    } else {
        let i = last_removable(s);
        if i < 0 || i >= s.len() {
            s
        } else {
            enforce_limit(s.remove(i), max)
        }
    }
}

/// Inserts a fresh entry at the top of the unpinned group, then evicts.
pub open spec fn insert_fresh(s: Seq<ClipboardItem>, it: ClipboardItem, max: nat) -> Seq<
    ClipboardItem,
> {
    enforce_limit(s.insert(first_unpinned(s), it), max)
}

/// `i` is the first index whose entry has id `id`.
pub open spec fn first_with_id(s: Seq<ClipboardItem>, id: Seq<char>, i: int) -> bool {
    0 <= i < s.len() && s[i].id@ == id && forall|k: int| 0 <= k < i ==> (#[trigger] s[k]).id@ != id
}

pub open spec fn has_id(s: Seq<ClipboardItem>, id: Seq<char>) -> bool {
    exists|k: int| 0 <= k < s.len() && (#[trigger] s[k]).id@ == id
}

/// The entry at the top of the unpinned group, if any.
pub open spec fn top_unpinned(s: Seq<ClipboardItem>) -> Option<ClipboardItem> {
    if 0 <= first_unpinned(s) < s.len() {
        Some(s[first_unpinned(s)])
    } else {
        None
    }
}

/// The number of protected entries.
pub open spec fn protected_count(s: Seq<ClipboardItem>) -> nat {
    s.filter(protected_pred()).len()
}

// ---------------------------------------------------------------------------
// Lemmas on the sequence model
// ---------------------------------------------------------------------------

pub proof fn lemma_first_unpinned(s: Seq<ClipboardItem>, p: int)
    requires
        0 <= p <= s.len(),
        forall|k: int| 0 <= k < p ==> (#[trigger] s[k]).pinned,
        p == s.len() || !s[p].pinned,
    ensures
        first_unpinned(s) == p,
    decreases s.len(),
{
    if s.len() > 0 && p > 0 {
        assert(s[0].pinned);
        let t = s.drop_first();
        assert forall|k: int| 0 <= k < p - 1 implies (#[trigger] t[k]).pinned by {
            assert(t[k] == s[k + 1]);
        }
        lemma_first_unpinned(t, p - 1);
    }
}

pub proof fn lemma_first_unpinned_bounds(s: Seq<ClipboardItem>)
    ensures
        0 <= first_unpinned(s) <= s.len(),
        forall|k: int| 0 <= k < first_unpinned(s) ==> (#[trigger] s[k]).pinned,
        first_unpinned(s) < s.len() ==> !s[first_unpinned(s)].pinned,
    decreases s.len(),
{
    if s.len() > 0 && s[0].pinned {
        let t = s.drop_first();
        lemma_first_unpinned_bounds(t);
        assert forall|k: int| 0 <= k < first_unpinned(s) implies (#[trigger] s[k]).pinned by {
            if k > 0 {
                assert(s[k] == t[k - 1]);
            }
        }
    }
}

pub proof fn lemma_last_removable(s: Seq<ClipboardItem>)
    ensures
        -1 <= last_removable(s) < s.len(),
        last_removable(s) >= 0 ==> !protected(s[last_removable(s)]),
        forall|k: int| last_removable(s) < k < s.len() ==> protected(#[trigger] s[k]),
    decreases s.len(),
{
    if s.len() > 0 && protected(s.last()) {
        let t = s.drop_last();
        lemma_last_removable(t);
        assert forall|k: int| last_removable(s) < k < s.len() implies protected(#[trigger] s[k]) by {
            if k < s.len() - 1 {
                assert(s[k] == t[k]);
            }
        }
    }
}

pub proof fn lemma_last_removable_at(s: Seq<ClipboardItem>, j: int)
    requires
        -1 <= j < s.len(),
        j >= 0 ==> !protected(s[j]),
        forall|k: int| j < k < s.len() ==> protected(#[trigger] s[k]),
    ensures
        last_removable(s) == j,
    decreases s.len(),
{
    if s.len() > 0 && j < s.len() - 1 {
        let t = s.drop_last();
        assert(protected(s[s.len() - 1]));
        assert forall|k: int| j < k < t.len() implies protected(#[trigger] t[k]) by {
            assert(t[k] == s[k]);
        }
        lemma_last_removable_at(t, j);
    }
}

/// One step of a filter over a growing prefix.
pub proof fn lemma_filter_take(s: Seq<ClipboardItem>, p: spec_fn(ClipboardItem) -> bool, i: int)
    requires
        0 <= i < s.len(),
    ensures
        s.take(i + 1).filter(p) == (if p(s[i]) {
            s.take(i).filter(p).push(s[i])
        } else {
            s.take(i).filter(p)
        }),
{
    reveal(Seq::filter);
    assert(s.take(i + 1).drop_last() =~= s.take(i));
}

/// Removing an entry that a filter drops does not change the filter.
pub proof fn lemma_filter_remove(s: Seq<ClipboardItem>, p: spec_fn(ClipboardItem) -> bool, i: int)
    requires
        0 <= i < s.len(),
        !p(s[i]),
    ensures
        s.remove(i).filter(p) == s.filter(p),
    decreases s.len(),
{
    reveal(Seq::filter);
    if i == s.len() - 1 {
        assert(s.remove(i) =~= s.drop_last());
    } else {
        let r = s.remove(i);
        assert(r.drop_last() =~= s.drop_last().remove(i));
        assert(r.last() == s.last());
        lemma_filter_remove(s.drop_last(), p, i);
    }
}

pub proof fn lemma_pinned_first_remove(s: Seq<ClipboardItem>, i: int)
    requires
        pinned_first(s),
        0 <= i < s.len(),
    ensures
        pinned_first(s.remove(i)),
{
    let r = s.remove(i);
    assert forall|a: int, b: int| 0 <= a < b < r.len() && (#[trigger] r[b]).pinned implies (
    #[trigger] r[a]).pinned by {
        let sa = if a < i { a } else { a + 1 };
        let sb = if b < i { b } else { b + 1 };
        assert(r[a] == s[sa]);
        assert(r[b] == s[sb]);
    }
}

/// Inserting at the boundary keeps pinned entries first, for either kind of entry.
pub proof fn lemma_pinned_first_insert(s: Seq<ClipboardItem>, it: ClipboardItem)
    requires
        pinned_first(s),
    ensures
        pinned_first(s.insert(first_unpinned(s), it)),
{
    lemma_first_unpinned_bounds(s);
    let p = first_unpinned(s);
    let r = s.insert(p, it);
    assert forall|a: int, b: int| 0 <= a < b < r.len() && (#[trigger] r[b]).pinned implies (
    #[trigger] r[a]).pinned by {
        if a < p {
            assert(r[a] == s[a]);
        } else if a == p {
            // r[b] is pinned and lies past the boundary: only possible when it is the new entry
            assert(r[b] == s[b - 1]);
            assert(s[p].pinned);
        } else {
            assert(r[a] == s[a - 1]);
            assert(r[b] == s[b - 1]);
        }
    }
}

/// Inserting a pinned entry at the very top keeps pinned entries first.
pub proof fn lemma_pinned_first_insert_top(s: Seq<ClipboardItem>, it: ClipboardItem)
    requires
        pinned_first(s),
        it.pinned,
    ensures
        pinned_first(s.insert(0, it)),
{
    let r = s.insert(0, it);
    assert forall|a: int, b: int| 0 <= a < b < r.len() && (#[trigger] r[b]).pinned implies (
    #[trigger] r[a]).pinned by {
        if a > 0 {
            assert(r[a] == s[a - 1]);
            assert(r[b] == s[b - 1]);
        }
    }
}

/// What eviction guarantees: pinned entries stay first, the list fits the
/// bound unless only protected entries are left, and the protected entries
/// are exactly those that were there.
pub proof fn lemma_enforce_limit(s: Seq<ClipboardItem>, max: nat)
    requires
        pinned_first(s),
    ensures
        pinned_first(enforce_limit(s, max)),
        enforce_limit(s, max).len() <= max || forall|k: int|
            0 <= k < enforce_limit(s, max).len() ==> protected(#[trigger] enforce_limit(s, max)[k]),
        enforce_limit(s, max).filter(protected_pred()) == s.filter(protected_pred()),
        enforce_limit(s, max).filter(pinned_pred()) == s.filter(pinned_pred()),
        enforce_limit(s, max).len() <= s.len(),
        s.len() <= max ==> enforce_limit(s, max) == s,
    decreases s.len(),
{
    if s.len() > max {
        lemma_last_removable(s);
        let i = last_removable(s);
        if i >= 0 {
            lemma_pinned_first_remove(s, i);
            lemma_filter_remove(s, protected_pred(), i);
            lemma_filter_remove(s, pinned_pred(), i);
            lemma_enforce_limit(s.remove(i), max);
        }
    }
}


/// Filtering keeps pinned entries first.
pub proof fn lemma_pinned_first_filter(s: Seq<ClipboardItem>, p: spec_fn(ClipboardItem) -> bool)
    requires
        pinned_first(s),
    ensures
        pinned_first(s.filter(p)),
    decreases s.len(),
{
    reveal(Seq::filter);
    if s.len() > 0 {
        let d = s.drop_last();
        assert forall|i: int, j: int| 0 <= i < j < d.len() && (#[trigger] d[j]).pinned implies (
        #[trigger] d[i]).pinned by {
            assert(d[i] == s[i] && d[j] == s[j]);
        }
        lemma_pinned_first_filter(d, p);
        if p(s.last()) && s.last().pinned {
            assert forall|k: int| 0 <= k < d.len() implies (#[trigger] d[k]).pinned by {
                assert(d[k] == s[k]);
                assert(s[s.len() - 1].pinned);
            }
            lemma_filter_keeps_all_pinned(d, p);
        }
    }
}

proof fn lemma_filter_keeps_all_pinned(s: Seq<ClipboardItem>, p: spec_fn(ClipboardItem) -> bool)
    requires
        forall|k: int| 0 <= k < s.len() ==> (#[trigger] s[k]).pinned,
    ensures
        forall|k: int| 0 <= k < s.filter(p).len() ==> (#[trigger] s.filter(p)[k]).pinned,
    decreases s.len(),
{
    reveal(Seq::filter);
    if s.len() > 0 {
        let d = s.drop_last();
        assert forall|k: int| 0 <= k < d.len() implies (#[trigger] d[k]).pinned by {
            assert(d[k] == s[k]);
        }
        lemma_filter_keeps_all_pinned(d, p);
        assert(s[s.len() - 1].pinned);
    }
}

/// A list made only of protected entries is its own protected part.
pub proof fn lemma_all_protected_filter(s: Seq<ClipboardItem>)
    requires
        forall|k: int| 0 <= k < s.len() ==> protected(#[trigger] s[k]),
    ensures
        s.filter(protected_pred()) == s,
    decreases s.len(),
{
    reveal(Seq::filter);
    if s.len() > 0 {
        let d = s.drop_last();
        assert forall|k: int| 0 <= k < d.len() implies protected(#[trigger] d[k]) by {
            assert(d[k] == s[k]);
        }
        lemma_all_protected_filter(d);
        assert(protected(s[s.len() - 1]));
    }
}

/// Eviction down to a bound that covers the protected entries fits it.
pub proof fn lemma_limit_fits(s: Seq<ClipboardItem>, max: nat)
    requires
        pinned_first(s),
        protected_count(s) <= max,
    ensures
        enforce_limit(s, max).len() <= max,
{
    lemma_enforce_limit(s, max);
    let r = enforce_limit(s, max);
    if r.len() > max {
        lemma_all_protected_filter(r);
    }
}

/// Inserting an unprotected entry into a list within the bound, then
/// evicting, stays within the bound.
pub proof fn lemma_insert_fresh_fits(s: Seq<ClipboardItem>, it: ClipboardItem, max: nat)
    requires
        s.len() <= max,
        !protected(it),
    ensures
        insert_fresh(s, it, max).len() <= max,
{
    lemma_first_unpinned_bounds(s);
    let p = first_unpinned(s);
    let ins = s.insert(p, it);
    if ins.len() > max {
        lemma_last_removable(ins);
        assert(!protected(ins[p]));
        let i = last_removable(ins);
        assert(i >= 0);
        assert(enforce_limit(ins, max) == enforce_limit(ins.remove(i), max));
        assert(ins.remove(i).len() <= max);
    }
}

// ---------------------------------------------------------------------------
// The store
// ---------------------------------------------------------------------------

/// The abstract state of a store.
pub struct HistoryView {
    /// The entries, top first.
    pub items: Seq<ClipboardItem>,
    /// The configured maximum size.
    pub max_size: nat,
    /// One-shot suppression of a text the application itself pasted.
    pub pasted_text: Option<Seq<char>>,
    /// One-shot suppression of an image the application itself pasted.
    pub pasted_image: Option<u64>,
    /// Hash of the text last admitted (rapid-duplicate guard).
    pub last_text_hash: Option<u64>,
}

/// The history store.
pub struct ClipboardManager {
    history: Vec<ClipboardItem>,
    max_size: usize,
    last_pasted_text: Option<String>,
    last_pasted_image_hash: Option<u64>,
    last_text_hash: Option<u64>,
}

impl View for ClipboardManager {
    type V = HistoryView;

    closed spec fn view(&self) -> HistoryView {
        HistoryView {
            items: self.history@,
            max_size: self.max_size as nat,
            pasted_text: match self.last_pasted_text {
                Some(t) => Some(t@),
                None => None,
            },
            pasted_image: self.last_pasted_image_hash,
            last_text_hash: self.last_text_hash,
        }
    }
}

/// The store's invariant: pinned entries first, and no more entries than
/// the size bound, which is positive.
pub open spec fn history_wf(v: HistoryView) -> bool {
    pinned_first(v.items) && 1 <= v.max_size && v.items.len() <= v.max_size
}

/// Which entries a retain pass keeps.
enum Keep {
    /// All but unpinned entries holding this text.
    WithoutStaleCopiesOf(String),
    /// All but entries with this id.
    OtherId(String),
    /// Protected entries only.
    ProtectedOnly,
    /// Protected entries and those admitted at or after this time.
    NewerThan(i128),
}

spec fn keep_pred(k: Keep) -> spec_fn(ClipboardItem) -> bool {
    match k {
        Keep::WithoutStaleCopiesOf(t) => not_stale_copy_pred(t@),
        Keep::OtherId(id) => other_id_pred(id@),
        Keep::ProtectedOnly => protected_pred(),
        Keep::NewerThan(cutoff) => newer_than_pred(cutoff as int),
    }
}

/// Keeps protected entries and those admitted at or after `cutoff`.
pub open spec fn newer_than_pred(cutoff: int) -> spec_fn(ClipboardItem) -> bool {
    |it: ClipboardItem| protected(it) || it.timestamp as int >= cutoff
}

fn content_text(c: &ClipboardContent) -> (r: Option<&String>)
    ensures
        match r {
            Some(t) => text_of(*c) == Some(t@),
            None => text_of(*c) is None,
        },
{
    match c {
        ClipboardContent::Text(t) => Some(t),
        ClipboardContent::RichText { plain, .. } => Some(plain),
        ClipboardContent::Image { .. } => None,
    }
}

fn same_text(c: &ClipboardContent, t: &String) -> (r: bool)
    ensures
        r == (text_of(*c) == Some(t@)),
{
    match content_text(c) {
        Some(s) => *s == *t,
        None => false,
    }
}

fn keeps(k: &Keep, it: &ClipboardItem) -> (r: bool)
    ensures
        r == keep_pred(*k)(*it),
{
    match k {
        Keep::WithoutStaleCopiesOf(t) => it.pinned || !same_text(&it.content, t),
        Keep::OtherId(id) => it.id != *id,
        Keep::ProtectedOnly => it.pinned || it.favorited,
        Keep::NewerThan(cutoff) => it.pinned || it.favorited || (it.timestamp as i128) >= *cutoff,
    }
}

/// Drops, in place, the entries that `k` does not keep.
fn retain_items(v: &mut Vec<ClipboardItem>, k: &Keep)
    ensures
        final(v)@ == old(v)@.filter(keep_pred(*k)),
{
    let ghost orig = v@;
    let ghost p = keep_pred(*k);
    let mut i: usize = 0;
    let ghost mut j: int = 0;
    while i < v.len()
        invariant
            0 <= i <= v@.len(),
            0 <= j <= orig.len(),
            p == keep_pred(*k),
            v@.take(i as int) == orig.take(j).filter(p),
            v@.skip(i as int) == orig.skip(j),
            v@.len() - i == orig.len() - j,
        decreases orig.len() - j,
    {
        assert(v@[i as int] == v@.skip(i as int)[0]);
        assert(orig[j] == orig.skip(j)[0]);
        proof {
            lemma_filter_take(orig, p, j);
        }
        if keeps(k, &v[i]) {
            assert(v@.take(i + 1) =~= v@.take(i as int).push(v@[i as int]));
            assert(v@.skip(i + 1) =~= v@.skip(i as int).drop_first());
            assert(orig.skip(j + 1) =~= orig.skip(j).drop_first());
            i = i + 1;
        } else {
            let ghost before = v@;
            v.remove(i);
            assert(v@.take(i as int) =~= before.take(i as int));
            assert(v@.skip(i as int) =~= before.skip(i as int).drop_first());
            assert(orig.skip(j + 1) =~= orig.skip(j).drop_first());
        }
        proof {
            j = j + 1;
        }
    }
    assert(orig.skip(j).len() == 0);
    assert(j == orig.len());
    assert(orig.take(j) =~= orig);
    assert(v@.take(i as int) =~= v@);
}

/// Index of the first unpinned entry, or the length.
fn insert_position(v: &Vec<ClipboardItem>) -> (r: usize)
    ensures
        r == first_unpinned(v@),
{
    let mut i: usize = 0;
    while i < v.len() && v[i].pinned
        invariant
            0 <= i <= v@.len(),
            forall|k: int| 0 <= k < i ==> (#[trigger] v@[k]).pinned,
        decreases v@.len() - i,
    {
        i = i + 1;
    }
    proof {
        lemma_first_unpinned(v@, i as int);
    }
    i
}

/// Evicts from the tail until the list fits, leaving protected entries.
fn evict(v: &mut Vec<ClipboardItem>, max: usize)
    ensures
        final(v)@ == enforce_limit(old(v)@, max as nat),
{
    while v.len() > max
        invariant
            enforce_limit(v@, max as nat) == enforce_limit(old(v)@, max as nat),
        decreases v@.len(),
    {
        // scan from the tail for the last unprotected entry
        let mut j: usize = v.len();
        while j > 0 && (v[j - 1].pinned || v[j - 1].favorited)
            invariant
                0 <= j <= v@.len(),
                forall|k: int| j <= k < v@.len() ==> protected(#[trigger] v@[k]),
            decreases j,
        {
            j = j - 1;
        }
        if j == 0 {
            proof {
                lemma_last_removable_at(v@, -1);
            }
            return;
        }
        proof {
            lemma_last_removable_at(v@, j - 1);
        }
        v.remove(j - 1);
    }
}

/// Index of the first entry with the given id.
fn find_id(v: &Vec<ClipboardItem>, id: &String) -> (r: Option<usize>)
    ensures
        match r {
            Some(i) => first_with_id(v@, id@, i as int),
            None => !has_id(v@, id@),
        },
{
    let mut i: usize = 0;
    while i < v.len()
        invariant
            0 <= i <= v@.len(),
            forall|k: int| 0 <= k < i ==> (#[trigger] v@[k]).id@ != id@,
        decreases v@.len() - i,
    {
        if v[i].id == *id {
            return Some(i);
        }
        i = i + 1;
    }
    None
}


/// The size bound that a requested size gives: 0 means the default, and
/// the result lies in [1, MAX_HISTORY_SIZE_LIMIT].
pub open spec fn clamp_size(n: nat) -> nat {
    if n == 0 {
        DEFAULT_MAX_HISTORY_SIZE as nat
    } else if n > MAX_HISTORY_SIZE_LIMIT {
        MAX_HISTORY_SIZE_LIMIT as nat
    } else {
        n
    }
}

/// The clamped size, raised to the number of protected entries if it is
/// below it.
pub open spec fn resolved_size(n: nat, protected: nat) -> nat {
    if clamp_size(n) < protected {
        protected
    } else {
        clamp_size(n)
    }
}

/// Whether the top unpinned entry holds the text `t`.
pub open spec fn top_has_text(s: Seq<ClipboardItem>, t: Seq<char>) -> bool {
    match top_unpinned(s) {
        Some(top) => text_of(top.content) == Some(t),
        None => false,
    }
}

/// Whether admitting text `t` creates a new entry.
pub open spec fn admits_text(v: HistoryView, t: Seq<char>) -> bool {
    &&& !blank(t)
    &&& v.pasted_text != Some(t)
    &&& v.last_text_hash != Some(text_hash(t))
    &&& !top_has_text(v.items, t)
}

/// The content of a fresh text entry: rich text when non-blank HTML comes with it.
pub open spec fn text_content(text: String, html: Option<String>) -> ClipboardContent {
    match html {
        Some(h) => if blank(h@) {
            ClipboardContent::Text(text)
        } else {
            ClipboardContent::RichText { plain: text, html: h }
        },
        None => ClipboardContent::Text(text),
    }
}

/// A fresh, unpinned, unfavorited text entry for `text`.
pub open spec fn fresh_text_item(it: ClipboardItem, text: String, html: Option<String>) -> bool {
    &&& it.content == text_content(text, html)
    &&& !it.pinned
    &&& !it.favorited
    &&& it.preview@ == text_preview_of(text@)
    &&& it.content_hash is None
}

/// The state after admitting text `t`; `r` is the entry created, if any.
pub open spec fn after_text(v: HistoryView, t: Seq<char>, r: Option<ClipboardItem>) -> HistoryView {
    if blank(t) {
        v
    } else if v.pasted_text == Some(t) {
        HistoryView { pasted_text: None, ..v }
    } else if v.last_text_hash == Some(text_hash(t)) {
        v
    } else if top_has_text(v.items, t) {
        HistoryView { last_text_hash: Some(text_hash(t)), ..v }
    } else {
        HistoryView {
            items: insert_fresh(v.items.filter(not_stale_copy_pred(t)), r->0, v.max_size),
            last_text_hash: Some(text_hash(t)),
            ..v
        }
    }
}

/// Whether the top unpinned entry is an image with hash `h`.
pub open spec fn top_has_image(s: Seq<ClipboardItem>, h: u64) -> bool {
    match top_unpinned(s) {
        Some(top) => top.content_hash == Some(h),
        None => false,
    }
}

/// Whether an image with hash `h` passes the suppression and top checks.
pub open spec fn admits_image(v: HistoryView, h: u64) -> bool {
    v.pasted_image != Some(h) && !top_has_image(v.items, h)
}

/// The PNG encoding of an RGBA8 pixel buffer: `None` unless the buffer
/// holds exactly four bytes per pixel and the encoder accepts the image.
pub open spec fn image_encoding(rgba: Seq<u8>, width: u32, height: u32) -> Option<Seq<u8>> {
    if rgba.len() == rgba_len(width, height) {
        png_of(width, height, rgba)
    } else {
        None
    }
}

/// A fresh image entry for an encoded PNG file.
pub open spec fn fresh_image_entry(it: ClipboardItem, png: Seq<u8>, width: u32, height: u32, h: u64) -> bool {
    &&& it.content matches ClipboardContent::Image { base64, width: w, height: g }
        && base64@ == base64_of(png) && w == width && g == height
    &&& !it.pinned
    &&& !it.favorited
    &&& it.preview@ == image_preview_text(width, height)
    &&& it.content_hash == Some(h)
}

/// The state after admitting an image with hash `h`; `r` is the entry created, if any.
pub open spec fn after_image(v: HistoryView, h: u64, r: Option<ClipboardItem>) -> HistoryView {
    if v.pasted_image == Some(h) {
        HistoryView { pasted_image: None, ..v }
    } else {
        match r {
            Some(it) => HistoryView { items: insert_fresh(v.items, it, v.max_size), ..v },
            None => v,
        }
    }
}

/// The entry with its pin flag flipped, moved to the pinned/unpinned boundary.
pub open spec fn toggled_pin(s: Seq<ClipboardItem>, i: int) -> Seq<ClipboardItem> {
    let rest = s.remove(i);
    rest.insert(first_unpinned(rest), ClipboardItem { pinned: !s[i].pinned, ..s[i] })
}

/// The entry moved to the top of its group.
pub open spec fn moved_to_top(s: Seq<ClipboardItem>, i: int) -> Seq<ClipboardItem> {
    let rest = s.remove(i);
    if s[i].pinned {
        rest.insert(0, s[i])
    } else {
        rest.insert(first_unpinned(rest), s[i])
    }
}

/// The suppression slots after the application pastes `it`.
pub open spec fn after_mark(v: HistoryView, it: ClipboardItem) -> HistoryView {
    match text_of(it.content) {
        Some(t) => HistoryView { pasted_text: Some(t), ..v },
        None => match it.content_hash {
            Some(h) => HistoryView { pasted_image: Some(h), ..v },
            None => v,
        },
    }
}

/// The cutoff time of an age-based cleanup.
pub open spec fn age_cutoff(now: i64, max_age_minutes: u64) -> int {
    now as int - max_age_minutes as int * 60000
}

impl ClipboardItem {
    /// A field-by-field copy.
    pub fn copy(&self) -> (r: Self)
        ensures
            r == *self,
    {
        let content = match &self.content {
            ClipboardContent::Text(t) => ClipboardContent::Text(t.clone()),
            ClipboardContent::RichText { plain, html } => ClipboardContent::RichText {
                plain: plain.clone(),
                html: html.clone(),
            },
            ClipboardContent::Image { base64, width, height } => ClipboardContent::Image {
                base64: base64.clone(),
                width: *width,
                height: *height,
            },
        };
        ClipboardItem {
            id: self.id.clone(),
            content,
            timestamp: self.timestamp,
            pinned: self.pinned,
            favorited: self.favorited,
            preview: self.preview.clone(),
            content_hash: self.content_hash,
        }
    }

    /// A fresh text entry with the given id and time: rich text when
    /// non-blank HTML comes with it.
    pub fn text_entry(text: String, html: Option<String>, id: String, now: i64) -> (r: Self)
        ensures
            fresh_text_item(r, text, html),
            r.id == id,
            r.timestamp == now,
    {
        let preview = text_preview(text.as_str());
        let ghost html0 = html;
        let ghost text0 = text;
        let content = match html {
            Some(markup) => if is_blank(markup.as_str()) {
                ClipboardContent::Text(text)
            } else {
                ClipboardContent::RichText { plain: text, html: markup }
            },
            None => ClipboardContent::Text(text),
        };
        assert(content == text_content(text0, html0));
        ClipboardItem {
            id,
            content,
            timestamp: now,
            pinned: false,
            favorited: false,
            preview,
            content_hash: None,
        }
    }

    /// A fresh plain-text entry with a new id, stamped now.
    pub fn new_text(text: String) -> (r: Self)
        ensures
            fresh_text_item(r, text, None),
    {
        Self::text_entry(text, None, new_id(), now_millis())
    }

    /// A fresh image entry (PNG as base64) with a new id, stamped now.
    pub fn new_image(base64: String, width: u32, height: u32) -> (r: Self)
        ensures
            r.content == (ClipboardContent::Image { base64, width, height }),
            !r.pinned,
            !r.favorited,
            r.preview@ == image_preview_text(width, height),
            r.content_hash is None,
    {
        ClipboardItem {
            id: new_id(),
            content: ClipboardContent::Image { base64, width, height },
            timestamp: now_millis(),
            pinned: false,
            favorited: false,
            preview: image_preview(width, height),
            content_hash: None,
        }
    }
}

fn copy_items(v: &Vec<ClipboardItem>) -> (r: Vec<ClipboardItem>)
    ensures
        r@ == v@,
{
    let mut r: Vec<ClipboardItem> = Vec::new();
    let mut i: usize = 0;
    while i < v.len()
        invariant
            0 <= i <= v@.len(),
            r@ == v@.take(i as int),
        decreases v@.len() - i,
    {
        r.push(v[i].copy());
        i = i + 1;
        assert(r@ =~= v@.take(i as int));
    }
    assert(v@.take(i as int) =~= v@);
    r
}

fn count_protected(v: &Vec<ClipboardItem>) -> (r: usize)
    ensures
        r == protected_count(v@),
{
    let mut n: usize = 0;
    let mut i: usize = 0;
    while i < v.len()
        invariant
            0 <= i <= v@.len(),
            n == v@.take(i as int).filter(protected_pred()).len(),
            n <= i,
        decreases v@.len() - i,
    {
        proof {
            lemma_filter_take(v@, protected_pred(), i as int);
        }
        if v[i].pinned || v[i].favorited {
            n = n + 1;
        }
        i = i + 1;
    }
    assert(v@.take(i as int) =~= v@);
    n
}

fn clamp(n: usize) -> (r: usize)
    ensures
        r == clamp_size(n as nat),
{
    if n == 0 {
        DEFAULT_MAX_HISTORY_SIZE
    } else if n > MAX_HISTORY_SIZE_LIMIT {
        MAX_HISTORY_SIZE_LIMIT
    } else {
        n
    }
}

fn str_to_string(s: &str) -> (r: String)
    ensures
        r@ == s@,
{
    String::from_str(s)
}

impl ClipboardManager {
    /// The store's invariant.
    pub open spec fn wf(&self) -> bool {
        history_wf(self@)
    }

    /// An empty store with the default size bound.
    pub fn new() -> (r: Self)
        ensures
            r.wf(),
            r@.items.len() == 0,
            r@.max_size == DEFAULT_MAX_HISTORY_SIZE,
            r@.pasted_text is None,
            r@.pasted_image is None,
            r@.last_text_hash is None,
    {
        Self::with_max_size(DEFAULT_MAX_HISTORY_SIZE)
    }

    /// An empty store whose bound is the clamped `max_size`.
    pub fn with_max_size(max_size: usize) -> (r: Self)
        ensures
            r.wf(),
            r@.items.len() == 0,
            r@.max_size == clamp_size(max_size as nat),
            r@.pasted_text is None,
            r@.pasted_image is None,
            r@.last_text_hash is None,
    {
        ClipboardManager {
            history: Vec::new(),
            max_size: clamp(max_size),
            last_pasted_text: None,
            last_pasted_image_hash: None,
            last_text_hash: None,
        }
    }

    /// The configured size bound.
    pub fn max_history_size(&self) -> (r: usize)
        ensures
            r == self@.max_size,
    {
        self.max_size
    }

    /// A snapshot of the entries, top first.
    pub fn get_history(&self) -> (r: Vec<ClipboardItem>)
        ensures
            r@ == self@.items,
    {
        copy_items(&self.history)
    }

    /// The first entry with the given id.
    pub fn get_item(&self, id: &str) -> (r: Option<&ClipboardItem>)
        ensures
            match r {
                Some(it) => exists|i: int| first_with_id(self@.items, id@, i) && *it == self@.items[i],
                None => !has_id(self@.items, id@),
            },
    {
        let key = str_to_string(id);
        match find_id(&self.history, &key) {
            Some(i) => {
                assert(first_with_id(self@.items, id@, i as int));
                Some(&self.history[i])
            },
            None => None,
        }
    }

    /// Inserts a fresh entry at the top of the unpinned group and evicts.
    fn insert_new(&mut self, item: ClipboardItem)
        requires
            old(self).wf(),
            !protected(item),
        ensures
            final(self).wf(),
            final(self)@ == (HistoryView { items: insert_fresh(old(self)@.items, item, old(self)@.max_size), ..old(self)@ }),
    {
        let pos = insert_position(&self.history);
        proof {
            lemma_first_unpinned_bounds(self.history@);
            lemma_pinned_first_insert(self.history@, item);
        }
        proof {
            lemma_insert_fresh_fits(self.history@, item, self.max_size as nat);
        }
        self.history.insert(pos, item);
        proof {
            lemma_enforce_limit(self.history@, self.max_size as nat);
        }
        evict(&mut self.history, self.max_size);
    }

    /// Admits observed text with the given id and time; see `after_text`.
    pub fn admit_text_at(&mut self, text: String, html: Option<String>, id: String, now: i64) -> (r: Option<ClipboardItem>)
        requires
            old(self).wf(),
        ensures
            final(self).wf(),
            r is Some <==> admits_text(old(self)@, text@),
            r matches Some(it) ==> fresh_text_item(it, text, html) && it.id == id && it.timestamp == now,
            final(self)@ == after_text(old(self)@, text@, r),
    {
        if is_blank(text.as_str()) {
            return None;
        }
        let suppressed = match &self.last_pasted_text {
            Some(p) => *p == text,
            None => false,
        };
        if suppressed {
            self.last_pasted_text = None;
            return None;
        }
        let h = hash_text(text.as_str());
        let recent = match self.last_text_hash {
            Some(x) => x == h,
            None => false,
        };
        if recent {
            return None;
        }
        let pos = insert_position(&self.history);
        if pos < self.history.len() && same_text(&self.history[pos].content, &text) {
            self.last_text_hash = Some(h);
            return None;
        }
        assert(!top_has_text(self@.items, text@));
        proof {
            lemma_pinned_first_filter(self.history@, not_stale_copy_pred(text@));
        }
        retain_items(&mut self.history, &Keep::WithoutStaleCopiesOf(text.clone()));
        let item = ClipboardItem::text_entry(text, html, id, now);
        let out = item.copy();
        self.insert_new(item);
        self.last_text_hash = Some(h);
        Some(out)
    }

    /// Admits text the watcher observed (with its HTML rendition, if any):
    /// blank text, text the application just pasted (one-shot), a repeat of
    /// the last admitted text and the text already at the top are not
    /// admitted; otherwise older unpinned copies are dropped and a fresh
    /// entry goes on top, followed by eviction.
    pub fn add_text(&mut self, text: String, html: Option<String>) -> (r: Option<ClipboardItem>)
        requires
            old(self).wf(),
        ensures
            final(self).wf(),
            r is Some <==> admits_text(old(self)@, text@),
            r matches Some(it) ==> fresh_text_item(it, text, html),
            final(self)@ == after_text(old(self)@, text@, r),
    {
        let id = new_id();
        let now = now_millis();
        self.admit_text_at(text, html, id, now)
    }

    /// Whether an image with this hash would be admitted.
    pub fn image_admissible(&self, content_hash: u64) -> (r: bool)
        requires
            self.wf(),
        ensures
            r == admits_image(self@, content_hash),
    {
        let suppressed = match self.last_pasted_image_hash {
            Some(x) => x == content_hash,
            None => false,
        };
        if suppressed {
            return false;
        }
        let pos = insert_position(&self.history);
        if pos < self.history.len() {
            match self.history[pos].content_hash {
                Some(x) => x != content_hash,
                None => true,
            }
        } else {
            true
        }
    }

    /// Admits an image given its PNG encoding (`None` when encoding
    /// failed), with the given id and time; see `after_image`.
    pub fn admit_encoded_image(&mut self, png: Option<Vec<u8>>, width: u32, height: u32, content_hash: u64, id: String, now: i64) -> (r: Option<ClipboardItem>)
        requires
            old(self).wf(),
        ensures
            final(self).wf(),
            r is Some <==> (admits_image(old(self)@, content_hash) && png is Some),
            r matches Some(it) ==> fresh_image_entry(it, png->0@, width, height, content_hash) && it.id == id && it.timestamp == now,
            final(self)@ == after_image(old(self)@, content_hash, r),
    {
        let suppressed = match self.last_pasted_image_hash {
            Some(x) => x == content_hash,
            None => false,
        };
        if suppressed {
            self.last_pasted_image_hash = None;
            return None;
        }
        if !self.image_admissible(content_hash) {
            return None;
        }
        let png = match png {
            Some(png) => png,
            None => return None,
        };
        let base64 = encode_base64(png.as_slice());
        let item = ClipboardItem {
            id,
            content: ClipboardContent::Image { base64, width, height },
            timestamp: now,
            pinned: false,
            favorited: false,
            preview: image_preview(width, height),
            content_hash: Some(content_hash),
        };
        let out = item.copy();
        self.insert_new(item);
        Some(out)
    }

    /// Admits an image with the given id and time; see `after_image`. The
    /// pixels are encoded as PNG only when the checks pass and the buffer
    /// holds exactly four bytes per pixel.
    pub fn admit_image_at(&mut self, rgba: Vec<u8>, width: u32, height: u32, content_hash: u64, id: String, now: i64) -> (r: Option<ClipboardItem>)
        requires
            old(self).wf(),
        ensures
            final(self).wf(),
            r is Some <==> (admits_image(old(self)@, content_hash) && image_encoding(rgba@, width, height) is Some),
            r matches Some(it) ==> fresh_image_entry(it, image_encoding(rgba@, width, height)->0, width, height, content_hash)
                && it.id == id && it.timestamp == now,
            final(self)@ == after_image(old(self)@, content_hash, r),
    {
        proof {
            assert(width as int * height as int <= 0xffff_fffe_0000_0001) by (nonlinear_arith)
                requires
                    width <= 0xffff_ffff,
                    height <= 0xffff_ffff,
            ;
        }
        let area: u128 = (width as u128) * (height as u128);
        let expected: u128 = 4 * area;
        assert(4 * (width as int * height as int) == 4 * width as int * height as int) by (nonlinear_arith);
        assert(expected as int == rgba_len(width, height));
        let png = if self.image_admissible(content_hash) && (rgba.len() as u128) == expected {
            encode_png(width, height, rgba)
        } else {
            None
        };
        self.admit_encoded_image(png, width, height, content_hash, id, now)
    }

    /// Admits an image the watcher observed, as RGBA8 pixels with their
    /// hash: an image the application just pasted (one-shot) or the one
    /// already at the top is not admitted, nor a buffer that is not four
    /// bytes per pixel or that the encoder refuses; otherwise it is encoded
    /// as PNG and a fresh entry goes on top, followed by eviction.
    pub fn add_image(&mut self, rgba: Vec<u8>, width: u32, height: u32, content_hash: u64) -> (r: Option<ClipboardItem>)
        requires
            old(self).wf(),
        ensures
            final(self).wf(),
            r is Some <==> (admits_image(old(self)@, content_hash) && image_encoding(rgba@, width, height) is Some),
            r matches Some(it) ==> fresh_image_entry(it, image_encoding(rgba@, width, height)->0, width, height, content_hash),
            final(self)@ == after_image(old(self)@, content_hash, r),
    {
        let id = new_id();
        let now = now_millis();
        self.admit_image_at(rgba, width, height, content_hash, id, now)
    }

    /// Drops every entry that is neither pinned nor favorited.
    pub fn clear(&mut self)
        requires
            old(self).wf(),
        ensures
            final(self).wf(),
            final(self)@ == (HistoryView { items: old(self)@.items.filter(protected_pred()), ..old(self)@ }),
    {
        proof {
            lemma_pinned_first_filter(self.history@, protected_pred());
        }
        retain_items(&mut self.history, &Keep::ProtectedOnly);
    }

    /// Drops every entry with the given id.
    pub fn remove_item(&mut self, id: &str)
        requires
            old(self).wf(),
        ensures
            final(self).wf(),
            final(self)@ == (HistoryView { items: old(self)@.items.filter(other_id_pred(id@)), ..old(self)@ }),
    {
        proof {
            lemma_pinned_first_filter(self.history@, other_id_pred(id@));
        }
        retain_items(&mut self.history, &Keep::OtherId(str_to_string(id)));
    }

    /// Flips the pin of the entry with the given id and moves it to the
    /// boundary between pinned and unpinned entries; returns the entry.
    pub fn toggle_pin(&mut self, id: &str) -> (r: Option<ClipboardItem>)
        requires
            old(self).wf(),
        ensures
            final(self).wf(),
            match r {
                Some(it) => exists|i: int|
                    first_with_id(old(self)@.items, id@, i)
                    && it == (ClipboardItem { pinned: !old(self)@.items[i].pinned, ..old(self)@.items[i] })
                    && final(self)@ == (HistoryView { items: toggled_pin(old(self)@.items, i), ..old(self)@ }),
                None => !has_id(old(self)@.items, id@) && final(self)@ == old(self)@,
            },
    {
        let key = str_to_string(id);
        match find_id(&self.history, &key) {
            Some(i) => {
                let ghost s0 = self.history@;
                proof {
                    lemma_pinned_first_remove(s0, i as int);
                }
                let mut it = self.history.remove(i);
                it.pinned = !it.pinned;
                let out = it.copy();
                let pos = insert_position(&self.history);
                proof {
                    lemma_first_unpinned_bounds(self.history@);
                    lemma_pinned_first_insert(self.history@, it);
                }
                self.history.insert(pos, it);
                assert(first_with_id(s0, id@, i as int));
                Some(out)
            },
            None => None,
        }
    }

    /// Flips the favorite mark of the entry with the given id, in place;
    /// returns the entry.
    pub fn toggle_favorite(&mut self, id: &str) -> (r: Option<ClipboardItem>)
        requires
            old(self).wf(),
        ensures
            final(self).wf(),
            match r {
                Some(it) => exists|i: int|
                    first_with_id(old(self)@.items, id@, i)
                    && it == (ClipboardItem { favorited: !old(self)@.items[i].favorited, ..old(self)@.items[i] })
                    && final(self)@ == (HistoryView { items: old(self)@.items.update(i, it), ..old(self)@ }),
                None => !has_id(old(self)@.items, id@) && final(self)@ == old(self)@,
            },
    {
        let key = str_to_string(id);
        match find_id(&self.history, &key) {
            Some(i) => {
                let ghost s0 = self.history@;
                let mut it = self.history.remove(i);
                it.favorited = !it.favorited;
                let out = it.copy();
                self.history.insert(i, it);
                assert(self.history@ =~= s0.update(i as int, out));
                assert forall|a: int, b: int| 0 <= a < b < self.history@.len() && (#[trigger] self.history@[b]).pinned implies (
                #[trigger] self.history@[a]).pinned by {
                    assert(self.history@[a].pinned == s0[a].pinned);
                    assert(self.history@[b].pinned == s0[b].pinned);
                }
                assert(first_with_id(s0, id@, i as int));
                Some(out)
            },
            None => None,
        }
    }

    /// Moves the entry with the given id to the top of its group: index 0
    /// when pinned, the first unpinned slot otherwise. Returns whether it
    /// was found.
    pub fn move_item_to_top(&mut self, id: &str) -> (r: bool)
        requires
            old(self).wf(),
        ensures
            final(self).wf(),
            r == has_id(old(self)@.items, id@),
            r ==> exists|i: int|
                first_with_id(old(self)@.items, id@, i)
                && final(self)@ == (HistoryView { items: moved_to_top(old(self)@.items, i), ..old(self)@ }),
            !r ==> final(self)@ == old(self)@,
    {
        let key = str_to_string(id);
        match find_id(&self.history, &key) {
            Some(i) => {
                let ghost s0 = self.history@;
                proof {
                    lemma_pinned_first_remove(s0, i as int);
                }
                let it = self.history.remove(i);
                if it.pinned {
                    proof {
                        lemma_pinned_first_insert_top(self.history@, it);
                    }
                    self.history.insert(0, it);
                } else {
                    let pos = insert_position(&self.history);
                    proof {
                        lemma_first_unpinned_bounds(self.history@);
                        lemma_pinned_first_insert(self.history@, it);
                    }
                    self.history.insert(pos, it);
                }
                assert(first_with_id(s0, id@, i as int));
                true
            },
            None => false,
        }
    }

    /// Drops unprotected entries admitted before `now - max_age_minutes`;
    /// nothing when `max_age_minutes` is 0. Returns how many were dropped.
    pub fn cleanup_older_than(&mut self, max_age_minutes: u64, now: i64) -> (r: usize)
        requires
            old(self).wf(),
        ensures
            final(self).wf(),
            max_age_minutes == 0 ==> final(self)@ == old(self)@,
            max_age_minutes > 0 ==> final(self)@ == (HistoryView {
                items: old(self)@.items.filter(newer_than_pred(age_cutoff(now, max_age_minutes))),
                ..old(self)@
            }),
            r == old(self)@.items.len() - final(self)@.items.len(),
    {
        if max_age_minutes == 0 {
            return 0;
        }
        let cutoff: i128 = now as i128 - (max_age_minutes as i128) * 60000;
        let before = self.history.len();
        proof {
            lemma_pinned_first_filter(self.history@, newer_than_pred(cutoff as int));
            self.history@.lemma_filter_len(newer_than_pred(cutoff as int));
        }
        retain_items(&mut self.history, &Keep::NewerThan(cutoff));
        before - self.history.len()
    }

    /// Drops unprotected entries older than `max_age_minutes` minutes, by
    /// the clock; nothing when `max_age_minutes` is 0.
    pub fn cleanup_old_items(&mut self, max_age_minutes: u64) -> (r: usize)
        requires
            old(self).wf(),
        ensures
            final(self).wf(),
            max_age_minutes == 0 ==> final(self)@ == old(self)@,
            max_age_minutes > 0 ==> exists|now: i64| final(self)@ == (HistoryView {
                items: old(self)@.items.filter(newer_than_pred(#[trigger] age_cutoff(now, max_age_minutes))),
                ..old(self)@
            }),
            r == old(self)@.items.len() - final(self)@.items.len(),
    {
        let now = now_millis();
        self.cleanup_older_than(max_age_minutes, now)
    }

    /// Arms suppression for an entry the application is about to paste:
    /// the next admission of the same text (or image hash) is dropped.
    pub fn mark_as_pasted(&mut self, item: &ClipboardItem)
        requires
            old(self).wf(),
        ensures
            final(self).wf(),
            final(self)@ == after_mark(old(self)@, *item),
    {
        match content_text(&item.content) {
            Some(t) => {
                self.last_pasted_text = Some(t.clone());
            },
            None => {
                match item.content_hash {
                    Some(h) => {
                        self.last_pasted_image_hash = Some(h);
                    },
                    None => {},
                }
            },
        }
    }

    /// Arms text suppression for text pasted from elsewhere (an emoji, a
    /// link): the next admission of exactly this text is dropped.
    pub fn mark_text_as_pasted(&mut self, text: &str)
        requires
            old(self).wf(),
        ensures
            final(self).wf(),
            final(self)@ == (HistoryView { pasted_text: Some(text@), ..old(self)@ }),
    {
        self.last_pasted_text = Some(str_to_string(text));
    }

    /// Sets the size bound: `new_size` clamped (0 meaning the default),
    /// raised to the number of protected entries if below it; then evicts.
    /// Returns whether any entry was evicted.
    pub fn set_max_history_size(&mut self, new_size: usize) -> (r: bool)
        requires
            old(self).wf(),
        ensures
            final(self).wf(),
            final(self)@.max_size == resolved_size(new_size as nat, protected_count(old(self)@.items)),
            final(self)@ == (HistoryView {
                items: enforce_limit(old(self)@.items, final(self)@.max_size),
                max_size: final(self)@.max_size,
                ..old(self)@
            }),
            r == (final(self)@.items.len() < old(self)@.items.len()),
    {
        self.apply_size(new_size)
    }

    /// Resolves and applies a size bound to entries that are pinned first.
    fn apply_size(&mut self, new_size: usize) -> (r: bool)
        requires
            pinned_first(old(self)@.items),
        ensures
            final(self).wf(),
            final(self)@.max_size == resolved_size(new_size as nat, protected_count(old(self)@.items)),
            final(self)@ == (HistoryView {
                items: enforce_limit(old(self)@.items, final(self)@.max_size),
                max_size: final(self)@.max_size,
                ..old(self)@
            }),
            r == (final(self)@.items.len() < old(self)@.items.len()),
    {
        let protected_n = count_protected(&self.history);
        let mut size = clamp(new_size);
        if size < protected_n {
            size = protected_n;
        }
        self.max_size = size;
        let before = self.history.len();
        proof {
            lemma_enforce_limit(self.history@, size as nat);
            lemma_limit_fits(self.history@, size as nat);
        }
        evict(&mut self.history, size);
        self.history.len() < before
    }

    /// A store hydrated from saved entries: pinned entries moved to the
    /// front with both groups in their saved order, the bound resolved as
    /// in `set_max_history_size`, then evicted. The flag tells whether
    /// anything was evicted (the saved file is then stale).
    pub fn from_saved(items: Vec<ClipboardItem>, max_size: usize) -> (r: (Self, bool))
        ensures
            r.0.wf(),
            r.0@.max_size == resolved_size(max_size as nat, protected_count(items@)),
            r.0@.items == enforce_limit(reordered(items@), r.0@.max_size),
            r.0@.pasted_text is None,
            r.0@.pasted_image is None,
            r.0@.last_text_hash is None,
            r.1 == (r.0@.items.len() < items@.len()),
    {
        let ordered = pinned_to_front(&items);
        let mut m = ClipboardManager {
            history: ordered,
            max_size: 1,
            last_pasted_text: None,
            last_pasted_image_hash: None,
            last_text_hash: None,
        };
        proof {
            lemma_reordered(items@);
        }
        let trimmed = m.apply_size(max_size);
        (m, trimmed)
    }
}

/// Why a paste request cannot go ahead.
#[derive(Debug, Clone, Copy, PartialEq, Eq, Structural)]
pub enum PasteError {
    /// No entry has the requested id: the caller's view is stale.
    NotFound,
}

impl ClipboardManager {
    /// First step of a paste: fetches the entry with the given id and arms
    /// self-paste suppression for it, before anything is written to the
    /// clipboard. Returns the entry whose content is to be written.
    pub fn paste_item(&mut self, id: &str) -> (r: Result<ClipboardItem, PasteError>)
        requires
            old(self).wf(),
        ensures
            final(self).wf(),
            match r {
                Ok(it) => exists|i: int| first_with_id(old(self)@.items, id@, i) && it == old(self)@.items[i]
                    && final(self)@ == after_mark(old(self)@, it),
                Err(e) => e == PasteError::NotFound && !has_id(old(self)@.items, id@) && final(self)@ == old(self)@,
            },
    {
        let key = str_to_string(id);
        match find_id(&self.history, &key) {
            Some(i) => {
                assert(first_with_id(self@.items, id@, i as int));
                let it = self.history[i].copy();
                self.mark_as_pasted(&it);
                Ok(it)
            },
            None => Err(PasteError::NotFound),
        }
    }

    /// Last step of a paste, after the clipboard write, focus restore and
    /// keystroke (whose outcome is `outcome`): the pasted entry, now the
    /// most recently used, moves to the top of its group whatever the
    /// outcome, and the outcome is returned unchanged.
    pub fn finish_paste(&mut self, id: &str, outcome: Result<(), String>) -> (r: Result<(), String>)
        requires
            old(self).wf(),
        ensures
            final(self).wf(),
            r == outcome,
            has_id(old(self)@.items, id@) ==> exists|i: int|
                first_with_id(old(self)@.items, id@, i)
                && final(self)@ == (HistoryView { items: moved_to_top(old(self)@.items, i), ..old(self)@ }),
            !has_id(old(self)@.items, id@) ==> final(self)@ == old(self)@,
    {
        self.move_item_to_top(id);
        outcome
    }
}

/// Pinned entries first, each group in the order it had.
pub open spec fn reordered(s: Seq<ClipboardItem>) -> Seq<ClipboardItem> {
    s.filter(pinned_pred()) + s.filter(unpinned_pred())
}

/// The reordered list keeps pinned entries first and has as many entries
/// and as many protected entries as the list it comes from.
pub proof fn lemma_reordered(s: Seq<ClipboardItem>)
    ensures
        pinned_first(reordered(s)),
        reordered(s).len() == s.len(),
        protected_count(reordered(s)) == protected_count(s),
{
    broadcast use Seq::lemma_filter_pred;
    let a = s.filter(pinned_pred());
    let b = s.filter(unpinned_pred());
    let r = reordered(s);
    assert forall|i: int, j: int| 0 <= i < j < r.len() && (#[trigger] r[j]).pinned implies (#[trigger] r[i]).pinned by {
        if j >= a.len() {
            assert(r[j] == b[j - a.len()]);
            assert(unpinned_pred()(b[j - a.len()]));
        }
        assert(r[i] == a[i]);
        assert(pinned_pred()(a[i]));
    }
    lemma_partition_len(s);
    lemma_partition_protected(s);
}

proof fn lemma_partition_len(s: Seq<ClipboardItem>)
    ensures
        s.filter(pinned_pred()).len() + s.filter(unpinned_pred()).len() == s.len(),
    decreases s.len(),
{
    reveal(Seq::filter);
    if s.len() > 0 {
        lemma_partition_len(s.drop_last());
    }
}

proof fn lemma_partition_protected(s: Seq<ClipboardItem>)
    ensures
        protected_count(reordered(s)) == protected_count(s),
    decreases s.len(),
{
    reveal(Seq::filter);
    let a = s.filter(pinned_pred());
    let b = s.filter(unpinned_pred());
    Seq::filter_distributes_over_add(a, b, protected_pred());
    if s.len() > 0 {
        let d = s.drop_last();
        lemma_partition_protected(d);
        let da = d.filter(pinned_pred());
        let db = d.filter(unpinned_pred());
        Seq::filter_distributes_over_add(da, db, protected_pred());
        let x = s.last();
        d.lemma_filter_push(x, protected_pred());
        assert(s == d.push(x));
        if x.pinned {
            assert(a == da.push(x));
            assert(b == db);
            da.lemma_filter_push(x, protected_pred());
        } else {
            assert(a == da);
            assert(b == db.push(x));
            db.lemma_filter_push(x, protected_pred());
        }
    }
}

/// Copies the entries, pinned ones first, each group in the order it had.
fn pinned_to_front(v: &Vec<ClipboardItem>) -> (r: Vec<ClipboardItem>)
    ensures
        r@ == reordered(v@),
{
    let mut r: Vec<ClipboardItem> = Vec::new();
    let mut i: usize = 0;
    while i < v.len()
        invariant
            0 <= i <= v@.len(),
            r@ == v@.take(i as int).filter(pinned_pred()),
        decreases v@.len() - i,
    {
        proof {
            lemma_filter_take(v@, pinned_pred(), i as int);
        }
        if v[i].pinned {
            r.push(v[i].copy());
        }
        i = i + 1;
    }
    assert(v@.take(i as int) =~= v@);
    let ghost front = r@;
    let mut k: usize = 0;
    while k < v.len()
        invariant
            0 <= k <= v@.len(),
            front == v@.filter(pinned_pred()),
            r@ == front + v@.take(k as int).filter(unpinned_pred()),
        decreases v@.len() - k,
    {
        proof {
            lemma_filter_take(v@, unpinned_pred(), k as int);
        }
        if !v[k].pinned {
            r.push(v[k].copy());
            assert(r@ =~= front + v@.take(k + 1).filter(unpinned_pred()));
        }
        k = k + 1;
    }
    assert(v@.take(k as int) =~= v@);
    r
}

} // verus!
