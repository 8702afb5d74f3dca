//! Laws of the history store, stated over its abstract state and proved.
use vstd::prelude::*;
use crate::fingerprint::text_hash;
use crate::text::blank;
use crate::history::{
    ClipboardItem, HistoryView, admits_image, admits_text, after_image, after_text, enforce_limit,
    first_unpinned, history_wf, insert_fresh, lemma_enforce_limit, lemma_filter_remove,
    lemma_first_unpinned_bounds, lemma_pinned_first_filter, lemma_pinned_first_insert,
    lemma_pinned_first_insert_top, lemma_pinned_first_remove, lemma_reordered, moved_to_top,
    lemma_all_protected_filter, lemma_insert_fresh_fits, lemma_limit_fits,
    newer_than_pred, not_stale_copy_pred, other_id_pred, pinned_first, pinned_pred, protected,
    protected_count, protected_pred, reordered, resolved_size, toggled_pin, top_has_image,
    top_has_text, unpinned_pred, after_mark, text_of, last_removable, lemma_last_removable,
};

verus! {

/// One operation on the store's entries, as the store's commands perform it.
pub enum HistoryOp {
    /// Admission of text; `created` is the entry it makes when it makes one.
    AdmitText { text: Seq<char>, created: Option<ClipboardItem> },
    /// Admission of an image; `created` is the entry made, if any.
    AdmitImage { hash: u64, created: Option<ClipboardItem> },
    /// Pin toggle of the entry at `index`.
    TogglePin { index: int },
    /// Favorite toggle of the entry at `index`.
    ToggleFavorite { index: int },
    /// Move to the top of its group of the entry at `index`.
    MoveToTop { index: int },
    /// Removal of the entries with this id.
    Remove { id: Seq<char> },
    /// Removal of all unprotected entries.
    Clear,
    /// Removal of unprotected entries admitted before `cutoff`.
    Cleanup { cutoff: int },
    /// A new size bound, followed by eviction.
    Resize { size: nat },
}

/// The state after one operation.
pub open spec fn apply(v: HistoryView, op: HistoryOp) -> HistoryView {
    match op {
        HistoryOp::AdmitText { text, created } => after_text(v, text, created),
        HistoryOp::AdmitImage { hash, created } => after_image(v, hash, created),
        HistoryOp::TogglePin { index } => if 0 <= index < v.items.len() {
            HistoryView { items: toggled_pin(v.items, index), ..v }
        } else {
            v
        },
        HistoryOp::ToggleFavorite { index } => if 0 <= index < v.items.len() {
            HistoryView {
                items: v.items.update(
                    index,
                    ClipboardItem { favorited: !v.items[index].favorited, ..v.items[index] },
                ),
                ..v
            }
        } else {
            v
        },
        HistoryOp::MoveToTop { index } => if 0 <= index < v.items.len() {
            HistoryView { items: moved_to_top(v.items, index), ..v }
        } else {
            v
        },
        HistoryOp::Remove { id } => HistoryView { items: v.items.filter(other_id_pred(id)), ..v },
        HistoryOp::Clear => HistoryView { items: v.items.filter(protected_pred()), ..v },
        HistoryOp::Cleanup { cutoff } => HistoryView {
            items: v.items.filter(newer_than_pred(cutoff)),
            ..v
        },
        HistoryOp::Resize { size } => {
            let m = resolved_size(size, protected_count(v.items));
            HistoryView { items: enforce_limit(v.items, m), max_size: m, ..v }
        },
    }
}

/// The state after a sequence of operations, first to last.
pub open spec fn apply_all(v: HistoryView, ops: Seq<HistoryOp>) -> HistoryView
    decreases ops.len(),
{
    if ops.len() == 0 {
        v
    } else {
        apply(apply_all(v, ops.drop_last()), ops.last())
    }
}

proof fn lemma_insert_fresh_ordered(s: Seq<ClipboardItem>, it: ClipboardItem, max: nat)
    requires
        pinned_first(s),
    ensures
        pinned_first(insert_fresh(s, it, max)),
{
    lemma_pinned_first_insert(s, it);
    lemma_enforce_limit(s.insert(first_unpinned(s), it), max);
}

/// Entries that admissions create are neither pinned nor favorited, as
/// the store's admissions make them. (A text admission that makes no entry
/// ignores `created`, so it may carry any such entry.)
pub open spec fn creates_unprotected(op: HistoryOp) -> bool {
    match op {
        HistoryOp::AdmitText { created, .. } => created matches Some(it) && !protected(it),
        HistoryOp::AdmitImage { created, .. } => created matches Some(it) ==> !protected(it),
        _ => true,
    }
}

proof fn lemma_apply_ordered(v: HistoryView, op: HistoryOp)
    requires
        history_wf(v),
        creates_unprotected(op),
    ensures
        history_wf(apply(v, op)),
{
    match op {
        HistoryOp::AdmitText { text, created } => {
            lemma_pinned_first_filter(v.items, not_stale_copy_pred(text));
            lemma_insert_fresh_ordered(v.items.filter(not_stale_copy_pred(text)), created->0, v.max_size);
            if admits_text(v, text) {
                v.items.lemma_filter_len(not_stale_copy_pred(text));
                lemma_insert_fresh_fits(v.items.filter(not_stale_copy_pred(text)), created->0, v.max_size);
            }
        },
        HistoryOp::AdmitImage { hash, created } => {
            if created is Some {
                lemma_insert_fresh_ordered(v.items, created->0, v.max_size);
                lemma_insert_fresh_fits(v.items, created->0, v.max_size);
            }
        },
        HistoryOp::TogglePin { index } => {
            if 0 <= index < v.items.len() {
                lemma_pinned_first_remove(v.items, index);
                lemma_first_unpinned_bounds(v.items.remove(index));
                lemma_pinned_first_insert(
                    v.items.remove(index),
                    ClipboardItem { pinned: !v.items[index].pinned, ..v.items[index] },
                );
            }
        },
        HistoryOp::ToggleFavorite { index } => {
            if 0 <= index < v.items.len() {
                let s = v.items;
                let r = apply(v, op).items;
                assert forall|a: int, b: int| 0 <= a < b < r.len() && (#[trigger] r[b]).pinned implies (
                #[trigger] r[a]).pinned by {
                    assert(r[a].pinned == s[a].pinned);
                    assert(r[b].pinned == s[b].pinned);
                }
            }
        },
        HistoryOp::MoveToTop { index } => {
            if 0 <= index < v.items.len() {
                lemma_pinned_first_remove(v.items, index);
                lemma_first_unpinned_bounds(v.items.remove(index));
                if v.items[index].pinned {
                    lemma_pinned_first_insert_top(v.items.remove(index), v.items[index]);
                } else {
                    lemma_pinned_first_insert(v.items.remove(index), v.items[index]);
                }
            }
        },
        HistoryOp::Remove { id } => {
            lemma_pinned_first_filter(v.items, other_id_pred(id));
            v.items.lemma_filter_len(other_id_pred(id));
        },
        HistoryOp::Clear => {
            lemma_pinned_first_filter(v.items, protected_pred());
            v.items.lemma_filter_len(protected_pred());
        },
        HistoryOp::Cleanup { cutoff } => {
            lemma_pinned_first_filter(v.items, newer_than_pred(cutoff));
            v.items.lemma_filter_len(newer_than_pred(cutoff));
        },
        HistoryOp::Resize { size } => {
            lemma_enforce_limit(v.items, resolved_size(size, protected_count(v.items)));
            lemma_limit_fits(v.items, resolved_size(size, protected_count(v.items)));
        },
    }
}

/// Ordering invariant and bounded size: whatever sequence of admissions,
/// pin and favorite toggles, moves, removals, cleanups and resizes is
/// applied to a well-formed store, pinned entries still all precede
/// unpinned ones, and there are no more entries than the size bound.
pub proof fn lemma_ordering_invariant(v: HistoryView, ops: Seq<HistoryOp>)
    requires
        history_wf(v),
        forall|k: int| 0 <= k < ops.len() ==> creates_unprotected(#[trigger] ops[k]),
    ensures
        history_wf(apply_all(v, ops)),
        pinned_first(apply_all(v, ops).items),
        apply_all(v, ops).items.len() <= apply_all(v, ops).max_size,
    decreases ops.len(),
{
    if ops.len() > 0 {
        assert forall|k: int| 0 <= k < ops.drop_last().len() implies creates_unprotected(#[trigger] ops.drop_last()[k]) by {
            assert(ops.drop_last()[k] == ops[k]);
        }
        assert(creates_unprotected(ops[ops.len() - 1]));
        lemma_ordering_invariant(v, ops.drop_last());
        lemma_apply_ordered(apply_all(v, ops.drop_last()), ops.last());
    }
}

proof fn lemma_filter_of_filter(
    s: Seq<ClipboardItem>,
    q: spec_fn(ClipboardItem) -> bool,
    p: spec_fn(ClipboardItem) -> bool,
)
    requires
        forall|x: ClipboardItem| #[trigger] p(x) ==> q(x),
    ensures
        s.filter(q).filter(p) == s.filter(p),
    decreases s.len(),
{
    reveal(Seq::filter);
    if s.len() > 0 {
        let d = s.drop_last();
        lemma_filter_of_filter(d, q, p);
        d.filter(q).lemma_filter_push(s.last(), p);
        assert(s == d.push(s.last()));
    }
}

proof fn lemma_filter_insert(s: Seq<ClipboardItem>, p: spec_fn(ClipboardItem) -> bool, i: int, it: ClipboardItem)
    requires
        0 <= i <= s.len(),
        !p(it),
    ensures
        s.insert(i, it).filter(p) == s.filter(p),
{
    lemma_filter_remove(s.insert(i, it), p, i);
    assert(s.insert(i, it).remove(i) =~= s);
}

/// Eviction after inserting an unprotected entry keeps every protected
/// entry and fits the bound unless only protected entries remain.
proof fn lemma_insert_fresh_bound(s: Seq<ClipboardItem>, it: ClipboardItem, max: nat)
    requires
        pinned_first(s),
        !protected(it),
    ensures
        insert_fresh(s, it, max).len() <= max || forall|k: int|
            0 <= k < insert_fresh(s, it, max).len() ==> protected(#[trigger] insert_fresh(s, it, max)[k]),
        insert_fresh(s, it, max).filter(protected_pred()) == s.filter(protected_pred()),
{
    lemma_first_unpinned_bounds(s);
    lemma_pinned_first_insert(s, it);
    lemma_enforce_limit(s.insert(first_unpinned(s), it), max);
    lemma_filter_insert(s, protected_pred(), first_unpinned(s), it);
}

/// Bounded size: an admission that creates an entry leaves at most
/// `max_size` entries, and its eviction removes no protected entry: the
/// protected entries afterwards are those before, less the favorited
/// unpinned copies of the text that deduplication replaces.
pub proof fn lemma_text_admission_bound(v: HistoryView, t: Seq<char>, r: Option<ClipboardItem>)
    requires
        history_wf(v),
        admits_text(v, t),
        r matches Some(it) && !protected(it),
    ensures
        after_text(v, t, r).items.len() <= v.max_size,
        after_text(v, t, r).items.filter(protected_pred())
            == v.items.filter(not_stale_copy_pred(t)).filter(protected_pred()),
{
    let kept = v.items.filter(not_stale_copy_pred(t));
    lemma_pinned_first_filter(v.items, not_stale_copy_pred(t));
    v.items.lemma_filter_len(not_stale_copy_pred(t));
    lemma_insert_fresh_bound(kept, r->0, v.max_size);
    lemma_insert_fresh_fits(kept, r->0, v.max_size);
}

/// Bounded size, for images: at most `max_size` entries, and every
/// protected entry kept.
pub proof fn lemma_image_admission_bound(v: HistoryView, h: u64, r: Option<ClipboardItem>)
    requires
        history_wf(v),
        admits_image(v, h),
        r matches Some(it) && !protected(it),
    ensures
        after_image(v, h, r).items.len() <= v.max_size,
        after_image(v, h, r).items.filter(protected_pred()) == v.items.filter(protected_pred()),
{
    lemma_insert_fresh_bound(v.items, r->0, v.max_size);
    lemma_insert_fresh_fits(v.items, r->0, v.max_size);
}

/// Dedup idempotence: admitting the same text a second time right after
/// the first changes nothing and creates no entry. (Excluded: a first
/// admission consumed by an armed self-paste suppression; the second is
/// then new content.)
pub proof fn lemma_admit_twice(v: HistoryView, t: Seq<char>, r1: Option<ClipboardItem>, r2: Option<ClipboardItem>)
    requires
        v.pasted_text != Some(t),
    ensures
        !admits_text(after_text(v, t, r1), t),
        after_text(after_text(v, t, r1), t, r2) == after_text(v, t, r1),
{
}

proof fn lemma_enforce_limit_elements(s: Seq<ClipboardItem>, max: nat)
    ensures
        forall|k: int| 0 <= k < enforce_limit(s, max).len() ==> s.contains(#[trigger] enforce_limit(s, max)[k]),
    decreases s.len(),
{
    if s.len() > max {
        lemma_last_removable(s);
        let i = last_removable(s);
        if i >= 0 {
            let d = s.remove(i);
            lemma_enforce_limit_elements(d, max);
            assert(enforce_limit(s, max) == enforce_limit(d, max));
            assert forall|k: int| 0 <= k < enforce_limit(s, max).len() implies s.contains(#[trigger] enforce_limit(s, max)[k]) by {
                let x = enforce_limit(s, max)[k];
                assert(d.contains(x));
                let j = choose|j: int| 0 <= j < d.len() && d[j] == x;
                if j < i {
                    assert(s[j] == x);
                } else {
                    assert(s[j + 1] == x);
                }
            }
        }
    }
}

/// Keeps the entries holding text `t`.
pub open spec fn holds_text_pred(t: Seq<char>) -> spec_fn(ClipboardItem) -> bool {
    |it: ClipboardItem| text_of(it.content) == Some(t)
}

proof fn lemma_filter_remove_count(s: Seq<ClipboardItem>, q: spec_fn(ClipboardItem) -> bool, i: int)
    requires
        0 <= i < s.len(),
    ensures
        s.filter(q).len() == s.remove(i).filter(q).len() + (if q(s[i]) { 1int } else { 0int }),
    decreases s.len(),
{
    reveal(Seq::filter);
    if i == s.len() - 1 {
        assert(s.remove(i) =~= s.drop_last());
    } else {
        let r = s.remove(i);
        assert(r.drop_last() =~= s.drop_last().remove(i));
        assert(r.last() == s.last());
        lemma_filter_remove_count(s.drop_last(), q, i);
    }
}

proof fn lemma_enforce_limit_count(s: Seq<ClipboardItem>, max: nat, q: spec_fn(ClipboardItem) -> bool)
    ensures
        enforce_limit(s, max).filter(q).len() <= s.filter(q).len(),
    decreases s.len(),
{
    if s.len() > max {
        lemma_last_removable(s);
        let i = last_removable(s);
        if i >= 0 {
            lemma_filter_remove_count(s, q, i);
            lemma_enforce_limit_count(s.remove(i), max, q);
        }
    }
}

/// Dedup: after an admission that creates the entry `it` for text `t`,
/// `it` is the only unpinned entry holding `t`; and when no pinned entry
/// held `t`, at most one entry holds it, so admitting `t` again (a no-op,
/// see `lemma_admit_twice`) leaves exactly that one.
pub proof fn lemma_single_copy(v: HistoryView, t: Seq<char>, r: Option<ClipboardItem>)
    requires
        history_wf(v),
        admits_text(v, t),
        r matches Some(it) && !protected(it) && text_of(it.content) == Some(t),
    ensures
        forall|k: int| 0 <= k < after_text(v, t, r).items.len() && !(#[trigger] after_text(v, t, r).items[k]).pinned
            && text_of(after_text(v, t, r).items[k].content) == Some(t) ==> after_text(v, t, r).items[k] == r->0,
        (forall|k: int| 0 <= k < v.items.len() && (#[trigger] v.items[k]).pinned ==> text_of(v.items[k].content) != Some(t))
            ==> after_text(v, t, r).items.filter(holds_text_pred(t)).len() <= 1,
{
    broadcast use Seq::lemma_filter_pred;
    let kept = v.items.filter(not_stale_copy_pred(t));
    let p = first_unpinned(kept);
    lemma_first_unpinned_bounds(kept);
    let ins = kept.insert(p, r->0);
    lemma_enforce_limit_elements(ins, v.max_size);
    let out = after_text(v, t, r).items;
    assert forall|k: int| 0 <= k < out.len() && !(#[trigger] out[k]).pinned && text_of(out[k].content) == Some(t)
        implies out[k] == r->0 by {
        assert(ins.contains(out[k]));
        let j = choose|j: int| 0 <= j < ins.len() && ins[j] == out[k];
        if j < p {
            assert(ins[j] == kept[j]);
            assert(not_stale_copy_pred(t)(kept[j]));
        } else if j > p {
            assert(ins[j] == kept[j - 1]);
            assert(not_stale_copy_pred(t)(kept[j - 1]));
        }
    }
    if forall|k: int| 0 <= k < v.items.len() && (#[trigger] v.items[k]).pinned ==> text_of(v.items[k].content) != Some(t) {
        let q = holds_text_pred(t);
        assert forall|k: int| 0 <= k < kept.len() implies !q(#[trigger] kept[k]) by {
            assert(not_stale_copy_pred(t)(kept[k]));
            if kept[k].pinned {
                assert(v.items.filter(not_stale_copy_pred(t)).contains(kept[k]));
                lemma_filter_elements(v.items, not_stale_copy_pred(t));
                assert(v.items.contains(kept[k]));
            }
        }
        lemma_filter_none(kept, q);
        assert(ins.remove(p) =~= kept);
        lemma_filter_remove_count(ins, q, p);
        lemma_enforce_limit_count(ins, v.max_size, q);
    }
}

proof fn lemma_filter_elements(s: Seq<ClipboardItem>, p: spec_fn(ClipboardItem) -> bool)
    ensures
        forall|k: int| 0 <= k < s.filter(p).len() ==> s.contains(#[trigger] s.filter(p)[k]),
    decreases s.len(),
{
    reveal(Seq::filter);
    if s.len() > 0 {
        let d = s.drop_last();
        lemma_filter_elements(d, p);
        assert forall|k: int| 0 <= k < s.filter(p).len() implies s.contains(#[trigger] s.filter(p)[k]) by {
            if k < d.filter(p).len() {
                assert(s.filter(p)[k] == d.filter(p)[k]);
                let j = choose|j: int| 0 <= j < d.len() && d[j] == d.filter(p)[k];
                assert(s[j] == d[j]);
            } else {
                assert(s.filter(p)[k] == s.last());
                assert(s[s.len() - 1] == s.last());
            }
        }
    }
}

/// Admitting the text already at the top of the unpinned entries neither
/// reorders nor duplicates anything.
pub proof fn lemma_admit_top_is_noop(v: HistoryView, t: Seq<char>, r: Option<ClipboardItem>)
    requires
        top_has_text(v.items, t),
    ensures
        !admits_text(v, t),
        after_text(v, t, r).items == v.items,
{
}

/// One-shot suppression: once an entry holding text `t` is marked as
/// pasted, the next admission of `t` creates nothing, leaves the entries
/// alone and clears the slot; the admission after that is judged as if
/// nothing had been marked.
pub proof fn lemma_suppression_one_shot(
    v: HistoryView,
    it: ClipboardItem,
    t: Seq<char>,
    r1: Option<ClipboardItem>,
    r2: Option<ClipboardItem>,
)
    requires
        text_of(it.content) == Some(t),
        !blank(t),
    ensures
        ({
            let marked = after_mark(v, it);
            let first = after_text(marked, t, r1);
            let unmarked = HistoryView { pasted_text: None, ..v };
            &&& !admits_text(marked, t)
            &&& first.items == v.items
            &&& first.pasted_text is None
            &&& first == unmarked
            &&& after_text(first, t, r2) == after_text(unmarked, t, r2)
            &&& (admits_text(first, t) <==> (v.last_text_hash != Some(text_hash(t)) && !top_has_text(v.items, t)))
        }),
{
}

/// One-shot suppression, for images: once an image entry with hash `h` is
/// marked as pasted, the next admission of that image creates nothing and
/// clears the slot; the one after that is judged by the top entry alone.
pub proof fn lemma_image_suppression_one_shot(v: HistoryView, it: ClipboardItem, h: u64, r1: Option<ClipboardItem>)
    requires
        text_of(it.content) is None,
        it.content_hash == Some(h),
    ensures
        ({
            let marked = after_mark(v, it);
            let first = after_image(marked, h, r1);
            &&& !admits_image(marked, h)
            &&& first.items == v.items
            &&& first.pasted_image is None
            &&& (admits_image(first, h) <==> !top_has_image(v.items, h))
        }),
{
}

/// Reload: entries hydrated from a saved list come pinned first, the
/// pinned ones in their saved order, every protected entry kept, within
/// the resolved bound; when nothing had to be trimmed the unpinned ones
/// keep their saved order as well.
pub proof fn lemma_reload(s: Seq<ClipboardItem>, max_size: nat)
    ensures
        ({
            let m = resolved_size(max_size, protected_count(s));
            let r = enforce_limit(reordered(s), m);
            &&& pinned_first(r)
            &&& r.filter(pinned_pred()) == s.filter(pinned_pred())
            &&& r.filter(protected_pred()) == reordered(s).filter(protected_pred())
            &&& protected_count(r) == protected_count(s)
            &&& r.len() <= m
            &&& (s.len() <= m ==> r.filter(unpinned_pred()) == s.filter(unpinned_pred()))
        }),
{
    broadcast use Seq::lemma_filter_pred;
    let m = resolved_size(max_size, protected_count(s));
    let a = s.filter(pinned_pred());
    let b = s.filter(unpinned_pred());
    let o = reordered(s);
    lemma_reordered(s);
    lemma_enforce_limit(o, m);
    let r = enforce_limit(o, m);
    if r.len() > m {
        lemma_all_protected_filter(r);
    }
    // regrouping the reordered list gives back the two groups
    Seq::filter_distributes_over_add(a, b, pinned_pred());
    Seq::filter_distributes_over_add(a, b, unpinned_pred());
    lemma_filter_of_filter(s, pinned_pred(), pinned_pred());
    lemma_filter_of_filter(s, unpinned_pred(), unpinned_pred());
    lemma_filter_none(b, pinned_pred());
    lemma_filter_none(a, unpinned_pred());
    assert(a + Seq::<ClipboardItem>::empty() =~= a);
    assert(Seq::<ClipboardItem>::empty() + b =~= b);
}

proof fn lemma_filter_none(s: Seq<ClipboardItem>, p: spec_fn(ClipboardItem) -> bool)
    requires
        forall|k: int| 0 <= k < s.len() ==> !p(#[trigger] s[k]),
    ensures
        s.filter(p) == Seq::<ClipboardItem>::empty(),
    decreases s.len(),
{
    reveal(Seq::filter);
    if s.len() > 0 {
        let d = s.drop_last();
        assert forall|k: int| 0 <= k < d.len() implies !p(#[trigger] d[k]) by {
            assert(d[k] == s[k]);
        }
        lemma_filter_none(d, p);
        assert(!p(s[s.len() - 1]));
    }
}

} // verus!
