//! Recently and frequently used emojis, most recent first.
use vstd::prelude::*;
use crate::runtime::now_millis;

verus! {

/// Number of emojis remembered.
pub const MAX_RECENT_EMOJIS: usize = 20;

/// Usage of one emoji.
#[derive(Debug, Clone)]
pub struct EmojiUsage {
    /// The emoji.
    pub char: String,
    /// How many times it was used (saturating).
    pub use_count: u32,
    /// When it was last used, in milliseconds since the Unix epoch.
    pub last_used: u64,
}

impl EmojiUsage {
    /// A field-by-field copy.
    pub fn copy(&self) -> (r: Self)
        ensures
            r == *self,
    {
        EmojiUsage { char: self.char.clone(), use_count: self.use_count, last_used: self.last_used }
    }
}

/// `a` ranks at least as high as `b`: more uses, or as many and more recent.
pub open spec fn ranks_at_least(a: EmojiUsage, b: EmojiUsage) -> bool {
    a.use_count > b.use_count || (a.use_count == b.use_count && a.last_used >= b.last_used)
}

/// Ordered by rank, highest first.
pub open spec fn ranked(s: Seq<EmojiUsage>) -> bool {
    forall|i: int, j: int| 0 <= i < j < s.len() ==> ranks_at_least(#[trigger] s[i], #[trigger] s[j])
}

/// `i` is the position of the first usage of emoji `e`.
pub open spec fn first_usage(s: Seq<EmojiUsage>, e: Seq<char>, i: int) -> bool {
    0 <= i < s.len() && s[i].char@ == e && forall|k: int| 0 <= k < i ==> (#[trigger] s[k]).char@ != e
}

/// The list after recording a use of emoji `e` at time `now`, when `e` was
/// at position `i` (or -1 when absent): its entry moves to the front with
/// one more use, and the list is cut to its capacity.
pub open spec fn recorded(s: Seq<EmojiUsage>, i: int, entry: EmojiUsage) -> Seq<EmojiUsage> {
    let rest = if i >= 0 { s.remove(i) } else { s };
    let r = seq![entry] + rest;
    if r.len() > MAX_RECENT_EMOJIS { r.take(MAX_RECENT_EMOJIS as int) } else { r }
}

pub open spec fn bumped_count(c: u32) -> u32 {
    if c == u32::MAX { c } else { (c + 1) as u32 }
}

fn find_usage(v: &Vec<EmojiUsage>, key: &String) -> (r: Option<usize>)
    ensures
        match r {
            Some(i) => first_usage(v@, key@, i as int),
            None => forall|k: int| 0 <= k < v@.len() ==> (#[trigger] v@[k]).char@ != key@,
        },
{
    let mut i: usize = 0;
    while i < v.len()
        invariant
            0 <= i <= v@.len(),
            forall|k: int| 0 <= k < i ==> (#[trigger] v@[k]).char@ != key@,
        decreases v@.len() - i,
    {
        if v[i].char == *key {
            return Some(i);
        }
        i = i + 1;
    }
    None
}

/// Recently used emojis.
pub struct EmojiManager {
    recent: Vec<EmojiUsage>,
}

impl EmojiManager {
    /// The list, most recent first.
    pub closed spec fn recent(&self) -> Seq<EmojiUsage> {
        self.recent@
    }

    /// A manager holding a saved list, cut to capacity.
    pub fn new(saved: Vec<EmojiUsage>) -> (r: Self)
        ensures
            r.recent() == if saved@.len() > MAX_RECENT_EMOJIS {
                saved@.take(MAX_RECENT_EMOJIS as int)
            } else {
                saved@
            },
    {
        let mut recent = saved;
        if recent.len() > MAX_RECENT_EMOJIS {
            recent.truncate(MAX_RECENT_EMOJIS);
        }
        EmojiManager { recent }
    }

    /// Records a use of `emoji` at time `now`.
    pub fn record_usage_at(&mut self, emoji: &str, now: u64)
        ensures
            exists|i: int, entry: EmojiUsage| {
                &&& (i == -1 && forall|k: int| 0 <= k < old(self).recent().len() ==> (#[trigger] old(self).recent()[k]).char@ != emoji@)
                    || first_usage(old(self).recent(), emoji@, i)
                &&& entry.char@ == emoji@
                &&& entry.last_used == now
                &&& entry.use_count == if i >= 0 { bumped_count(old(self).recent()[i].use_count) } else { 1 }
                &&& final(self).recent() == #[trigger] recorded(old(self).recent(), i, entry)
            },
    {
        let ghost s0 = self.recent@;
        let key = String::from_str(emoji);
        let (found, i) = match find_usage(&self.recent, &key) {
            Some(i) => (true, i),
            None => (false, 0),
        };
        let entry = if found {
            let old_entry = self.recent.remove(i);
            assert(old_entry == s0[i as int]);
            let count = if old_entry.use_count == u32::MAX { old_entry.use_count } else { old_entry.use_count + 1 };
            EmojiUsage { char: old_entry.char, use_count: count, last_used: now }
        } else {
            EmojiUsage { char: String::from_str(emoji), use_count: 1, last_used: now }
        };
        let ghost idx: int = if found { i as int } else { -1 };
        let ghost e = entry;
        self.recent.insert(0, entry);
        if self.recent.len() > MAX_RECENT_EMOJIS {
            self.recent.truncate(MAX_RECENT_EMOJIS);
        }
        assert(self.recent@ =~= recorded(s0, idx, e));
        assert(e.char@ == emoji@);
        assert(e.use_count == if idx >= 0 { bumped_count(s0[idx].use_count) } else { 1 });
        assert((idx == -1 && forall|k: int| 0 <= k < s0.len() ==> (#[trigger] s0[k]).char@ != emoji@)
            || first_usage(s0, emoji@, idx));
        assert(s0 == old(self).recent());
        assert(final(self).recent() == recorded(old(self).recent(), idx, e));
    }

    /// Records a use of `emoji` now.
    pub fn record_usage(&mut self, emoji: &str)
        ensures
            exists|i: int, entry: EmojiUsage| {
                &&& (i == -1 && forall|k: int| 0 <= k < old(self).recent().len() ==> (#[trigger] old(self).recent()[k]).char@ != emoji@)
                    || first_usage(old(self).recent(), emoji@, i)
                &&& entry.char@ == emoji@
                &&& entry.use_count == if i >= 0 { bumped_count(old(self).recent()[i].use_count) } else { 1 }
                &&& final(self).recent() == #[trigger] recorded(old(self).recent(), i, entry)
            },
    {
        let t = now_millis();
        let now: u64 = if t < 0 { 0 } else { t as u64 };
        self.record_usage_at(emoji, now);
    }

    /// The list, most recent first.
    pub fn get_recent(&self) -> (r: Vec<EmojiUsage>)
        ensures
            r@ == self.recent(),
    {
        let mut r: Vec<EmojiUsage> = Vec::new();
        let mut i: usize = 0;
        while i < self.recent.len()
            invariant
                0 <= i <= self.recent@.len(),
                r@ == self.recent@.take(i as int),
            decreases self.recent@.len() - i,
        {
            r.push(self.recent[i].copy());
            i = i + 1;
            assert(r@ =~= self.recent@.take(i as int));
        }
        assert(self.recent@.take(i as int) =~= self.recent@);
        r
    }

    /// The `n` most used emojis, ties broken by recency: the list ranked,
    /// then cut to `n`.
    pub fn get_top_used(&self, n: usize) -> (r: Vec<EmojiUsage>)
        ensures
            exists|sorted: Seq<EmojiUsage>| {
                &&& #[trigger] ranked(sorted)
                &&& sorted.to_multiset() == self.recent().to_multiset()
                &&& r@ == if n < sorted.len() { sorted.take(n as int) } else { sorted }
            },
    {
        broadcast use vstd::seq_lib::group_to_multiset_ensures;
        let mut sorted: Vec<EmojiUsage> = Vec::new();
        let mut i: usize = 0;
        assert(self.recent@.take(0) =~= Seq::<EmojiUsage>::empty());
        assert(sorted@ =~= Seq::<EmojiUsage>::empty());
        while i < self.recent.len()
            invariant
                0 <= i <= self.recent@.len(),
                ranked(sorted@),
                sorted@.to_multiset() == self.recent@.take(i as int).to_multiset(),
                sorted@.len() == i,
            decreases self.recent@.len() - i,
        {
            let x = self.recent[i].copy();
            // insert after every entry that ranks at least as high (stable)
            let mut p: usize = 0;
            while p < sorted.len() && (sorted[p].use_count > x.use_count
                || (sorted[p].use_count == x.use_count && sorted[p].last_used >= x.last_used))
                invariant
                    0 <= p <= sorted@.len(),
                    forall|k: int| 0 <= k < p ==> ranks_at_least(#[trigger] sorted@[k], x),
                decreases sorted@.len() - p,
            {
                p = p + 1;
            }
            let ghost before = sorted@;
            assert forall|k: int| p <= k < before.len() implies ranks_at_least(x, #[trigger] before[k]) by {
                // before[p] ranks below x, and before[k] ranks no higher than before[p]
                assert(ranks_at_least(before[p as int], before[k]) || k == p);
            }
            sorted.insert(p, x);
            assert forall|a: int, b: int| 0 <= a < b < sorted@.len() implies ranks_at_least(#[trigger] sorted@[a], #[trigger] sorted@[b]) by {
                if a < p && b < p {
                    assert(sorted@[a] == before[a] && sorted@[b] == before[b]);
                } else if a < p && b == p {
                } else if a < p {
                    assert(sorted@[a] == before[a] && sorted@[b] == before[b - 1]);
                } else if a == p {
                    assert(sorted@[b] == before[b - 1]);
                } else {
                    assert(sorted@[a] == before[a - 1] && sorted@[b] == before[b - 1]);
                }
            }
            assert(self.recent@.take(i + 1) =~= self.recent@.take(i as int).push(self.recent@[i as int]));
            proof {
                vstd::seq_lib::to_multiset_insert(before, p as int, x);
                vstd::seq_lib::to_multiset_build(self.recent@.take(i as int), self.recent@[i as int]);
            }
            i = i + 1;
        }
        assert(self.recent@.take(i as int) =~= self.recent@);
        let ghost full = sorted@;
        if n < sorted.len() {
            sorted.truncate(n);
        }
        assert(ranked(full));
        sorted
    }
}

} // verus!
