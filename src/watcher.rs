//! Change detection of the clipboard poller: which observations are handed
//! to the store.
use vstd::prelude::*;
use crate::fingerprint::{fnv_of, hash_bytes, hash_text, text_hash};
use crate::history::{ClipboardItem, ClipboardManager, admits_image, admits_text, after_image, after_text, image_encoding};

verus! {

/// What the poller last observed of each kind of content.
pub struct ClipboardWatcher {
    /// Hash of the text last observed, cleared when an image is observed.
    pub last_text_hash: Option<u64>,
    /// Hash of the image last observed, cleared when a text is observed.
    pub last_image_hash: Option<u64>,
}

/// Whether observed text counts as a change.
pub open spec fn text_changed(w: ClipboardWatcher, t: Seq<char>) -> bool {
    t.len() > 0 && w.last_text_hash != Some(text_hash(t))
}

/// Whether an observed image counts as a change.
pub open spec fn image_changed(w: ClipboardWatcher, h: u64) -> bool {
    w.last_image_hash != Some(h)
}

impl ClipboardWatcher {
    /// A watcher that has observed nothing.
    pub fn new() -> (r: Self)
        ensures
            r.last_text_hash is None,
            r.last_image_hash is None,
    {
        ClipboardWatcher { last_text_hash: None, last_image_hash: None }
    }

    /// Records observed text; true when it is non-empty and differs from
    /// the text last observed. A change clears the image marker.
    pub fn observe_text(&mut self, text: &str) -> (r: bool)
        ensures
            r == text_changed(*old(self), text@),
            r ==> final(self).last_text_hash == Some(text_hash(text@)) && final(self).last_image_hash is None,
            !r ==> *final(self) == *old(self),
    {
        if text.is_empty() {
            return false;
        }
        let h = hash_text(text);
        let same = match self.last_text_hash {
            Some(x) => x == h,
            None => false,
        };
        if same {
            return false;
        }
        self.last_text_hash = Some(h);
        self.last_image_hash = None;
        true
    }

    /// Records an observed image by its hash; true when it differs from the
    /// image last observed. A change clears the text marker.
    pub fn observe_image(&mut self, hash: u64) -> (r: bool)
        ensures
            r == image_changed(*old(self), hash),
            r ==> final(self).last_image_hash == Some(hash) && final(self).last_text_hash is None,
            !r ==> *final(self) == *old(self),
    {
        let same = match self.last_image_hash {
            Some(x) => x == hash,
            None => false,
        };
        if same {
            return false;
        }
        self.last_image_hash = Some(hash);
        self.last_text_hash = None;
        true
    }

    /// Handles text read from the clipboard: a change is admitted to the
    /// store; returns the entry to broadcast, if one was created.
    pub fn poll_text(&mut self, store: &mut ClipboardManager, text: String, html: Option<String>) -> (r: Option<ClipboardItem>)
        requires
            old(store).wf(),
        ensures
            final(store).wf(),
            text_changed(*old(self), text@) ==> {
                &&& final(self).last_text_hash == Some(text_hash(text@))
                &&& final(self).last_image_hash is None
                &&& (r is Some <==> admits_text(old(store)@, text@))
                &&& final(store)@ == after_text(old(store)@, text@, r)
            },
            !text_changed(*old(self), text@) ==> *final(self) == *old(self) && final(store)@ == old(store)@ && r is None,
    {
        if self.observe_text(text.as_str()) {
            store.add_text(text, html)
        } else {
            None
        }
    }

    /// Handles an image read from the clipboard (RGBA8 pixels): a change,
    /// judged by the pixels' hash, is admitted to the store; returns the
    /// entry to broadcast, if one was created.
    pub fn poll_image(&mut self, store: &mut ClipboardManager, rgba: Vec<u8>, width: u32, height: u32) -> (r: Option<ClipboardItem>)
        requires
            old(store).wf(),
        ensures
            final(store).wf(),
            image_changed(*old(self), fnv_of(rgba@)) ==> {
                &&& final(self).last_image_hash == Some(fnv_of(rgba@))
                &&& final(self).last_text_hash is None
                &&& (r is Some <==> (admits_image(old(store)@, fnv_of(rgba@)) && image_encoding(rgba@, width, height) is Some))
                &&& final(store)@ == after_image(old(store)@, fnv_of(rgba@), r)
            },
            !image_changed(*old(self), fnv_of(rgba@)) ==> *final(self) == *old(self) && final(store)@ == old(store)@ && r is None,
    {
        let h = hash_bytes(rgba.as_slice());
        if self.observe_image(h) {
            store.add_image(rgba, width, height, h)
        } else {
            None
        }
    }
}

} // verus!
