//! The history log: a capped record of what was played, one entry per page,
//! most recent last.

use vstd::prelude::*;
use crate::yt_dlp::TrackInfo;

verus! {

/// The number of entries the history keeps.
pub const MAX_HISTORY_LEN: usize = 20;

/// One played track and when it was recorded, in seconds since the Unix epoch.
#[derive(Debug, PartialEq, Eq)]
pub struct HistoryEntry {
    pub track_info: TrackInfo,
    pub inserted_at: u64,
}

impl Clone for HistoryEntry {
    fn clone(&self) -> (r: Self)
        ensures
            r == *self,
    {
        HistoryEntry { track_info: self.track_info.clone(), inserted_at: self.inserted_at }
    }
}

/// Why a history operation did nothing.
#[derive(Clone, Copy, Debug, PartialEq, Eq)]
pub enum HistoryError {
    /// No entry has the given page URL.
    NotFound,
}

/// The key that entries are deduplicated by: the page URL.
pub open spec fn entry_key(e: HistoryEntry) -> Seq<char> {
    e.track_info.webpage_url@
}

pub open spec fn has_key(s: Seq<HistoryEntry>, key: Seq<char>) -> bool {
    exists|i: int| 0 <= i < s.len() && #[trigger] entry_key(s[i]) == key
}

pub open spec fn keys_unique(s: Seq<HistoryEntry>) -> bool {
    forall|i: int, j: int|
        0 <= i < s.len() && 0 <= j < s.len() && i != j ==> entry_key(#[trigger] s[i]) != entry_key(
            #[trigger] s[j],
        )
}

/// A history as the log keeps it: at most `MAX_HISTORY_LEN` entries, one per key.
pub open spec fn history_wf(s: Seq<HistoryEntry>) -> bool {
    s.len() <= MAX_HISTORY_LEN && keys_unique(s)
}

/// `s` without its entry for `key`, if it has one.
pub open spec fn without_key(s: Seq<HistoryEntry>, key: Seq<char>) -> Seq<HistoryEntry> {
    if has_key(s, key) {
        s.remove(choose|i: int| 0 <= i < s.len() && entry_key(s[i]) == key)
    } else {
        s
    }
}

/// The most recent `MAX_HISTORY_LEN` entries of `s`.
pub open spec fn truncated(s: Seq<HistoryEntry>) -> Seq<HistoryEntry> {
    if s.len() > MAX_HISTORY_LEN {
        s.subrange(s.len() - MAX_HISTORY_LEN, s.len() as int)
    } else {
        s
    }
}

/// `s` after recording `e`: an earlier entry for the same page is dropped, `e`
/// becomes the most recent entry, and the oldest entries beyond the cap go.
pub open spec fn inserted(s: Seq<HistoryEntry>, e: HistoryEntry) -> Seq<HistoryEntry> {
    truncated(without_key(s, entry_key(e)).push(e))
}

/// The history that recording the entries of `s` in order builds from nothing.
pub open spec fn replayed(s: Seq<HistoryEntry>) -> Seq<HistoryEntry>
    decreases s.len(),
{
    if s.len() == 0 {
        Seq::empty()
    } else {
        inserted(replayed(s.drop_last()), s.last())
    }
}

/// Removing the entry for a page keeps the other entries one per page.
pub proof fn lemma_without_key(s: Seq<HistoryEntry>, key: Seq<char>)
    requires
        keys_unique(s),
    ensures
        keys_unique(without_key(s, key)),
        !has_key(without_key(s, key), key),
        has_key(s, key) ==> without_key(s, key).len() == s.len() - 1,
        !has_key(s, key) ==> without_key(s, key) == s,
{
    if has_key(s, key) {
        let i = choose|i: int| 0 <= i < s.len() && entry_key(s[i]) == key;
        let w = s.remove(i);
        assert forall|a: int, b: int|
            0 <= a < w.len() && 0 <= b < w.len() && a != b implies entry_key(#[trigger] w[a])
            != entry_key(#[trigger] w[b]) by {
            let sa = if a < i { a } else { a + 1 };
            let sb = if b < i { b } else { b + 1 };
            assert(w[a] == s[sa] && w[b] == s[sb]);
        }
        assert forall|j: int| 0 <= j < w.len() implies #[trigger] entry_key(w[j]) != key by {
            let sj = if j < i { j } else { j + 1 };
            assert(w[j] == s[sj]);
        }
    }
}

proof fn lemma_subrange_unique(s: Seq<HistoryEntry>, lo: int, hi: int)
    requires
        keys_unique(s),
        0 <= lo <= hi <= s.len(),
    ensures
        keys_unique(s.subrange(lo, hi)),
{
    let t = s.subrange(lo, hi);
    assert forall|a: int, b: int|
        0 <= a < t.len() && 0 <= b < t.len() && a != b implies entry_key(#[trigger] t[a])
        != entry_key(#[trigger] t[b]) by {
        assert(t[a] == s[lo + a] && t[b] == s[lo + b]);
    }
}

/// Recording an entry keeps the history within its cap and one entry per page.
pub proof fn lemma_inserted_wf(s: Seq<HistoryEntry>, e: HistoryEntry)
    requires
        history_wf(s),
    ensures
        history_wf(inserted(s, e)),
        inserted(s, e).last() == e,
        has_key(inserted(s, e), entry_key(e)),
{
    let k = entry_key(e);
    lemma_without_key(s, k);
    let w = without_key(s, k);
    let p = w.push(e);
    assert forall|a: int, b: int|
        0 <= a < p.len() && 0 <= b < p.len() && a != b implies entry_key(#[trigger] p[a])
        != entry_key(#[trigger] p[b]) by {
        if a < w.len() && b < w.len() {
            assert(p[a] == w[a] && p[b] == w[b]);
        } else if a < w.len() {
            assert(p[a] == w[a]);
        } else if b < w.len() {
            assert(p[b] == w[b]);
        }
    }
    if p.len() > MAX_HISTORY_LEN {
        lemma_subrange_unique(p, p.len() - MAX_HISTORY_LEN, p.len() as int);
    }
    let r = inserted(s, e);
    assert(entry_key(r[r.len() - 1]) == k);
}

/// Recording a second entry for the same page gives the history that recording
/// only the second one would have given: the page is not listed twice.
pub proof fn lemma_insert_idempotent_on_key(s: Seq<HistoryEntry>, e1: HistoryEntry, e2: HistoryEntry)
    requires
        history_wf(s),
        entry_key(e1) == entry_key(e2),
    ensures
        inserted(inserted(s, e1), e2) == inserted(s, e2),
{
    let k = entry_key(e1);
    lemma_without_key(s, k);
    lemma_inserted_wf(s, e1);
    let w = without_key(s, k);
    let once = inserted(s, e1);
    // `once` is `w` (less its oldest entry when full) followed by `e1`.
    let base = if w.len() + 1 > MAX_HISTORY_LEN {
        w.subrange(1, w.len() as int)
    } else {
        w
    };
    assert(once =~= base.push(e1));
    let j = once.len() - 1;
    assert(entry_key(once[j]) == k);
    assert(has_key(once, k));
    let c = choose|i: int| 0 <= i < once.len() && entry_key(once[i]) == k;
    assert(c == j);
    assert(without_key(once, k) =~= base);
    assert(inserted(once, e2) =~= inserted(s, e2));
}

/// Recording a new page in a full history evicts exactly the oldest entry.
pub proof fn lemma_insert_evicts_oldest(s: Seq<HistoryEntry>, e: HistoryEntry)
    requires
        history_wf(s),
        s.len() == MAX_HISTORY_LEN,
        !has_key(s, entry_key(e)),
    ensures
        inserted(s, e) == s.subrange(1, MAX_HISTORY_LEN as int).push(e),
        inserted(s, e).len() == MAX_HISTORY_LEN,
{
    assert(inserted(s, e) =~= s.subrange(1, MAX_HISTORY_LEN as int).push(e));
}

/// A history that is already well formed is rebuilt unchanged by replaying it.
pub proof fn lemma_replayed_wf_identity(s: Seq<HistoryEntry>)
    requires
        history_wf(s),
    ensures
        replayed(s) == s,
    decreases s.len(),
{
    if s.len() > 0 {
        let d = s.drop_last();
        lemma_subrange_unique(s, 0, s.len() - 1);
        lemma_replayed_wf_identity(d);
        let k = entry_key(s.last());
        assert(!has_key(d, k)) by {
            if has_key(d, k) {
                let i = choose|i: int| 0 <= i < d.len() && entry_key(d[i]) == k;
                assert(d[i] == s[i]);
                assert(entry_key(s[i]) == entry_key(s[s.len() - 1]));
            }
        }
        assert(d.push(s.last()) =~= s);
    }
}

/// The capped, deduplicated record of played tracks.
pub struct History {
    contents: Vec<HistoryEntry>,
}

impl View for History {
    type V = Seq<HistoryEntry>;

    closed spec fn view(&self) -> Seq<HistoryEntry> {
        self.contents@
    }
}

impl History {
    pub open spec fn wf(&self) -> bool {
        history_wf(self@)
    }

    /// A history holding what recording `entries` in order keeps; a well-formed
    /// list (as the log itself stores it) is kept as it is.
    pub fn new(entries: Vec<HistoryEntry>) -> (r: History)
        ensures
            r.wf(),
            r@ == replayed(entries@),
            history_wf(entries@) ==> r@ == entries@,
    {
        let mut history = History { contents: Vec::new() };
        let n = entries.len();
        let mut i: usize = 0;
        while i < n
            invariant
                n == entries@.len(),
                i <= n,
                history.wf(),
                history@ == replayed(entries@.subrange(0, i as int)),
            decreases n - i,
        {
            let e = entries[i].clone();
            proof {
                let t = entries@.subrange(0, i + 1);
                assert(t.drop_last() =~= entries@.subrange(0, i as int));
            }
            history.insert_entry(e);
            i += 1;
        }
        proof {
            assert(entries@.subrange(0, n as int) =~= entries@);
            if history_wf(entries@) {
                lemma_replayed_wf_identity(entries@);
            }
        }
        history
    }

    /// The entries, oldest first.
    pub fn get_history(&self) -> (r: Vec<HistoryEntry>)
        ensures
            r@ == self@,
    {
        let r = self.contents.clone();
        assert(r@ =~= self.contents@);
        r
    }

    /// The index of the entry for page `key`, if there is one.
    fn position(&self, key: &String) -> (r: Option<usize>)
        ensures
            match r {
                Some(i) => i < self@.len() && entry_key(self@[i as int]) == key@,
                None => !has_key(self@, key@),
            },
    {
        let mut i: usize = 0;
        while i < self.contents.len()
            invariant
                i <= self@.len(),
                forall|j: int| 0 <= j < i ==> #[trigger] entry_key(self@[j]) != key@,
            decreases self@.len() - i,
        {
            if self.contents[i].track_info.webpage_url == *key {
                return Some(i);
            }
            i += 1;
        }
        None
    }

    fn insert_entry(&mut self, entry: HistoryEntry)
        requires
            old(self).wf(),
        ensures
            final(self).wf(),
            final(self)@ == inserted(old(self)@, entry),
    {
        proof {
            lemma_without_key(self@, entry_key(entry));
            lemma_inserted_wf(self@, entry);
        }
        let ghost k = entry_key(entry);
        let ghost s = self@;
        match self.position(&entry.track_info.webpage_url) {
            Some(i) => {
                proof {
                    let c = choose|j: int| 0 <= j < s.len() && entry_key(s[j]) == k;
                    assert(c == i as int);
                }
                self.contents.remove(i);
            },
            None => {},
        }
        assert(self@ == without_key(s, k));
        self.contents.push(entry);
        let len = self.contents.len();
        if len > MAX_HISTORY_LEN {
            let kept = self.contents.split_off(len - MAX_HISTORY_LEN);
            self.contents = kept;
        }
    }

    /// Records that `track_info` was played at `inserted_at`: an earlier entry
    /// for the same page moves to the most recent position instead of staying,
    /// and only the most recent `MAX_HISTORY_LEN` entries are kept.
    pub fn insert(&mut self, track_info: TrackInfo, inserted_at: u64)
        requires
            old(self).wf(),
        ensures
            final(self).wf(),
            final(self)@ == inserted(old(self)@, HistoryEntry { track_info, inserted_at }),
    {
        self.insert_entry(HistoryEntry { track_info, inserted_at });
    }

    /// Removes the entry for page `webpage_url`.
    pub fn remove(&mut self, webpage_url: &str) -> (r: Result<(), HistoryError>)
        requires
            old(self).wf(),
        ensures
            final(self).wf(),
            r is Err <==> !has_key(old(self)@, webpage_url@),
            r is Err ==> r == Err::<(), HistoryError>(HistoryError::NotFound) && final(self)@ == old(
                self,
            )@,
            r is Ok ==> final(self)@ == without_key(old(self)@, webpage_url@),
    {
        proof {
            lemma_without_key(self@, webpage_url@);
        }
        let ghost s = self@;
        let key = String::from_str(webpage_url);
        match self.position(&key) {
            Some(i) => {
                proof {
                    let c = choose|j: int| 0 <= j < s.len() && entry_key(s[j]) == webpage_url@;
                    assert(c == i as int);
                }
                self.contents.remove(i);
                Ok(())
            },
            None => Err(HistoryError::NotFound),
        }
    }
}

} // verus!
