//! The cancellation registry: which download identifiers are in flight. A
//! download is registered when it starts and removed on every terminal path,
//! so that `cancel_download` can tell a live download from a finished one.
//! Delivering the cancellation signal to the concurrently running transfer is
//! the surrounding application's work; this registry decides whether there is
//! a transfer to signal and keeps at most one entry per identifier.

use vstd::prelude::*;

verus! {

/// One in-flight download, recorded under the caller-chosen identifier.
#[derive(Debug)]
pub struct ActiveDownload {
    /// The caller-chosen download identifier.
    pub download_id: String,
}

/// Registry of the downloads currently in flight, at most one per identifier.
pub struct CancellationRegistry {
    /// The in-flight entries, oldest first.
    pub entries: Vec<ActiveDownload>,
}

impl CancellationRegistry {
    /// The identifiers registered, in registration order.
    pub open spec fn ids(self) -> Seq<Seq<char>> {
        Seq::new(self.entries@.len() as nat, |i: int| self.entries@[i].download_id@)
    }

    /// At most one entry per identifier.
    pub open spec fn wf(self) -> bool {
        forall|i: int, j: int|
            0 <= i < j < self.ids().len() ==> self.ids()[i] != self.ids()[j]
    }

    /// Whether `id` is registered.
    pub open spec fn spec_contains(self, id: Seq<char>) -> bool {
        self.ids().contains(id)
    }

    /// An empty registry.
    pub fn new() -> (r: CancellationRegistry)
        ensures
            r.wf(),
            r.ids() =~= Seq::<Seq<char>>::empty(),
    {
        CancellationRegistry { entries: Vec::new() }
    }

    /// Index of the entry for `id`, if one exists.
    fn find(&self, download_id: &str) -> (r: Option<usize>)
        ensures
            match r {
                Some(i) => i < self.ids().len() && self.ids()[i as int] == download_id@,
                None => !self.spec_contains(download_id@),
            },
    {
        let key: String = download_id.to_owned();
        let n = self.entries.len();
        let mut i: usize = 0;
        while i < n
            invariant
                i <= n,
                n == self.entries.len(),
                key@ == download_id@,
                forall|j: int| 0 <= j < i ==> self.ids()[j] != download_id@,
            decreases n - i,
        {
            if self.entries[i].download_id == key {
                return Some(i);
            }
            i = i + 1;
        }
        proof {
            assert forall|j: int| 0 <= j < self.ids().len() implies self.ids()[j]
                != download_id@ by {}
        }
        None
    }

    /// Register `download_id` as in flight. Registering an identifier that is
    /// already present leaves a single entry for it (last writer wins).
    pub fn add_download(&mut self, download_id: String)
        requires
            old(self).wf(),
        ensures
            final(self).wf(),
            final(self).spec_contains(download_id@),
            forall|other: Seq<char>|
                other != download_id@ ==> final(self).spec_contains(other) == old(
                    self,
                ).spec_contains(other),
    {
        let found = self.find(download_id.as_str());
        match found {
            Some(_) => {
                proof {
                    assert(self.spec_contains(download_id@));
                }
            },
            None => {
                let ghost pre = self.ids();
                self.entries.push(ActiveDownload { download_id });
                proof {
                    assert(self.ids() =~= pre.push(self.ids().last()));
                    assert(self.ids().last() == self.ids()[pre.len() as int]);
                    assert forall|other: Seq<char>|
                        other != self.ids().last() implies self.spec_contains(other) == pre.contains(
                        other,
                    ) by {
                        if pre.contains(other) {
                            let k = choose|k: int| 0 <= k < pre.len() && pre[k] == other;
                            assert(self.ids()[k] == other);
                        }
                        if self.spec_contains(other) {
                            let k = choose|k: int|
                                0 <= k < self.ids().len() && self.ids()[k] == other;
                            assert(k < pre.len() && pre[k] == other);
                        }
                    }
                    assert(self.ids().contains(self.ids().last()));
                }
            },
        }
    }

    /// Signal and deregister the download registered under `download_id`.
    ///
    /// Returns whether an in-flight download was found. When none is — in
    /// particular whenever the download already reached a terminal outcome
    /// and was deregistered — the call returns `false` and leaves the
    /// registry exactly as it was.
    pub fn cancel_download(&mut self, download_id: &str) -> (found: bool)
        requires
            old(self).wf(),
        ensures
            final(self).wf(),
            found == old(self).spec_contains(download_id@),
            !final(self).spec_contains(download_id@),
            forall|other: Seq<char>|
                other != download_id@ ==> final(self).spec_contains(other) == old(
                    self,
                ).spec_contains(other),
            !old(self).spec_contains(download_id@) ==> *final(self) == *old(self),
    {
        let found = self.find(download_id);
        match found {
            None => false,
            Some(i) => {
                let ghost pre = self.ids();
                self.entries.remove(i);
                proof {
                    assert(self.ids() =~= pre.remove(i as int));
                    assert forall|k: int|
                        0 <= k < self.ids().len() implies self.ids()[k] != download_id@ by {
                        if k < i {
                            assert(self.ids()[k] == pre[k]);
                        } else {
                            assert(self.ids()[k] == pre[k + 1]);
                        }
                    }
                    assert forall|other: Seq<char>|
                        other != download_id@ implies self.spec_contains(other) == pre.contains(
                        other,
                    ) by {
                        if pre.contains(other) {
                            let k = choose|k: int| 0 <= k < pre.len() && pre[k] == other;
                            if k < i {
                                assert(self.ids()[k] == other);
                            } else {
                                assert(k != i);
                                assert(self.ids()[k - 1] == other);
                            }
                        }
                        if self.spec_contains(other) {
                            let k = choose|k: int|
                                0 <= k < self.ids().len() && self.ids()[k] == other;
                            if k < i {
                                assert(pre[k] == other);
                            } else {
                                assert(pre[k + 1] == other);
                            }
                        }
                    }
                }
                true
            },
        }
    }

    /// Deregister `download_id` unconditionally. Every terminal path of a
    /// download — completion, failure, or cancellation — goes through here
    /// (or through a successful `cancel_download`), so finished downloads
    /// leave no entry behind.
    pub fn remove_download(&mut self, download_id: &str)
        requires
            old(self).wf(),
        ensures
            final(self).wf(),
            !final(self).spec_contains(download_id@),
            forall|other: Seq<char>|
                other != download_id@ ==> final(self).spec_contains(other) == old(
                    self,
                ).spec_contains(other),
    {
        let _ = self.cancel_download(download_id);
    }

    /// Executable lookup: whether `download_id` is currently registered.
    pub fn contains(&self, download_id: &str) -> (r: bool)
        ensures
            r == self.spec_contains(download_id@),
    {
        match self.find(download_id) {
            Some(_) => true,
            None => false,
        }
    }
}

} // verus!
