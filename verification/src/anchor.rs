use vstd::prelude::*;

use crate::bytes::{array32_eq, copy_bytes, Address, Hash32};
use crate::keylist::KeyList;

verus! {

/// The on-chain record of an anchored content hash.
#[derive(Debug)]
pub struct Anchor {
    pub author: Address,
    pub timestamp: u64,
    pub version: u32,
    pub metadata_uri: Vec<u8>,
    pub revoked: bool,
    pub revocation_reason: Vec<u8>,
}

/// The two records hold the same values.
pub open spec fn same_anchor(a: Anchor, b: Anchor) -> bool {
    &&& a.author == b.author
    &&& a.timestamp == b.timestamp
    &&& a.version == b.version
    &&& a.metadata_uri@ == b.metadata_uri@
    &&& a.revoked == b.revoked
    &&& a.revocation_reason@ == b.revocation_reason@
}

impl Anchor {
    /// A copy of the record.
    pub fn duplicate(&self) -> (r: Anchor)
        ensures
            same_anchor(r, *self),
    {
        Anchor {
            author: self.author,
            timestamp: self.timestamp,
            version: self.version,
            metadata_uri: copy_bytes(self.metadata_uri.as_slice()),
            revoked: self.revoked,
            revocation_reason: copy_bytes(self.revocation_reason.as_slice()),
        }
    }
}

/// `a` is the record of a fresh anchor by `author` at `now`.
pub open spec fn new_anchor(a: Anchor, author: Address, now: u64, version: u32, uri: Seq<u8>) -> bool {
    &&& a.author == author
    &&& a.timestamp == now
    &&& a.version == version
    &&& a.metadata_uri@ == uri
    &&& !a.revoked
    &&& a.revocation_reason@ == Seq::<u8>::empty()
}

/// `a` is record `before` revoked for `reason`.
pub open spec fn revoked_anchor(a: Anchor, before: Anchor, reason: Seq<u8>) -> bool {
    &&& a.author == before.author
    &&& a.timestamp == before.timestamp
    &&& a.version == before.version
    &&& a.metadata_uri@ == before.metadata_uri@
    &&& a.revoked
    &&& a.revocation_reason@ == reason
}

/// What the registry logs on the chain when a call succeeds.
#[derive(Clone, Debug)]
pub enum AnchorEvent {
    /// `content_anchored`
    ContentAnchored { hash: Hash32, author: Address, version: u32, timestamp: u64, metadata_uri: Vec<u8> },
    /// `content_revoked`
    ContentRevoked { hash: Hash32, author: Address, reason: Vec<u8> },
}

/// `ev` is the `content_anchored` event of `hash` anchored by `author` at `now`.
pub open spec fn anchored_event(ev: AnchorEvent, hash: Hash32, author: Address, version: u32, now: u64, uri: Seq<u8>) -> bool {
    ev matches AnchorEvent::ContentAnchored { hash: h, author: a, version: v, timestamp: t, metadata_uri: u }
        && h == hash && a == author && v == version && t == now && u@ == uri
}

/// `ev` is the `content_revoked` event of `hash` revoked by `author` for `reason`.
pub open spec fn revoked_event(ev: AnchorEvent, hash: Hash32, author: Address, reason: Seq<u8>) -> bool {
    ev matches AnchorEvent::ContentRevoked { hash: h, author: a, reason: why } && h == hash && a
        == author && why@ == reason
}

/// Why an anchoring call is refused (the transaction reverts and nothing changes).
#[derive(Clone, Copy, Debug, PartialEq, Eq, Structural)]
pub enum AnchorError {
    /// "Content hash already anchored"
    AlreadyAnchored,
    /// "Hash not found"
    HashNotFound,
    /// "Only the author can revoke"
    NotAuthor,
    /// "Already revoked"
    AlreadyRevoked,
}

/// The views of a list of hashes.
pub open spec fn hash_views(hashes: Seq<Hash32>) -> Seq<Seq<u8>> {
    hashes.map_values(|h: Hash32| h@)
}

/// The hashes a page of `count` items starting at position `from` shows of `all`.
pub open spec fn page<T>(all: Seq<T>, from: int, count: int) -> Seq<T> {
    if from >= all.len() {
        Seq::empty()
    } else if from + count >= all.len() {
        all.subrange(from, all.len() as int)
    } else {
        all.subrange(from, from + count)
    }
}

/// A registry of content hashes: anyone may anchor a hash once, becoming its author;
/// only the author may (softly) revoke it, and the record stays visible.
pub struct EctAnchor {
    anchors: KeyList<Hash32, Anchor>,
    by_author: KeyList<Address, Vec<Hash32>>,
}

impl EctAnchor {
    /// The anchored records, by hash.
    pub closed spec fn anchors_spec(&self) -> Map<Seq<u8>, Anchor> {
        self.anchors@
    }

    /// The hashes `author` anchored, oldest first.
    pub closed spec fn author_hashes(&self, author: Seq<u8>) -> Seq<Seq<u8>> {
        if self.by_author@.contains_key(author) {
            hash_views(self.by_author@[author]@)
        } else {
            Seq::empty()
        }
    }

    /// The lists are well formed, and every hash in an author's list is anchored, by
    /// that author.
    pub closed spec fn wf(&self) -> bool {
        &&& self.anchors.wf()
        &&& self.by_author.wf()
        &&& forall|a: Seq<u8>, h: Seq<u8>| #[trigger]
            self.author_hashes(a).contains(h) ==> self.anchors@.contains_key(h)
                && self.anchors@[h].author@ == a
        &&& forall|h: Seq<u8>| #[trigger]
            self.anchors@.contains_key(h) ==> self.author_hashes(self.anchors@[h].author@).contains(h)
        &&& forall|a: Seq<u8>, i: int, j: int|
            0 <= i < j < self.author_hashes(a).len() ==> #[trigger] self.author_hashes(a)[i]
                != #[trigger] self.author_hashes(a)[j]
    }

    /// A fresh registry.
    pub fn init() -> (r: Self)
        ensures
            r.wf(),
            r.anchors_spec() == Map::<Seq<u8>, Anchor>::empty(),
            forall|a: Seq<u8>| r.author_hashes(a) == Seq::<Seq<u8>>::empty(),
    {
        EctAnchor { anchors: KeyList::new(), by_author: KeyList::new() }
    }

    /// `anchor`: records `hash` with the caller as author, unless already anchored.
    pub fn anchor_content(
        &mut self,
        caller: Address,
        now: u64,
        hash: Hash32,
        version: u32,
        metadata_uri: Vec<u8>,
    ) -> (r: Result<AnchorEvent, AnchorError>)
        requires
            old(self).wf(),
        ensures
            final(self).wf(),
            old(self).anchors_spec().contains_key(hash@) ==> r == Err::<AnchorEvent, AnchorError>(
                AnchorError::AlreadyAnchored,
            ) && *final(self) == *old(self),
            !old(self).anchors_spec().contains_key(hash@) ==> {
                &&& r matches Ok(ev) && anchored_event(ev, hash, caller, version, now, metadata_uri@)
                &&& final(self).anchors_spec().dom() == old(self).anchors_spec().dom().insert(hash@)
                &&& forall|h: Seq<u8>|
                    h != hash@ && #[trigger] old(self).anchors_spec().contains_key(h) ==> final(self).anchors_spec()[h] == old(self).anchors_spec()[h]
                &&& new_anchor(final(self).anchors_spec()[hash@], caller, now, version, metadata_uri@)
                &&& final(self).author_hashes(caller@) == old(self).author_hashes(caller@).push(
                    hash@,
                )
                &&& forall|a: Seq<u8>|
                    a != caller@ ==> #[trigger] final(self).author_hashes(a) == old(self).author_hashes(a)
            },
    {
        if self.anchors.contains(&hash) {
            return Err(AnchorError::AlreadyAnchored);
        }
        let ghost uri = metadata_uri@;
        let event_uri = copy_bytes(metadata_uri.as_slice());
        let record = Anchor {
            author: caller,
            timestamp: now,
            version,
            metadata_uri,
            revoked: false,
            revocation_reason: Vec::new(),
        };
        self.anchors.insert(hash, record);
        assert(self.anchors@.dom() =~= old(self).anchors@.dom().insert(hash@));
        let mut list: Vec<Hash32> = match self.by_author.get(&caller) {
            Some(l) => {
                let mut c: Vec<Hash32> = Vec::new();
                let mut i: usize = 0;
                while i < l.len()
                    invariant
                        i <= l@.len(),
                        c@ == l@.subrange(0, i as int),
                    decreases l@.len() - i,
                {
                    c.push(l[i]);
                    i = i + 1;
                    assert(c@ =~= l@.subrange(0, i as int));
                }
                assert(l@.subrange(0, l@.len() as int) =~= l@);
                c
            },
            None => Vec::new(),
        };
        let ghost before = hash_views(list@);
        assert(before == old(self).author_hashes(caller@));
        assert(!before.contains(hash@));
        list.push(hash);
        assert(hash_views(list@) =~= before.push(hash@));
        self.by_author.insert(caller, list);
        proof {
            assert forall|a: Seq<u8>, h: Seq<u8>| #[trigger]
                self.author_hashes(a).contains(h) implies self.anchors@.contains_key(h)
                && self.anchors@[h].author@ == a by {
                if a == caller@ {
                    if h != hash@ {
                        let j = choose|j: int|
                            0 <= j < self.author_hashes(a).len() && self.author_hashes(a)[j] == h;
                        assert(before[j] == h);
                        assert(before.contains(h));
                    }
                } else {
                    assert(old(self).author_hashes(a).contains(h));
                }
            }
            assert forall|h: Seq<u8>| #[trigger] self.anchors@.contains_key(h) implies self.author_hashes(
                self.anchors@[h].author@,
            ).contains(h) by {
                if h == hash@ {
                    assert(self.author_hashes(caller@)[before.len() as int] == h);
                } else {
                    let a = old(self).anchors@[h].author@;
                    assert(old(self).author_hashes(a).contains(h));
                    if a == caller@ {
                        let j = choose|j: int| 0 <= j < before.len() && before[j] == h;
                        assert(self.author_hashes(a)[j] == h);
                    }
                }
            }
            assert forall|a: Seq<u8>, i: int, j: int|
                0 <= i < j < self.author_hashes(a).len() implies #[trigger] self.author_hashes(a)[i]
                != #[trigger] self.author_hashes(a)[j] by {
                if a == caller@ {
                    if j == before.len() {
                        assert(before[i] == self.author_hashes(a)[i]);
                        assert(before.contains(before[i]));
                    } else {
                        assert(old(self).author_hashes(a)[i] != old(self).author_hashes(a)[j]);
                    }
                } else {
                    assert(old(self).author_hashes(a)[i] != old(self).author_hashes(a)[j]);
                }
            }
        }
        Ok(
            AnchorEvent::ContentAnchored {
                hash,
                author: caller,
                version,
                timestamp: now,
                metadata_uri: event_uri,
            },
        )
    }

    /// `revokeAnchor`: the author marks `hash` revoked, giving `reason`.
    pub fn revoke_anchor(&mut self, caller: Address, hash: Hash32, reason: Vec<u8>) -> (r: Result<
        AnchorEvent,
        AnchorError,
    >)
        requires
            old(self).wf(),
        ensures
            final(self).wf(),
            !old(self).anchors_spec().contains_key(hash@) ==> r == Err::<AnchorEvent, AnchorError>(
                AnchorError::HashNotFound,
            ) && *final(self) == *old(self),
            old(self).anchors_spec().contains_key(hash@) && old(self).anchors_spec()[hash@].author@
                != caller@ ==> r == Err::<AnchorEvent, AnchorError>(AnchorError::NotAuthor) && *final(self)
                == *old(self),
            old(self).anchors_spec().contains_key(hash@) && old(self).anchors_spec()[hash@].author@
                == caller@ && old(self).anchors_spec()[hash@].revoked ==> r == Err::<
                AnchorEvent,
                AnchorError,
            >(AnchorError::AlreadyRevoked) && *final(self) == *old(self),
            old(self).anchors_spec().contains_key(hash@) && old(self).anchors_spec()[hash@].author@
                == caller@ && !old(self).anchors_spec()[hash@].revoked ==> {
                let a = old(self).anchors_spec()[hash@];
                &&& r matches Ok(ev) && revoked_event(ev, hash, caller, reason@)
                &&& final(self).anchors_spec().dom() == old(self).anchors_spec().dom()
                &&& forall|h: Seq<u8>|
                    h != hash@ && #[trigger] old(self).anchors_spec().contains_key(h) ==> final(self).anchors_spec()[h] == old(self).anchors_spec()[h]
                &&& revoked_anchor(final(self).anchors_spec()[hash@], a, reason@)
                &&& forall|au: Seq<u8>| #[trigger]
                    final(self).author_hashes(au) == old(self).author_hashes(au)
            },
    {
        let record = match self.anchors.get(&hash) {
            None => {
                return Err(AnchorError::HashNotFound);
            },
            Some(a) => a,
        };
        if !array32_eq(&caller, &record.author) {
            return Err(AnchorError::NotAuthor);
        }
        if record.revoked {
            return Err(AnchorError::AlreadyRevoked);
        }
        let event_reason = copy_bytes(reason.as_slice());
        let updated = Anchor {
            author: record.author,
            timestamp: record.timestamp,
            version: record.version,
            metadata_uri: copy_bytes(record.metadata_uri.as_slice()),
            revoked: true,
            revocation_reason: reason,
        };
        self.anchors.insert(hash, updated);
        assert(self.anchors@.dom() =~= old(self).anchors@.dom());
        proof {
            assert forall|a: Seq<u8>, h: Seq<u8>| #[trigger]
                self.author_hashes(a).contains(h) implies self.anchors@.contains_key(h)
                && self.anchors@[h].author@ == a by {
                assert(old(self).author_hashes(a).contains(h));
            }
            assert forall|h: Seq<u8>| #[trigger] self.anchors@.contains_key(h) implies self.author_hashes(
                self.anchors@[h].author@,
            ).contains(h) by {
                assert(old(self).anchors@.contains_key(h));
            }
            assert forall|a: Seq<u8>, i: int, j: int|
                0 <= i < j < self.author_hashes(a).len() implies #[trigger] self.author_hashes(a)[i]
                != #[trigger] self.author_hashes(a)[j] by {
                assert(old(self).author_hashes(a)[i] != old(self).author_hashes(a)[j]);
            }
        }
        Ok(AnchorEvent::ContentRevoked { hash, author: caller, reason: event_reason })
    }

    /// `verifyAnchor`: the record of `hash`, if anchored.
    pub fn verify_anchor(&self, hash: Hash32) -> (r: Option<Anchor>)
        requires
            self.wf(),
        ensures
            !self.anchors_spec().contains_key(hash@) ==> r is None,
            self.anchors_spec().contains_key(hash@) ==> (r matches Some(a) && same_anchor(
                a,
                self.anchors_spec()[hash@],
            )),
    {
        match self.anchors.get(&hash) {
            None => None,
            Some(a) => Some(a.duplicate()),
        }
    }

    /// `listAnchorsByAuthor`: at most `count` of the hashes `author` anchored, oldest
    /// first, skipping the first `from`.
    pub fn list_anchors_by_author(&self, author: Address, from: usize, count: usize) -> (r: Vec<
        Hash32,
    >)
        requires
            self.wf(),
        ensures
            hash_views(r@) == page(self.author_hashes(author@), from as int, count as int),
    {
        let mut result: Vec<Hash32> = Vec::new();
        let list = match self.by_author.get(&author) {
            None => {
                assert(hash_views(result@) =~= page(
                    self.author_hashes(author@),
                    from as int,
                    count as int,
                ));
                return result;
            },
            Some(l) => l,
        };
        let ghost all = hash_views(list@);
        let mut i: usize = 0;
        while i < list.len()
            invariant
                all == hash_views(list@),
                i <= list@.len(),
                i <= from ==> result@.len() == 0,
                i > from ==> hash_views(result@) == page(all, from as int, count as int).subrange(
                    0,
                    result@.len() as int,
                ),
                i > from ==> result@.len() == (if i - from <= count {
                    i - from
                } else {
                    count as int
                }),
            ensures
                hash_views(result@) =~= page(all, from as int, count as int),
            decreases list@.len() - i,
        {
            if i < from {
                i = i + 1;
                continue;
            }
            if result.len() >= count {
                assert(hash_views(result@) =~= page(all, from as int, count as int));
                break;
            }
            let ghost prev = result@;
            result.push(list[i]);
            assert(hash_views(result@) =~= hash_views(prev).push(list@[i as int]@));
            assert(hash_views(result@) =~= page(all, from as int, count as int).subrange(
                0,
                result@.len() as int,
            ));
            i = i + 1;
        }
        result
    }
}

/// What `verifyAnchor` reads back of a fresh anchor is what `anchor` wrote: the caller
/// as author, the block time, the version and URI given, and no revocation.
pub proof fn law_verify_reads_anchor(
    stored: Anchor,
    read: Anchor,
    author: Address,
    now: u64,
    version: u32,
    uri: Seq<u8>,
)
    requires
        new_anchor(stored, author, now, version, uri),
        same_anchor(read, stored),
    ensures
        new_anchor(read, author, now, version, uri),
{
}

/// Pages compose: the page of `c1` items from `from`, followed by the page of `c2`
/// items right after it, is the page of `c1 + c2` items from `from`.
pub proof fn law_pages_concatenate<T>(all: Seq<T>, from: int, c1: int, c2: int)
    requires
        0 <= from,
        0 <= c1,
        0 <= c2,
    ensures
        page(all, from, c1) + page(all, from + c1, c2) == page(all, from, c1 + c2),
{
    assert(page(all, from, c1) + page(all, from + c1, c2) =~= page(all, from, c1 + c2));
}

/// A revoked anchor stays visible: what `verifyAnchor` reads back after `revokeAnchor`
/// is the same record (author, time, version, URI), now marked revoked with the
/// reason given.
pub proof fn law_revoked_anchor_stays_visible(
    before: Anchor,
    stored: Anchor,
    read: Anchor,
    reason: Seq<u8>,
)
    requires
        revoked_anchor(stored, before, reason),
        same_anchor(read, stored),
    ensures
        read.revoked,
        read.revocation_reason@ == reason,
        read.author == before.author,
        read.timestamp == before.timestamp,
        read.version == before.version,
        read.metadata_uri@ == before.metadata_uri@,
{
}

/// An author's list holds only hashes that author anchored: listing never shows a hash
/// of someone else, nor one that is not anchored.
pub proof fn law_author_list_holds_own_anchors(registry: &EctAnchor, author: Seq<u8>, h: Seq<u8>)
    requires
        registry.wf(),
        registry.author_hashes(author).contains(h),
    ensures
        registry.anchors_spec().contains_key(h),
        registry.anchors_spec()[h].author@ == author,
{
}

/// An author's list is complete and free of repeats: every anchored hash appears in
/// the list of its author, and no list names a hash twice.
pub proof fn law_author_list_complete(registry: &EctAnchor, h: Seq<u8>, author: Seq<u8>, i: int, j: int)
    requires
        registry.wf(),
    ensures
        registry.anchors_spec().contains_key(h) ==> registry.author_hashes(
            registry.anchors_spec()[h].author@,
        ).contains(h),
        0 <= i < j < registry.author_hashes(author).len() ==> registry.author_hashes(author)[i]
            != registry.author_hashes(author)[j],
{
}

} // verus!
