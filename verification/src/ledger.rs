//! The ledger: an arena of entries and a list of tagged, timestamped links
//! between them.
//!
//! An entry's identity is its position in the arena, fixed when the entry is
//! created. A DID is found again by its text, which the ledger holds at most
//! once. Entries are never removed; a profile entry can be revised in place,
//! and nothing else changes once written. Links are only ever appended.
//!
//! The ledger keeps a journal of the writes that it took, in the order in
//! which it took them, so that a store kept elsewhere can be made to follow.

use vstd::prelude::*;
use crate::entry::{Entry, Profile};

verus! {

/// The identity of an entry: its position in the arena.
#[derive(Clone, Copy, Debug, PartialEq, Eq, Structural)]
pub struct EntryId(pub usize);

/// The two relations that the ledger records from a DID.
#[derive(Clone, Copy, Debug, PartialEq, Eq, Structural)]
pub enum LinkTag {
    /// From a DID to its document.
    Doc,
    /// From a DID to one revision of its profile.
    Profile,
}

/// A directed, tagged relation between two entries, with the time at which it
/// was recorded.
#[derive(Clone, Copy, Debug, PartialEq, Eq, Structural)]
pub struct Link {
    pub base: EntryId,
    pub target: EntryId,
    pub tag: LinkTag,
    pub timestamp: u64,
}

/// One write that the ledger took.
#[derive(Clone, Copy, Debug, PartialEq, Eq, Structural)]
pub enum Write {
    /// The entry with this identity was created.
    Created(EntryId),
    /// This link was recorded.
    Linked(Link),
    /// The profile with this identity was revised.
    Revised(EntryId),
}

/// The ledger as a mathematical value: its entries by position, its links in
/// the order in which they were recorded, and the journal of its writes.
pub ghost struct LedgerView {
    pub entries: Seq<Entry>,
    pub links: Seq<Link>,
    pub journal: Seq<Write>,
}

/// The links that start at `base` and carry `tag`; with no tag, all that start
/// at `base`.
pub open spec fn link_matches(base: EntryId, tag: Option<LinkTag>) -> spec_fn(Link) -> bool {
    |link: Link| link.base == base && (tag matches Some(t) ==> link.tag == t)
}

impl LedgerView {
    /// The ledger with nothing in it.
    pub open spec fn empty() -> LedgerView {
        LedgerView { entries: Seq::empty(), links: Seq::empty(), journal: Seq::empty() }
    }

    /// `id` names an entry of this ledger.
    pub open spec fn valid_id(self, id: EntryId) -> bool {
        id.0 < self.entries.len()
    }

    /// The entry at position `i` is the DID `did`.
    pub open spec fn holds_did(self, i: int, did: Seq<char>) -> bool {
        &&& 0 <= i < self.entries.len()
        &&& self.entries[i] matches Entry::Did(d) && d.0@ == did
    }

    /// The DID `did` is registered.
    pub open spec fn has_did(self, did: Seq<char>) -> bool {
        exists|i: int| self.holds_did(i, did)
    }

    /// The identity of the DID `did`, where it is registered.
    pub open spec fn find_did(self, did: Seq<char>) -> Option<EntryId> {
        if self.has_did(did) {
            Some(EntryId((choose|i: int| self.holds_did(i, did)) as usize))
        } else {
            None
        }
    }

    /// A link from `base` to `target` can be recorded: both are entries of this
    /// ledger, and `base` is a DID.
    pub open spec fn admits_link(self, base: EntryId, target: EntryId) -> bool {
        &&& self.valid_id(base)
        &&& self.entries[base.0 as int] is Did
        &&& self.valid_id(target)
    }

    /// `entry` can be created: it is no DID that the ledger already holds.
    pub open spec fn admits(self, entry: Entry) -> bool {
        entry matches Entry::Did(d) ==> !self.has_did(d.0@)
    }

    /// The ledger's invariant: positions fit the machine's word, no DID is held
    /// twice, and every link starts at a DID of this ledger and ends at an entry
    /// of it.
    pub open spec fn wf(self) -> bool {
        &&& self.entries.len() <= usize::MAX
        &&& forall|i: int, j: int, did: Seq<char>|
            #[trigger] self.holds_did(i, did) && #[trigger] self.holds_did(j, did) ==> i == j
        &&& forall|k: int|
            0 <= k < self.links.len() ==> self.admits_link(
                (#[trigger] self.links[k]).base,
                self.links[k].target,
            )
    }

    /// The identity that the next entry will get.
    pub open spec fn next_id(self) -> EntryId {
        EntryId(self.entries.len() as usize)
    }

    /// Positions are left for `count` more entries.
    pub open spec fn has_room(self, count: nat) -> bool {
        self.entries.len() + count <= usize::MAX
    }

    /// The writes that the ledger took after the first `mark` of them.
    pub open spec fn writes_since(self, mark: nat) -> Seq<Write> {
        if mark <= self.journal.len() {
            self.journal.subrange(mark as int, self.journal.len() as int)
        } else {
            Seq::empty()
        }
    }

    /// This ledger with `entry` appended.
    pub open spec fn with_entry(self, entry: Entry) -> LedgerView {
        LedgerView {
            entries: self.entries.push(entry),
            links: self.links,
            journal: self.journal.push(Write::Created(self.next_id())),
        }
    }

    /// This ledger with `link` appended.
    pub open spec fn with_link(self, link: Link) -> LedgerView {
        LedgerView {
            entries: self.entries,
            links: self.links.push(link),
            journal: self.journal.push(Write::Linked(link)),
        }
    }

    /// This ledger with the entry at `id` replaced by `profile`.
    pub open spec fn with_revision(self, id: EntryId, profile: Profile) -> LedgerView {
        LedgerView {
            entries: self.entries.update(id.0 as int, Entry::Profile(profile)),
            links: self.links,
            journal: self.journal.push(Write::Revised(id)),
        }
    }

    /// The links from `base` that carry `tag` (all from `base`, with no tag), in
    /// the order in which they were recorded.
    pub open spec fn links_from(self, base: EntryId, tag: Option<LinkTag>) -> Seq<Link> {
        self.links.filter(link_matches(base, tag))
    }

    /// The profile at `id` can be revised: `id` names a profile entry.
    pub open spec fn holds_profile(self, id: EntryId) -> bool {
        self.valid_id(id) && self.entries[id.0 as int] is Profile
    }
}

/// In a well-formed ledger the identity of a registered DID is the one
/// position that holds it.
pub proof fn lemma_find_did(ledger: LedgerView, i: int, did: Seq<char>)
    requires
        ledger.wf(),
        ledger.holds_did(i, did),
    ensures
        ledger.find_did(did) == Some(EntryId(i as usize)),
        i as usize == i,
{
    let chosen = choose|k: int| ledger.holds_did(k, did);
    assert(ledger.holds_did(chosen, did));
}

/// Filtering distributes over appending one link.
pub proof fn lemma_links_from_push(
    links: Seq<Link>,
    link: Link,
    base: EntryId,
    tag: Option<LinkTag>,
)
    ensures
        links.push(link).filter(link_matches(base, tag)) == if link_matches(base, tag)(link) {
            links.filter(link_matches(base, tag)).push(link)
        } else {
            links.filter(link_matches(base, tag))
        },
{
    reveal(Seq::filter);
    assert(links.push(link).drop_last() =~= links);
}

/// Every link among those from `base` under `tag` is a link of the ledger,
/// starts at `base` and carries `tag`, where one is asked for.
pub proof fn lemma_links_from_are_links(
    ledger: LedgerView,
    base: EntryId,
    tag: Option<LinkTag>,
    i: int,
)
    requires
        0 <= i < ledger.links_from(base, tag).len(),
    ensures
        ledger.links.contains(ledger.links_from(base, tag)[i]),
        ledger.links_from(base, tag)[i].base == base,
        tag matches Some(t) ==> ledger.links_from(base, tag)[i].tag == t,
{
    let wanted = link_matches(base, tag);
    let from = ledger.links.filter(wanted);
    ledger.links.lemma_filter_pred(wanted, i);
    assert(from.contains(from[i]));
    ledger.links.lemma_filter_contains_rev(wanted, from[i]);
}

/// In a well-formed ledger links start only at DIDs of the ledger: from any
/// other identity, and so from the identity of the next entry, there are none.
pub proof fn lemma_links_start_at_dids(ledger: LedgerView, base: EntryId, tag: Option<LinkTag>)
    requires
        ledger.wf(),
        !(ledger.valid_id(base) && ledger.entries[base.0 as int] is Did),
    ensures
        ledger.links_from(base, tag) == Seq::<Link>::empty(),
{
    let from = ledger.links_from(base, tag);
    if from.len() > 0 {
        lemma_links_from_are_links(ledger, base, tag, 0);
        let k = choose|k: int| 0 <= k < ledger.links.len() && ledger.links[k] == from[0];
        assert(ledger.admits_link(ledger.links[k].base, ledger.links[k].target));
    }
    assert(from =~= Seq::<Link>::empty());
}

/// Appending an entry that the ledger admits keeps the invariant. A new DID
/// is then found under the identity that was next; every other DID is found
/// where it was, or not at all, as before.
pub proof fn lemma_with_entry(ledger: LedgerView, entry: Entry)
    requires
        ledger.wf(),
        ledger.has_room(1),
        ledger.admits(entry),
    ensures
        ledger.with_entry(entry).wf(),
        entry matches Entry::Did(d) ==> ledger.with_entry(entry).find_did(d.0@) == Some(
            ledger.next_id(),
        ),
        forall|did: Seq<char>|
            !(entry matches Entry::Did(d) && d.0@ == did) ==> #[trigger] ledger.with_entry(
                entry,
            ).find_did(did) == ledger.find_did(did),
{
    let after = ledger.with_entry(entry);
    assert forall|i: int, j: int, did: Seq<char>|
        #[trigger] after.holds_did(i, did) && #[trigger] after.holds_did(j, did) implies i == j by {
        if i < ledger.entries.len() {
            assert(ledger.holds_did(i, did));
        }
        if j < ledger.entries.len() {
            assert(ledger.holds_did(j, did));
        }
    }
    assert forall|k: int| 0 <= k < after.links.len() implies after.admits_link(
        (#[trigger] after.links[k]).base,
        after.links[k].target,
    ) by {
        assert(ledger.admits_link(ledger.links[k].base, ledger.links[k].target));
    }
    if let Entry::Did(d) = entry {
        assert(after.holds_did(ledger.entries.len() as int, d.0@));
        lemma_find_did(after, ledger.entries.len() as int, d.0@);
    }
    assert forall|did: Seq<char>| !(entry matches Entry::Did(d) && d.0@ == did) implies #[trigger]
        after.find_did(did) == ledger.find_did(did) by {
        if ledger.has_did(did) {
            let i = choose|i: int| ledger.holds_did(i, did);
            lemma_find_did(ledger, i, did);
            assert(after.holds_did(i, did));
            lemma_find_did(after, i, did);
        } else if after.has_did(did) {
            let i = choose|i: int| after.holds_did(i, did);
            assert(ledger.holds_did(i, did));
        }
    }
}

/// Appending a link that the ledger admits keeps the invariant and every DID.
pub proof fn lemma_with_link(ledger: LedgerView, link: Link)
    requires
        ledger.wf(),
        ledger.admits_link(link.base, link.target),
    ensures
        ledger.with_link(link).wf(),
        forall|did: Seq<char>| #[trigger]
            ledger.with_link(link).find_did(did) == ledger.find_did(did),
{
    let after = ledger.with_link(link);
    assert forall|i: int, did: Seq<char>| after.holds_did(i, did) == ledger.holds_did(i, did) by {}
    assert forall|i: int, j: int, did: Seq<char>|
        #[trigger] after.holds_did(i, did) && #[trigger] after.holds_did(j, did) implies i == j by {
        assert(ledger.holds_did(i, did));
        assert(ledger.holds_did(j, did));
    }
    assert forall|k: int| 0 <= k < after.links.len() implies after.admits_link(
        (#[trigger] after.links[k]).base,
        after.links[k].target,
    ) by {
        if k < ledger.links.len() {
            assert(ledger.admits_link(ledger.links[k].base, ledger.links[k].target));
        }
    }
    assert forall|did: Seq<char>| #[trigger] after.find_did(did) == ledger.find_did(did) by {
        assert(forall|i: int| after.holds_did(i, did) == ledger.holds_did(i, did));
    }
}

/// Revising a profile entry keeps the invariant and every DID.
pub proof fn lemma_with_revision(ledger: LedgerView, id: EntryId, profile: Profile)
    requires
        ledger.wf(),
        ledger.holds_profile(id),
    ensures
        ledger.with_revision(id, profile).wf(),
        forall|did: Seq<char>| #[trigger]
            ledger.with_revision(id, profile).find_did(did) == ledger.find_did(did),
{
    let after = ledger.with_revision(id, profile);
    assert forall|i: int, did: Seq<char>| after.holds_did(i, did) == ledger.holds_did(i, did) by {}
    assert forall|i: int, j: int, did: Seq<char>|
        #[trigger] after.holds_did(i, did) && #[trigger] after.holds_did(j, did) implies i == j by {
        assert(ledger.holds_did(i, did));
        assert(ledger.holds_did(j, did));
    }
    assert forall|k: int| 0 <= k < after.links.len() implies after.admits_link(
        (#[trigger] after.links[k]).base,
        after.links[k].target,
    ) by {
        assert(ledger.admits_link(ledger.links[k].base, ledger.links[k].target));
    }
    assert forall|did: Seq<char>| #[trigger] after.find_did(did) == ledger.find_did(did) by {
        assert(forall|i: int| after.holds_did(i, did) == ledger.holds_did(i, did));
    }
}

/// A ledger held in memory.
#[derive(Clone, Debug, PartialEq, Eq)]
pub struct Ledger {
    entries: Vec<Entry>,
    links: Vec<Link>,
    journal: Vec<Write>,
}

impl View for Ledger {
    type V = LedgerView;

    closed spec fn view(&self) -> LedgerView {
        LedgerView { entries: self.entries@, links: self.links@, journal: self.journal@ }
    }
}

impl LinkTag {
    /// The tag as the ledger writes it.
    pub open spec fn name_text(self) -> Seq<char> {
        match self {
            LinkTag::Doc => "doc"@,
            LinkTag::Profile => "profile"@,
        }
    }

    /// The tag as the ledger writes it: `"doc"` or `"profile"`.
    pub fn name(&self) -> (text: &'static str)
        ensures
            text@ == self.name_text(),
    {
        match self {
            LinkTag::Doc => "doc",
            LinkTag::Profile => "profile",
        }
    }
}

impl Ledger {
    /// Whether this ledger keeps its invariant.
    pub open spec fn wf(&self) -> bool {
        self@.wf()
    }

    /// A ledger with no entries, no links and an empty journal.
    pub fn new() -> (ledger: Ledger)
        ensures
            ledger@ == LedgerView::empty(),
            ledger.wf(),
    {
        Ledger { entries: Vec::new(), links: Vec::new(), journal: Vec::new() }
    }

    /// The number of entries.
    pub fn entry_count(&self) -> (count: usize)
        ensures
            count == self@.entries.len(),
    {
        self.entries.len()
    }

    /// The number of links.
    pub fn link_count(&self) -> (count: usize)
        ensures
            count == self@.links.len(),
    {
        self.links.len()
    }

    /// The number of writes that the ledger has taken.
    pub fn journal_len(&self) -> (count: usize)
        ensures
            count == self@.journal.len(),
    {
        self.journal.len()
    }

    /// The writes that the ledger took after the first `mark` of them, in the
    /// order in which it took them.
    pub fn writes_since(&self, mark: usize) -> (writes: Vec<Write>)
        ensures
            writes@ == self@.writes_since(mark as nat),
    {
        let mut writes: Vec<Write> = Vec::new();
        let mut position: usize = mark;
        while position < self.journal.len()
            invariant
                mark <= position,
                mark <= self.journal@.len() ==> position <= self.journal@.len(),
                mark <= self.journal@.len() ==> writes@ == self.journal@.subrange(
                    mark as int,
                    position as int,
                ),
                mark > self.journal@.len() ==> writes@ == Seq::<Write>::empty(),
            decreases self.journal@.len() - position,
        {
            writes.push(self.journal[position]);
            proof {
                assert(self.journal@.subrange(mark as int, position as int).push(
                    self.journal@[position as int],
                ) =~= self.journal@.subrange(mark as int, position + 1));
            }
            position += 1;
        }
        proof {
            if mark <= self.journal@.len() {
                assert(position == self.journal@.len());
            }
        }
        writes
    }

    /// The entry that `id` names, if it names one.
    pub fn get(&self, id: EntryId) -> (entry: Option<&Entry>)
        ensures
            entry == if self@.valid_id(id) {
                Some(&self@.entries[id.0 as int])
            } else {
                None
            },
    {
        if id.0 < self.entries.len() {
            Some(&self.entries[id.0])
        } else {
            None
        }
    }

    /// The link recorded at `position`, counting from the first, if there is one.
    pub fn link_at(&self, position: usize) -> (link: Option<Link>)
        ensures
            link == if position < self@.links.len() {
                Some(self@.links[position as int])
            } else {
                None
            },
    {
        if position < self.links.len() {
            Some(self.links[position])
        } else {
            None
        }
    }

    /// Looks a DID up by its text and returns its identity, if the ledger holds
    /// it.
    pub fn find_did(&self, did: &str) -> (found: Option<EntryId>)
        requires
            self.wf(),
        ensures
            found == self@.find_did(did@),
            found matches Some(id) ==> self@.holds_did(id.0 as int, did@),
            found.is_none() ==> !self@.has_did(did@),
    {
        let wanted = did.to_owned();
        let mut i: usize = 0;
        while i < self.entries.len()
            invariant
                i <= self.entries@.len(),
                wanted@ == did@,
                self.wf(),
                forall|j: int| 0 <= j < i ==> !self@.holds_did(j, did@),
            decreases self.entries@.len() - i,
        {
            let hit = match &self.entries[i] {
                Entry::Did(held) => held.0 == wanted,
                _ => false,
            };
            if hit {
                proof {
                    assert(self@.holds_did(i as int, did@));
                    lemma_find_did(self@, i as int, did@);
                }
                return Some(EntryId(i));
            }
            i += 1;
        }
        None
    }

    /// Creates an entry and returns its identity. A DID that the ledger already
    /// holds is refused, and the ledger stays as it was.
    pub fn create(&mut self, entry: Entry) -> (created: Option<EntryId>)
        requires
            old(self).wf(),
        ensures
            final(self).wf(),
            old(self)@.admits(entry) ==> created == Some(EntryId(old(self)@.entries.len() as usize))
                && final(self)@ == old(self)@.with_entry(entry),
            !old(self)@.admits(entry) ==> created.is_none() && final(self)@ == old(self)@,
    {
        let taken = match &entry {
            Entry::Did(did) => self.find_did(did.0.as_str()).is_some(),
            _ => false,
        };
        if taken {
            return None;
        }
        let id = EntryId(self.entries.len());
        self.entries.push(entry);
        self.journal.push(Write::Created(id));
        let count = self.entries.len();
        proof {
            assert(count == old(self)@.entries.len() + 1);
            assert(self@ == old(self)@.with_entry(entry));
            lemma_with_entry(old(self)@, entry);
        }
        Some(id)
    }

    /// Records a link from `base` to `target`, and tells whether it did. A link
    /// is refused, and the ledger stays as it was, unless `base` is a DID of
    /// this ledger and `target` an entry of it.
    pub fn create_link(
        &mut self,
        base: EntryId,
        target: EntryId,
        tag: LinkTag,
        timestamp: u64,
    ) -> (recorded: bool)
        requires
            old(self).wf(),
        ensures
            final(self).wf(),
            recorded == old(self)@.admits_link(base, target),
            recorded ==> final(self)@ == old(self)@.with_link(
                Link { base, target, tag, timestamp },
            ),
            !recorded ==> final(self)@ == old(self)@,
    {
        if base.0 >= self.entries.len() || target.0 >= self.entries.len() {
            return false;
        }
        let from_did = match &self.entries[base.0] {
            Entry::Did(_) => true,
            _ => false,
        };
        if !from_did {
            return false;
        }
        self.links.push(Link { base, target, tag, timestamp });
        self.journal.push(Write::Linked(Link { base, target, tag, timestamp }));
        proof {
            assert(self@ == old(self)@.with_link(Link { base, target, tag, timestamp }));
            lemma_with_link(old(self)@, Link { base, target, tag, timestamp });
        }
        true
    }

    /// The links from `base` that carry `tag`, or all links from `base` where
    /// no tag is given, in the order in which they were recorded.
    pub fn get_links(&self, base: EntryId, tag: Option<LinkTag>) -> (links: Vec<Link>)
        ensures
            links@ == self@.links_from(base, tag),
    {
        let mut found: Vec<Link> = Vec::new();
        let mut k: usize = 0;
        while k < self.links.len()
            invariant
                k <= self.links@.len(),
                found@ == self.links@.take(k as int).filter(link_matches(base, tag)),
            decreases self.links@.len() - k,
        {
            let link = self.links[k];
            let tagged = match tag {
                Some(wanted) => link.tag == wanted,
                None => true,
            };
            proof {
                lemma_links_from_push(self.links@.take(k as int), link, base, tag);
                assert(self.links@.take(k as int).push(link) =~= self.links@.take(k + 1));
            }
            if link.base == base && tagged {
                found.push(link);
            }
            k += 1;
        }
        proof {
            assert(self.links@.take(k as int) =~= self.links@);
        }
        found
    }

    /// Revises the profile entry at `id` in place, and tells whether it did.
    /// Only a profile entry can be revised: for any other `id` the ledger stays
    /// as it was. The entry keeps its identity, and every link to it stands.
    pub fn update(&mut self, id: EntryId, profile: Profile) -> (revised: bool)
        requires
            old(self).wf(),
        ensures
            final(self).wf(),
            revised == old(self)@.holds_profile(id),
            revised ==> final(self)@ == old(self)@.with_revision(id, profile),
            !revised ==> final(self)@ == old(self)@,
    {
        if id.0 >= self.entries.len() {
            return false;
        }
        let is_profile = match &self.entries[id.0] {
            Entry::Profile(_) => true,
            _ => false,
        };
        if !is_profile {
            return false;
        }
        self.entries.set(id.0, Entry::Profile(profile));
        self.journal.push(Write::Revised(id));
        proof {
            assert(self@ == old(self)@.with_revision(id, profile));
            lemma_with_revision(old(self)@, id, profile);
        }
        true
    }
}

} // verus!
