//! The certification records, the notifications they give rise to, and the
//! three operations that change them.
use vstd::prelude::*;

use crate::id::{certification_id_of, derive_certification_id, same_id};

verus! {

/// A certification record as a mathematical value.
pub struct CertificationView {
    pub id: Seq<u8>,
    pub owner_id: u64,
    pub title: Seq<u8>,
    pub description: Seq<u8>,
    pub created_at: u64,
    pub updated_at: u64,
}

/// A certification: who owns it, what it says, and the blocks at which it was
/// created and last updated.
#[derive(Debug)]
pub struct Certification {
    pub id: [u8; 32],
    pub owner_id: u64,
    pub title: Vec<u8>,
    pub description: Vec<u8>,
    pub created_at: u64,
    pub updated_at: u64,
}

impl View for Certification {
    type V = CertificationView;

    open spec fn view(&self) -> CertificationView {
        CertificationView {
            id: self.id@,
            owner_id: self.owner_id,
            title: self.title@,
            description: self.description@,
            created_at: self.created_at,
            updated_at: self.updated_at,
        }
    }
}

impl Certification {
    /// A record with the given fields.
    pub fn new(
        id: [u8; 32],
        owner_id: u64,
        title: Vec<u8>,
        description: Vec<u8>,
        created_at: u64,
        updated_at: u64,
    ) -> (r: Self)
        ensures
            r@ == (CertificationView {
                id: id@,
                owner_id,
                title: title@,
                description: description@,
                created_at,
                updated_at,
            }),
            r.id == id,
    {
        Certification { id, owner_id, title, description, created_at, updated_at }
    }

    /// The record's identifier.
    pub fn get_id(&self) -> (r: &[u8; 32])
        ensures
            *r == self.id,
    {
        &self.id
    }

    /// The account that owns the record.
    pub fn get_owner_id(&self) -> (r: &u64)
        ensures
            *r == self.owner_id,
    {
        &self.owner_id
    }
}

/// A notification of a completed change to the registry.
#[derive(Debug, Clone, Copy, PartialEq, Eq)]
pub enum Event {
    CertificationStored { who: u64, certification_id: [u8; 32], created_at: u64 },
    CertificationUpdated { who: u64, certification_id: [u8; 32], updated_at: u64 },
    CertificationRemoved { who: u64, certification_id: [u8; 32] },
}

impl Event {
    /// This is the notification that `who` stored the record `id` at block `at`.
    pub open spec fn is_stored(self, who: u64, id: Seq<u8>, at: u64) -> bool {
        match self {
            Event::CertificationStored { who: w, certification_id: c, created_at: t } => w == who
                && c@ == id && t == at,
            _ => false,
        }
    }
}

/// Why an update or a removal was refused.
#[derive(Debug, Clone, Copy, PartialEq, Eq, Structural)]
pub enum Error {
    /// The caller is not the owner of the certification.
    NotOwner,
    /// No certification has the given identifier.
    CertificationNotFound,
}

/// The registry's contents as a map from identifier to record.
pub type Records = Map<Seq<u8>, CertificationView>;

/// The record that `who` creates with `title` and `description` at block `now`.
pub open spec fn created_record(who: u64, title: Seq<u8>, description: Seq<u8>, now: u64) -> CertificationView {
    CertificationView {
        id: certification_id_of(who),
        owner_id: who,
        title,
        description,
        created_at: now,
        updated_at: now,
    }
}

/// The registry after `who` creates a record: it is stored at the identifier
/// derived from `who`, replacing whatever stood there.
pub open spec fn after_add(records: Records, who: u64, title: Seq<u8>, description: Seq<u8>, now: u64) -> Records {
    records.insert(certification_id_of(who), created_record(who, title, description, now))
}

/// `c` with new content, updated at block `now`; identifier, owner and
/// creation block are kept.
pub open spec fn updated_record(c: CertificationView, title: Seq<u8>, description: Seq<u8>, now: u64) -> CertificationView {
    CertificationView {
        id: c.id,
        owner_id: c.owner_id,
        title,
        description,
        created_at: c.created_at,
        updated_at: now,
    }
}

/// Whether `who` may change the record `id`: it must exist, and `who` must
/// own it. Existence is checked first.
pub open spec fn access(records: Records, who: u64, id: Seq<u8>) -> Result<(), Error> {
    if !records.contains_key(id) {
        Err(Error::CertificationNotFound)
    } else if records[id].owner_id != who {
        Err(Error::NotOwner)
    } else {
        Ok(())
    }
}

/// A second creation by the same account leaves exactly one record at the
/// account's identifier: the second one, with the second call's content and
/// block as both its creation and update block. Every other record is as
/// before the first call.
pub proof fn second_add_replaces_first(
    records: Records,
    who: u64,
    title: Seq<u8>,
    description: Seq<u8>,
    now: u64,
    title2: Seq<u8>,
    description2: Seq<u8>,
    now2: u64,
)
    ensures
        ({
            let id = certification_id_of(who);
            let twice = after_add(after_add(records, who, title, description, now), who, title2, description2, now2);
            &&& twice == after_add(records, who, title2, description2, now2)
            &&& twice.dom() == records.dom().insert(id)
            &&& twice[id] == created_record(who, title2, description2, now2)
            &&& twice[id].created_at == now2
            &&& twice.remove(id) == records.remove(id)
        }),
{
    let id = certification_id_of(who);
    let once = after_add(records, who, title, description, now);
    let twice = after_add(once, who, title2, description2, now2);
    assert(twice =~= after_add(records, who, title2, description2, now2));
    assert(twice.dom() =~= records.dom().insert(id));
    assert(twice.remove(id) =~= records.remove(id));
}

/// An update never changes a record's identifier, owner or creation block;
/// made at a block no earlier than the creation block, it leaves the record
/// created no later than it was updated.
pub proof fn update_keeps_identity(c: CertificationView, title: Seq<u8>, description: Seq<u8>, now: u64)
    ensures
        updated_record(c, title, description, now).id == c.id,
        updated_record(c, title, description, now).owner_id == c.owner_id,
        updated_record(c, title, description, now).created_at == c.created_at,
        c.created_at <= now ==> updated_record(c, title, description, now).created_at
            <= updated_record(c, title, description, now).updated_at,
{
}

/// An update or a removal by `who` of the record `id` fails with
/// `CertificationNotFound` exactly when no record has that identifier, fails
/// with `NotOwner` exactly when one does and another account owns it, and
/// succeeds otherwise.
pub proof fn access_outcomes(records: Records, who: u64, id: Seq<u8>)
    ensures
        access(records, who, id) == Err::<(), Error>(Error::CertificationNotFound) <==> !records.contains_key(id),
        access(records, who, id) == Err::<(), Error>(Error::NotOwner) <==> records.contains_key(id)
            && records[id].owner_id != who,
        access(records, who, id) is Ok <==> records.contains_key(id) && records[id].owner_id == who,
{
}

/// Once a record is removed, any later update or removal of its identifier,
/// by any account, fails with `CertificationNotFound`.
pub proof fn removed_record_is_gone(records: Records, id: Seq<u8>, who: u64)
    ensures
        access(records.remove(id), who, id) == Err::<(), Error>(Error::CertificationNotFound),
{
}

/// The registry: the stored certifications and the notifications emitted so
/// far, oldest first.
pub struct Pallet {
    certifications: Vec<Certification>,
    events: Vec<Event>,
    records: Ghost<Records>,
}

impl Pallet {
    /// The stored records, by identifier.
    pub closed spec fn records(&self) -> Records {
        self.records@
    }

    /// The notifications emitted so far, oldest first.
    pub closed spec fn event_log(&self) -> Seq<Event> {
        self.events@
    }

    /// The stored vector holds exactly the records of the map, one per
    /// identifier.
    pub closed spec fn wf(&self) -> bool {
        &&& forall|i: int|
            0 <= i < self.certifications@.len() ==> self.records@.contains_key(
                #[trigger] self.certifications@[i].id@,
            ) && self.records@[self.certifications@[i].id@] == self.certifications@[i]@
        &&& forall|k: Seq<u8>|
            #[trigger] self.records@.contains_key(k) ==> exists|i: int|
                0 <= i < self.certifications@.len() && #[trigger] self.certifications@[i].id@ == k
        &&& forall|i: int, j: int|
            0 <= i < j < self.certifications@.len() ==> #[trigger] self.certifications@[i].id@
                != #[trigger] self.certifications@[j].id@
    }

    /// Every stored record sits at its own identifier.
    pub proof fn stored_ids_match_keys(&self)
        requires
            self.wf(),
        ensures
            forall|k: Seq<u8>| #[trigger] self.records().contains_key(k) ==> self.records()[k].id == k,
    {
        assert forall|k: Seq<u8>| #[trigger] self.records().contains_key(k) implies self.records()[k].id
            == k by {
            let i = choose|i: int|
                0 <= i < self.certifications@.len() && #[trigger] self.certifications@[i].id@ == k;
        }
    }

    /// An empty registry.
    pub fn new() -> (r: Self)
        ensures
            r.wf(),
            r.records() == Map::<Seq<u8>, CertificationView>::empty(),
            r.event_log() == Seq::<Event>::empty(),
    {
        Pallet { certifications: Vec::new(), events: Vec::new(), records: Ghost(Map::empty()) }
    }

    /// The position of the record with identifier `id`, if there is one.
    fn find(&self, id: &[u8; 32]) -> (r: Option<usize>)
        requires
            self.wf(),
        ensures
            match r {
                Some(i) => i < self.certifications@.len() && self.certifications@[i as int].id@ == id@,
                None => !self.records().contains_key(id@),
            },
    {
        let mut i: usize = 0;
        while i < self.certifications.len()
            invariant
                self.wf(),
                0 <= i <= self.certifications@.len(),
                forall|j: int| 0 <= j < i ==> self.certifications@[j].id@ != id@,
            decreases self.certifications@.len() - i,
        {
            if same_id(&self.certifications[i].id, id) {
                return Some(i);
            }
            i = i + 1;
        }
        None
    }

    /// The record with identifier `id`, if there is one.
    pub fn certification(&self, id: &[u8; 32]) -> (r: Option<&Certification>)
        requires
            self.wf(),
        ensures
            r.is_some() == self.records().contains_key(id@),
            r.is_some() ==> r.unwrap()@ == self.records()[id@],
    {
        match self.find(id) {
            Some(i) => Some(&self.certifications[i]),
            None => None,
        }
    }

    /// The notifications emitted so far, oldest first.
    pub fn events(&self) -> (r: &Vec<Event>)
        ensures
            r@ == self.event_log(),
    {
        &self.events
    }

    /// Puts `rec` in place of the record at `pos`, which has the same
    /// identifier, or at the end where `pos` is `None` and no record has it.
    fn store(&mut self, pos: Option<usize>, rec: Certification)
        requires
            old(self).wf(),
            match pos {
                Some(i) => i < old(self).certifications@.len() && old(self).certifications@[i as int].id@
                    == rec.id@,
                None => !old(self).records().contains_key(rec.id@),
            },
        ensures
            final(self).wf(),
            final(self).records() == old(self).records().insert(rec.id@, rec@),
            final(self).event_log() == old(self).event_log(),
    {
        let ghost key = rec.id@;
        let ghost val = rec@;
        let ghost old_certs = self.certifications@;
        self.records = Ghost(self.records@.insert(key, val));
        match pos {
            Some(i) => {
                self.certifications.set(i, rec);
                assert forall|k: Seq<u8>| #[trigger] self.records@.contains_key(k) implies exists|j: int|
                    0 <= j < self.certifications@.len() && #[trigger] self.certifications@[j].id@ == k by {
                    if k == key {
                        assert(self.certifications@[i as int].id@ == k);
                    } else {
                        assert(old(self).records@.contains_key(k));
                        let j = choose|j: int| 0 <= j < old_certs.len() && #[trigger] old_certs[j].id@ == k;
                        assert(self.certifications@[j].id@ == k);
                    }
                }
            },
            None => {
                self.certifications.push(rec);
                let ghost n = old_certs.len() as int;
                assert(self.certifications@[n].id@ == key);
                assert forall|k: Seq<u8>| #[trigger] self.records@.contains_key(k) implies exists|j: int|
                    0 <= j < self.certifications@.len() && #[trigger] self.certifications@[j].id@ == k by {
                    if k == key {
                        assert(self.certifications@[n].id@ == k);
                    } else {
                        assert(old(self).records@.contains_key(k));
                        let j = choose|j: int| 0 <= j < old_certs.len() && #[trigger] old_certs[j].id@ == k;
                        assert(self.certifications@[j].id@ == k);
                    }
                }
            },
        }
    }
    /// Appends `e` to the notifications.
    fn emit(&mut self, e: Event)
        requires
            old(self).wf(),
        ensures
            final(self).wf(),
            final(self).records() == old(self).records(),
            final(self).event_log() == old(self).event_log().push(e),
    {
        self.events.push(e);
        assert(self.certifications@ == old(self).certifications@);
    }

    /// Takes the record at position `i` out of the registry.
    fn take_out(&mut self, i: usize)
        requires
            old(self).wf(),
            i < old(self).certifications@.len(),
        ensures
            final(self).wf(),
            final(self).records() == old(self).records().remove(old(self).certifications@[i as int].id@),
            final(self).event_log() == old(self).event_log(),
    {
        let ghost key = self.certifications@[i as int].id@;
        let ghost old_certs = self.certifications@;
        self.records = Ghost(self.records@.remove(key));
        self.certifications.remove(i);
        assert forall|j: int| 0 <= j < self.certifications@.len() implies self.records@.contains_key(
            #[trigger] self.certifications@[j].id@,
        ) && self.records@[self.certifications@[j].id@] == self.certifications@[j]@ by {
            let oj = if j < i { j } else { j + 1 };
            assert(self.certifications@[j] == old_certs[oj]);
            assert(old_certs[oj].id@ != key);
        }
        assert forall|k: Seq<u8>| #[trigger] self.records@.contains_key(k) implies exists|j: int|
            0 <= j < self.certifications@.len() && #[trigger] self.certifications@[j].id@ == k by {
            assert(old(self).records@.contains_key(k));
            let oj = choose|oj: int| 0 <= oj < old_certs.len() && #[trigger] old_certs[oj].id@ == k;
            assert(oj != i);
            let j = if oj < i { oj } else { oj - 1 };
            assert(self.certifications@[j] == old_certs[oj]);
        }
        assert forall|a: int, b: int| 0 <= a < b < self.certifications@.len() implies #[trigger] self.certifications@[a].id@
            != #[trigger] self.certifications@[b].id@ by {
            let oa = if a < i { a } else { a + 1 };
            let ob = if b < i { b } else { b + 1 };
            assert(self.certifications@[a] == old_certs[oa]);
            assert(self.certifications@[b] == old_certs[ob]);
        }
    }

    /// `who` stores a certification with `title` and `description` at block
    /// `now`. Its identifier is derived from `who` alone, so a second call by
    /// the same account replaces the first record, creation block included.
    /// This never fails, and emits one `CertificationStored`.
    pub fn add_certification(&mut self, who: u64, title: Vec<u8>, description: Vec<u8>, now: u64) -> (r: Result<(), Error>)
        requires
            old(self).wf(),
        ensures
            final(self).wf(),
            r == Ok::<(), Error>(()),
            final(self).records() == after_add(old(self).records(), who, title@, description@, now),
            final(self).event_log().len() == old(self).event_log().len() + 1,
            final(self).event_log().drop_last() == old(self).event_log(),
            final(self).event_log().last().is_stored(who, certification_id_of(who), now),
    {
        let id = derive_certification_id(who);
        let pos = self.find(&id);
        let rec = Certification::new(id, who, title, description, now, now);
        self.store(pos, rec);
        self.emit(Event::CertificationStored { who, certification_id: id, created_at: now });
        assert(self.events@.drop_last() =~= old(self).events@);
        Ok(())
    }

    /// `who` replaces the title and description of the record
    /// `certification_id` and marks it updated at block `now`. Fails with
    /// `CertificationNotFound` where no such record exists, else with
    /// `NotOwner` where `who` does not own it; a failure changes nothing and
    /// emits nothing. Success emits one `CertificationUpdated`.
    pub fn update_certification(
        &mut self,
        who: u64,
        certification_id: [u8; 32],
        title: Vec<u8>,
        description: Vec<u8>,
        now: u64,
    ) -> (r: Result<(), Error>)
        requires
            old(self).wf(),
        ensures
            final(self).wf(),
            r == access(old(self).records(), who, certification_id@),
            r is Ok ==> final(self).records() == old(self).records().insert(
                certification_id@,
                updated_record(old(self).records()[certification_id@], title@, description@, now),
            ),
            r is Ok ==> final(self).event_log() == old(self).event_log().push(
                (Event::CertificationUpdated { who, certification_id, updated_at: now }),
            ),
            r is Err ==> final(self).records() == old(self).records(),
            r is Err ==> final(self).event_log() == old(self).event_log(),
    {
        match self.find(&certification_id) {
            None => Err(Error::CertificationNotFound),
            Some(i) => {
                if *self.certifications[i].get_owner_id() != who {
                    return Err(Error::NotOwner);
                }
                let created_at = self.certifications[i].created_at;
                let rec = Certification::new(certification_id, who, title, description, created_at, now);
                self.store(Some(i), rec);
                self.emit(Event::CertificationUpdated { who, certification_id, updated_at: now });
                Ok(())
            },
        }
    }

    /// `who` removes the record `certification_id`. Fails with
    /// `CertificationNotFound` where no such record exists, else with
    /// `NotOwner` where `who` does not own it; a failure changes nothing and
    /// emits nothing. Success emits one `CertificationRemoved`.
    pub fn remove_certification(&mut self, who: u64, certification_id: [u8; 32]) -> (r: Result<(), Error>)
        requires
            old(self).wf(),
        ensures
            final(self).wf(),
            r == access(old(self).records(), who, certification_id@),
            r is Ok ==> final(self).records() == old(self).records().remove(certification_id@),
            r is Ok ==> final(self).event_log() == old(self).event_log().push(
                (Event::CertificationRemoved { who, certification_id }),
            ),
            r is Err ==> final(self).records() == old(self).records(),
            r is Err ==> final(self).event_log() == old(self).event_log(),
    {
        match self.find(&certification_id) {
            None => Err(Error::CertificationNotFound),
            Some(i) => {
                if *self.certifications[i].get_owner_id() != who {
                    return Err(Error::NotOwner);
                }
                self.take_out(i);
                self.emit(Event::CertificationRemoved { who, certification_id });
                Ok(())
            },
        }
    }
}

} // verus!
