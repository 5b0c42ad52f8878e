//! Enrollment records and the store that keeps one record per user.

use vstd::prelude::*;

verus! {

/// What an enrollment record holds, as plain values.
pub struct EnrollmentData {
    pub user_id: u64,
    pub user_name: Seq<char>,
    pub name: Seq<char>,
    pub university: Seq<char>,
    pub email: Seq<char>,
    pub interests: Seq<char>,
    pub email_distro: Seq<char>,
}

/// One member's enrollment. `email_distro` holds the opt-in as the marker
/// text, `Yes` or `No`, not as a boolean.
#[derive(Debug)]
pub struct Enrollment {
    user_id: u64,
    user_name: String,
    name: String,
    university: String,
    email: String,
    interests: String,
    email_distro: String,
}

impl View for Enrollment {
    type V = EnrollmentData;

    closed spec fn view(&self) -> EnrollmentData {
        EnrollmentData {
            user_id: self.user_id,
            user_name: self.user_name@,
            name: self.name@,
            university: self.university@,
            email: self.email@,
            interests: self.interests@,
            email_distro: self.email_distro@,
        }
    }
}

impl Clone for Enrollment {
    fn clone(&self) -> (out: Self)
        ensures
            out@ == self@,
    {
        Enrollment {
            user_id: self.user_id,
            user_name: self.user_name.clone(),
            name: self.name.clone(),
            university: self.university.clone(),
            email: self.email.clone(),
            interests: self.interests.clone(),
            email_distro: self.email_distro.clone(),
        }
    }
}

impl Enrollment {
    pub fn new(
        user_id: u64,
        user_name: String,
        name: String,
        university: String,
        email: String,
        interests: String,
        email_distro: String,
    ) -> (out: Self)
        ensures
            out@ == (EnrollmentData {
                user_id,
                user_name: user_name@,
                name: name@,
                university: university@,
                email: email@,
                interests: interests@,
                email_distro: email_distro@,
            }),
    {
        Enrollment { user_id, user_name, name, university, email, interests, email_distro }
    }

    pub fn user_id(&self) -> (out: u64)
        ensures
            out == self@.user_id,
    {
        self.user_id
    }

    pub fn user_name(&self) -> (out: &str)
        ensures
            out@ == self@.user_name,
    {
        self.user_name.as_str()
    }

    pub fn name(&self) -> (out: &str)
        ensures
            out@ == self@.name,
    {
        self.name.as_str()
    }

    pub fn university(&self) -> (out: &str)
        ensures
            out@ == self@.university,
    {
        self.university.as_str()
    }

    pub fn email(&self) -> (out: &str)
        ensures
            out@ == self@.email,
    {
        self.email.as_str()
    }

    pub fn interests(&self) -> (out: &str)
        ensures
            out@ == self@.interests,
    {
        self.interests.as_str()
    }

    pub fn email_distro(&self) -> (out: &str)
        ensures
            out@ == self@.email_distro,
    {
        self.email_distro.as_str()
    }
}

/// The store after `record` is saved into `store`: the record stands under
/// its user id, in place of whatever stood there.
pub open spec fn saved(store: Map<u64, EnrollmentData>, record: EnrollmentData) -> Map<
    u64,
    EnrollmentData,
> {
    store.insert(record.user_id, record)
}

/// The store after each of `records` is saved into `store`, first to last.
pub open spec fn saved_all(store: Map<u64, EnrollmentData>, records: Seq<EnrollmentData>) -> Map<
    u64,
    EnrollmentData,
>
    decreases records.len(),
{
    if records.len() == 0 {
        store
    } else {
        saved(saved_all(store, records.drop_last()), records.last())
    }
}

/// Position of the record of `user_id` among `entries`, or their number
/// where none is that user's.
pub open spec fn position_of(entries: Seq<EnrollmentData>, user_id: u64) -> int
    decreases entries.len(),
{
    if entries.len() == 0 {
        0
    } else if entries[0].user_id == user_id {
        0
    } else {
        1 + position_of(entries.drop_first(), user_id)
    }
}

/// No two of `entries` belong to one user.
pub open spec fn distinct_users(entries: Seq<EnrollmentData>) -> bool {
    forall|i: int, j: int|
        0 <= i < j < entries.len() ==> (#[trigger] entries[i]).user_id != (
        #[trigger] entries[j]).user_id
}

/// The mapping from user id to record that `entries` stand for.
pub open spec fn as_map(entries: Seq<EnrollmentData>) -> Map<u64, EnrollmentData> {
    Map::new(
        |id: u64| exists|i: int| 0 <= i < entries.len() && (#[trigger] entries[i]).user_id == id,
        |id: u64| entries[position_of(entries, id)],
    )
}

/// `position_of` is the least position whose record belongs to the user.
pub proof fn lemma_position_of(entries: Seq<EnrollmentData>, user_id: u64)
    ensures
        0 <= position_of(entries, user_id) <= entries.len(),
        forall|j: int|
            0 <= j < position_of(entries, user_id) ==> (#[trigger] entries[j]).user_id != user_id,
        position_of(entries, user_id) < entries.len() ==> entries[position_of(
            entries,
            user_id,
        )].user_id == user_id,
    decreases entries.len(),
{
    if entries.len() > 0 && entries[0].user_id != user_id {
        let t = entries.drop_first();
        lemma_position_of(t, user_id);
        assert forall|j: int| 0 <= j < position_of(entries, user_id) implies (
        #[trigger] entries[j]).user_id != user_id by {
            if j > 0 {
                assert(entries[j] == t[j - 1]);
            }
        }
        if position_of(entries, user_id) < entries.len() {
            assert(entries[position_of(entries, user_id)] == t[position_of(t, user_id)]);
        }
    }
}

/// Where no two entries belong to one user, each entry is what the mapping
/// holds under its user id.
pub proof fn lemma_as_map_at(entries: Seq<EnrollmentData>, i: int)
    requires
        distinct_users(entries),
        0 <= i < entries.len(),
    ensures
        as_map(entries).contains_key(entries[i].user_id),
        as_map(entries)[entries[i].user_id] == entries[i],
{
    let id = entries[i].user_id;
    lemma_position_of(entries, id);
    let p = position_of(entries, id);
    if p < i {
        assert(entries[p].user_id == entries[i].user_id);
    }
}

/// Replacing a user's entry by another of the same user saves the new one.
pub proof fn lemma_as_map_update(entries: Seq<EnrollmentData>, p: int, record: EnrollmentData)
    requires
        distinct_users(entries),
        0 <= p < entries.len(),
        entries[p].user_id == record.user_id,
    ensures
        distinct_users(entries.update(p, record)),
        as_map(entries.update(p, record)) == saved(as_map(entries), record),
{
    let new = entries.update(p, record);
    assert(distinct_users(new)) by {
        assert forall|i: int, j: int| 0 <= i < j < new.len() implies (#[trigger] new[i]).user_id != (
        #[trigger] new[j]).user_id by {
            assert(new[i].user_id == entries[i].user_id);
            assert(new[j].user_id == entries[j].user_id);
        }
    }
    let a = as_map(new);
    let b = saved(as_map(entries), record);
    assert forall|k: u64| a.contains_key(k) <==> b.contains_key(k) by {
        if a.contains_key(k) {
            let i = choose|i: int| 0 <= i < new.len() && (#[trigger] new[i]).user_id == k;
            assert(entries[i].user_id == k);
        }
        if b.contains_key(k) && k != record.user_id {
            let i = choose|i: int| 0 <= i < entries.len() && (#[trigger] entries[i]).user_id == k;
            assert(new[i].user_id == k);
        }
        if k == record.user_id {
            assert(new[p].user_id == k);
        }
    }
    assert forall|k: u64| a.contains_key(k) implies a[k] == b[k] by {
        let i = choose|i: int| 0 <= i < new.len() && (#[trigger] new[i]).user_id == k;
        lemma_as_map_at(new, i);
        if i == p {
            assert(k == record.user_id);
        } else {
            assert(entries[i].user_id == k);
            lemma_as_map_at(entries, i);
        }
    }
    assert(a =~= b);
}

/// Adding an entry for a user who has none saves it.
pub proof fn lemma_as_map_push(entries: Seq<EnrollmentData>, record: EnrollmentData)
    requires
        distinct_users(entries),
        forall|i: int| 0 <= i < entries.len() ==> (#[trigger] entries[i]).user_id != record.user_id,
    ensures
        distinct_users(entries.push(record)),
        as_map(entries.push(record)) == saved(as_map(entries), record),
{
    let new = entries.push(record);
    assert(distinct_users(new)) by {
        assert forall|i: int, j: int| 0 <= i < j < new.len() implies (#[trigger] new[i]).user_id != (
        #[trigger] new[j]).user_id by {
            assert(new[i] == entries[i]);
            if j < entries.len() {
                assert(new[j] == entries[j]);
            }
        }
    }
    let a = as_map(new);
    let b = saved(as_map(entries), record);
    assert forall|k: u64| a.contains_key(k) <==> b.contains_key(k) by {
        if a.contains_key(k) {
            let i = choose|i: int| 0 <= i < new.len() && (#[trigger] new[i]).user_id == k;
            if i < entries.len() {
                assert(entries[i].user_id == k);
            }
        }
        if b.contains_key(k) && k != record.user_id {
            let i = choose|i: int| 0 <= i < entries.len() && (#[trigger] entries[i]).user_id == k;
            assert(new[i].user_id == k);
        }
        if k == record.user_id {
            assert(new[entries.len() as int].user_id == k);
        }
    }
    assert forall|k: u64| a.contains_key(k) implies a[k] == b[k] by {
        let i = choose|i: int| 0 <= i < new.len() && (#[trigger] new[i]).user_id == k;
        lemma_as_map_at(new, i);
        if i < entries.len() {
            assert(entries[i].user_id == k);
            lemma_as_map_at(entries, i);
        }
    }
    assert(a =~= b);
}

/// The records of a store file: at most one for each user, in the order in
/// which their users first enrolled.
pub struct EnrollmentStore {
    entries: Vec<Enrollment>,
}

impl View for EnrollmentStore {
    type V = Map<u64, EnrollmentData>;

    open spec fn view(&self) -> Map<u64, EnrollmentData> {
        as_map(self.records())
    }
}

impl EnrollmentStore {
    /// The records in the order in which the store keeps them.
    pub closed spec fn records(&self) -> Seq<EnrollmentData> {
        Seq::new(self.entries@.len(), |i: int| self.entries@[i]@)
    }

    #[verifier::type_invariant]
    closed spec fn one_record_per_user(&self) -> bool {
        distinct_users(self.records())
    }

    /// A store without records.
    pub fn new() -> (out: Self)
        ensures
            out.records() == Seq::<EnrollmentData>::empty(),
            out@ == Map::<u64, EnrollmentData>::empty(),
    {
        let out = EnrollmentStore { entries: Vec::new() };
        proof {
            assert(out.records() =~= Seq::<EnrollmentData>::empty());
            assert(out@ =~= Map::<u64, EnrollmentData>::empty());
        }
        out
    }

    /// The number of records, no two of which belong to one user.
    pub fn len(&self) -> (out: usize)
        ensures
            out == self.records().len(),
            distinct_users(self.records()),
    {
        proof {
            use_type_invariant(self);
        }
        self.entries.len()
    }

    /// Position of the record of `user_id`, or `len()` where the user has none.
    fn find(&self, user_id: u64) -> (at: usize)
        ensures
            at == position_of(self.records(), user_id),
            at <= self.records().len(),
            at < self.records().len() ==> self.records()[at as int].user_id == user_id,
            at == self.records().len() ==> forall|i: int|
                0 <= i < self.records().len() ==> (#[trigger] self.records()[i]).user_id != user_id,
    {
        let mut at: usize = 0;
        proof {
            lemma_position_of(self.records(), user_id);
        }
        while at < self.entries.len() && self.entries[at].user_id != user_id
            invariant
                at <= self.entries.len(),
                self.entries@.len() == self.records().len(),
                forall|j: int| 0 <= j < at ==> (#[trigger] self.records()[j]).user_id != user_id,
            decreases self.entries.len() - at,
        {
            at = at + 1;
        }
        proof {
            let p = position_of(self.records(), user_id);
            if p < at {
                assert(self.records()[p].user_id == user_id);
            } else if at < p {
                assert(self.records()[at as int].user_id == user_id);
            }
        }
        at
    }

    /// The record of `user_id`, where the store holds one.
    pub fn get(&self, user_id: u64) -> (out: Option<&Enrollment>)
        ensures
            match out {
                Some(record) => self@.contains_key(user_id) && record@ == self@[user_id],
                None => !self@.contains_key(user_id),
            },
    {
        let at = self.find(user_id);
        if at < self.entries.len() {
            proof {
                use_type_invariant(self);
                lemma_as_map_at(self.records(), at as int);
            }
            Some(&self.entries[at])
        } else {
            None
        }
    }

    /// Saves `record`: it takes the place of the record that its user had, or
    /// is added after the others.
    pub fn insert(&mut self, record: Enrollment)
        ensures
            final(self)@ == saved(old(self)@, record@),
            final(self).records() == (if position_of(old(self).records(), record@.user_id) < old(
                self,
            ).records().len() {
                old(self).records().update(
                    position_of(old(self).records(), record@.user_id),
                    record@,
                )
            } else {
                old(self).records().push(record@)
            }),
    {
        proof {
            use_type_invariant(&*self);
        }
        let ghost before = self.records();
        let at = self.find(record.user_id);
        let mut entries: Vec<Enrollment> = Vec::new();
        core::mem::swap(&mut self.entries, &mut entries);
        assert(before =~= Seq::new(entries@.len(), |i: int| entries@[i]@));
        if at < entries.len() {
            proof {
                lemma_as_map_update(before, at as int, record@);
            }
            entries[at] = record;
        } else {
            proof {
                lemma_as_map_push(before, record@);
            }
            entries.push(record);
        }
        let ghost after = Seq::new(entries@.len(), |i: int| entries@[i]@);
        proof {
            if at < before.len() {
                assert(after =~= before.update(at as int, record@));
            } else {
                assert(after =~= before.push(record@));
            }
        }
        core::mem::swap(&mut self.entries, &mut entries);
        assert(self.records() =~= after);
    }

    /// The records, in the order in which the store keeps them.
    pub fn to_vec(&self) -> (out: Vec<Enrollment>)
        ensures
            out@.len() == self.records().len(),
            forall|i: int| 0 <= i < out@.len() ==> (#[trigger] out@[i])@ == self.records()[i],
            distinct_users(self.records()),
    {
        proof {
            use_type_invariant(self);
        }
        let mut out: Vec<Enrollment> = Vec::new();
        let mut i: usize = 0;
        while i < self.entries.len()
            invariant
                i <= self.entries.len(),
                self.entries@.len() == self.records().len(),
                out@.len() == i,
                forall|j: int| 0 <= j < i ==> (#[trigger] out@[j])@ == self.records()[j],
            decreases self.entries.len() - i,
        {
            out.push(self.entries[i].clone());
            i = i + 1;
        }
        out
    }

    /// The store that holds `records`, each saved in turn: of two records of
    /// one user the later stays.
    pub fn from_records(records: &Vec<Enrollment>) -> (out: Self)
        ensures
            out@ == saved_all(Map::empty(), views_of(records@)),
    {
        let mut out = EnrollmentStore::new();
        let mut i: usize = 0;
        while i < records.len()
            invariant
                i <= records.len(),
                out@ == saved_all(Map::empty(), views_of(records@).take(i as int)),
            decreases records.len() - i,
        {
            proof {
                let upto = views_of(records@).take(i + 1);
                assert(upto.drop_last() =~= views_of(records@).take(i as int));
                assert(upto.last() == records@[i as int]@);
            }
            out.insert(records[i].clone());
            i = i + 1;
        }
        proof {
            assert(views_of(records@).take(i as int) =~= views_of(records@));
        }
        out
    }
}

/// The plain values of each of `records`.
pub open spec fn views_of(records: Seq<Enrollment>) -> Seq<EnrollmentData> {
    Seq::new(records.len(), |i: int| records[i]@)
}

/// What the store of a file holds: nothing where the file is absent.
pub open spec fn loaded(existing: Option<EnrollmentStore>) -> Map<u64, EnrollmentData> {
    match existing {
        Some(store) => store@,
        None => Map::empty(),
    }
}

/// The store to write back when `enrollment` is saved: what `existing` held,
/// or nothing where there was no store yet, with `enrollment` under its user
/// id in place of what stood there.
pub fn save_to_json(existing: Option<EnrollmentStore>, enrollment: &Enrollment) -> (out:
    EnrollmentStore)
    ensures
        out@ == saved(loaded(existing), enrollment@),
{
    let mut store = match existing {
        Some(store) => store,
        None => EnrollmentStore::new(),
    };
    store.insert(enrollment.clone());
    store
}

/// Saving a record a second time changes nothing: the store holds one record
/// under that user id, the one saved.
pub proof fn lemma_save_twice(store: Map<u64, EnrollmentData>, record: EnrollmentData)
    ensures
        saved(saved(store, record), record) == saved(store, record),
        saved(store, record).dom() == store.dom().insert(record.user_id),
        saved(store, record)[record.user_id] == record,
{
    assert(saved(saved(store, record), record) =~= saved(store, record));
    assert(saved(store, record).dom() =~= store.dom().insert(record.user_id));
}

/// Of two records of one user saved in turn, the store keeps the later and
/// nothing of the earlier.
pub proof fn lemma_last_save_wins(
    store: Map<u64, EnrollmentData>,
    earlier: EnrollmentData,
    later: EnrollmentData,
)
    requires
        earlier.user_id == later.user_id,
    ensures
        saved(saved(store, earlier), later) == saved(store, later),
{
    assert(saved(saved(store, earlier), later) =~= saved(store, later));
}

/// Saving a record leaves the records of all other users as they were.
pub proof fn lemma_save_keeps_others(
    store: Map<u64, EnrollmentData>,
    record: EnrollmentData,
    other: u64,
)
    requires
        other != record.user_id,
    ensures
        saved(store, record).contains_key(other) == store.contains_key(other),
        store.contains_key(other) ==> saved(store, record)[other] == store[other],
{
}

/// Records of distinct users, saved one after another, are all in the store
/// afterwards, each as it was saved, beside every user the store held before.
pub proof fn lemma_all_saved(store: Map<u64, EnrollmentData>, records: Seq<EnrollmentData>)
    requires
        distinct_users(records),
    ensures
        forall|i: int|
            0 <= i < records.len() ==> saved_all(store, records).contains_key(
                (#[trigger] records[i]).user_id,
            ) && saved_all(store, records)[records[i].user_id] == records[i],
        forall|id: u64| store.contains_key(id) ==> saved_all(store, records).contains_key(id),
    decreases records.len(),
{
    if records.len() > 0 {
        let front = records.drop_last();
        assert(distinct_users(front)) by {
            assert forall|i: int, j: int| 0 <= i < j < front.len() implies (
            #[trigger] front[i]).user_id != (#[trigger] front[j]).user_id by {
                assert(front[i] == records[i]);
                assert(front[j] == records[j]);
            }
        }
        lemma_all_saved(store, front);
        let last = records.last();
        assert forall|i: int| 0 <= i < records.len() implies saved_all(store, records).contains_key(
            (#[trigger] records[i]).user_id,
        ) && saved_all(store, records)[records[i].user_id] == records[i] by {
            if i < front.len() {
                assert(front[i] == records[i]);
                assert(records[i].user_id != records[records.len() - 1].user_id);
            }
        }
    }
}

} // verus!
