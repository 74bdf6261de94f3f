//! Meeting minutes: meetings to which note takers each add one note, approved and archived by their host.
//!
//! Text values stand for the ledger's values: an id and a tag are the text
//! of a symbol, an account is the text form of an address. The caller has
//! already checked that the account acting in a call authorised it; `now` is
//! the ledger's timestamp at the call.
use vstd::prelude::*;
use crate::table::{
    texts, pair_texts, map_of, lemma_map_of, flags_for, flags_name_stored, Table, FlagSet,
    flags_counted, lemma_flags_counted_new, lemma_flags_counted_same, lemma_flags_counted_push,
};

verus! {

/// Where a meeting stands.
#[derive(Clone, Copy, Debug, PartialEq, Eq, Structural)]
pub enum MeetingStatus {
    Draft,
    Recording,
    Approved,
    Archived,
}

/// A meeting.
#[derive(Debug)]
pub struct MeetingRecord {
    pub host: String,
    pub note_taker: String,
    pub title: String,
    pub details: String,
    pub tag: String,
    pub status: MeetingStatus,
    pub note_count: u32,
    pub created_at: u64,
    pub updated_at: u64,
}

impl Clone for MeetingRecord {
    fn clone(&self) -> (r: Self)
        ensures
            r == *self,
    {
        MeetingRecord {
            host: self.host.clone(),
            note_taker: self.note_taker.clone(),
            title: self.title.clone(),
            details: self.details.clone(),
            tag: self.tag.clone(),
            status: self.status,
            note_count: self.note_count,
            created_at: self.created_at,
            updated_at: self.updated_at,
        }
    }
}

/// Why a call was refused.
#[derive(Clone, Copy, Debug, PartialEq, Eq, PartialOrd, Ord, Structural)]
pub enum MeetingRecordError {
    InvalidTitle,
    InvalidTimestamp,
    NotFound,
    Unauthorized,
    AlreadyExists,
    AlreadyActed,
    Closed,
}

impl MeetingRecordError {
    /// The number by which the ledger reports this error.
    pub open spec fn spec_code(self) -> u32 {
        match self {
            MeetingRecordError::InvalidTitle => 1,
            MeetingRecordError::InvalidTimestamp => 2,
            MeetingRecordError::NotFound => 3,
            MeetingRecordError::Unauthorized => 4,
            MeetingRecordError::AlreadyExists => 5,
            MeetingRecordError::AlreadyActed => 6,
            MeetingRecordError::Closed => 7,
        }
    }

    /// The number by which the ledger reports this error.
    pub fn code(&self) -> (c: u32)
        ensures
            c == self.spec_code(),
    {
        match self {
            MeetingRecordError::InvalidTitle => 1,
            MeetingRecordError::InvalidTimestamp => 2,
            MeetingRecordError::NotFound => 3,
            MeetingRecordError::Unauthorized => 4,
            MeetingRecordError::AlreadyExists => 5,
            MeetingRecordError::AlreadyActed => 6,
            MeetingRecordError::Closed => 7,
        }
    }
}

/// The number of accounts that have added a note to a meeting.
pub open spec fn note_count_of() -> spec_fn(MeetingRecord) -> nat {
    |r: MeetingRecord| r.note_count as nat
}

/// The contract's storage: the meetings by id, the id list, and a flag
/// for each account that has added a note to a meeting.
pub struct MeetingMinutesContract {
    table: Table<MeetingRecord>,
    acted: FlagSet,
}

impl MeetingMinutesContract {
    /// The storage is consistent: the id list and the meetings agree,
    /// every flag names a stored meeting, and the count of each meeting is the
    /// number of flags that name it.
    pub closed spec fn wf(&self) -> bool {
        &&& self.table.wf()
        &&& self.acted.wf()
        &&& flags_counted(self.table.records(), self.acted.flags(), note_count_of())
    }

    /// The meeting stored under each id.
    pub closed spec fn records(&self) -> Map<Seq<char>, MeetingRecord> {
        self.table.records()
    }

    /// The ids, in the order in which the meetings were created.
    pub closed spec fn id_list(&self) -> Seq<Seq<char>> {
        self.table.order()
    }

    /// The (id, account) pairs for which the account has added a note to the meeting,
    /// in the order in which they did.
    pub closed spec fn acted_flags(&self) -> Seq<(Seq<char>, Seq<char>)> {
        self.acted.flags()
    }

    /// What `create_meeting` answers.
    pub open spec fn create_result(self, id: Seq<char>, title: Seq<char>, created_at: u64) -> Result<(), MeetingRecordError> {
        if title.len() == 0 {
            Err(MeetingRecordError::InvalidTitle)
        } else if created_at == 0 {
            Err(MeetingRecordError::InvalidTimestamp)
        } else if self.records().contains_key(id) {
            Err(MeetingRecordError::AlreadyExists)
        } else {
            Ok(())
        }
    }

    /// What `add_note` answers.
    pub open spec fn act_result(self, id: Seq<char>, note_taker: Seq<char>) -> Result<(), MeetingRecordError> {
        if !self.records().contains_key(id) {
            Err(MeetingRecordError::NotFound)
        } else if self.records()[id].status == MeetingStatus::Archived {
            Err(MeetingRecordError::Closed)
        } else if self.acted_flags().contains((id, note_taker)) {
            Err(MeetingRecordError::AlreadyActed)
        } else {
            Ok(())
        }
    }

    /// What a call by `host` that moves the meeting `id` on answers.
    pub open spec fn host_check(self, id: Seq<char>, host: Seq<char>) -> Result<(), MeetingRecordError> {
        if !self.records().contains_key(id) {
            Err(MeetingRecordError::NotFound)
        } else if self.records()[id].host@ != host {
            Err(MeetingRecordError::Unauthorized)
        } else if self.records()[id].status == MeetingStatus::Archived {
            Err(MeetingRecordError::Closed)
        } else {
            Ok(())
        }
    }

    /// A contract with no meeting.
    pub fn new() -> (c: Self)
        ensures
            c.wf(),
            c.records() == Map::<Seq<char>, MeetingRecord>::empty(),
            c.id_list() == Seq::<Seq<char>>::empty(),
            c.acted_flags() == Seq::<(Seq<char>, Seq<char>)>::empty(),
    {
        MeetingMinutesContract { table: Table::new(), acted: FlagSet::new() }
    }

    /// The id list names each meeting once and no other id; each account has
    /// added a note to a meeting at most once; every flag names a stored meeting; and the
    /// count of each meeting is the number of accounts that have added a note to it.
    pub proof fn lemma_storage_consistent(&self)
        requires
            self.wf(),
        ensures
            self.id_list().no_duplicates(),
            forall|k: Seq<char>| #[trigger] self.records().contains_key(k) <==> self.id_list().contains(k),
            self.acted_flags().no_duplicates(),
            flags_counted(self.records(), self.acted_flags(), note_count_of()),
    {
        self.table.lemma_order_matches_records();
        self.acted.lemma_set_once();
    }

    /// Whether stored parts describe a consistent contract: an id list
    /// without repeats, the meeting stored under each id (in the same order),
    /// and flags, each set once, that name stored meetings and number as
    /// many for each meeting as its count.
    pub open spec fn storage_fits(
        ids: Seq<String>,
        records: Seq<MeetingRecord>,
        acted: Seq<(String, String)>,
    ) -> bool {
        &&& ids.len() == records.len()
        &&& texts(ids).no_duplicates()
        &&& pair_texts(acted).no_duplicates()
        &&& flags_counted(map_of(ids, records), pair_texts(acted), note_count_of())
    }

    /// Rebuilds the contract from its stored parts, or nothing when they are
    /// not consistent.
    pub fn from_storage(ids: Vec<String>, records: Vec<MeetingRecord>, acted: Vec<(String, String)>) -> (r: Option<Self>)
        ensures
            r is Some <==> Self::storage_fits(ids@, records@, acted@),
            r matches Some(c) ==> {
                &&& c.wf()
                &&& c.records() == map_of(ids@, records@)
                &&& c.id_list() == texts(ids@)
                &&& c.acted_flags() == pair_texts(acted@)
            },
    {
        let ghost ids0 = ids@;
        let ghost records0 = records@;
        let ghost acted0 = acted@;
        let table = match Table::from_parts(ids, records) {
            Some(t) => t,
            None => return None,
        };
        let flags = match FlagSet::from_pairs(acted) {
            Some(f) => f,
            None => return None,
        };
        proof {
            lemma_map_of(ids0, records0);
        }
        if !flags_name_stored(&flags, &table) {
            return None;
        }
        let list = table.ids();
        let mut i: usize = 0;
        while i < list.len()
            invariant
                table.wf(),
                ids0 == ids@,
                records0 == records@,
                acted0 == acted@,
                table.records() == map_of(ids0, records0),
                flags.flags() == pair_texts(acted0),
                texts(list@) == table.order(),
                i <= list.len(),
                forall|j: int|
                    0 <= j < i ==> note_count_of()(table.records()[#[trigger] texts(list@)[j]])
                        == flags_for(flags.flags(), texts(list@)[j]),
            decreases list.len() - i,
        {
            assert(texts(list@)[i as int] == list@[i as int]@);
            assert(table.order().contains(list@[i as int]@));
            proof {
                table.lemma_order_matches_records();
            }
            let n = match table.get(&list[i]) {
                Some(found) => found.note_count,
                None => 0,
            };
            if n as usize != flags.count_for(&list[i]) {
                assert(table.records().contains_key(list@[i as int]@));
                assert(note_count_of()(table.records()[list@[i as int]@]) != flags_for(
                    flags.flags(),
                    list@[i as int]@,
                ));
                return None;
            }
            i += 1;
        }
        proof {
            table.lemma_order_matches_records();
            assert forall|k: Seq<char>| #[trigger] table.records().contains_key(k) implies note_count_of()(
                table.records()[k],
            ) == flags_for(flags.flags(), k) by {
                let j = choose|j: int| 0 <= j < texts(list@).len() && texts(list@)[j] == k;
            }
        }
        Some(MeetingMinutesContract { table, acted: flags })
    }

    /// What the contract stores can always be read back: its id list, the
    /// meeting stored under each id in the same order, and its flags are parts
    /// that `from_storage` accepts and rebuilds the same contract from.
    pub proof fn lemma_storage_reads_back(
        self,
        ids: Seq<String>,
        records: Seq<MeetingRecord>,
        acted: Seq<(String, String)>,
    )
        requires
            self.wf(),
            texts(ids) == self.id_list(),
            records.len() == ids.len(),
            forall|i: int| #![trigger records[i]] 0 <= i < ids.len() ==> records[i] == self.records()[ids[i]@],
            pair_texts(acted) == self.acted_flags(),
        ensures
            Self::storage_fits(ids, records, acted),
            map_of(ids, records) == self.records(),
    {
        self.table.lemma_reads_back(ids, records);
        self.acted.lemma_set_once();
    }

    /// The (id, account) pairs for which the account has added a note to the meeting,
    /// in the order in which they did.
    pub fn acted_pairs(&self) -> (r: Vec<(String, String)>)
        ensures
            pair_texts(r@) == self.acted_flags(),
    {
        self.acted.pairs()
    }

    /// An archived meeting is final: acting on it, marking it approved and
    /// marking it archived are all refused, whoever calls.
    pub proof fn lemma_archived_is_final(self, id: Seq<char>, who: Seq<char>)
        requires
            self.records().contains_key(id),
            self.records()[id].status == MeetingStatus::Archived,
        ensures
            self.act_result(id, who) is Err,
            self.host_check(id, who) is Err,
    {
    }

    /// Any account that has not yet acted on a meeting may act on it, its
    /// host included: `add_note` is accepted exactly when the meeting exists,
    /// is not archived, and the caller has not acted on it before.
    pub proof fn lemma_any_account_acts_once(self, id: Seq<char>, who: Seq<char>)
        ensures
            self.act_result(id, who) is Ok <==> (self.records().contains_key(id) && self.records()[id].status
                != MeetingStatus::Archived && !self.acted_flags().contains((id, who))),
    {
    }

    /// Only the host of a meeting moves it on, and only until it is
    /// archived: such a call is accepted exactly when the meeting exists,
    /// the caller is its host, and it is not archived.
    pub proof fn lemma_only_host_moves_on(self, id: Seq<char>, who: Seq<char>)
        ensures
            self.host_check(id, who) is Ok <==> (self.records().contains_key(id) && self.records()[id].host@
                == who && self.records()[id].status != MeetingStatus::Archived),
    {
    }

    /// Why a call is refused. A meeting is created only with a title and a
    /// creation time, under an id not yet used, the title being checked
    /// first. A call naming no stored meeting is refused as not found; a call
    /// to move a meeting on by anyone but its host is refused as
    /// unauthorized; a meeting that is archived refuses acting and moving on
    /// as closed; and an account that has acted on a meeting already is
    /// refused as having acted.
    pub proof fn lemma_refusals(self, id: Seq<char>, who: Seq<char>, title: Seq<char>, created_at: u64)
        ensures
            title.len() == 0 ==> self.create_result(id, title, created_at) == Err::<(), MeetingRecordError>(
                MeetingRecordError::InvalidTitle,
            ),
            title.len() > 0 && created_at == 0 ==> self.create_result(id, title, created_at) == Err::<
                (),
                MeetingRecordError,
            >(MeetingRecordError::InvalidTimestamp),
            title.len() > 0 && created_at != 0 && self.records().contains_key(id) ==> self.create_result(
                id,
                title,
                created_at,
            ) == Err::<(), MeetingRecordError>(MeetingRecordError::AlreadyExists),
            !self.records().contains_key(id) ==> self.act_result(id, who) == Err::<(), MeetingRecordError>(
                MeetingRecordError::NotFound,
            ) && self.host_check(id, who) == Err::<(), MeetingRecordError>(MeetingRecordError::NotFound),
            self.records().contains_key(id) && self.records()[id].host@ != who ==> self.host_check(id, who)
                == Err::<(), MeetingRecordError>(MeetingRecordError::Unauthorized),
            self.records().contains_key(id) && self.records()[id].status == MeetingStatus::Archived ==> self.act_result(
                id,
                who,
            ) == Err::<(), MeetingRecordError>(MeetingRecordError::Closed) && (self.records()[id].host@ == who ==> self.host_check(
                id,
                who,
            ) == Err::<(), MeetingRecordError>(MeetingRecordError::Closed)),
            self.records().contains_key(id) && self.records()[id].status != MeetingStatus::Archived
                && self.acted_flags().contains((id, who)) ==> self.act_result(id, who) == Err::<(), MeetingRecordError>(
                MeetingRecordError::AlreadyActed,
            ),
    {
    }

    /// Creates the meeting `id`, held by `host` (who is also its last
    /// note taker), in status draft, with a count of zero, created (and
    /// last updated) at `created_at`; the id goes to the end of the id list.
    pub fn create_meeting(
        &mut self,
        id: String,
        host: String,
        title: String,
        details: String,
        tag: String,
        created_at: u64,
    ) -> (r: Result<(), MeetingRecordError>)
        requires
            old(self).wf(),
        ensures
            final(self).wf(),
            r == old(self).create_result(id@, title@, created_at),
            r is Err ==> *final(self) == *old(self),
            r is Ok ==> {
                &&& final(self).records() == old(self).records().insert(
                    id@,
                    (MeetingRecord {
                        host: host,
                        note_taker: host,
                        title,
                        details,
                        tag,
                        status: MeetingStatus::Draft,
                        note_count: 0,
                        created_at,
                        updated_at: created_at,
                    }),
                )
                &&& final(self).id_list() == old(self).id_list().push(id@)
                &&& final(self).acted_flags() == old(self).acted_flags()
            },
    {
        if title.as_str().is_empty() {
            return Err(MeetingRecordError::InvalidTitle);
        }
        if created_at == 0 {
            return Err(MeetingRecordError::InvalidTimestamp);
        }
        if self.table.contains(&id) {
            return Err(MeetingRecordError::AlreadyExists);
        }
        let record = MeetingRecord {
            host: host.clone(),
            note_taker: host,
            title,
            details,
            tag,
            status: MeetingStatus::Draft,
            note_count: 0,
            created_at,
            updated_at: created_at,
        };
        proof {
            lemma_flags_counted_new(self.table.records(), self.acted.flags(), note_count_of(), id@, record);
        }
        self.table.push(id, record);
        Ok(())
    }

    /// Records that the calling account has added a note to the meeting `id`: they become its last
    /// note taker, its count grows by one, its status becomes recording, and
    /// `now` is recorded as the time of the update. Each account may do so
    /// once per meeting.
    pub fn add_note(&mut self, id: String, note_taker: String, now: u64) -> (r: Result<(), MeetingRecordError>)
        requires
            old(self).wf(),
            old(self).act_result(id@, note_taker@) is Ok ==> old(self).records()[id@].note_count < u32::MAX,
        ensures
            final(self).wf(),
            r == old(self).act_result(id@, note_taker@),
            r is Err ==> *final(self) == *old(self),
            r is Ok ==> {
                &&& final(self).records() == old(self).records().insert(
                    id@,
                    (MeetingRecord {
                        note_taker: note_taker,
                        note_count: (old(self).records()[id@].note_count + 1) as u32,
                        status: MeetingStatus::Recording,
                        updated_at: now,
                        ..old(self).records()[id@]
                    }),
                )
                &&& final(self).id_list() == old(self).id_list()
                &&& final(self).acted_flags() == old(self).acted_flags().push((id@, note_taker@))
            },
    {
        let mut record = match self.table.get(&id) {
            Some(found) => found.clone(),
            None => return Err(MeetingRecordError::NotFound),
        };
        if record.status == MeetingStatus::Archived {
            return Err(MeetingRecordError::Closed);
        }
        if self.acted.contains(&id, &note_taker) {
            return Err(MeetingRecordError::AlreadyActed);
        }
        record.note_taker = note_taker.clone();
        record.note_count = record.note_count + 1;
        record.status = MeetingStatus::Recording;
        record.updated_at = now;
        proof {
            lemma_flags_counted_push(
                self.table.records(),
                self.acted.flags(),
                note_count_of(),
                id@,
                note_taker@,
                record,
            );
        }
        self.table.set(&id, record);
        self.acted.insert(id, note_taker);
        Ok(())
    }

    /// Moves the meeting `id` to `status` on behalf of its host,
    /// recording `now` as the time of the update.
    fn move_to(&mut self, id: String, host: String, status: MeetingStatus, now: u64) -> (r: Result<(), MeetingRecordError>)
        requires
            old(self).wf(),
        ensures
            final(self).wf(),
            r == old(self).host_check(id@, host@),
            r is Err ==> *final(self) == *old(self),
            r is Ok ==> {
                &&& final(self).records() == old(self).records().insert(
                    id@,
                    (MeetingRecord { status, updated_at: now, ..old(self).records()[id@] }),
                )
                &&& final(self).id_list() == old(self).id_list()
                &&& final(self).acted_flags() == old(self).acted_flags()
            },
    {
        let mut record = match self.table.get(&id) {
            Some(found) => found.clone(),
            None => return Err(MeetingRecordError::NotFound),
        };
        if !(record.host == host) {
            return Err(MeetingRecordError::Unauthorized);
        }
        if record.status == MeetingStatus::Archived {
            return Err(MeetingRecordError::Closed);
        }
        record.status = status;
        record.updated_at = now;
        proof {
            lemma_flags_counted_same(self.table.records(), self.acted.flags(), note_count_of(), id@, record);
        }
        self.table.set(&id, record);
        Ok(())
    }

    /// Marks the meeting `id` approved on behalf of its host, recording
    /// `now` as the time of the update.
    pub fn approve_minutes(&mut self, id: String, host: String, now: u64) -> (r: Result<(), MeetingRecordError>)
        requires
            old(self).wf(),
        ensures
            final(self).wf(),
            r == old(self).host_check(id@, host@),
            r is Err ==> *final(self) == *old(self),
            r is Ok ==> {
                &&& final(self).records() == old(self).records().insert(
                    id@,
                    (MeetingRecord { status: MeetingStatus::Approved, updated_at: now, ..old(self).records()[id@] }),
                )
                &&& final(self).id_list() == old(self).id_list()
                &&& final(self).acted_flags() == old(self).acted_flags()
            },
    {
        self.move_to(id, host, MeetingStatus::Approved, now)
    }

    /// Marks the meeting `id` archived, for good, on behalf of its
    /// host, recording `now` as the time of the update.
    pub fn archive_meeting(&mut self, id: String, host: String, now: u64) -> (r: Result<(), MeetingRecordError>)
        requires
            old(self).wf(),
        ensures
            final(self).wf(),
            r == old(self).host_check(id@, host@),
            r is Err ==> *final(self) == *old(self),
            r is Ok ==> {
                &&& final(self).records() == old(self).records().insert(
                    id@,
                    (MeetingRecord { status: MeetingStatus::Archived, updated_at: now, ..old(self).records()[id@] }),
                )
                &&& final(self).id_list() == old(self).id_list()
                &&& final(self).acted_flags() == old(self).acted_flags()
            },
    {
        self.move_to(id, host, MeetingStatus::Archived, now)
    }

    /// The meeting stored under `id`, if any.
    pub fn get_meeting(&self, id: String) -> (r: Option<MeetingRecord>)
        requires
            self.wf(),
        ensures
            r == (if self.records().contains_key(id@) {
                Some(self.records()[id@])
            } else {
                None
            }),
    {
        match self.table.get(&id) {
            Some(found) => Some(found.clone()),
            None => None,
        }
    }

    /// The ids, in the order in which the meetings were created.
    pub fn list_meetings(&self) -> (r: Vec<String>)
        requires
            self.wf(),
        ensures
            texts(r@) == self.id_list(),
    {
        self.table.ids()
    }

    /// The count of the meeting `id`, or zero if there is no such meeting.
    pub fn get_note_count(&self, id: String) -> (r: u32)
        requires
            self.wf(),
        ensures
            r == (if self.records().contains_key(id@) {
                self.records()[id@].note_count
            } else {
                0
            }),
    {
        match self.table.get(&id) {
            Some(found) => found.note_count,
            None => 0,
        }
    }
}

} // verus!
