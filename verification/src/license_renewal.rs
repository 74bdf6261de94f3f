//! License renewal: licenses for which holders each request one renewal, renewed and revoked by their issuer.
//!
//! Text values stand for the ledger's values: an id and a tag are the text
//! of a symbol, an account is the text form of an address. The caller has
//! already checked that the account acting in a call authorised it; `now` is
//! the ledger's timestamp at the call.
use vstd::prelude::*;
use crate::table::{
    texts, pair_texts, map_of, lemma_map_of, flags_for, flags_name_stored, Table, FlagSet,
    flags_counted, lemma_flags_counted_new, lemma_flags_counted_same, lemma_flags_counted_push,
};

verus! {

/// Where a license stands.
#[derive(Clone, Copy, Debug, PartialEq, Eq, Structural)]
pub enum LicenseStatus {
    Active,
    RenewalRequested,
    Renewed,
    Revoked,
}

/// A license.
#[derive(Debug)]
pub struct LicenseRecord {
    pub issuer: String,
    pub holder: String,
    pub title: String,
    pub details: String,
    pub tag: String,
    pub status: LicenseStatus,
    pub renewal_count: u32,
    pub created_at: u64,
    pub updated_at: u64,
}

impl Clone for LicenseRecord {
    fn clone(&self) -> (r: Self)
        ensures
            r == *self,
    {
        LicenseRecord {
            issuer: self.issuer.clone(),
            holder: self.holder.clone(),
            title: self.title.clone(),
            details: self.details.clone(),
            tag: self.tag.clone(),
            status: self.status,
            renewal_count: self.renewal_count,
            created_at: self.created_at,
            updated_at: self.updated_at,
        }
    }
}

/// Why a call was refused.
#[derive(Clone, Copy, Debug, PartialEq, Eq, PartialOrd, Ord, Structural)]
pub enum LicenseRecordError {
    InvalidTitle,
    InvalidTimestamp,
    NotFound,
    Unauthorized,
    AlreadyExists,
    AlreadyActed,
    Closed,
}

impl LicenseRecordError {
    /// The number by which the ledger reports this error.
    pub open spec fn spec_code(self) -> u32 {
        match self {
            LicenseRecordError::InvalidTitle => 1,
            LicenseRecordError::InvalidTimestamp => 2,
            LicenseRecordError::NotFound => 3,
            LicenseRecordError::Unauthorized => 4,
            LicenseRecordError::AlreadyExists => 5,
            LicenseRecordError::AlreadyActed => 6,
            LicenseRecordError::Closed => 7,
        }
    }

    /// The number by which the ledger reports this error.
    pub fn code(&self) -> (c: u32)
        ensures
            c == self.spec_code(),
    {
        match self {
            LicenseRecordError::InvalidTitle => 1,
            LicenseRecordError::InvalidTimestamp => 2,
            LicenseRecordError::NotFound => 3,
            LicenseRecordError::Unauthorized => 4,
            LicenseRecordError::AlreadyExists => 5,
            LicenseRecordError::AlreadyActed => 6,
            LicenseRecordError::Closed => 7,
        }
    }
}

/// The number of accounts that have requested the renewal of a license.
pub open spec fn renewal_count_of() -> spec_fn(LicenseRecord) -> nat {
    |r: LicenseRecord| r.renewal_count as nat
}

/// The contract's storage: the licenses by id, the id list, and a flag
/// for each account that has requested the renewal of a license.
pub struct LicenseRenewalContract {
    table: Table<LicenseRecord>,
    acted: FlagSet,
}

impl LicenseRenewalContract {
    /// The storage is consistent: the id list and the licenses agree,
    /// every flag names a stored license, and the count of each license is the
    /// number of flags that name it.
    pub closed spec fn wf(&self) -> bool {
        &&& self.table.wf()
        &&& self.acted.wf()
        &&& flags_counted(self.table.records(), self.acted.flags(), renewal_count_of())
    }

    /// The license stored under each id.
    pub closed spec fn records(&self) -> Map<Seq<char>, LicenseRecord> {
        self.table.records()
    }

    /// The ids, in the order in which the licenses were created.
    pub closed spec fn id_list(&self) -> Seq<Seq<char>> {
        self.table.order()
    }

    /// The (id, account) pairs for which the account has requested the renewal of the license,
    /// in the order in which they did.
    pub closed spec fn acted_flags(&self) -> Seq<(Seq<char>, Seq<char>)> {
        self.acted.flags()
    }

    /// What `register_license` answers.
    pub open spec fn create_result(self, id: Seq<char>, title: Seq<char>, created_at: u64) -> Result<(), LicenseRecordError> {
        if title.len() == 0 {
            Err(LicenseRecordError::InvalidTitle)
        } else if created_at == 0 {
            Err(LicenseRecordError::InvalidTimestamp)
        } else if self.records().contains_key(id) {
            Err(LicenseRecordError::AlreadyExists)
        } else {
            Ok(())
        }
    }

    /// What `request_renewal` answers.
    pub open spec fn act_result(self, id: Seq<char>, holder: Seq<char>) -> Result<(), LicenseRecordError> {
        if !self.records().contains_key(id) {
            Err(LicenseRecordError::NotFound)
        } else if self.records()[id].status == LicenseStatus::Revoked {
            Err(LicenseRecordError::Closed)
        } else if self.acted_flags().contains((id, holder)) {
            Err(LicenseRecordError::AlreadyActed)
        } else {
            Ok(())
        }
    }

    /// What a call by `issuer` that moves the license `id` on answers.
    pub open spec fn issuer_check(self, id: Seq<char>, issuer: Seq<char>) -> Result<(), LicenseRecordError> {
        if !self.records().contains_key(id) {
            Err(LicenseRecordError::NotFound)
        } else if self.records()[id].issuer@ != issuer {
            Err(LicenseRecordError::Unauthorized)
        } else if self.records()[id].status == LicenseStatus::Revoked {
            Err(LicenseRecordError::Closed)
        } else {
            Ok(())
        }
    }

    /// A contract with no license.
    pub fn new() -> (c: Self)
        ensures
            c.wf(),
            c.records() == Map::<Seq<char>, LicenseRecord>::empty(),
            c.id_list() == Seq::<Seq<char>>::empty(),
            c.acted_flags() == Seq::<(Seq<char>, Seq<char>)>::empty(),
    {
        LicenseRenewalContract { table: Table::new(), acted: FlagSet::new() }
    }

    /// The id list names each license once and no other id; each account has
    /// requested the renewal of a license at most once; every flag names a stored license; and the
    /// count of each license is the number of accounts that have requested the renewal of it.
    pub proof fn lemma_storage_consistent(&self)
        requires
            self.wf(),
        ensures
            self.id_list().no_duplicates(),
            forall|k: Seq<char>| #[trigger] self.records().contains_key(k) <==> self.id_list().contains(k),
            self.acted_flags().no_duplicates(),
            flags_counted(self.records(), self.acted_flags(), renewal_count_of()),
    {
        self.table.lemma_order_matches_records();
        self.acted.lemma_set_once();
    }

    /// Whether stored parts describe a consistent contract: an id list
    /// without repeats, the license stored under each id (in the same order),
    /// and flags, each set once, that name stored licenses and number as
    /// many for each license as its count.
    pub open spec fn storage_fits(
        ids: Seq<String>,
        records: Seq<LicenseRecord>,
        acted: Seq<(String, String)>,
    ) -> bool {
        &&& ids.len() == records.len()
        &&& texts(ids).no_duplicates()
        &&& pair_texts(acted).no_duplicates()
        &&& flags_counted(map_of(ids, records), pair_texts(acted), renewal_count_of())
    }

    /// Rebuilds the contract from its stored parts, or nothing when they are
    /// not consistent.
    pub fn from_storage(ids: Vec<String>, records: Vec<LicenseRecord>, acted: Vec<(String, String)>) -> (r: Option<Self>)
        ensures
            r is Some <==> Self::storage_fits(ids@, records@, acted@),
            r matches Some(c) ==> {
                &&& c.wf()
                &&& c.records() == map_of(ids@, records@)
                &&& c.id_list() == texts(ids@)
                &&& c.acted_flags() == pair_texts(acted@)
            },
    {
        let ghost ids0 = ids@;
        let ghost records0 = records@;
        let ghost acted0 = acted@;
        let table = match Table::from_parts(ids, records) {
            Some(t) => t,
            None => return None,
        };
        let flags = match FlagSet::from_pairs(acted) {
            Some(f) => f,
            None => return None,
        };
        proof {
            lemma_map_of(ids0, records0);
        }
        if !flags_name_stored(&flags, &table) {
            return None;
        }
        let list = table.ids();
        let mut i: usize = 0;
        while i < list.len()
            invariant
                table.wf(),
                ids0 == ids@,
                records0 == records@,
                acted0 == acted@,
                table.records() == map_of(ids0, records0),
                flags.flags() == pair_texts(acted0),
                texts(list@) == table.order(),
                i <= list.len(),
                forall|j: int|
                    0 <= j < i ==> renewal_count_of()(table.records()[#[trigger] texts(list@)[j]])
                        == flags_for(flags.flags(), texts(list@)[j]),
            decreases list.len() - i,
        {
            assert(texts(list@)[i as int] == list@[i as int]@);
            assert(table.order().contains(list@[i as int]@));
            proof {
                table.lemma_order_matches_records();
            }
            let n = match table.get(&list[i]) {
                Some(found) => found.renewal_count,
                None => 0,
            };
            if n as usize != flags.count_for(&list[i]) {
                assert(table.records().contains_key(list@[i as int]@));
                assert(renewal_count_of()(table.records()[list@[i as int]@]) != flags_for(
                    flags.flags(),
                    list@[i as int]@,
                ));
                return None;
            }
            i += 1;
        }
        proof {
            table.lemma_order_matches_records();
            assert forall|k: Seq<char>| #[trigger] table.records().contains_key(k) implies renewal_count_of()(
                table.records()[k],
            ) == flags_for(flags.flags(), k) by {
                let j = choose|j: int| 0 <= j < texts(list@).len() && texts(list@)[j] == k;
            }
        }
        Some(LicenseRenewalContract { table, acted: flags })
    }

    /// What the contract stores can always be read back: its id list, the
    /// license stored under each id in the same order, and its flags are parts
    /// that `from_storage` accepts and rebuilds the same contract from.
    pub proof fn lemma_storage_reads_back(
        self,
        ids: Seq<String>,
        records: Seq<LicenseRecord>,
        acted: Seq<(String, String)>,
    )
        requires
            self.wf(),
            texts(ids) == self.id_list(),
            records.len() == ids.len(),
            forall|i: int| #![trigger records[i]] 0 <= i < ids.len() ==> records[i] == self.records()[ids[i]@],
            pair_texts(acted) == self.acted_flags(),
        ensures
            Self::storage_fits(ids, records, acted),
            map_of(ids, records) == self.records(),
    {
        self.table.lemma_reads_back(ids, records);
        self.acted.lemma_set_once();
    }

    /// The (id, account) pairs for which the account has requested the renewal of the license,
    /// in the order in which they did.
    pub fn acted_pairs(&self) -> (r: Vec<(String, String)>)
        ensures
            pair_texts(r@) == self.acted_flags(),
    {
        self.acted.pairs()
    }

    /// A revoked license is final: acting on it, marking it renewed and
    /// marking it revoked are all refused, whoever calls.
    pub proof fn lemma_revoked_is_final(self, id: Seq<char>, who: Seq<char>)
        requires
            self.records().contains_key(id),
            self.records()[id].status == LicenseStatus::Revoked,
        ensures
            self.act_result(id, who) is Err,
            self.issuer_check(id, who) is Err,
    {
    }

    /// Any account that has not yet acted on a license may act on it, its
    /// issuer included: `request_renewal` is accepted exactly when the license exists,
    /// is not revoked, and the caller has not acted on it before.
    pub proof fn lemma_any_account_acts_once(self, id: Seq<char>, who: Seq<char>)
        ensures
            self.act_result(id, who) is Ok <==> (self.records().contains_key(id) && self.records()[id].status
                != LicenseStatus::Revoked && !self.acted_flags().contains((id, who))),
    {
    }

    /// Only the issuer of a license moves it on, and only until it is
    /// revoked: such a call is accepted exactly when the license exists,
    /// the caller is its issuer, and it is not revoked.
    pub proof fn lemma_only_issuer_moves_on(self, id: Seq<char>, who: Seq<char>)
        ensures
            self.issuer_check(id, who) is Ok <==> (self.records().contains_key(id) && self.records()[id].issuer@
                == who && self.records()[id].status != LicenseStatus::Revoked),
    {
    }

    /// Why a call is refused. A license is created only with a title and a
    /// creation time, under an id not yet used, the title being checked
    /// first. A call naming no stored license is refused as not found; a call
    /// to move a license on by anyone but its issuer is refused as
    /// unauthorized; a license that is revoked refuses acting and moving on
    /// as closed; and an account that has acted on a license already is
    /// refused as having acted.
    pub proof fn lemma_refusals(self, id: Seq<char>, who: Seq<char>, title: Seq<char>, created_at: u64)
        ensures
            title.len() == 0 ==> self.create_result(id, title, created_at) == Err::<(), LicenseRecordError>(
                LicenseRecordError::InvalidTitle,
            ),
            title.len() > 0 && created_at == 0 ==> self.create_result(id, title, created_at) == Err::<
                (),
                LicenseRecordError,
            >(LicenseRecordError::InvalidTimestamp),
            title.len() > 0 && created_at != 0 && self.records().contains_key(id) ==> self.create_result(
                id,
                title,
                created_at,
            ) == Err::<(), LicenseRecordError>(LicenseRecordError::AlreadyExists),
            !self.records().contains_key(id) ==> self.act_result(id, who) == Err::<(), LicenseRecordError>(
                LicenseRecordError::NotFound,
            ) && self.issuer_check(id, who) == Err::<(), LicenseRecordError>(LicenseRecordError::NotFound),
            self.records().contains_key(id) && self.records()[id].issuer@ != who ==> self.issuer_check(id, who)
                == Err::<(), LicenseRecordError>(LicenseRecordError::Unauthorized),
            self.records().contains_key(id) && self.records()[id].status == LicenseStatus::Revoked ==> self.act_result(
                id,
                who,
            ) == Err::<(), LicenseRecordError>(LicenseRecordError::Closed) && (self.records()[id].issuer@ == who ==> self.issuer_check(
                id,
                who,
            ) == Err::<(), LicenseRecordError>(LicenseRecordError::Closed)),
            self.records().contains_key(id) && self.records()[id].status != LicenseStatus::Revoked
                && self.acted_flags().contains((id, who)) ==> self.act_result(id, who) == Err::<(), LicenseRecordError>(
                LicenseRecordError::AlreadyActed,
            ),
    {
    }

    /// Creates the license `id`, held by `issuer` (who is also its last
    /// holder), in status active, with a count of zero, created (and
    /// last updated) at `created_at`; the id goes to the end of the id list.
    pub fn register_license(
        &mut self,
        id: String,
        issuer: String,
        title: String,
        details: String,
        tag: String,
        created_at: u64,
    ) -> (r: Result<(), LicenseRecordError>)
        requires
            old(self).wf(),
        ensures
            final(self).wf(),
            r == old(self).create_result(id@, title@, created_at),
            r is Err ==> *final(self) == *old(self),
            r is Ok ==> {
                &&& final(self).records() == old(self).records().insert(
                    id@,
                    (LicenseRecord {
                        issuer: issuer,
                        holder: issuer,
                        title,
                        details,
                        tag,
                        status: LicenseStatus::Active,
                        renewal_count: 0,
                        created_at,
                        updated_at: created_at,
                    }),
                )
                &&& final(self).id_list() == old(self).id_list().push(id@)
                &&& final(self).acted_flags() == old(self).acted_flags()
            },
    {
        if title.as_str().is_empty() {
            return Err(LicenseRecordError::InvalidTitle);
        }
        if created_at == 0 {
            return Err(LicenseRecordError::InvalidTimestamp);
        }
        if self.table.contains(&id) {
            return Err(LicenseRecordError::AlreadyExists);
        }
        let record = LicenseRecord {
            issuer: issuer.clone(),
            holder: issuer,
            title,
            details,
            tag,
            status: LicenseStatus::Active,
            renewal_count: 0,
            created_at,
            updated_at: created_at,
        };
        proof {
            lemma_flags_counted_new(self.table.records(), self.acted.flags(), renewal_count_of(), id@, record);
        }
        self.table.push(id, record);
        Ok(())
    }

    /// Records that the calling account has requested the renewal of the license `id`: they become its last
    /// holder, its count grows by one, its status becomes renewal requested, and
    /// `now` is recorded as the time of the update. Each account may do so
    /// once per license.
    pub fn request_renewal(&mut self, id: String, holder: String, now: u64) -> (r: Result<(), LicenseRecordError>)
        requires
            old(self).wf(),
            old(self).act_result(id@, holder@) is Ok ==> old(self).records()[id@].renewal_count < u32::MAX,
        ensures
            final(self).wf(),
            r == old(self).act_result(id@, holder@),
            r is Err ==> *final(self) == *old(self),
            r is Ok ==> {
                &&& final(self).records() == old(self).records().insert(
                    id@,
                    (LicenseRecord {
                        holder: holder,
                        renewal_count: (old(self).records()[id@].renewal_count + 1) as u32,
                        status: LicenseStatus::RenewalRequested,
                        updated_at: now,
                        ..old(self).records()[id@]
                    }),
                )
                &&& final(self).id_list() == old(self).id_list()
                &&& final(self).acted_flags() == old(self).acted_flags().push((id@, holder@))
            },
    {
        let mut record = match self.table.get(&id) {
            Some(found) => found.clone(),
            None => return Err(LicenseRecordError::NotFound),
        };
        if record.status == LicenseStatus::Revoked {
            return Err(LicenseRecordError::Closed);
        }
        if self.acted.contains(&id, &holder) {
            return Err(LicenseRecordError::AlreadyActed);
        }
        record.holder = holder.clone();
        record.renewal_count = record.renewal_count + 1;
        record.status = LicenseStatus::RenewalRequested;
        record.updated_at = now;
        proof {
            lemma_flags_counted_push(
                self.table.records(),
                self.acted.flags(),
                renewal_count_of(),
                id@,
                holder@,
                record,
            );
        }
        self.table.set(&id, record);
        self.acted.insert(id, holder);
        Ok(())
    }

    /// Moves the license `id` to `status` on behalf of its issuer,
    /// recording `now` as the time of the update.
    fn move_to(&mut self, id: String, issuer: String, status: LicenseStatus, now: u64) -> (r: Result<(), LicenseRecordError>)
        requires
            old(self).wf(),
        ensures
            final(self).wf(),
            r == old(self).issuer_check(id@, issuer@),
            r is Err ==> *final(self) == *old(self),
            r is Ok ==> {
                &&& final(self).records() == old(self).records().insert(
                    id@,
                    (LicenseRecord { status, updated_at: now, ..old(self).records()[id@] }),
                )
                &&& final(self).id_list() == old(self).id_list()
                &&& final(self).acted_flags() == old(self).acted_flags()
            },
    {
        let mut record = match self.table.get(&id) {
            Some(found) => found.clone(),
            None => return Err(LicenseRecordError::NotFound),
        };
        if !(record.issuer == issuer) {
            return Err(LicenseRecordError::Unauthorized);
        }
        if record.status == LicenseStatus::Revoked {
            return Err(LicenseRecordError::Closed);
        }
        record.status = status;
        record.updated_at = now;
        proof {
            lemma_flags_counted_same(self.table.records(), self.acted.flags(), renewal_count_of(), id@, record);
        }
        self.table.set(&id, record);
        Ok(())
    }

    /// Marks the license `id` renewed on behalf of its issuer, recording
    /// `now` as the time of the update.
    pub fn approve_license(&mut self, id: String, issuer: String, now: u64) -> (r: Result<(), LicenseRecordError>)
        requires
            old(self).wf(),
        ensures
            final(self).wf(),
            r == old(self).issuer_check(id@, issuer@),
            r is Err ==> *final(self) == *old(self),
            r is Ok ==> {
                &&& final(self).records() == old(self).records().insert(
                    id@,
                    (LicenseRecord { status: LicenseStatus::Renewed, updated_at: now, ..old(self).records()[id@] }),
                )
                &&& final(self).id_list() == old(self).id_list()
                &&& final(self).acted_flags() == old(self).acted_flags()
            },
    {
        self.move_to(id, issuer, LicenseStatus::Renewed, now)
    }

    /// Marks the license `id` revoked, for good, on behalf of its
    /// issuer, recording `now` as the time of the update.
    pub fn revoke_license(&mut self, id: String, issuer: String, now: u64) -> (r: Result<(), LicenseRecordError>)
        requires
            old(self).wf(),
        ensures
            final(self).wf(),
            r == old(self).issuer_check(id@, issuer@),
            r is Err ==> *final(self) == *old(self),
            r is Ok ==> {
                &&& final(self).records() == old(self).records().insert(
                    id@,
                    (LicenseRecord { status: LicenseStatus::Revoked, updated_at: now, ..old(self).records()[id@] }),
                )
                &&& final(self).id_list() == old(self).id_list()
                &&& final(self).acted_flags() == old(self).acted_flags()
            },
    {
        self.move_to(id, issuer, LicenseStatus::Revoked, now)
    }

    /// The license stored under `id`, if any.
    pub fn get_license(&self, id: String) -> (r: Option<LicenseRecord>)
        requires
            self.wf(),
        ensures
            r == (if self.records().contains_key(id@) {
                Some(self.records()[id@])
            } else {
                None
            }),
    {
        match self.table.get(&id) {
            Some(found) => Some(found.clone()),
            None => None,
        }
    }

    /// The ids, in the order in which the licenses were created.
    pub fn list_licenses(&self) -> (r: Vec<String>)
        requires
            self.wf(),
        ensures
            texts(r@) == self.id_list(),
    {
        self.table.ids()
    }

    /// The count of the license `id`, or zero if there is no such license.
    pub fn get_renewal_count(&self, id: String) -> (r: u32)
        requires
            self.wf(),
        ensures
            r == (if self.records().contains_key(id@) {
                self.records()[id@].renewal_count
            } else {
                0
            }),
    {
        match self.table.get(&id) {
            Some(found) => found.renewal_count,
            None => 0,
        }
    }
}

} // verus!
