//! Warranty registry: product warranties that owners transfer and claim
//! against, and that providers settle.
//!
//! Text values stand for the ledger's values: an id is the text of a
//! symbol, an owner or a provider is the text form of an account address.
//! The caller has already checked that the account acting in a call
//! authorised it.
use vstd::prelude::*;
use crate::table::{texts, map_of, Table};

verus! {

/// Where a warranty stands.
#[derive(Clone, Copy, Debug, PartialEq, Eq, Structural)]
pub enum WarrantyStatus {
    Active,
    ClaimOpen,
}

/// A product warranty.
#[derive(Debug)]
pub struct Warranty {
    pub owner: String,
    pub provider: String,
    pub product_name: String,
    pub serial_number: String,
    pub status: WarrantyStatus,
    pub claim_note: String,
    pub claim_count: u32,
    pub purchased_at: u64,
    pub expires_at: u64,
}

impl Clone for Warranty {
    fn clone(&self) -> (r: Self)
        ensures
            r == *self,
    {
        Warranty {
            owner: self.owner.clone(),
            provider: self.provider.clone(),
            product_name: self.product_name.clone(),
            serial_number: self.serial_number.clone(),
            status: self.status,
            claim_note: self.claim_note.clone(),
            claim_count: self.claim_count,
            purchased_at: self.purchased_at,
            expires_at: self.expires_at,
        }
    }
}

/// Why a call was refused.
#[derive(Clone, Copy, Debug, PartialEq, Eq, PartialOrd, Ord, Structural)]
pub enum WarrantyError {
    InvalidName,
    InvalidClaim,
    InvalidTimestamp,
    NotFound,
    Unauthorized,
    AlreadyExists,
    ClaimNotOpen,
    ClaimAlreadyOpen,
}

impl WarrantyError {
    /// The number by which the ledger reports this error.
    pub open spec fn spec_code(self) -> u32 {
        match self {
            WarrantyError::InvalidName => 1,
            WarrantyError::InvalidClaim => 2,
            WarrantyError::InvalidTimestamp => 3,
            WarrantyError::NotFound => 4,
            WarrantyError::Unauthorized => 5,
            WarrantyError::AlreadyExists => 6,
            WarrantyError::ClaimNotOpen => 7,
            WarrantyError::ClaimAlreadyOpen => 8,
        }
    }

    /// The number by which the ledger reports this error.
    pub fn code(&self) -> (c: u32)
        ensures
            c == self.spec_code(),
    {
        match self {
            WarrantyError::InvalidName => 1,
            WarrantyError::InvalidClaim => 2,
            WarrantyError::InvalidTimestamp => 3,
            WarrantyError::NotFound => 4,
            WarrantyError::Unauthorized => 5,
            WarrantyError::AlreadyExists => 6,
            WarrantyError::ClaimNotOpen => 7,
            WarrantyError::ClaimAlreadyOpen => 8,
        }
    }
}

/// The contract's storage: the warranties by id, the id list, and the
/// warranty count.
pub struct WarrantyRegistryContract {
    table: Table<Warranty>,
    count: u32,
}

impl WarrantyRegistryContract {
    /// The storage is consistent: the id list and the warranties agree, and
    /// the count is the number of warranties.
    pub closed spec fn wf(&self) -> bool {
        &&& self.table.wf()
        &&& self.count == self.table.order().len()
    }

    /// The warranty stored under each id.
    pub closed spec fn warranties(&self) -> Map<Seq<char>, Warranty> {
        self.table.records()
    }

    /// The warranty ids, in the order in which they were registered.
    pub closed spec fn id_list(&self) -> Seq<Seq<char>> {
        self.table.order()
    }

    /// The stored warranty count.
    pub closed spec fn warranty_count(&self) -> nat {
        self.count as nat
    }

    /// What `register_warranty` answers.
    pub open spec fn register_result(
        self,
        id: Seq<char>,
        product_name: Seq<char>,
        purchased_at: u64,
        expires_at: u64,
    ) -> Result<(), WarrantyError> {
        if product_name.len() == 0 {
            Err(WarrantyError::InvalidName)
        } else if purchased_at == 0 || expires_at == 0 {
            Err(WarrantyError::InvalidTimestamp)
        } else if self.warranties().contains_key(id) {
            Err(WarrantyError::AlreadyExists)
        } else {
            Ok(())
        }
    }

    /// What a call by the owner `owner` of the warranty `id` answers before
    /// looking at its status.
    pub open spec fn owner_check(self, id: Seq<char>, owner: Seq<char>) -> Result<(), WarrantyError> {
        if !self.warranties().contains_key(id) {
            Err(WarrantyError::NotFound)
        } else if self.warranties()[id].owner@ != owner {
            Err(WarrantyError::Unauthorized)
        } else {
            Ok(())
        }
    }

    /// What `file_claim` answers.
    pub open spec fn file_claim_result(self, id: Seq<char>, owner: Seq<char>, claim_note: Seq<char>) -> Result<(), WarrantyError> {
        if claim_note.len() == 0 {
            Err(WarrantyError::InvalidClaim)
        } else if self.owner_check(id, owner) is Err {
            self.owner_check(id, owner)
        } else if self.warranties()[id].status == WarrantyStatus::ClaimOpen {
            Err(WarrantyError::ClaimAlreadyOpen)
        } else {
            Ok(())
        }
    }

    /// What `close_claim` answers.
    pub open spec fn close_claim_result(self, id: Seq<char>, provider: Seq<char>) -> Result<(), WarrantyError> {
        if !self.warranties().contains_key(id) {
            Err(WarrantyError::NotFound)
        } else if self.warranties()[id].provider@ != provider {
            Err(WarrantyError::Unauthorized)
        } else if self.warranties()[id].status != WarrantyStatus::ClaimOpen {
            Err(WarrantyError::ClaimNotOpen)
        } else {
            Ok(())
        }
    }

    /// A registry with no warranty.
    pub fn new() -> (c: Self)
        ensures
            c.wf(),
            c.warranties() == Map::<Seq<char>, Warranty>::empty(),
            c.id_list() == Seq::<Seq<char>>::empty(),
            c.warranty_count() == 0,
    {
        WarrantyRegistryContract { table: Table::new(), count: 0 }
    }

    /// The id list names each warranty once and no other id, and the
    /// warranty count is the number of warranties.
    pub proof fn lemma_storage_consistent(&self)
        requires
            self.wf(),
        ensures
            self.id_list().no_duplicates(),
            forall|k: Seq<char>| #[trigger]
                self.warranties().contains_key(k) <==> self.id_list().contains(k),
            self.warranty_count() == self.warranties().len(),
    {
        self.table.lemma_order_matches_records();
    }

    /// Whether stored parts describe a consistent registry: an id list
    /// without repeats, the warranty stored under each id (in the same
    /// order), and a warranty count equal to the number of warranties.
    pub open spec fn storage_fits(ids: Seq<String>, warranties: Seq<Warranty>, warranty_count: u32) -> bool {
        &&& ids.len() == warranties.len()
        &&& texts(ids).no_duplicates()
        &&& warranty_count == ids.len()
    }

    /// Rebuilds the registry from its stored parts, or nothing when they are
    /// not consistent.
    pub fn from_storage(ids: Vec<String>, warranties: Vec<Warranty>, warranty_count: u32) -> (r: Option<Self>)
        ensures
            r is Some <==> Self::storage_fits(ids@, warranties@, warranty_count),
            r matches Some(c) ==> {
                &&& c.wf()
                &&& c.warranties() == map_of(ids@, warranties@)
                &&& c.id_list() == texts(ids@)
                &&& c.warranty_count() == warranty_count
            },
    {
        if warranty_count as usize != ids.len() {
            return None;
        }
        match Table::from_parts(ids, warranties) {
            None => None,
            Some(table) => Some(WarrantyRegistryContract { table, count: warranty_count }),
        }
    }

    /// What the registry stores can always be read back: its id list, the
    /// warranty stored under each id in the same order, and its warranty
    /// count are parts that `from_storage` accepts and rebuilds the same
    /// registry from.
    pub proof fn lemma_storage_reads_back(self, ids: Seq<String>, warranties: Seq<Warranty>, warranty_count: u32)
        requires
            self.wf(),
            texts(ids) == self.id_list(),
            warranties.len() == ids.len(),
            forall|i: int| #![trigger warranties[i]] 0 <= i < ids.len() ==> warranties[i] == self.warranties()[ids[i]@],
            warranty_count == self.warranty_count(),
        ensures
            Self::storage_fits(ids, warranties, warranty_count),
            map_of(ids, warranties) == self.warranties(),
    {
        self.table.lemma_reads_back(ids, warranties);
    }

    /// Why a call is refused. Registration checks the product name, then
    /// both times, then that the id is free. Filing a claim checks the note
    /// first. Otherwise a call naming no stored warranty is refused as not
    /// found; transferring and filing by anyone but the owner, and closing by
    /// anyone but the provider, are refused as unauthorized; a second claim
    /// while one is open is refused, and so is closing when none is open.
    pub proof fn lemma_refusals(
        self,
        id: Seq<char>,
        who: Seq<char>,
        claim_note: Seq<char>,
        product_name: Seq<char>,
        purchased_at: u64,
        expires_at: u64,
    )
        ensures
            product_name.len() == 0 ==> self.register_result(id, product_name, purchased_at, expires_at) == Err::<
                (),
                WarrantyError,
            >(WarrantyError::InvalidName),
            product_name.len() > 0 && (purchased_at == 0 || expires_at == 0) ==> self.register_result(
                id,
                product_name,
                purchased_at,
                expires_at,
            ) == Err::<(), WarrantyError>(WarrantyError::InvalidTimestamp),
            product_name.len() > 0 && purchased_at != 0 && expires_at != 0 && self.warranties().contains_key(id)
                ==> self.register_result(id, product_name, purchased_at, expires_at) == Err::<(), WarrantyError>(
                WarrantyError::AlreadyExists,
            ),
            claim_note.len() == 0 ==> self.file_claim_result(id, who, claim_note) == Err::<(), WarrantyError>(
                WarrantyError::InvalidClaim,
            ),
            !self.warranties().contains_key(id) ==> self.owner_check(id, who) == Err::<(), WarrantyError>(
                WarrantyError::NotFound,
            ) && self.close_claim_result(id, who) == Err::<(), WarrantyError>(WarrantyError::NotFound) && (
            claim_note.len() > 0 ==> self.file_claim_result(id, who, claim_note) == Err::<(), WarrantyError>(
                WarrantyError::NotFound,
            )),
            self.warranties().contains_key(id) && self.warranties()[id].owner@ != who ==> self.owner_check(id, who)
                == Err::<(), WarrantyError>(WarrantyError::Unauthorized) && (claim_note.len() > 0
                ==> self.file_claim_result(id, who, claim_note) == Err::<(), WarrantyError>(
                WarrantyError::Unauthorized,
            )),
            self.warranties().contains_key(id) && self.warranties()[id].owner@ == who && claim_note.len() > 0
                && self.warranties()[id].status == WarrantyStatus::ClaimOpen ==> self.file_claim_result(
                id,
                who,
                claim_note,
            ) == Err::<(), WarrantyError>(WarrantyError::ClaimAlreadyOpen),
            self.warranties().contains_key(id) && self.warranties()[id].provider@ != who
                ==> self.close_claim_result(id, who) == Err::<(), WarrantyError>(WarrantyError::Unauthorized),
            self.warranties().contains_key(id) && self.warranties()[id].provider@ == who && self.warranties()[id].status
                != WarrantyStatus::ClaimOpen ==> self.close_claim_result(id, who) == Err::<(), WarrantyError>(
                WarrantyError::ClaimNotOpen,
            ),
    {
    }

    /// A warranty is registered exactly when it names a product, has purchase
    /// and expiry times, and an id not yet used.
    pub proof fn lemma_register_accepts(
        self,
        id: Seq<char>,
        product_name: Seq<char>,
        purchased_at: u64,
        expires_at: u64,
    )
        ensures
            self.register_result(id, product_name, purchased_at, expires_at) is Ok <==> (product_name.len() > 0
                && purchased_at != 0 && expires_at != 0 && !self.warranties().contains_key(id)),
    {
    }

    /// The owner transfers a warranty exactly when they own it, whatever its
    /// status.
    pub proof fn lemma_owner_transfers(self, id: Seq<char>, owner: Seq<char>)
        ensures
            self.owner_check(id, owner) is Ok <==> (self.warranties().contains_key(id)
                && self.warranties()[id].owner@ == owner),
    {
    }

    /// The owner files a claim with a note exactly while no claim is open.
    pub proof fn lemma_file_claim_accepts(self, id: Seq<char>, owner: Seq<char>, claim_note: Seq<char>)
        ensures
            self.file_claim_result(id, owner, claim_note) is Ok <==> (claim_note.len() > 0
                && self.warranties().contains_key(id) && self.warranties()[id].owner@ == owner
                && self.warranties()[id].status != WarrantyStatus::ClaimOpen),
    {
    }

    /// Only the provider closes a claim, and only an open one.
    pub proof fn lemma_close_claim_accepts(self, id: Seq<char>, provider: Seq<char>)
        ensures
            self.close_claim_result(id, provider) is Ok <==> (self.warranties().contains_key(id)
                && self.warranties()[id].provider@ == provider && self.warranties()[id].status
                == WarrantyStatus::ClaimOpen),
    {
    }

    /// Registers the warranty `id` of `owner` with `provider`: active, with
    /// an empty claim note and no claim; the id goes to the end of the id
    /// list and the warranty count grows by one.
    pub fn register_warranty(
        &mut self,
        id: String,
        owner: String,
        provider: String,
        product_name: String,
        serial_number: String,
        purchased_at: u64,
        expires_at: u64,
    ) -> (r: Result<(), WarrantyError>)
        requires
            old(self).wf(),
            old(self).register_result(id@, product_name@, purchased_at, expires_at) is Ok ==> old(
                self,
            ).warranty_count() < u32::MAX,
        ensures
            final(self).wf(),
            r == old(self).register_result(id@, product_name@, purchased_at, expires_at),
            r is Err ==> *final(self) == *old(self),
            r is Ok ==> {
                &&& final(self).warranties().dom() == old(self).warranties().dom().insert(id@)
                &&& final(self).warranties()[id@].owner == owner
                &&& final(self).warranties()[id@].provider == provider
                &&& final(self).warranties()[id@].product_name == product_name
                &&& final(self).warranties()[id@].serial_number == serial_number
                &&& final(self).warranties()[id@].status == WarrantyStatus::Active
                &&& final(self).warranties()[id@].claim_note@ == Seq::<char>::empty()
                &&& final(self).warranties()[id@].claim_count == 0
                &&& final(self).warranties()[id@].purchased_at == purchased_at
                &&& final(self).warranties()[id@].expires_at == expires_at
                &&& forall|k: Seq<char>|
                    k != id@ && #[trigger] old(self).warranties().contains_key(k)
                        ==> final(self).warranties()[k] == old(self).warranties()[k]
                &&& final(self).id_list() == old(self).id_list().push(id@)
                &&& final(self).warranty_count() == old(self).warranty_count() + 1
            },
    {
        if product_name.as_str().is_empty() {
            return Err(WarrantyError::InvalidName);
        }
        if purchased_at == 0 || expires_at == 0 {
            return Err(WarrantyError::InvalidTimestamp);
        }
        if self.table.contains(&id) {
            return Err(WarrantyError::AlreadyExists);
        }
        let w = Warranty {
            owner,
            provider,
            product_name,
            serial_number,
            status: WarrantyStatus::Active,
            claim_note: String::new(),
            claim_count: 0,
            purchased_at,
            expires_at,
        };
        self.table.push(id, w);
        self.count = self.count + 1;
        Ok(())
    }

    /// Hands the warranty `id` over from its owner to `new_owner`.
    pub fn transfer_warranty(&mut self, id: String, owner: String, new_owner: String) -> (r: Result<(), WarrantyError>)
        requires
            old(self).wf(),
        ensures
            final(self).wf(),
            r == old(self).owner_check(id@, owner@),
            r is Err ==> *final(self) == *old(self),
            r is Ok ==> {
                &&& final(self).warranties() == old(self).warranties().insert(
                    id@,
                    (Warranty { owner: new_owner, ..old(self).warranties()[id@] }),
                )
                &&& final(self).id_list() == old(self).id_list()
                &&& final(self).warranty_count() == old(self).warranty_count()
            },
    {
        let mut w = match self.table.get(&id) {
            Some(found) => found.clone(),
            None => return Err(WarrantyError::NotFound),
        };
        if !(w.owner == owner) {
            return Err(WarrantyError::Unauthorized);
        }
        w.owner = new_owner;
        self.table.set(&id, w);
        Ok(())
    }

    /// Opens a claim on the warranty `id` on behalf of its owner, with
    /// `claim_note`; the warranty's claim count grows by one.
    pub fn file_claim(&mut self, id: String, owner: String, claim_note: String) -> (r: Result<(), WarrantyError>)
        requires
            old(self).wf(),
            old(self).file_claim_result(id@, owner@, claim_note@) is Ok ==> old(
                self,
            ).warranties()[id@].claim_count < u32::MAX,
        ensures
            final(self).wf(),
            r == old(self).file_claim_result(id@, owner@, claim_note@),
            r is Err ==> *final(self) == *old(self),
            r is Ok ==> {
                &&& final(self).warranties() == old(self).warranties().insert(
                    id@,
                    (Warranty {
                        status: WarrantyStatus::ClaimOpen,
                        claim_note,
                        claim_count: (old(self).warranties()[id@].claim_count + 1) as u32,
                        ..old(self).warranties()[id@]
                    }),
                )
                &&& final(self).id_list() == old(self).id_list()
                &&& final(self).warranty_count() == old(self).warranty_count()
            },
    {
        if claim_note.as_str().is_empty() {
            return Err(WarrantyError::InvalidClaim);
        }
        let mut w = match self.table.get(&id) {
            Some(found) => found.clone(),
            None => return Err(WarrantyError::NotFound),
        };
        if !(w.owner == owner) {
            return Err(WarrantyError::Unauthorized);
        }
        if w.status == WarrantyStatus::ClaimOpen {
            return Err(WarrantyError::ClaimAlreadyOpen);
        }
        w.status = WarrantyStatus::ClaimOpen;
        w.claim_note = claim_note;
        w.claim_count = w.claim_count + 1;
        self.table.set(&id, w);
        Ok(())
    }

    /// Settles the open claim on the warranty `id` on behalf of its
    /// provider; the warranty is active again and keeps its claim note.
    pub fn close_claim(&mut self, id: String, provider: String) -> (r: Result<(), WarrantyError>)
        requires
            old(self).wf(),
        ensures
            final(self).wf(),
            r == old(self).close_claim_result(id@, provider@),
            r is Err ==> *final(self) == *old(self),
            r is Ok ==> {
                &&& final(self).warranties() == old(self).warranties().insert(
                    id@,
                    (Warranty { status: WarrantyStatus::Active, ..old(self).warranties()[id@] }),
                )
                &&& final(self).id_list() == old(self).id_list()
                &&& final(self).warranty_count() == old(self).warranty_count()
            },
    {
        let mut w = match self.table.get(&id) {
            Some(found) => found.clone(),
            None => return Err(WarrantyError::NotFound),
        };
        if !(w.provider == provider) {
            return Err(WarrantyError::Unauthorized);
        }
        if w.status != WarrantyStatus::ClaimOpen {
            return Err(WarrantyError::ClaimNotOpen);
        }
        w.status = WarrantyStatus::Active;
        self.table.set(&id, w);
        Ok(())
    }

    /// The warranty stored under `id`, if any.
    pub fn get_warranty(&self, id: String) -> (r: Option<Warranty>)
        requires
            self.wf(),
        ensures
            r == (if self.warranties().contains_key(id@) {
                Some(self.warranties()[id@])
            } else {
                None
            }),
    {
        match self.table.get(&id) {
            Some(found) => Some(found.clone()),
            None => None,
        }
    }

    /// The warranty ids, in the order in which they were registered.
    pub fn list_warranties(&self) -> (r: Vec<String>)
        requires
            self.wf(),
        ensures
            texts(r@) == self.id_list(),
    {
        self.table.ids()
    }

    /// The stored warranty count.
    pub fn get_warranty_count(&self) -> (r: u32)
        requires
            self.wf(),
        ensures
            r == self.warranty_count(),
    {
        self.count
    }
}

} // verus!
