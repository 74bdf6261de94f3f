//! Event RSVPs: events that attendees register for, up to a capacity, and
//! whose hosts confirm attendance and close registration.
//!
//! Text values stand for the ledger's values: an id is the text of a
//! symbol, a host or an attendee is the text form of an account address. The
//! caller has already checked that the account acting in a call authorised
//! it; `now` is the ledger's timestamp at the call.
use vstd::prelude::*;
use crate::table::{
    texts, pair_texts, map_of, lemma_map_of, flags_for, flags_name_stored, flags_within, Table, FlagSet, flags_counted, all_within, lemma_flags_counted_new,
    lemma_flags_counted_same, lemma_flags_counted_push, lemma_within_push_outer,
    lemma_within_push_inner, lemma_flags_for_within, lemma_flags_for_within_strict,
};

verus! {

/// Whether an event takes registrations.
#[derive(Clone, Copy, Debug, PartialEq, Eq, Structural)]
pub enum EventStatus {
    Open,
    Closed,
}

/// An event.
#[derive(Debug)]
pub struct Event {
    pub host: String,
    pub title: String,
    pub venue: String,
    pub capacity: u32,
    pub rsvp_count: u32,
    pub confirmed_count: u32,
    pub status: EventStatus,
    pub event_time: u64,
    pub created_at: u64,
}

impl Clone for Event {
    fn clone(&self) -> (r: Self)
        ensures
            r == *self,
    {
        Event {
            host: self.host.clone(),
            title: self.title.clone(),
            venue: self.venue.clone(),
            capacity: self.capacity,
            rsvp_count: self.rsvp_count,
            confirmed_count: self.confirmed_count,
            status: self.status,
            event_time: self.event_time,
            created_at: self.created_at,
        }
    }
}

/// Why a call was refused.
#[derive(Clone, Copy, Debug, PartialEq, Eq, PartialOrd, Ord, Structural)]
pub enum EventError {
    InvalidTitle,
    InvalidCapacity,
    InvalidTimestamp,
    NotFound,
    Unauthorized,
    AlreadyExists,
    RegistrationClosed,
    CapacityReached,
    AlreadyRegistered,
    NotRegistered,
    AlreadyConfirmed,
}

impl EventError {
    /// The number by which the ledger reports this error.
    pub open spec fn spec_code(self) -> u32 {
        match self {
            EventError::InvalidTitle => 1,
            EventError::InvalidCapacity => 2,
            EventError::InvalidTimestamp => 3,
            EventError::NotFound => 4,
            EventError::Unauthorized => 5,
            EventError::AlreadyExists => 6,
            EventError::RegistrationClosed => 7,
            EventError::CapacityReached => 8,
            EventError::AlreadyRegistered => 9,
            EventError::NotRegistered => 10,
            EventError::AlreadyConfirmed => 11,
        }
    }

    /// The number by which the ledger reports this error.
    pub fn code(&self) -> (c: u32)
        ensures
            c == self.spec_code(),
    {
        match self {
            EventError::InvalidTitle => 1,
            EventError::InvalidCapacity => 2,
            EventError::InvalidTimestamp => 3,
            EventError::NotFound => 4,
            EventError::Unauthorized => 5,
            EventError::AlreadyExists => 6,
            EventError::RegistrationClosed => 7,
            EventError::CapacityReached => 8,
            EventError::AlreadyRegistered => 9,
            EventError::NotRegistered => 10,
            EventError::AlreadyConfirmed => 11,
        }
    }
}

/// The number of attendees registered for an event.
pub open spec fn rsvp_of() -> spec_fn(Event) -> nat {
    |e: Event| e.rsvp_count as nat
}

/// The number of attendees confirmed at an event.
pub open spec fn confirmed_of() -> spec_fn(Event) -> nat {
    |e: Event| e.confirmed_count as nat
}

/// The contract's storage: the events by id, the id list, and the
/// registration and confirmation flags of each attendee.
pub struct EventRsvpContract {
    table: Table<Event>,
    registered: FlagSet,
    confirmed: FlagSet,
}

impl EventRsvpContract {
    /// The storage is consistent: the id list and the events agree; each
    /// event's registration and confirmation counts are the numbers of its
    /// flags; only registered attendees are confirmed; no event holds more
    /// registrations than its capacity.
    pub closed spec fn wf(&self) -> bool {
        &&& self.table.wf()
        &&& self.registered.wf()
        &&& self.confirmed.wf()
        &&& flags_counted(self.table.records(), self.registered.flags(), rsvp_of())
        &&& flags_counted(self.table.records(), self.confirmed.flags(), confirmed_of())
        &&& all_within(self.confirmed.flags(), self.registered.flags())
        &&& forall|k: Seq<char>| #[trigger]
            self.table.records().contains_key(k) ==> self.table.records()[k].rsvp_count
                <= self.table.records()[k].capacity
    }

    /// The event stored under each id.
    pub closed spec fn events(&self) -> Map<Seq<char>, Event> {
        self.table.records()
    }

    /// The event ids, in the order in which the events were created.
    pub closed spec fn id_list(&self) -> Seq<Seq<char>> {
        self.table.order()
    }

    /// The (event, attendee) pairs of registered attendees, in the order in
    /// which they registered.
    pub closed spec fn registrations(&self) -> Seq<(Seq<char>, Seq<char>)> {
        self.registered.flags()
    }

    /// The (event, attendee) pairs of confirmed attendees, in the order in
    /// which they were confirmed.
    pub closed spec fn confirmations(&self) -> Seq<(Seq<char>, Seq<char>)> {
        self.confirmed.flags()
    }

    /// What `create_event` answers.
    pub open spec fn create_result(self, id: Seq<char>, title: Seq<char>, capacity: u32, event_time: u64) -> Result<(), EventError> {
        if title.len() == 0 {
            Err(EventError::InvalidTitle)
        } else if capacity == 0 {
            Err(EventError::InvalidCapacity)
        } else if event_time == 0 {
            Err(EventError::InvalidTimestamp)
        } else if self.events().contains_key(id) {
            Err(EventError::AlreadyExists)
        } else {
            Ok(())
        }
    }

    /// What `rsvp_event` answers.
    pub open spec fn rsvp_result(self, id: Seq<char>, attendee: Seq<char>) -> Result<(), EventError> {
        if !self.events().contains_key(id) {
            Err(EventError::NotFound)
        } else if self.events()[id].status != EventStatus::Open {
            Err(EventError::RegistrationClosed)
        } else if self.events()[id].rsvp_count >= self.events()[id].capacity {
            Err(EventError::CapacityReached)
        } else if self.registrations().contains((id, attendee)) {
            Err(EventError::AlreadyRegistered)
        } else {
            Ok(())
        }
    }

    /// What `confirm_attendance` answers.
    pub open spec fn confirm_result(self, id: Seq<char>, host: Seq<char>, attendee: Seq<char>) -> Result<(), EventError> {
        if !self.events().contains_key(id) {
            Err(EventError::NotFound)
        } else if self.events()[id].host@ != host {
            Err(EventError::Unauthorized)
        } else if !self.registrations().contains((id, attendee)) {
            Err(EventError::NotRegistered)
        } else if self.confirmations().contains((id, attendee)) {
            Err(EventError::AlreadyConfirmed)
        } else {
            Ok(())
        }
    }

    /// What `close_event` answers.
    pub open spec fn close_result(self, id: Seq<char>, host: Seq<char>) -> Result<(), EventError> {
        if !self.events().contains_key(id) {
            Err(EventError::NotFound)
        } else if self.events()[id].host@ != host {
            Err(EventError::Unauthorized)
        } else if self.events()[id].status != EventStatus::Open {
            Err(EventError::RegistrationClosed)
        } else {
            Ok(())
        }
    }

    /// A contract with no event.
    pub fn new() -> (c: Self)
        ensures
            c.wf(),
            c.events() == Map::<Seq<char>, Event>::empty(),
            c.id_list() == Seq::<Seq<char>>::empty(),
            c.registrations() == Seq::<(Seq<char>, Seq<char>)>::empty(),
            c.confirmations() == Seq::<(Seq<char>, Seq<char>)>::empty(),
    {
        EventRsvpContract { table: Table::new(), registered: FlagSet::new(), confirmed: FlagSet::new() }
    }

    /// The id list names each event once and no other id; an attendee
    /// registers for and is confirmed at an event at most once; each event's
    /// counts are the numbers of its registrations and confirmations; only
    /// registered attendees are confirmed, so no event has more confirmations
    /// than registrations; no event is over capacity.
    pub proof fn lemma_storage_consistent(&self)
        requires
            self.wf(),
        ensures
            self.id_list().no_duplicates(),
            forall|k: Seq<char>| #[trigger] self.events().contains_key(k) <==> self.id_list().contains(k),
            self.registrations().no_duplicates(),
            self.confirmations().no_duplicates(),
            flags_counted(self.events(), self.registrations(), rsvp_of()),
            flags_counted(self.events(), self.confirmations(), confirmed_of()),
            all_within(self.confirmations(), self.registrations()),
            forall|k: Seq<char>| #[trigger]
                self.events().contains_key(k) ==> self.events()[k].rsvp_count
                    <= self.events()[k].capacity,
            forall|k: Seq<char>| #[trigger]
                self.events().contains_key(k) ==> self.events()[k].confirmed_count
                    <= self.events()[k].rsvp_count,
    {
        self.table.lemma_order_matches_records();
        self.registered.lemma_set_once();
        self.confirmed.lemma_set_once();
        assert forall|k: Seq<char>| #[trigger]
            self.events().contains_key(k) implies self.events()[k].confirmed_count
                <= self.events()[k].rsvp_count by {
            lemma_flags_for_within(self.confirmed.flags(), self.registered.flags(), k);
        }
    }

    /// Whether stored parts describe a consistent contract: an id list
    /// without repeats, the event stored under each id (in the same order),
    /// none over capacity, and registration and confirmation flags, each set
    /// once, that name stored events and number as many for each event as
    /// its counts, with only registered attendees confirmed.
    pub open spec fn storage_fits(
        ids: Seq<String>,
        events: Seq<Event>,
        registered: Seq<(String, String)>,
        confirmed: Seq<(String, String)>,
    ) -> bool {
        &&& ids.len() == events.len()
        &&& texts(ids).no_duplicates()
        &&& forall|i: int| 0 <= i < events.len() ==> #[trigger] events[i].rsvp_count <= events[i].capacity
        &&& pair_texts(registered).no_duplicates()
        &&& pair_texts(confirmed).no_duplicates()
        &&& flags_counted(map_of(ids, events), pair_texts(registered), rsvp_of())
        &&& flags_counted(map_of(ids, events), pair_texts(confirmed), confirmed_of())
        &&& all_within(pair_texts(confirmed), pair_texts(registered))
    }

    /// Rebuilds the contract from its stored parts, or nothing when they are
    /// not consistent.
    pub fn from_storage(
        ids: Vec<String>,
        events: Vec<Event>,
        registered: Vec<(String, String)>,
        confirmed: Vec<(String, String)>,
    ) -> (r: Option<Self>)
        ensures
            r is Some <==> Self::storage_fits(ids@, events@, registered@, confirmed@),
            r matches Some(c) ==> {
                &&& c.wf()
                &&& c.events() == map_of(ids@, events@)
                &&& c.id_list() == texts(ids@)
                &&& c.registrations() == pair_texts(registered@)
                &&& c.confirmations() == pair_texts(confirmed@)
            },
    {
        let ghost ids0 = ids@;
        let ghost events0 = events@;
        let ghost registered0 = registered@;
        let ghost confirmed0 = confirmed@;
        let mut i: usize = 0;
        while i < events.len()
            invariant
                i <= events.len(),
                forall|j: int| 0 <= j < i ==> #[trigger] events@[j].rsvp_count <= events@[j].capacity,
            decreases events.len() - i,
        {
            if events[i].rsvp_count > events[i].capacity {
                return None;
            }
            i += 1;
        }
        let table = match Table::from_parts(ids, events) {
            Some(t) => t,
            None => return None,
        };
        let reg = match FlagSet::from_pairs(registered) {
            Some(f) => f,
            None => return None,
        };
        let conf = match FlagSet::from_pairs(confirmed) {
            Some(f) => f,
            None => return None,
        };
        proof {
            lemma_map_of(ids0, events0);
            table.lemma_order_matches_records();
        }
        if !flags_name_stored(&reg, &table) || !flags_name_stored(&conf, &table) {
            return None;
        }
        if !flags_within(&conf, &reg) {
            return None;
        }
        let list = table.ids();
        let mut i: usize = 0;
        while i < list.len()
            invariant
                ids0 == ids@,
                events0 == events@,
                registered0 == registered@,
                confirmed0 == confirmed@,
                table.wf(),
                table.records() == map_of(ids0, events0),
                reg.flags() == pair_texts(registered0),
                conf.flags() == pair_texts(confirmed0),
                texts(list@) == table.order(),
                i <= list.len(),
                forall|j: int|
                    0 <= j < i ==> rsvp_of()(table.records()[#[trigger] texts(list@)[j]]) == flags_for(
                        reg.flags(),
                        texts(list@)[j],
                    ) && confirmed_of()(table.records()[texts(list@)[j]]) == flags_for(
                        conf.flags(),
                        texts(list@)[j],
                    ),
            decreases list.len() - i,
        {
            assert(texts(list@)[i as int] == list@[i as int]@);
            assert(table.order().contains(list@[i as int]@));
            proof {
                table.lemma_order_matches_records();
            }
            let (n, m) = match table.get(&list[i]) {
                Some(found) => (found.rsvp_count, found.confirmed_count),
                None => (0, 0),
            };
            if n as usize != reg.count_for(&list[i]) || m as usize != conf.count_for(&list[i]) {
                assert(table.records().contains_key(list@[i as int]@));
                return None;
            }
            i += 1;
        }
        proof {
            table.lemma_order_matches_records();
            assert forall|k: Seq<char>| #[trigger] table.records().contains_key(k) implies rsvp_of()(
                table.records()[k],
            ) == flags_for(reg.flags(), k) && confirmed_of()(table.records()[k]) == flags_for(
                conf.flags(),
                k,
            ) by {
                let j = choose|j: int| 0 <= j < texts(list@).len() && texts(list@)[j] == k;
            }
            assert forall|k: Seq<char>| #[trigger] table.records().contains_key(k) implies table.records()[k].rsvp_count
                <= table.records()[k].capacity by {
                let j = choose|j: int| 0 <= j < texts(ids0).len() && texts(ids0)[j] == k;
                assert(ids0[j]@ == k);
                assert(events0[j].rsvp_count <= events0[j].capacity);
            }
        }
        Some(EventRsvpContract { table, registered: reg, confirmed: conf })
    }

    /// What the contract stores can always be read back: its id list, the
    /// event stored under each id in the same order, and its registration
    /// and confirmation flags are parts that `from_storage` accepts and
    /// rebuilds the same contract from.
    pub proof fn lemma_storage_reads_back(
        self,
        ids: Seq<String>,
        events: Seq<Event>,
        registered: Seq<(String, String)>,
        confirmed: Seq<(String, String)>,
    )
        requires
            self.wf(),
            texts(ids) == self.id_list(),
            events.len() == ids.len(),
            forall|i: int| #![trigger events[i]] 0 <= i < ids.len() ==> events[i] == self.events()[ids[i]@],
            pair_texts(registered) == self.registrations(),
            pair_texts(confirmed) == self.confirmations(),
        ensures
            Self::storage_fits(ids, events, registered, confirmed),
            map_of(ids, events) == self.events(),
    {
        self.table.lemma_reads_back(ids, events);
        self.registered.lemma_set_once();
        self.confirmed.lemma_set_once();
        assert forall|i: int| 0 <= i < events.len() implies #[trigger] events[i].rsvp_count <= events[i].capacity by {
            assert(texts(ids)[i] == ids[i]@);
            assert(self.table.order()[i] == ids[i]@);
            assert(self.table.order().contains(ids[i]@));
            self.table.lemma_order_matches_records();
            assert(self.table.records().contains_key(ids[i]@));
        }
    }

    /// Why a call is refused. Creation checks the title, then the capacity,
    /// then the time, then that the id is free. A call naming no stored event
    /// is refused as not found. A registration for a closed event is refused
    /// as closed, one for a full event as capacity reached, and a repeated
    /// one as already registered. Confirming and closing by anyone but the
    /// host are refused as unauthorized; an attendee is confirmed only once
    /// registered, and only once; a closed event is not closed again.
    pub proof fn lemma_refusals(
        self,
        id: Seq<char>,
        who: Seq<char>,
        attendee: Seq<char>,
        title: Seq<char>,
        capacity: u32,
        event_time: u64,
    )
        ensures
            title.len() == 0 ==> self.create_result(id, title, capacity, event_time) == Err::<(), EventError>(
                EventError::InvalidTitle,
            ),
            title.len() > 0 && capacity == 0 ==> self.create_result(id, title, capacity, event_time) == Err::<
                (),
                EventError,
            >(EventError::InvalidCapacity),
            title.len() > 0 && capacity > 0 && event_time == 0 ==> self.create_result(id, title, capacity, event_time)
                == Err::<(), EventError>(EventError::InvalidTimestamp),
            title.len() > 0 && capacity > 0 && event_time != 0 && self.events().contains_key(id)
                ==> self.create_result(id, title, capacity, event_time) == Err::<(), EventError>(
                EventError::AlreadyExists,
            ),
            !self.events().contains_key(id) ==> self.rsvp_result(id, attendee) == Err::<(), EventError>(
                EventError::NotFound,
            ) && self.confirm_result(id, who, attendee) == Err::<(), EventError>(EventError::NotFound)
                && self.close_result(id, who) == Err::<(), EventError>(EventError::NotFound),
            self.events().contains_key(id) && self.events()[id].status != EventStatus::Open ==> self.rsvp_result(
                id,
                attendee,
            ) == Err::<(), EventError>(EventError::RegistrationClosed),
            self.events().contains_key(id) && self.events()[id].status == EventStatus::Open
                && self.events()[id].rsvp_count >= self.events()[id].capacity ==> self.rsvp_result(id, attendee)
                == Err::<(), EventError>(EventError::CapacityReached),
            self.events().contains_key(id) && self.events()[id].status == EventStatus::Open
                && self.events()[id].rsvp_count < self.events()[id].capacity && self.registrations().contains(
                (id, attendee),
            ) ==> self.rsvp_result(id, attendee) == Err::<(), EventError>(EventError::AlreadyRegistered),
            self.events().contains_key(id) && self.events()[id].host@ != who ==> self.confirm_result(
                id,
                who,
                attendee,
            ) == Err::<(), EventError>(EventError::Unauthorized) && self.close_result(id, who) == Err::<
                (),
                EventError,
            >(EventError::Unauthorized),
            self.events().contains_key(id) && self.events()[id].host@ == who && !self.registrations().contains(
                (id, attendee),
            ) ==> self.confirm_result(id, who, attendee) == Err::<(), EventError>(EventError::NotRegistered),
            self.events().contains_key(id) && self.events()[id].host@ == who && self.registrations().contains(
                (id, attendee),
            ) && self.confirmations().contains((id, attendee)) ==> self.confirm_result(id, who, attendee) == Err::<
                (),
                EventError,
            >(EventError::AlreadyConfirmed),
            self.events().contains_key(id) && self.events()[id].host@ == who && self.events()[id].status
                != EventStatus::Open ==> self.close_result(id, who) == Err::<(), EventError>(
                EventError::RegistrationClosed,
            ),
    {
    }

    /// An event is created exactly when it has a title, at least one seat, a
    /// time, and an id not yet used.
    pub proof fn lemma_create_accepts(self, id: Seq<char>, title: Seq<char>, capacity: u32, event_time: u64)
        ensures
            self.create_result(id, title, capacity, event_time) is Ok <==> (title.len() > 0 && capacity > 0
                && event_time != 0 && !self.events().contains_key(id)),
    {
    }

    /// A registration is accepted exactly for an open event with a seat
    /// left and an attendee not yet registered for it.
    pub proof fn lemma_rsvp_accepts(self, id: Seq<char>, attendee: Seq<char>)
        ensures
            self.rsvp_result(id, attendee) is Ok <==> (self.events().contains_key(id) && self.events()[id].status
                == EventStatus::Open && self.events()[id].rsvp_count < self.events()[id].capacity
                && !self.registrations().contains((id, attendee))),
    {
    }

    /// The host confirms each registered attendee once, whether or not the
    /// event is still open.
    pub proof fn lemma_confirm_accepts(self, id: Seq<char>, host: Seq<char>, attendee: Seq<char>)
        ensures
            self.confirm_result(id, host, attendee) is Ok <==> (self.events().contains_key(id)
                && self.events()[id].host@ == host && self.registrations().contains((id, attendee))
                && !self.confirmations().contains((id, attendee))),
    {
    }

    /// Only the host closes an event, and only while it is open.
    pub proof fn lemma_close_accepts(self, id: Seq<char>, host: Seq<char>)
        ensures
            self.close_result(id, host) is Ok <==> (self.events().contains_key(id) && self.events()[id].host@
                == host && self.events()[id].status == EventStatus::Open),
    {
    }

    /// The (event, attendee) pairs of registered attendees, in the order in
    /// which they registered.
    pub fn registration_pairs(&self) -> (r: Vec<(String, String)>)
        ensures
            pair_texts(r@) == self.registrations(),
    {
        self.registered.pairs()
    }

    /// The (event, attendee) pairs of confirmed attendees, in the order in
    /// which they were confirmed.
    pub fn confirmation_pairs(&self) -> (r: Vec<(String, String)>)
        ensures
            pair_texts(r@) == self.confirmations(),
    {
        self.confirmed.pairs()
    }

    /// A closed event takes no registration and cannot be closed again,
    /// whoever calls.
    pub proof fn lemma_closed_takes_no_registration(self, id: Seq<char>, who: Seq<char>)
        requires
            self.events().contains_key(id),
            self.events()[id].status == EventStatus::Closed,
        ensures
            self.rsvp_result(id, who) == Err::<(), EventError>(EventError::RegistrationClosed),
            self.close_result(id, who) is Err,
    {
    }

    /// An open event takes an attendee who has not registered yet exactly
    /// while fewer attendees have registered than it has seats; once all
    /// seats are taken the answer is that capacity is reached. Confirming an
    /// attendee takes no seat of its own: only the RSVP count is held
    /// against the capacity.
    pub proof fn lemma_rsvp_within_capacity(self, id: Seq<char>, attendee: Seq<char>)
        requires
            self.events().contains_key(id),
            self.events()[id].status == EventStatus::Open,
            !self.registrations().contains((id, attendee)),
        ensures
            self.rsvp_result(id, attendee) is Ok <==> self.events()[id].rsvp_count < self.events()[id].capacity,
            self.rsvp_result(id, attendee) is Err ==> self.rsvp_result(id, attendee) == Err::<(), EventError>(
                EventError::CapacityReached,
            ),
    {
    }

    /// Creates the event `id` hosted by `host` for up to `capacity`
    /// attendees: open, with no registration nor confirmation, created at
    /// `now`; the id goes to the end of the id list.
    pub fn create_event(
        &mut self,
        id: String,
        host: String,
        title: String,
        venue: String,
        capacity: u32,
        event_time: u64,
        now: u64,
    ) -> (r: Result<(), EventError>)
        requires
            old(self).wf(),
        ensures
            final(self).wf(),
            r == old(self).create_result(id@, title@, capacity, event_time),
            r is Err ==> *final(self) == *old(self),
            r is Ok ==> {
                &&& final(self).events() == old(self).events().insert(
                    id@,
                    (Event {
                        host,
                        title,
                        venue,
                        capacity,
                        rsvp_count: 0,
                        confirmed_count: 0,
                        status: EventStatus::Open,
                        event_time,
                        created_at: now,
                    }),
                )
                &&& final(self).id_list() == old(self).id_list().push(id@)
                &&& final(self).registrations() == old(self).registrations()
                &&& final(self).confirmations() == old(self).confirmations()
            },
    {
        if title.as_str().is_empty() {
            return Err(EventError::InvalidTitle);
        }
        if capacity == 0 {
            return Err(EventError::InvalidCapacity);
        }
        if event_time == 0 {
            return Err(EventError::InvalidTimestamp);
        }
        if self.table.contains(&id) {
            return Err(EventError::AlreadyExists);
        }
        let event = Event {
            host,
            title,
            venue,
            capacity,
            rsvp_count: 0,
            confirmed_count: 0,
            status: EventStatus::Open,
            event_time,
            created_at: now,
        };
        proof {
            lemma_flags_counted_new(self.table.records(), self.registered.flags(), rsvp_of(), id@, event);
            lemma_flags_counted_new(self.table.records(), self.confirmed.flags(), confirmed_of(), id@, event);
        }
        self.table.push(id, event);
        Ok(())
    }

    /// Registers `attendee` for the open event `id`, which has room left;
    /// its registration count grows by one.
    pub fn rsvp_event(&mut self, id: String, attendee: String) -> (r: Result<(), EventError>)
        requires
            old(self).wf(),
        ensures
            final(self).wf(),
            r == old(self).rsvp_result(id@, attendee@),
            r is Err ==> *final(self) == *old(self),
            r is Ok ==> {
                &&& final(self).events() == old(self).events().insert(
                    id@,
                    (Event {
                        rsvp_count: (old(self).events()[id@].rsvp_count + 1) as u32,
                        ..old(self).events()[id@]
                    }),
                )
                &&& final(self).id_list() == old(self).id_list()
                &&& final(self).registrations() == old(self).registrations().push((id@, attendee@))
                &&& final(self).confirmations() == old(self).confirmations()
            },
    {
        let mut event = match self.table.get(&id) {
            Some(found) => found.clone(),
            None => return Err(EventError::NotFound),
        };
        if event.status != EventStatus::Open {
            return Err(EventError::RegistrationClosed);
        }
        if event.rsvp_count >= event.capacity {
            return Err(EventError::CapacityReached);
        }
        if self.registered.contains(&id, &attendee) {
            return Err(EventError::AlreadyRegistered);
        }
        event.rsvp_count = event.rsvp_count + 1;
        proof {
            lemma_flags_counted_push(
                self.table.records(),
                self.registered.flags(),
                rsvp_of(),
                id@,
                attendee@,
                event,
            );
            lemma_flags_counted_same(self.table.records(), self.confirmed.flags(), confirmed_of(), id@, event);
            lemma_within_push_outer(self.confirmed.flags(), self.registered.flags(), (id@, attendee@));
        }
        self.table.set(&id, event);
        self.registered.insert(id, attendee);
        Ok(())
    }

    /// Confirms, on behalf of the host of the event `id`, that the registered
    /// `attendee` attended; the event's confirmation count grows by one.
    pub fn confirm_attendance(&mut self, id: String, host: String, attendee: String) -> (r: Result<(), EventError>)
        requires
            old(self).wf(),
        ensures
            final(self).wf(),
            r == old(self).confirm_result(id@, host@, attendee@),
            r is Err ==> *final(self) == *old(self),
            r is Ok ==> {
                &&& final(self).events() == old(self).events().insert(
                    id@,
                    (Event {
                        confirmed_count: (old(self).events()[id@].confirmed_count + 1) as u32,
                        ..old(self).events()[id@]
                    }),
                )
                &&& final(self).id_list() == old(self).id_list()
                &&& final(self).registrations() == old(self).registrations()
                &&& final(self).confirmations() == old(self).confirmations().push((id@, attendee@))
            },
    {
        let mut event = match self.table.get(&id) {
            Some(found) => found.clone(),
            None => return Err(EventError::NotFound),
        };
        if !(event.host == host) {
            return Err(EventError::Unauthorized);
        }
        if !self.registered.contains(&id, &attendee) {
            return Err(EventError::NotRegistered);
        }
        if self.confirmed.contains(&id, &attendee) {
            return Err(EventError::AlreadyConfirmed);
        }
        proof {
            // A registered attendee not yet confirmed leaves the confirmed
            // count below the RSVP count, so it has room to grow.
            self.confirmed.lemma_set_once();
            lemma_flags_for_within_strict(self.confirmed.flags(), self.registered.flags(), (id@, attendee@));
        }
        event.confirmed_count = event.confirmed_count + 1;
        proof {
            lemma_flags_counted_push(
                self.table.records(),
                self.confirmed.flags(),
                confirmed_of(),
                id@,
                attendee@,
                event,
            );
            lemma_flags_counted_same(self.table.records(), self.registered.flags(), rsvp_of(), id@, event);
            lemma_within_push_inner(self.confirmed.flags(), self.registered.flags(), (id@, attendee@));
        }
        self.table.set(&id, event);
        self.confirmed.insert(id, attendee);
        Ok(())
    }

    /// Closes registration for the open event `id` on behalf of its host.
    pub fn close_event(&mut self, id: String, host: String) -> (r: Result<(), EventError>)
        requires
            old(self).wf(),
        ensures
            final(self).wf(),
            r == old(self).close_result(id@, host@),
            r is Err ==> *final(self) == *old(self),
            r is Ok ==> {
                &&& final(self).events() == old(self).events().insert(
                    id@,
                    (Event { status: EventStatus::Closed, ..old(self).events()[id@] }),
                )
                &&& final(self).id_list() == old(self).id_list()
                &&& final(self).registrations() == old(self).registrations()
                &&& final(self).confirmations() == old(self).confirmations()
            },
    {
        let mut event = match self.table.get(&id) {
            Some(found) => found.clone(),
            None => return Err(EventError::NotFound),
        };
        if !(event.host == host) {
            return Err(EventError::Unauthorized);
        }
        if event.status != EventStatus::Open {
            return Err(EventError::RegistrationClosed);
        }
        event.status = EventStatus::Closed;
        proof {
            lemma_flags_counted_same(self.table.records(), self.registered.flags(), rsvp_of(), id@, event);
            lemma_flags_counted_same(self.table.records(), self.confirmed.flags(), confirmed_of(), id@, event);
        }
        self.table.set(&id, event);
        Ok(())
    }

    /// The event stored under `id`, if any.
    pub fn get_event(&self, id: String) -> (r: Option<Event>)
        requires
            self.wf(),
        ensures
            r == (if self.events().contains_key(id@) {
                Some(self.events()[id@])
            } else {
                None
            }),
    {
        match self.table.get(&id) {
            Some(found) => Some(found.clone()),
            None => None,
        }
    }

    /// The event ids, in the order in which the events were created.
    pub fn list_events(&self) -> (r: Vec<String>)
        requires
            self.wf(),
        ensures
            texts(r@) == self.id_list(),
    {
        self.table.ids()
    }

    /// The registration count of the event `id`, or zero if there is no such
    /// event.
    pub fn get_rsvp_count(&self, id: String) -> (r: u32)
        requires
            self.wf(),
        ensures
            r == (if self.events().contains_key(id@) {
                self.events()[id@].rsvp_count
            } else {
                0
            }),
    {
        match self.table.get(&id) {
            Some(found) => found.rsvp_count,
            None => 0,
        }
    }
}

} // verus!
