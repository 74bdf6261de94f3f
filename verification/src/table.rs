//! Keyed record storage shared by every contract: an id list in creation
//! order, the record stored under each id, and sets of per-record flags.
use vstd::prelude::*;

verus! {

/// The text of each string of a list, in order.
pub open spec fn texts(list: Seq<String>) -> Seq<Seq<char>> {
    list.map_values(|s: String| s@)
}

proof fn lemma_texts_push(list: Seq<String>, s: String)
    ensures
        texts(list.push(s)) == texts(list).push(s@),
{
    assert(texts(list.push(s)) =~= texts(list).push(s@));
}

/// Whether `id` occurs in the id list `ids`.
pub fn has_id(ids: &Vec<String>, id: &String) -> (found: bool)
    ensures
        found == texts(ids@).contains(id@),
{
    match position(ids, id) {
        Some(_) => true,
        None => false,
    }
}

/// Where `id` stands in `ids`, if it stands there.
fn position(ids: &Vec<String>, id: &String) -> (r: Option<usize>)
    ensures
        match r {
            Some(i) => i < ids.len() && ids@[i as int]@ == id@ && texts(ids@).contains(id@),
            None => !texts(ids@).contains(id@),
        },
{
    let mut i: usize = 0;
    while i < ids.len()
        invariant
            i <= ids.len(),
            forall|j: int| 0 <= j < i ==> ids@[j]@ != id@,
        decreases ids.len() - i,
    {
        if ids[i] == *id {
            assert(texts(ids@)[i as int] == id@);
            return Some(i);
        }
        i += 1;
    }
    assert forall|j: int| 0 <= j < texts(ids@).len() implies texts(ids@)[j] != id@ by {
        assert(texts(ids@)[j] == ids@[j]@);
    }
    None
}

/// A copy of every string of `list`, in order.
pub fn copy_texts(list: &Vec<String>) -> (r: Vec<String>)
    ensures
        r@ == list@,
{
    let mut r: Vec<String> = Vec::new();
    let mut i: usize = 0;
    while i < list.len()
        invariant
            i <= list.len(),
            r@ == list@.take(i as int),
        decreases list.len() - i,
    {
        r.push(list[i].clone());
        assert(list@.take(i + 1) =~= list@.take(i as int).push(list@[i as int]));
        i += 1;
    }
    assert(list@.take(list.len() as int) =~= list@);
    r
}

/// Whether no text occurs twice in `list`.
pub fn all_distinct(list: &Vec<String>) -> (r: bool)
    ensures
        r == texts(list@).no_duplicates(),
{
    let mut i: usize = 0;
    while i < list.len()
        invariant
            i <= list.len(),
            forall|a: int, b: int| 0 <= a < b < i ==> list@[a]@ != list@[b]@,
        decreases list.len() - i,
    {
        let mut j: usize = 0;
        while j < i
            invariant
                i < list.len(),
                j <= i,
                forall|a: int| 0 <= a < j ==> list@[a]@ != list@[i as int]@,
            decreases i - j,
        {
            if list[j] == list[i] {
                assert(texts(list@)[j as int] == texts(list@)[i as int]);
                return false;
            }
            j += 1;
        }
        i += 1;
    }
    assert forall|a: int, b: int|
        0 <= a < texts(list@).len() && 0 <= b < texts(list@).len() && a != b implies texts(
        list@,
    )[a] != texts(list@)[b] by {
        if a < b {
            assert(list@[a]@ != list@[b]@);
        } else {
            assert(list@[b]@ != list@[a]@);
        }
    }
    true
}

/// The records that storing `rows[i]` under `ids[i]`, for each `i` in
/// order, leaves.
pub open spec fn map_of<R>(ids: Seq<String>, rows: Seq<R>) -> Map<Seq<char>, R>
    decreases ids.len(),
{
    if ids.len() == 0 || rows.len() == 0 {
        Map::empty()
    } else {
        map_of(ids.drop_last(), rows.drop_last()).insert(ids.last()@, rows.last())
    }
}

/// With each id stored once, the records are keyed by exactly the ids, and
/// each id holds its own row.
pub proof fn lemma_map_of<R>(ids: Seq<String>, rows: Seq<R>)
    requires
        ids.len() == rows.len(),
        texts(ids).no_duplicates(),
    ensures
        forall|k: Seq<char>| #[trigger] map_of(ids, rows).contains_key(k) <==> texts(ids).contains(k),
        forall|i: int| #![trigger ids[i]] 0 <= i < ids.len() ==> map_of(ids, rows)[ids[i]@] == rows[i],
        map_of(ids, rows).dom().finite(),
    decreases ids.len(),
{
    if ids.len() > 0 {
        let pi = ids.drop_last();
        let pr = rows.drop_last();
        assert(texts(pi) =~= texts(ids).drop_last());
        lemma_map_of(pi, pr);
        let n = ids.len() - 1;
        assert(texts(ids)[n] == ids[n]@);
        assert forall|k: Seq<char>| #[trigger] map_of(ids, rows).contains_key(k) <==> texts(ids).contains(k) by {
            if k != ids[n]@ {
                if texts(ids).contains(k) {
                    let j = choose|j: int| 0 <= j < texts(ids).len() && texts(ids)[j] == k;
                    assert(texts(pi)[j] == k);
                }
                if texts(pi).contains(k) {
                    let j = choose|j: int| 0 <= j < texts(pi).len() && texts(pi)[j] == k;
                    assert(texts(ids)[j] == k);
                }
            }
        }
        assert forall|i: int| #![trigger ids[i]] 0 <= i < ids.len() implies map_of(ids, rows)[ids[i]@]
            == rows[i] by {
            if i < n {
                assert(texts(ids)[i] != texts(ids)[n]);
                assert(pi[i] == ids[i]);
            }
        }
    }
}

/// How many records of `map_of(ids, rows)` satisfy `p`, with each id stored
/// once: as many as rows do.
pub proof fn lemma_count_where_map_of<R>(ids: Seq<String>, rows: Seq<R>, p: spec_fn(R) -> bool)
    requires
        ids.len() == rows.len(),
        texts(ids).no_duplicates(),
    ensures
        count_where(map_of(ids, rows), p) == rows.filter(p).len(),
    decreases ids.len(),
{
    if ids.len() == 0 {
        reveal(Seq::filter);
        assert(map_of(ids, rows).dom().filter(|k: Seq<char>| p(map_of(ids, rows)[k])) =~= Set::empty());
    } else {
        let pi = ids.drop_last();
        let pr = rows.drop_last();
        let n = ids.len() - 1;
        assert(texts(pi) =~= texts(ids).drop_last());
        lemma_count_where_map_of(pi, pr, p);
        lemma_map_of(pi, pr);
        assert(!texts(pi).contains(ids[n]@)) by {
            if texts(pi).contains(ids[n]@) {
                let j = choose|j: int| 0 <= j < texts(pi).len() && texts(pi)[j] == ids[n]@;
                assert(texts(ids)[j] == texts(ids)[n]);
            }
        }
        lemma_count_where_insert(map_of(pi, pr), p, ids[n]@, rows[n]);
        assert(rows =~= pr.push(rows[n]));
        pr.lemma_filter_push(rows[n], p);
    }
}

/// Records of type `R`, each stored under a text id, with the ids kept in
/// the order in which they were first stored.
pub struct Table<R> {
    ids: Vec<String>,
    rows: Vec<R>,
    map: Ghost<Map<Seq<char>, R>>,
}

impl<R> Table<R> {
    /// The id list and the rows agree: each id occurs once, the ids are
    /// exactly the keys of the stored records, and the row beside each id is
    /// the record stored under it.
    pub closed spec fn wf(&self) -> bool {
        &&& self.ids.len() == self.rows.len()
        &&& texts(self.ids@).no_duplicates()
        &&& forall|k: Seq<char>| #[trigger]
            self.map@.contains_key(k) <==> texts(self.ids@).contains(k)
        &&& forall|i: int|
            #![trigger self.ids@[i]]
            0 <= i < self.ids.len() ==> self.map@[self.ids@[i]@] == self.rows@[i]
    }

    /// The record stored under each id.
    pub closed spec fn records(&self) -> Map<Seq<char>, R> {
        self.map@
    }

    /// The ids, in the order in which they were first stored.
    pub closed spec fn order(&self) -> Seq<Seq<char>> {
        texts(self.ids@)
    }

    /// The id list holds each id once, and holds exactly the ids under which
    /// a record is stored; so it is as long as there are records.
    pub proof fn lemma_order_matches_records(&self)
        requires
            self.wf(),
        ensures
            self.order().no_duplicates(),
            forall|k: Seq<char>| #[trigger]
                self.records().contains_key(k) <==> self.order().contains(k),
            self.records().dom() == self.order().to_set(),
            self.records().dom().finite(),
            self.records().len() == self.order().len(),
    {
        assert(self.records().dom() =~= self.order().to_set());
        self.order().unique_seq_to_set();
    }

    /// Reading back the id list and, in the same order, the record stored
    /// under each id gives parts from which the same records are rebuilt.
    pub proof fn lemma_reads_back(&self, ids: Seq<String>, rows: Seq<R>)
        requires
            self.wf(),
            texts(ids) == self.order(),
            rows.len() == ids.len(),
            forall|i: int| #![trigger rows[i]] 0 <= i < ids.len() ==> rows[i] == self.records()[ids[i]@],
        ensures
            texts(ids).no_duplicates(),
            map_of(ids, rows) == self.records(),
    {
        assert(texts(ids).len() == ids.len());
        lemma_map_of(ids, rows);
        assert forall|k: Seq<char>| #[trigger] map_of(ids, rows).contains_key(k) implies map_of(ids, rows)[k]
            == self.records()[k] by {
            let j = choose|j: int| 0 <= j < texts(ids).len() && texts(ids)[j] == k;
            assert(ids[j]@ == k);
            assert(rows[j] == self.records()[ids[j]@]);
        }
        assert(map_of(ids, rows) =~= self.records());
    }

    /// An empty table.
    pub fn new() -> (t: Self)
        ensures
            t.wf(),
            t.records() == Map::<Seq<char>, R>::empty(),
            t.order() == Seq::<Seq<char>>::empty(),
    {
        let t = Table { ids: Vec::new(), rows: Vec::new(), map: Ghost(Map::empty()) };
        assert(texts(t.ids@) =~= Seq::<Seq<char>>::empty());
        t
    }

    /// The table that storing `rows[i]` under `ids[i]`, for each `i` in
    /// order, leaves, if the lists have the same length and no id occurs
    /// twice.
    pub fn from_parts(ids: Vec<String>, rows: Vec<R>) -> (r: Option<Self>)
        ensures
            r is Some <==> ids.len() == rows.len() && texts(ids@).no_duplicates(),
            r matches Some(t) ==> {
                &&& t.wf()
                &&& t.records() == map_of(ids@, rows@)
                &&& t.order() == texts(ids@)
            },
    {
        if ids.len() != rows.len() {
            return None;
        }
        if !all_distinct(&ids) {
            return None;
        }
        proof {
            lemma_map_of(ids@, rows@);
        }
        Some(Table { ids, rows, map: Ghost(map_of(ids@, rows@)) })
    }

    /// Whether a record is stored under `id`.
    pub fn contains(&self, id: &String) -> (r: bool)
        requires
            self.wf(),
        ensures
            r == self.records().contains_key(id@),
    {
        has_id(&self.ids, id)
    }

    /// The record stored under `id`, if any.
    pub fn get(&self, id: &String) -> (r: Option<&R>)
        requires
            self.wf(),
        ensures
            r == (if self.records().contains_key(id@) {
                Some(&self.records()[id@])
            } else {
                None
            }),
    {
        match position(&self.ids, id) {
            Some(i) => Some(&self.rows[i]),
            None => None,
        }
    }

    /// Stores `row` under `id`, which holds no record yet; the id goes to the
    /// end of the id list.
    pub fn push(&mut self, id: String, row: R)
        requires
            old(self).wf(),
            !old(self).records().contains_key(id@),
        ensures
            final(self).wf(),
            final(self).records() == old(self).records().insert(id@, row),
            final(self).order() == old(self).order().push(id@),
    {
        let ghost key = id@;
        let ghost value = row;
        proof {
            lemma_texts_push(self.ids@, id);
        }
        self.ids.push(id);
        self.rows.push(row);
        proof {
            self.map@ = self.map@.insert(key, value);
            assert forall|i: int|
                #![trigger self.ids@[i]]
                0 <= i < self.ids.len() implies self.map@[self.ids@[i]@] == self.rows@[i] by {
                if i < self.ids.len() - 1 {
                    assert(old(self).ids@[i] == self.ids@[i]);
                    assert(texts(old(self).ids@).contains(self.ids@[i]@)) by {
                        assert(texts(old(self).ids@)[i] == self.ids@[i]@);
                    }
                }
            }
            let t0 = texts(old(self).ids@);
            assert(texts(self.ids@) == t0.push(key));
            assert forall|k: Seq<char>| #[trigger]
                self.map@.contains_key(k) <==> texts(self.ids@).contains(k) by {
                if k == key {
                    assert(t0.push(key)[t0.len() as int] == key);
                } else {
                    if t0.contains(k) {
                        let j = choose|j: int| 0 <= j < t0.len() && t0[j] == k;
                        assert(t0.push(key)[j] == k);
                    }
                    if t0.push(key).contains(k) {
                        let j = choose|j: int| 0 <= j < t0.len() + 1 && t0.push(key)[j] == k;
                        assert(t0[j] == k);
                    }
                }
            }
        }
    }

    /// Replaces the record stored under `id`, which holds one; the id list
    /// stays as it is.
    pub fn set(&mut self, id: &String, row: R)
        requires
            old(self).wf(),
            old(self).records().contains_key(id@),
        ensures
            final(self).wf(),
            final(self).records() == old(self).records().insert(id@, row),
            final(self).order() == old(self).order(),
    {
        let ghost value = row;
        match position(&self.ids, id) {
            Some(i) => {
                self.rows.set(i, row);
                proof {
                    self.map@ = self.map@.insert(id@, value);
                    assert forall|j: int|
                        #![trigger self.ids@[j]]
                        0 <= j < self.ids.len() implies self.map@[self.ids@[j]@] == self.rows@[j] by {
                        if j != i {
                            assert(texts(self.ids@)[j] != texts(self.ids@)[i as int]);
                        }
                    }
                }
            },
            None => {},
        }
    }

    /// The id list, in the order in which the ids were first stored.
    pub fn ids(&self) -> (r: Vec<String>)
        ensures
            texts(r@) == self.order(),
    {
        copy_texts(&self.ids)
    }
}

/// How many records of `m` satisfy `p`.
pub open spec fn count_where<R>(m: Map<Seq<char>, R>, p: spec_fn(R) -> bool) -> nat {
    m.dom().filter(|k: Seq<char>| p(m[k])).len()
}

/// Storing `v` under `k` changes the number of records that satisfy `p` by
/// what `v`, and the record it replaces if any, contribute.
pub proof fn lemma_count_where_insert<R>(m: Map<Seq<char>, R>, p: spec_fn(R) -> bool, k: Seq<char>, v: R)
    requires
        m.dom().finite(),
    ensures
        count_where(m.insert(k, v), p) + (if m.contains_key(k) && p(m[k]) {
            1int
        } else {
            0int
        }) == count_where(m, p) + (if p(v) {
            1int
        } else {
            0int
        }),
{
    let m2 = m.insert(k, v);
    let a = m.dom().filter(|j: Seq<char>| p(m[j]));
    let b = m2.dom().filter(|j: Seq<char>| p(m2[j]));
    m.dom().lemma_len_filter(|j: Seq<char>| p(m[j]));
    if p(v) {
        assert(b =~= a.insert(k));
    } else {
        assert(b =~= a.remove(k));
    }
}

/// A set of flags, each naming a record id and an account: the pairs for
/// which a one-time action (a registration, an approval, a contribution)
/// has been taken, in the order in which they were set.
pub struct FlagSet {
    pairs: Vec<(String, String)>,
}

/// The text of both members of each pair, in order.
pub open spec fn pair_texts(list: Seq<(String, String)>) -> Seq<(Seq<char>, Seq<char>)> {
    list.map_values(|p: (String, String)| (p.0@, p.1@))
}

/// How many flags of `flags` name the record `id`.
pub open spec fn flags_for(flags: Seq<(Seq<char>, Seq<char>)>, id: Seq<char>) -> nat {
    flags.filter(names(id)).len()
}

/// Whether a flag names the record `id`.
pub open spec fn names(id: Seq<char>) -> spec_fn((Seq<char>, Seq<char>)) -> bool {
    |p: (Seq<char>, Seq<char>)| p.0 == id
}

/// Setting one more flag adds one to the count of the record it names and
/// leaves the count of every other record as it was.
pub proof fn lemma_flags_for_push(
    flags: Seq<(Seq<char>, Seq<char>)>,
    flag: (Seq<char>, Seq<char>),
    id: Seq<char>,
)
    ensures
        flags_for(flags.push(flag), id) == flags_for(flags, id) + (if flag.0 == id {
            1nat
        } else {
            0nat
        }),
{
    flags.lemma_filter_push(flag, names(id));
}

/// Every flag names a stored record of `m`, and the count `c` of every stored
/// record is the number of flags that name it.
pub open spec fn flags_counted<R>(
    m: Map<Seq<char>, R>,
    flags: Seq<(Seq<char>, Seq<char>)>,
    c: spec_fn(R) -> nat,
) -> bool {
    &&& forall|i: int| 0 <= i < flags.len() ==> m.contains_key(#[trigger] flags[i].0)
    &&& forall|k: Seq<char>| #[trigger] m.contains_key(k) ==> c(m[k]) == flags_for(flags, k)
}

/// A new record whose count is zero keeps the counts right.
pub proof fn lemma_flags_counted_new<R>(
    m: Map<Seq<char>, R>,
    flags: Seq<(Seq<char>, Seq<char>)>,
    c: spec_fn(R) -> nat,
    k: Seq<char>,
    v: R,
)
    requires
        flags_counted(m, flags, c),
        !m.contains_key(k),
        c(v) == 0,
    ensures
        flags_counted(m.insert(k, v), flags, c),
{
    assert(flags.all(|p: (Seq<char>, Seq<char>)| !names(k)(p)));
    flags.lemma_all_neg_filter_empty(names(k));
}

/// Replacing a record by one with the same count keeps the counts right.
pub proof fn lemma_flags_counted_same<R>(
    m: Map<Seq<char>, R>,
    flags: Seq<(Seq<char>, Seq<char>)>,
    c: spec_fn(R) -> nat,
    k: Seq<char>,
    v: R,
)
    requires
        flags_counted(m, flags, c),
        m.contains_key(k),
        c(v) == c(m[k]),
    ensures
        flags_counted(m.insert(k, v), flags, c),
{
}

/// Setting a flag for a stored record while its count grows by one keeps the
/// counts right.
pub proof fn lemma_flags_counted_push<R>(
    m: Map<Seq<char>, R>,
    flags: Seq<(Seq<char>, Seq<char>)>,
    c: spec_fn(R) -> nat,
    k: Seq<char>,
    who: Seq<char>,
    v: R,
)
    requires
        flags_counted(m, flags, c),
        m.contains_key(k),
        c(v) == c(m[k]) + 1,
    ensures
        flags_counted(m.insert(k, v), flags.push((k, who)), c),
{
    let m2 = m.insert(k, v);
    let f2 = flags.push((k, who));
    assert forall|i: int| 0 <= i < f2.len() implies m2.contains_key(#[trigger] f2[i].0) by {
        if i < flags.len() {
            assert(f2[i] == flags[i]);
        }
    }
    assert forall|j: Seq<char>| #[trigger] m2.contains_key(j) implies c(m2[j]) == flags_for(f2, j) by {
        lemma_flags_for_push(flags, (k, who), j);
    }
}

/// The sum, over the ids of `ids`, of the count `c` of the record stored
/// under each id in `m`.
pub open spec fn sum_counts<R>(ids: Seq<Seq<char>>, m: Map<Seq<char>, R>, c: spec_fn(R) -> nat) -> nat
    decreases ids.len(),
{
    if ids.len() == 0 {
        0
    } else {
        sum_counts(ids.drop_last(), m, c) + c(m[ids.last()])
    }
}

/// The sum, over the ids of `ids`, of the number of flags naming each id.
pub open spec fn sum_flags(ids: Seq<Seq<char>>, flags: Seq<(Seq<char>, Seq<char>)>) -> nat
    decreases ids.len(),
{
    if ids.len() == 0 {
        0
    } else {
        sum_flags(ids.drop_last(), flags) + flags_for(flags, ids.last())
    }
}

/// With no flag set, no id has a flag.
proof fn lemma_sum_flags_empty(ids: Seq<Seq<char>>)
    ensures
        sum_flags(ids, Seq::<(Seq<char>, Seq<char>)>::empty()) == 0,
    decreases ids.len(),
{
    if ids.len() > 0 {
        lemma_sum_flags_empty(ids.drop_last());
        assert(Seq::<(Seq<char>, Seq<char>)>::empty().filter(names(ids.last())) =~= Seq::<
            (Seq<char>, Seq<char>),
        >::empty()) by {
            reveal(Seq::filter);
        }
    }
}

/// Setting one more flag adds one to the sum over a list of distinct ids
/// when the list holds the id that the flag names, and nothing otherwise.
proof fn lemma_sum_flags_push(
    ids: Seq<Seq<char>>,
    flags: Seq<(Seq<char>, Seq<char>)>,
    flag: (Seq<char>, Seq<char>),
)
    requires
        ids.no_duplicates(),
    ensures
        sum_flags(ids, flags.push(flag)) == sum_flags(ids, flags) + (if ids.contains(flag.0) {
            1nat
        } else {
            0nat
        }),
    decreases ids.len(),
{
    if ids.len() > 0 {
        let rest = ids.drop_last();
        assert(rest.no_duplicates()) by {
            assert forall|i: int, j: int| 0 <= i < rest.len() && 0 <= j < rest.len() && i != j implies rest[i]
                != rest[j] by {
                assert(rest[i] == ids[i] && rest[j] == ids[j]);
            }
        }
        lemma_sum_flags_push(rest, flags, flag);
        lemma_flags_for_push(flags, flag, ids.last());
        if ids.contains(flag.0) {
            let i = choose|i: int| 0 <= i < ids.len() && ids[i] == flag.0;
            if i == ids.len() - 1 {
                assert forall|j: int| 0 <= j < rest.len() implies rest[j] != flag.0 by {
                    assert(rest[j] == ids[j]);
                }
            } else {
                assert(rest[i] == flag.0);
                assert(ids.last() != flag.0);
            }
        } else {
            assert forall|j: int| 0 <= j < rest.len() implies rest[j] != flag.0 by {
                assert(rest[j] == ids[j]);
            }
            assert(ids.last() != flag.0);
        }
    }
}

/// Over a list of distinct ids that holds the id named by every flag, the
/// number of flags naming each id sums to the number of flags.
pub proof fn lemma_sum_flags_all(ids: Seq<Seq<char>>, flags: Seq<(Seq<char>, Seq<char>)>)
    requires
        ids.no_duplicates(),
        forall|i: int| 0 <= i < flags.len() ==> ids.contains(#[trigger] flags[i].0),
    ensures
        sum_flags(ids, flags) == flags.len(),
    decreases flags.len(),
{
    if flags.len() == 0 {
        assert(flags =~= Seq::<(Seq<char>, Seq<char>)>::empty());
        lemma_sum_flags_empty(ids);
    } else {
        let rest = flags.drop_last();
        assert forall|i: int| 0 <= i < rest.len() implies ids.contains(#[trigger] rest[i].0) by {
            assert(rest[i] == flags[i]);
        }
        lemma_sum_flags_all(ids, rest);
        assert(ids.contains(flags[flags.len() - 1].0));
        assert(rest.push(flags.last()) =~= flags);
        lemma_sum_flags_push(ids, rest, flags.last());
    }
}

/// Where each stored record's count is the number of its flags, summing the
/// counts over stored ids is summing their flags.
pub proof fn lemma_sum_counts_flags<R>(
    ids: Seq<Seq<char>>,
    m: Map<Seq<char>, R>,
    flags: Seq<(Seq<char>, Seq<char>)>,
    c: spec_fn(R) -> nat,
)
    requires
        flags_counted(m, flags, c),
        forall|i: int| 0 <= i < ids.len() ==> m.contains_key(#[trigger] ids[i]),
    ensures
        sum_counts(ids, m, c) == sum_flags(ids, flags),
    decreases ids.len(),
{
    if ids.len() > 0 {
        let rest = ids.drop_last();
        assert forall|i: int| 0 <= i < rest.len() implies m.contains_key(#[trigger] rest[i]) by {
            assert(rest[i] == ids[i]);
        }
        lemma_sum_counts_flags(rest, m, flags, c);
        assert(m.contains_key(ids[ids.len() - 1]));
    }
}

/// Every flag of `a` is also a flag of `b`.
pub open spec fn all_within(a: Seq<(Seq<char>, Seq<char>)>, b: Seq<(Seq<char>, Seq<char>)>) -> bool {
    forall|i: int| 0 <= i < a.len() ==> b.contains(#[trigger] a[i])
}

/// Setting a flag of `b` keeps every flag of `a` within `b`.
pub proof fn lemma_within_push_outer(
    a: Seq<(Seq<char>, Seq<char>)>,
    b: Seq<(Seq<char>, Seq<char>)>,
    x: (Seq<char>, Seq<char>),
)
    requires
        all_within(a, b),
    ensures
        all_within(a, b.push(x)),
{
    assert forall|i: int| 0 <= i < a.len() implies b.push(x).contains(#[trigger] a[i]) by {
        let j = choose|j: int| 0 <= j < b.len() && b[j] == a[i];
        assert(b.push(x)[j] == a[i]);
    }
}

/// Setting in `a` a flag that `b` holds keeps `a` within `b`.
pub proof fn lemma_within_push_inner(
    a: Seq<(Seq<char>, Seq<char>)>,
    b: Seq<(Seq<char>, Seq<char>)>,
    x: (Seq<char>, Seq<char>),
)
    requires
        all_within(a, b),
        b.contains(x),
    ensures
        all_within(a.push(x), b),
{
    assert forall|i: int| 0 <= i < a.push(x).len() implies b.contains(#[trigger] a.push(x)[i]) by {
        if i < a.len() {
            assert(a.push(x)[i] == a[i]);
        }
    }
}

/// What a filter keeps comes from the sequence filtered, in the same
/// number or fewer, and once each if the sequence holds each once.
proof fn lemma_filter_keeps<A>(s: Seq<A>, p: spec_fn(A) -> bool)
    ensures
        forall|i: int| 0 <= i < s.filter(p).len() ==> s.contains(#[trigger] s.filter(p)[i]),
        s.no_duplicates() ==> s.filter(p).no_duplicates(),
    decreases s.len(),
{
    if s.len() == 0 {
        reveal(Seq::filter);
    } else {
        let r = s.drop_last();
        let x = s.last();
        lemma_filter_keeps(r, p);
        assert(s =~= r.push(x));
        r.lemma_filter_push(x, p);
        let fr = r.filter(p);
        assert forall|i: int| 0 <= i < s.filter(p).len() implies s.contains(#[trigger] s.filter(p)[i]) by {
            if i < fr.len() {
                assert(s.filter(p)[i] == fr[i]);
                let j = choose|j: int| 0 <= j < r.len() && r[j] == fr[i];
                assert(s[j] == r[j]);
            } else {
                assert(s[s.len() - 1] == x);
            }
        }
        if s.no_duplicates() {
            assert(r.no_duplicates());
            if p(x) {
                assert forall|i: int| 0 <= i < fr.len() implies fr[i] != x by {
                    let j = choose|j: int| 0 <= j < r.len() && r[j] == fr[i];
                    assert(s[j] == r[j]);
                }
            }
        }
    }
}

/// When every flag of `a`, each set once, is also a flag of `b`, no record
/// has more flags in `a` than in `b`.
pub proof fn lemma_flags_for_within(
    a: Seq<(Seq<char>, Seq<char>)>,
    b: Seq<(Seq<char>, Seq<char>)>,
    id: Seq<char>,
)
    requires
        a.no_duplicates(),
        all_within(a, b),
    ensures
        flags_for(a, id) <= flags_for(b, id),
{
    let fa = a.filter(names(id));
    let fb = b.filter(names(id));
    broadcast use vstd::seq_lib::group_filter_ensures;

    lemma_filter_keeps(a, names(id));
    assert forall|x: (Seq<char>, Seq<char>)| fa.to_set().contains(x) implies fb.to_set().contains(x) by {
        let i = choose|i: int| 0 <= i < fa.len() && fa[i] == x;
        assert(a.contains(x));
        assert(names(id)(x));
        let j = choose|j: int| 0 <= j < a.len() && a[j] == x;
        assert(b.contains(a[j]));
        let k = choose|k: int| 0 <= k < b.len() && b[k] == x;
        assert(fb.contains(b[k]));
    }
    fa.unique_seq_to_set();
    fb.lemma_cardinality_of_set();
    vstd::seq_lib::seq_to_set_is_finite(fb);
    vstd::set_lib::lemma_len_subset(fa.to_set(), fb.to_set());
}

/// When every flag of `a`, each set once, is also a flag of `b`, and `b`
/// holds a flag that `a` lacks, the record that flag names has fewer flags
/// in `a` than in `b`.
pub proof fn lemma_flags_for_within_strict(
    a: Seq<(Seq<char>, Seq<char>)>,
    b: Seq<(Seq<char>, Seq<char>)>,
    x: (Seq<char>, Seq<char>),
)
    requires
        a.no_duplicates(),
        all_within(a, b),
        b.contains(x),
        !a.contains(x),
    ensures
        flags_for(a, x.0) < flags_for(b, x.0),
{
    let ax = a.push(x);
    assert(ax.no_duplicates()) by {
        assert forall|i: int, j: int| 0 <= i < ax.len() && 0 <= j < ax.len() && i != j implies ax[i]
            != ax[j] by {
            if i < a.len() && j < a.len() {
                assert(ax[i] == a[i] && ax[j] == a[j]);
            } else if i < a.len() {
                assert(ax[i] == a[i]);
            } else {
                assert(ax[j] == a[j]);
            }
        }
    }
    lemma_within_push_inner(a, b, x);
    lemma_flags_for_within(ax, b, x.0);
    lemma_flags_for_push(a, x, x.0);
}

impl FlagSet {
    /// Each flag is set at most once.
    pub closed spec fn wf(&self) -> bool {
        pair_texts(self.pairs@).no_duplicates()
    }

    /// The flags set so far, in the order in which they were set.
    pub closed spec fn flags(&self) -> Seq<(Seq<char>, Seq<char>)> {
        pair_texts(self.pairs@)
    }

    /// Each flag is set at most once.
    pub proof fn lemma_set_once(&self)
        requires
            self.wf(),
        ensures
            self.flags().no_duplicates(),
    {
    }

    /// No flag is set.
    pub fn new() -> (s: Self)
        ensures
            s.wf(),
            s.flags() == Seq::<(Seq<char>, Seq<char>)>::empty(),
    {
        let s = FlagSet { pairs: Vec::new() };
        assert(pair_texts(s.pairs@) =~= Seq::<(Seq<char>, Seq<char>)>::empty());
        s
    }

    /// The flags `pairs`, in order, if none occurs twice.
    pub fn from_pairs(pairs: Vec<(String, String)>) -> (r: Option<Self>)
        ensures
            r is Some <==> pair_texts(pairs@).no_duplicates(),
            r matches Some(f) ==> f.wf() && f.flags() == pair_texts(pairs@),
    {
        let mut i: usize = 0;
        while i < pairs.len()
            invariant
                i <= pairs.len(),
                forall|a: int, b: int| 0 <= a < b < i ==> pair_texts(pairs@)[a] != pair_texts(pairs@)[b],
            decreases pairs.len() - i,
        {
            let mut j: usize = 0;
            while j < i
                invariant
                    i < pairs.len(),
                    j <= i,
                    forall|a: int| 0 <= a < j ==> pair_texts(pairs@)[a] != pair_texts(pairs@)[i as int],
                decreases i - j,
            {
                if pairs[j].0 == pairs[i].0 && pairs[j].1 == pairs[i].1 {
                    assert(pair_texts(pairs@)[j as int] == pair_texts(pairs@)[i as int]);
                    return None;
                }
                j += 1;
            }
            i += 1;
        }
        assert forall|a: int, b: int|
            0 <= a < pair_texts(pairs@).len() && 0 <= b < pair_texts(pairs@).len() && a != b implies pair_texts(
            pairs@,
        )[a] != pair_texts(pairs@)[b] by {
            if a < b {
                assert(pair_texts(pairs@)[a] != pair_texts(pairs@)[b]);
            } else {
                assert(pair_texts(pairs@)[b] != pair_texts(pairs@)[a]);
            }
        }
        Some(FlagSet { pairs })
    }

    /// A copy of the flags, in the order in which they were set.
    pub fn pairs(&self) -> (r: Vec<(String, String)>)
        ensures
            pair_texts(r@) == self.flags(),
    {
        let mut r: Vec<(String, String)> = Vec::new();
        let mut i: usize = 0;
        while i < self.pairs.len()
            invariant
                i <= self.pairs.len(),
                pair_texts(r@) == self.flags().take(i as int),
            decreases self.pairs.len() - i,
        {
            let ghost before = r@;
            r.push((self.pairs[i].0.clone(), self.pairs[i].1.clone()));
            assert(pair_texts(r@) =~= pair_texts(before).push(self.flags()[i as int]));
            assert(self.flags().take(i + 1) =~= self.flags().take(i as int).push(self.flags()[i as int]));
            i += 1;
        }
        assert(self.flags().take(self.pairs.len() as int) =~= self.flags());
        r
    }

    /// How many flags are set.
    pub fn len(&self) -> (r: usize)
        ensures
            r == self.flags().len(),
    {
        self.pairs.len()
    }

    /// How many flags name the record `id`.
    pub fn count_for(&self, id: &String) -> (r: usize)
        ensures
            r == flags_for(self.flags(), id@),
    {
        let mut n: usize = 0;
        let mut i: usize = 0;
        proof {
            reveal(Seq::filter);
            assert(self.flags().take(0) =~= Seq::<(Seq<char>, Seq<char>)>::empty());
        }
        while i < self.pairs.len()
            invariant
                i <= self.pairs.len(),
                n == flags_for(self.flags().take(i as int), id@),
                n <= i,
            decreases self.pairs.len() - i,
        {
            proof {
                assert(self.flags().take(i + 1) =~= self.flags().take(i as int).push(self.flags()[i as int]));
                lemma_flags_for_push(self.flags().take(i as int), self.flags()[i as int], id@);
            }
            if self.pairs[i].0 == *id {
                n = n + 1;
            }
            i += 1;
        }
        assert(self.flags().take(self.pairs.len() as int) =~= self.flags());
        n
    }

    /// Whether the flag for record `id` and account `who` is set.
    pub fn contains(&self, id: &String, who: &String) -> (r: bool)
        ensures
            r == self.flags().contains((id@, who@)),
    {
        let mut i: usize = 0;
        while i < self.pairs.len()
            invariant
                i <= self.pairs.len(),
                forall|j: int| 0 <= j < i ==> self.flags()[j] != (id@, who@),
            decreases self.pairs.len() - i,
        {
            if self.pairs[i].0 == *id && self.pairs[i].1 == *who {
                assert(self.flags()[i as int] == (id@, who@));
                return true;
            }
            i += 1;
        }
        false
    }

    /// Sets the flag for record `id` and account `who`, which is not set yet.
    pub fn insert(&mut self, id: String, who: String)
        requires
            old(self).wf(),
            !old(self).flags().contains((id@, who@)),
        ensures
            final(self).wf(),
            final(self).flags() == old(self).flags().push((id@, who@)),
    {
        let ghost flag = (id@, who@);
        self.pairs.push((id, who));
        assert(pair_texts(self.pairs@) =~= pair_texts(old(self).pairs@).push(flag));
    }
}

/// Whether every flag of `flags` names a record stored in `table`.
pub fn flags_name_stored<R>(flags: &FlagSet, table: &Table<R>) -> (r: bool)
    requires
        table.wf(),
    ensures
        r == (forall|i: int|
            0 <= i < flags.flags().len() ==> table.records().contains_key(#[trigger] flags.flags()[i].0)),
{
    let mut i: usize = 0;
    while i < flags.pairs.len()
        invariant
            table.wf(),
            i <= flags.pairs.len(),
            forall|j: int| 0 <= j < i ==> table.records().contains_key(#[trigger] flags.flags()[j].0),
        decreases flags.pairs.len() - i,
    {
        assert(flags.flags()[i as int].0 == flags.pairs@[i as int].0@);
        if !table.contains(&flags.pairs[i].0) {
            return false;
        }
        i += 1;
    }
    true
}

/// Whether every flag of `a` is also a flag of `b`.
pub fn flags_within(a: &FlagSet, b: &FlagSet) -> (r: bool)
    ensures
        r == all_within(a.flags(), b.flags()),
{
    let mut i: usize = 0;
    while i < a.pairs.len()
        invariant
            i <= a.pairs.len(),
            forall|j: int| 0 <= j < i ==> b.flags().contains(#[trigger] a.flags()[j]),
        decreases a.pairs.len() - i,
    {
        assert(a.flags()[i as int] == (a.pairs@[i as int].0@, a.pairs@[i as int].1@));
        if !b.contains(&a.pairs[i].0, &a.pairs[i].1) {
            return false;
        }
        i += 1;
    }
    true
}

} // verus!
