//! Per-key harvest state and the state store.
//!
//! For every event key exactly one record tracks the last harvested
//! sequence number (stored as decimal digits), the last harvested kind
//! tag, and an expiry timestamp.  Creation and update are merged into a
//! single idempotent upsert, and the expiry is written only when the
//! record is first created — it bounds the record's total lifetime and is
//! never pushed forward by later saves.
//!
//! [`StateStore`] is the verified model of the backing table: the shell
//! that talks to the real table performs the same get-or-create and upsert
//! transitions, encoding and decoding records with the same functions
//! ([`state_from_fields`], [`crate::digits::u64_to_dec`], [`ttl_for`]).

use vstd::prelude::*;

use crate::bytestr::copy_bytes;
use crate::digits::{all_digits, dec_digits, dec_value, lemma_dec_digits_value, parse_u64, u64_to_dec};
use crate::errors::{HarvestError, StateField};

verus! {

/// Seconds in the seven-day expiry window granted at record creation.
pub const EXPIRY_WINDOW_SECS: u64 = 604800;

/// Per event-key counter record, as the decision engine works with it.
pub struct HarvestState {
    /// Last harvested sequence number; non-negative and monotonically
    /// non-decreasing for a given key.
    pub last_harvested_match: u64,
    /// Last harvested kind tag, carried forward unless updated.
    pub last_harvested_match_type: Vec<u8>,
}

/// Mathematical image of a [`HarvestState`].
pub ghost struct StateView {
    pub last_harvested_match: u64,
    pub last_harvested_match_type: Seq<u8>,
}

impl View for HarvestState {
    type V = StateView;

    open spec fn view(&self) -> StateView {
        StateView {
            last_harvested_match: self.last_harvested_match,
            last_harvested_match_type: self.last_harvested_match_type@,
        }
    }
}

/// The kind tag a key carries before anything was harvested for it
/// (`none`).
pub open spec fn kind_none() -> Seq<u8> {
    seq![110u8, 111u8, 110u8, 101u8]
}

/// The state a never-seen key starts from: sequence `0`, kind `none`.
pub open spec fn fresh_state_view() -> StateView {
    StateView { last_harvested_match: 0, last_harvested_match_type: kind_none() }
}

impl HarvestState {
    /// The state a never-seen key starts from.
    pub fn fresh() -> (r: HarvestState)
        ensures
            r@ == fresh_state_view(),
    {
        let mut kind: Vec<u8> = Vec::new();
        kind.push(110);
        kind.push(111);
        kind.push(110);
        kind.push(101);
        proof {
            assert(kind@ =~= kind_none());
        }
        HarvestState { last_harvested_match: 0, last_harvested_match_type: kind }
    }

    /// A copy with the same sequence and kind.
    pub fn duplicate(&self) -> (r: HarvestState)
        ensures
            r@ == self@,
    {
        HarvestState {
            last_harvested_match: self.last_harvested_match,
            last_harvested_match_type: copy_bytes(&self.last_harvested_match_type),
        }
    }
}

/// One row of the state table.
pub struct StoredRecord {
    /// Primary key.
    pub event_key: Vec<u8>,
    /// Sequence counter, as decimal digits.
    pub last_harvested_match: Vec<u8>,
    /// Kind tag.
    pub last_harvested_match_type: Vec<u8>,
    /// Expiry timestamp in epoch seconds, written once at creation.
    pub ttl: u64,
}

/// Mathematical image of a [`StoredRecord`].
pub ghost struct RecordView {
    pub event_key: Seq<u8>,
    pub last_harvested_match: Seq<u8>,
    pub last_harvested_match_type: Seq<u8>,
    pub ttl: u64,
}

impl View for StoredRecord {
    type V = RecordView;

    open spec fn view(&self) -> RecordView {
        RecordView {
            event_key: self.event_key@,
            last_harvested_match: self.last_harvested_match@,
            last_harvested_match_type: self.last_harvested_match_type@,
            ttl: self.ttl,
        }
    }
}

/// Model of the state table: a set of records with pairwise distinct keys.
pub struct StateStore {
    /// The rows; [`store_wf`] keeps their keys unique.
    pub records: Vec<StoredRecord>,
}

impl View for StateStore {
    type V = Seq<RecordView>;

    open spec fn view(&self) -> Seq<RecordView> {
        self.records@.map_values(|r: StoredRecord| r@)
    }
}

/// Whether some record carries `key`.
pub open spec fn store_has_key(s: Seq<RecordView>, key: Seq<u8>) -> bool {
    exists|i: int| 0 <= i < s.len() && s[i].event_key == key
}

/// The index of the record carrying `key` (meaningful under [`store_wf`]
/// when [`store_has_key`] holds).
pub open spec fn key_index(s: Seq<RecordView>, key: Seq<u8>) -> int {
    choose|i: int| 0 <= i < s.len() && s[i].event_key == key
}

/// The record carrying `key`.
pub open spec fn record_of(s: Seq<RecordView>, key: Seq<u8>) -> RecordView {
    s[key_index(s, key)]
}

/// Store invariant: for a given key at most one live record exists.
pub open spec fn store_wf(s: Seq<RecordView>) -> bool {
    forall|i: int, j: int|
        #![trigger s[i].event_key, s[j].event_key]
        0 <= i < j < s.len() ==> s[i].event_key != s[j].event_key
}

/// Under [`store_wf`] the record index for a key is unique.
pub proof fn lemma_key_index_unique(s: Seq<RecordView>, key: Seq<u8>, i: int)
    requires
        store_wf(s),
        0 <= i < s.len(),
        s[i].event_key == key,
    ensures
        store_has_key(s, key),
        key_index(s, key) == i,
{
    assert(store_has_key(s, key));
    let j = key_index(s, key);
    assert(0 <= j < s.len() && s[j].event_key == key);
    if i < j {
        assert(s[i].event_key != s[j].event_key);
    } else if j < i {
        assert(s[j].event_key != s[i].event_key);
    }
}

/// The record written for `key` holding `st`, expiring a window after
/// `now`.
pub open spec fn new_record_view(key: Seq<u8>, st: StateView, now: u64) -> RecordView {
    RecordView {
        event_key: key,
        last_harvested_match: dec_digits(st.last_harvested_match as nat),
        last_harvested_match_type: st.last_harvested_match_type,
        ttl: (now + EXPIRY_WINDOW_SECS) as u64,
    }
}

/// The state a record decodes to: its digit string read back as a
/// counter, or a data-format error when it is not a decimal number in
/// counter range.
pub open spec fn parse_record_state(r: RecordView) -> Result<StateView, HarvestError> {
    if r.last_harvested_match.len() > 0 && all_digits(r.last_harvested_match) && dec_value(
        r.last_harvested_match,
    ) <= u64::MAX {
        Ok(
            StateView {
                last_harvested_match: dec_value(r.last_harvested_match) as u64,
                last_harvested_match_type: r.last_harvested_match_type,
            },
        )
    } else {
        Err(HarvestError::MalformedSequence)
    }
}

/// The store contents after a get-or-create for `key`: unchanged when the
/// key is present, else extended by a fresh record.
pub open spec fn store_after_get_or_create(s: Seq<RecordView>, key: Seq<u8>, now: u64) -> Seq<
    RecordView,
> {
    if store_has_key(s, key) {
        s
    } else {
        s.push(new_record_view(key, fresh_state_view(), now))
    }
}

/// What a get-or-create for `key` returns: the decoded existing record,
/// or the fresh state for a never-seen key.
pub open spec fn get_or_create_result(s: Seq<RecordView>, key: Seq<u8>) -> Result<
    StateView,
    HarvestError,
> {
    if store_has_key(s, key) {
        parse_record_state(record_of(s, key))
    } else {
        Ok(fresh_state_view())
    }
}

/// The store contents after an upsert of `st` under `key`: sequence and
/// kind are overwritten, the expiry is kept if the record already existed
/// and set to a window after `now` otherwise.
pub open spec fn store_after_save(s: Seq<RecordView>, key: Seq<u8>, st: StateView, now: u64) -> Seq<
    RecordView,
> {
    if store_has_key(s, key) {
        let i = key_index(s, key);
        s.update(
            i,
            RecordView {
                event_key: key,
                last_harvested_match: dec_digits(st.last_harvested_match as nat),
                last_harvested_match_type: st.last_harvested_match_type,
                ttl: s[i].ttl,
            },
        )
    } else {
        s.push(new_record_view(key, st, now))
    }
}

/// Whether a conditional save keyed on prior sequence `expected` applies.
pub open spec fn conditional_save_applies(s: Seq<RecordView>, key: Seq<u8>, expected: u64) -> bool {
    &&& store_has_key(s, key)
    &&& parse_record_state(record_of(s, key)) matches Ok(v)
    &&& parse_record_state(record_of(s, key))->Ok_0.last_harvested_match == expected
}

/// An upsert leaves the store well formed, with the key present.
pub proof fn lemma_save_preserves_wf(s: Seq<RecordView>, key: Seq<u8>, st: StateView, now: u64)
    requires
        store_wf(s),
    ensures
        store_wf(store_after_save(s, key, st, now)),
        store_has_key(store_after_save(s, key, st, now), key),
        store_has_key(s, key) ==> key_index(store_after_save(s, key, st, now), key) == key_index(
            s,
            key,
        ),
        !store_has_key(s, key) ==> key_index(store_after_save(s, key, st, now), key) == s.len(),
{
    let t = store_after_save(s, key, st, now);
    if store_has_key(s, key) {
        let i = key_index(s, key);
        assert(0 <= i < s.len() && s[i].event_key == key);
        assert(forall|k: int| 0 <= k < t.len() && k != i ==> t[k] == s[k]);
        assert(t[i].event_key == key);
        assert(store_wf(t));
        lemma_key_index_unique(t, key, i);
    } else {
        assert(forall|k: int| 0 <= k < s.len() ==> t[k] == s[k]);
        assert(t[s.len() as int].event_key == key);
        assert(forall|k: int| 0 <= k < s.len() ==> s[k].event_key != key) by {
            assert(!store_has_key(s, key));
        }
        assert(store_wf(t));
        lemma_key_index_unique(t, key, s.len() as int);
    }
}

/// A get-or-create leaves the store well formed.
pub proof fn lemma_get_or_create_preserves_wf(s: Seq<RecordView>, key: Seq<u8>, now: u64)
    requires
        store_wf(s),
    ensures
        store_wf(store_after_get_or_create(s, key, now)),
        store_has_key(store_after_get_or_create(s, key, now), key),
{
    if store_has_key(s, key) {
    } else {
        assert(store_after_get_or_create(s, key, now) == store_after_save(
            s,
            key,
            fresh_state_view(),
            now,
        ));
        lemma_save_preserves_wf(s, key, fresh_state_view(), now);
    }
}

impl StateStore {
    /// An empty store.
    pub fn new() -> (r: StateStore)
        ensures
            r@ == Seq::<RecordView>::empty(),
            store_wf(r@),
    {
        let s = StateStore { records: Vec::new() };
        proof {
            assert(s@ =~= Seq::<RecordView>::empty());
        }
        s
    }

    /// The index of the record carrying `key`, if any.
    fn find_index(&self, key: &Vec<u8>) -> (r: Option<usize>)
        ensures
            r matches Some(i) ==> 0 <= i < self@.len() && self@[i as int].event_key == key@,
            r is Some <==> store_has_key(self@, key@),
    {
        let mut i: usize = 0;
        while i < self.records.len()
            invariant
                0 <= i <= self@.len(),
                self@.len() == self.records@.len(),
                forall|j: int| 0 <= j < i ==> self@[j].event_key != key@,
            decreases self@.len() - i,
        {
            if crate::bytestr::bytes_eq(&self.records[i].event_key, key) {
                assert(self@[i as int].event_key == key@);
                return Some(i);
            }
            i = i + 1;
        }
        assert(!store_has_key(self@, key@));
        None
    }

    /// Returns the state stored under `key`, creating — and writing — the
    /// fresh record for a never-seen key.  Fails only when an existing
    /// record's counter cannot be decoded; it never silently starts over.
    pub fn get_or_create(&mut self, key: &Vec<u8>, now: u64) -> (r: Result<
        HarvestState,
        HarvestError,
    >)
        requires
            store_wf(old(self)@),
            now <= u64::MAX - EXPIRY_WINDOW_SECS,
        ensures
            final(self)@ == store_after_get_or_create(old(self)@, key@, now),
            store_wf(final(self)@),
            r is Ok <==> get_or_create_result(old(self)@, key@) is Ok,
            r matches Ok(st) ==> st@ == get_or_create_result(old(self)@, key@)->Ok_0,
            r matches Err(e) ==> e == get_or_create_result(old(self)@, key@)->Err_0,
    {
        match self.find_index(key) {
            Some(i) => {
                proof {
                    lemma_key_index_unique(self@, key@, i as int);
                }
                let rec = &self.records[i];
                assert(rec@ == record_of(self@, key@));
                match parse_u64(&rec.last_harvested_match) {
                    Some(v) => Ok(
                        HarvestState {
                            last_harvested_match: v,
                            last_harvested_match_type: copy_bytes(&rec.last_harvested_match_type),
                        },
                    ),
                    None => Err(HarvestError::MalformedSequence),
                }
            },
            None => {
                let st = HarvestState::fresh();
                let rec = StoredRecord {
                    event_key: copy_bytes(key),
                    last_harvested_match: u64_to_dec(0),
                    last_harvested_match_type: copy_bytes(&st.last_harvested_match_type),
                    ttl: now + EXPIRY_WINDOW_SECS,
                };
                proof {
                    assert(rec@ == new_record_view(key@, fresh_state_view(), now));
                }
                self.records.push(rec);
                proof {
                    assert(self@ =~= old(self)@.push(new_record_view(key@, fresh_state_view(), now)));
                    lemma_get_or_create_preserves_wf(old(self)@, key@, now);
                }
                Ok(st)
            },
        }
    }

    /// Upserts sequence and kind under `key`.  The expiry window is set
    /// only when the record is first created; a later save never pushes it
    /// forward.
    pub fn save(&mut self, key: &Vec<u8>, st: &HarvestState, now: u64)
        requires
            store_wf(old(self)@),
            now <= u64::MAX - EXPIRY_WINDOW_SECS,
        ensures
            final(self)@ == store_after_save(old(self)@, key@, st@, now),
            store_wf(final(self)@),
    {
        match self.find_index(key) {
            Some(i) => {
                proof {
                    lemma_key_index_unique(self@, key@, i as int);
                }
                let old_rec = self.records.remove(i);
                let rec = StoredRecord {
                    event_key: old_rec.event_key,
                    last_harvested_match: u64_to_dec(st.last_harvested_match),
                    last_harvested_match_type: copy_bytes(&st.last_harvested_match_type),
                    ttl: old_rec.ttl,
                };
                self.records.insert(i, rec);
                proof {
                    assert(self@ =~= store_after_save(old(self)@, key@, st@, now));
                    lemma_save_preserves_wf(old(self)@, key@, st@, now);
                }
            },
            None => {
                let rec = StoredRecord {
                    event_key: copy_bytes(key),
                    last_harvested_match: u64_to_dec(st.last_harvested_match),
                    last_harvested_match_type: copy_bytes(&st.last_harvested_match_type),
                    ttl: now + EXPIRY_WINDOW_SECS,
                };
                self.records.push(rec);
                proof {
                    assert(self@ =~= store_after_save(old(self)@, key@, st@, now));
                    lemma_save_preserves_wf(old(self)@, key@, st@, now);
                }
            },
        }
    }

    /// Compare-and-swap variant of [`StateStore::save`]: applies the
    /// upsert only when the stored sequence still equals `expected`, and
    /// otherwise reports contention and leaves the store unchanged.
    pub fn save_conditional(&mut self, key: &Vec<u8>, expected: u64, st: &HarvestState, now: u64) -> (r:
        Result<(), HarvestError>)
        requires
            store_wf(old(self)@),
            now <= u64::MAX - EXPIRY_WINDOW_SECS,
        ensures
            r is Ok <==> conditional_save_applies(old(self)@, key@, expected),
            r is Ok ==> final(self)@ == store_after_save(old(self)@, key@, st@, now),
            r matches Err(e) ==> final(self)@ == old(self)@ && e == HarvestError::Contention,
            store_wf(final(self)@),
    {
        match self.find_index(key) {
            Some(i) => {
                proof {
                    lemma_key_index_unique(self@, key@, i as int);
                }
                let rec = &self.records[i];
                assert(rec@ == record_of(self@, key@));
                let parsed = parse_u64(&rec.last_harvested_match);
                match parsed {
                    Some(v) => {
                        if v == expected {
                            self.save(key, st, now);
                            Ok(())
                        } else {
                            Err(HarvestError::Contention)
                        }
                    },
                    None => Err(HarvestError::Contention),
                }
            },
            None => Err(HarvestError::Contention),
        }
    }
}

/// Decodes the two state fields of an externally read record.  A missing
/// field is a data-format error naming the field; a counter that is not a
/// decimal number in range is a malformed-sequence error.
pub fn state_from_fields(sequence: Option<Vec<u8>>, kind: Option<Vec<u8>>) -> (r: Result<
    HarvestState,
    HarvestError,
>)
    ensures
        r is Ok <==> (sequence matches Some(s) && kind is Some && s@.len() > 0 && all_digits(s@)
            && dec_value(s@) <= u64::MAX),
        r matches Ok(st) ==> st.last_harvested_match == dec_value(sequence->Some_0@)
            && st.last_harvested_match_type@ == kind->Some_0@,
        r matches Err(e) ==> e == (if sequence is None {
            HarvestError::MissingStateField(StateField::Sequence)
        } else if kind is None {
            HarvestError::MissingStateField(StateField::Kind)
        } else {
            HarvestError::MalformedSequence
        }),
{
    let seq_field = match sequence {
        Some(v) => v,
        None => {
            return Err(HarvestError::MissingStateField(StateField::Sequence));
        },
    };
    let kind_field = match kind {
        Some(v) => v,
        None => {
            return Err(HarvestError::MissingStateField(StateField::Kind));
        },
    };
    match parse_u64(&seq_field) {
        Some(v) => Ok(
            HarvestState { last_harvested_match: v, last_harvested_match_type: kind_field },
        ),
        None => Err(HarvestError::MalformedSequence),
    }
}

/// The expiry timestamp granted to a record created at `now`.
pub fn ttl_for(now: u64) -> (r: u64)
    requires
        now <= u64::MAX - EXPIRY_WINDOW_SECS,
    ensures
        r == now + EXPIRY_WINDOW_SECS,
{
    now + EXPIRY_WINDOW_SECS
}

/// Idempotent creation: a get-or-create for a never-seen key yields
/// sequence `0` and kind `none`, a second one reads the same values back,
/// and the store is not changed again.
pub proof fn lemma_get_or_create_idempotent(s: Seq<RecordView>, key: Seq<u8>, now: u64)
    requires
        store_wf(s),
        !store_has_key(s, key),
    ensures
        get_or_create_result(s, key) == Ok::<StateView, HarvestError>(fresh_state_view()),
        get_or_create_result(store_after_get_or_create(s, key, now), key) == Ok::<
            StateView,
            HarvestError,
        >(fresh_state_view()),
        store_after_get_or_create(store_after_get_or_create(s, key, now), key, now)
            == store_after_get_or_create(s, key, now),
{
    let s1 = store_after_get_or_create(s, key, now);
    lemma_get_or_create_preserves_wf(s, key, now);
    assert(s1[s.len() as int] == new_record_view(key, fresh_state_view(), now));
    lemma_key_index_unique(s1, key, s.len() as int);
    lemma_dec_digits_value(0);
    assert(parse_record_state(record_of(s1, key)) == Ok::<StateView, HarvestError>(
        fresh_state_view(),
    ));
}

/// Round trip: saving a state and reloading it yields the same sequence
/// and kind, while the expiry keeps its prior value for an existing
/// record and is set to one window after `now` for a new one.
pub proof fn lemma_save_round_trip(s: Seq<RecordView>, key: Seq<u8>, st: StateView, now: u64)
    requires
        store_wf(s),
    ensures
        get_or_create_result(store_after_save(s, key, st, now), key) == Ok::<
            StateView,
            HarvestError,
        >(st),
        store_has_key(s, key) ==> record_of(store_after_save(s, key, st, now), key).ttl
            == record_of(s, key).ttl,
        !store_has_key(s, key) ==> record_of(store_after_save(s, key, st, now), key).ttl == (now
            + EXPIRY_WINDOW_SECS) as u64,
{
    let t = store_after_save(s, key, st, now);
    lemma_save_preserves_wf(s, key, st, now);
    lemma_dec_digits_value(st.last_harvested_match as nat);
    if store_has_key(s, key) {
        let i = key_index(s, key);
        assert(record_of(t, key) == t[i]);
        assert(t[i].last_harvested_match == dec_digits(st.last_harvested_match as nat));
        assert(t[i].ttl == s[i].ttl);
    } else {
        assert(record_of(t, key) == t[s.len() as int]);
    }
    assert(parse_record_state(record_of(t, key)) == Ok::<StateView, HarvestError>(st));
}

/// The expiry is set once: created at `t1` and saved again at any later
/// `t2`, a record still expires one window after `t1`.
pub proof fn lemma_ttl_set_once(
    s: Seq<RecordView>,
    key: Seq<u8>,
    st1: StateView,
    st2: StateView,
    t1: u64,
    t2: u64,
)
    requires
        store_wf(s),
        !store_has_key(s, key),
        t1 <= u64::MAX - EXPIRY_WINDOW_SECS,
    ensures
        record_of(store_after_save(store_after_save(s, key, st1, t1), key, st2, t2), key).ttl == t1
            + EXPIRY_WINDOW_SECS,
{
    let s1 = store_after_save(s, key, st1, t1);
    lemma_save_preserves_wf(s, key, st1, t1);
    lemma_save_round_trip(s, key, st1, t1);
    lemma_save_round_trip(s1, key, st2, t2);
}

} // verus!
