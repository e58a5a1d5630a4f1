//! The record store: a global creation counter plus individually addressed,
//! individually owned records, with a create / read / update / delete
//! lifecycle.  Every operation is specified against a ghost view of the
//! store, and every access re-derives and re-checks the address and bump
//! seed of what it touches before trusting it.

use crate::addr::bytes_eq;
use crate::addr::derive_global;
use crate::addr::derive_record;
use crate::addr::global_seeds;
use crate::addr::pda_derivation;
use crate::addr::record_seeds;
use crate::addr::AccountId;
use vstd::prelude::*;
use vstd::string::StrSliceExecFns;

verus! {

/// Longest admissible title, in characters.
pub const MAX_TITLE_LEN: usize = 50;

/// Longest admissible content, in characters.
pub const MAX_CONTENT_LEN: usize = 1000;

/// Why an operation was refused.  Every operation either fully applies or
/// returns one of these with the store unchanged.
#[derive(Clone, Copy, Debug, PartialEq, Eq, Structural)]
pub enum ErrorCode {
    /// A second initialization was attempted.
    AlreadyInitialized,
    /// The global counter is missing, or its stored address or bump seed
    /// does not match re-derivation.
    InvalidCounterRecord,
    /// No record exists at the address derived from the given id, or the
    /// record's stored address or bump seed does not match re-derivation.
    RecordNotFound,
    /// The title exceeds `MAX_TITLE_LEN` characters.
    TitleTooLong,
    /// The content exceeds `MAX_CONTENT_LEN` characters.
    ContentTooLong,
    /// The caller is not permitted to perform this mutation.
    Unauthorized,
    /// A record already sits at the address derived for the new id.
    RecordAlreadyExists,
    /// The address search found no usable bump seed (statistically
    /// improbable, but the derivation primitive allows for it).
    DerivationFailed,
}

/// The global counter record: who initialized the store and how many
/// records currently exist.
#[derive(Debug)]
pub struct GlobalState {
    /// The identity that performed first-time initialization; immutable.
    pub admin: AccountId,
    /// Monotonic count of live records: incremented on create, decremented
    /// on delete.
    pub total_text_created: u64,
    /// The bump seed stored at creation and re-checked on every access.
    pub bump: u8,
}

/// One stored record.
#[derive(Debug)]
pub struct Text {
    /// The counter value captured at creation; tags this record's address.
    pub id: u64,
    /// The identity that created the record; immutable.
    pub owner: AccountId,
    pub title: String,
    pub content: String,
    pub created_at: i64,
    pub updated_at: i64,
    /// The bump seed stored at creation and re-checked on every access.
    pub bump: u8,
}

/// The global counter together with the address it was stored at.
#[derive(Debug)]
pub struct StoredCounter {
    pub data: GlobalState,
    pub address: Vec<u8>,
}

/// A record together with the address it was stored at.
#[derive(Debug)]
pub struct StoredRecord {
    pub data: Text,
    pub address: Vec<u8>,
}

/// The mathematical image of a `Text`.
#[verifier::ext_equal]
pub ghost struct TextView {
    pub id: u64,
    pub owner: Seq<u8>,
    pub title: Seq<char>,
    pub content: Seq<char>,
    pub created_at: i64,
    pub updated_at: i64,
    pub bump: u8,
}

/// The mathematical image of a stored record: its contents and address.
#[verifier::ext_equal]
pub ghost struct RecordView {
    pub text: TextView,
    pub address: Seq<u8>,
}

/// The mathematical image of the global counter: its contents and address.
#[verifier::ext_equal]
pub ghost struct CounterView {
    pub admin: Seq<u8>,
    pub total_text_created: u64,
    pub bump: u8,
    pub address: Seq<u8>,
}

/// The mathematical image of the whole store.
#[verifier::ext_equal]
pub ghost struct StoreView {
    pub program_id: Seq<u8>,
    pub counter: Option<CounterView>,
    pub records: Seq<RecordView>,
}

impl View for Text {
    type V = TextView;

    open spec fn view(&self) -> TextView {
        TextView {
            id: self.id,
            owner: self.owner@,
            title: self.title@,
            content: self.content@,
            created_at: self.created_at,
            updated_at: self.updated_at,
            bump: self.bump,
        }
    }
}

impl View for StoredRecord {
    type V = RecordView;

    open spec fn view(&self) -> RecordView {
        RecordView { text: self.data@, address: self.address@ }
    }
}

impl View for StoredCounter {
    type V = CounterView;

    open spec fn view(&self) -> CounterView {
        CounterView {
            admin: self.data.admin@,
            total_text_created: self.data.total_text_created,
            bump: self.data.bump,
            address: self.address@,
        }
    }
}

/// The record store.  `counter` is meaningful only while `initialized`
/// holds; the view maps an uninitialized store to `counter == None`.
pub struct RecordStore {
    /// The 32-byte id of the deriving program: part of every address.
    pub program_id: AccountId,
    pub initialized: bool,
    pub counter: StoredCounter,
    pub records: Vec<StoredRecord>,
}

impl View for RecordStore {
    type V = StoreView;

    open spec fn view(&self) -> StoreView {
        StoreView {
            program_id: self.program_id@,
            counter: if self.initialized {
                Some(self.counter@)
            } else {
                None
            },
            records: self.records@.map_values(|r: StoredRecord| r@),
        }
    }
}

/// The stored counter matches re-derivation: address and bump seed both.
pub open spec fn counter_matches(program: Seq<u8>, c: CounterView) -> bool {
    pda_derivation(global_seeds(), program) == Some((c.address, c.bump))
}

/// The counter exists and matches re-derivation.
pub open spec fn counter_ok(s: StoreView) -> bool {
    match s.counter {
        Some(c) => counter_matches(s.program_id, c),
        None => false,
    }
}

/// The stored record matches re-derivation from its own id.
pub open spec fn record_matches(program: Seq<u8>, r: RecordView) -> bool {
    pda_derivation(record_seeds(r.text.id), program) == Some((r.address, r.text.bump))
}

/// The number of records the counter claims, or 0 before initialization.
pub open spec fn counter_total(s: StoreView) -> u64 {
    match s.counter {
        Some(c) => c.total_text_created,
        None => 0,
    }
}

/// The first record with the given id, searching front to back.
pub open spec fn lookup(s: Seq<RecordView>, id: u64) -> Option<RecordView>
    decreases s.len(),
{
    if s.len() == 0 {
        None
    } else if s[0].text.id == id {
        Some(s[0])
    } else {
        lookup(s.drop_first(), id)
    }
}

/// The sequence with the first record of the given id removed.
pub open spec fn remove_id(s: Seq<RecordView>, id: u64) -> Seq<RecordView>
    decreases s.len(),
{
    if s.len() == 0 {
        s
    } else if s[0].text.id == id {
        s.drop_first()
    } else {
        seq![s[0]] + remove_id(s.drop_first(), id)
    }
}

/// A record after a successful update: new title, content and update time;
/// id, owner, creation time, bump seed and address untouched.
pub open spec fn record_with_update(
    r: RecordView,
    new_title: Seq<char>,
    new_content: Seq<char>,
    now: i64,
) -> RecordView {
    RecordView {
        text: TextView { title: new_title, content: new_content, updated_at: now, ..r.text },
        ..r
    }
}

/// The sequence with the first record of the given id updated.
pub open spec fn update_records(
    s: Seq<RecordView>,
    id: u64,
    new_title: Seq<char>,
    new_content: Seq<char>,
    now: i64,
) -> Seq<RecordView>
    decreases s.len(),
{
    if s.len() == 0 {
        s
    } else if s[0].text.id == id {
        s.update(0, record_with_update(s[0], new_title, new_content, now))
    } else {
        seq![s[0]] + update_records(s.drop_first(), id, new_title, new_content, now)
    }
}

/// No two records share an id.
pub open spec fn unique_ids(s: Seq<RecordView>) -> bool {
    forall|i: int, j: int| 0 <= i < j < s.len() ==> s[i].text.id != s[j].text.id
}

/// What `initialize` does to the store: the new store on success, the error
/// with the store unchanged otherwise.
pub open spec fn init_result(s: StoreView, caller: Seq<u8>) -> Result<StoreView, ErrorCode> {
    if s.counter is Some {
        Err(ErrorCode::AlreadyInitialized)
    } else {
        match pda_derivation(global_seeds(), s.program_id) {
            Some(ab) => Ok(
                StoreView {
                    counter: Some(
                        CounterView {
                            admin: caller,
                            total_text_created: 0,
                            bump: ab.1,
                            address: ab.0,
                        },
                    ),
                    ..s
                },
            ),
            None => Err(ErrorCode::DerivationFailed),
        }
    }
}

/// What `create_text` does to the store: the new store and the fresh
/// record's id on success, the error otherwise.
pub open spec fn create_result(
    s: StoreView,
    caller: Seq<u8>,
    title: Seq<char>,
    content: Seq<char>,
    now: i64,
) -> Result<(StoreView, u64), ErrorCode> {
    match s.counter {
        None => Err(ErrorCode::InvalidCounterRecord),
        Some(c) => if !counter_matches(s.program_id, c) {
            Err(ErrorCode::InvalidCounterRecord)
        } else if title.len() > MAX_TITLE_LEN {
            Err(ErrorCode::TitleTooLong)
        } else if content.len() > MAX_CONTENT_LEN {
            Err(ErrorCode::ContentTooLong)
        } else {
            match pda_derivation(record_seeds(c.total_text_created), s.program_id) {
                None => Err(ErrorCode::DerivationFailed),
                Some(ab) => if lookup(s.records, c.total_text_created) is Some {
                    Err(ErrorCode::RecordAlreadyExists)
                } else {
                    let fresh = RecordView {
                        text: TextView {
                            id: c.total_text_created,
                            owner: caller,
                            title: title,
                            content: content,
                            created_at: now,
                            updated_at: now,
                            bump: ab.1,
                        },
                        address: ab.0,
                    };
                    Ok(
                        (
                            StoreView {
                                counter: Some(
                                    CounterView {
                                        total_text_created: (c.total_text_created + 1) as u64,
                                        ..c
                                    },
                                ),
                                records: s.records.push(fresh),
                                ..s
                            },
                            c.total_text_created,
                        ),
                    )
                },
            }
        },
    }
}

/// What `read` returns: a snapshot of the record, or the error.
pub open spec fn read_result(s: StoreView, id: u64) -> Result<TextView, ErrorCode> {
    if !counter_ok(s) {
        Err(ErrorCode::InvalidCounterRecord)
    } else {
        match lookup(s.records, id) {
            None => Err(ErrorCode::RecordNotFound),
            Some(r) => if record_matches(s.program_id, r) {
                Ok(r.text)
            } else {
                Err(ErrorCode::RecordNotFound)
            },
        }
    }
}

/// What `update` does to the store.  The counter plays no part: the record
/// is found and checked through its own derived address.
pub open spec fn update_result(
    s: StoreView,
    id: u64,
    caller: Seq<u8>,
    new_title: Seq<char>,
    new_content: Seq<char>,
    now: i64,
) -> Result<StoreView, ErrorCode> {
    match lookup(s.records, id) {
        None => Err(ErrorCode::RecordNotFound),
        Some(r) => if !record_matches(s.program_id, r) {
            Err(ErrorCode::RecordNotFound)
        } else if r.text.owner != caller {
            Err(ErrorCode::Unauthorized)
        } else if new_title.len() > MAX_TITLE_LEN {
            Err(ErrorCode::TitleTooLong)
        } else if new_content.len() > MAX_CONTENT_LEN {
            Err(ErrorCode::ContentTooLong)
        } else {
            Ok(
                StoreView {
                    records: update_records(s.records, id, new_title, new_content, now),
                    ..s
                },
            )
        },
    }
}

/// What `delete` does to the store.  Deletion is granted to the record's
/// owner and to the administrator alike: the administrator has deletion
/// rights over every record regardless of its owner, so the two conditions
/// combine as an or, not as a joint requirement.
pub open spec fn delete_result(s: StoreView, id: u64, caller: Seq<u8>) -> Result<
    StoreView,
    ErrorCode,
> {
    match s.counter {
        None => Err(ErrorCode::InvalidCounterRecord),
        Some(c) => if !counter_matches(s.program_id, c) {
            Err(ErrorCode::InvalidCounterRecord)
        } else {
            match lookup(s.records, id) {
                None => Err(ErrorCode::RecordNotFound),
                Some(r) => if !record_matches(s.program_id, r) {
                    Err(ErrorCode::RecordNotFound)
                } else if r.text.owner != caller && c.admin != caller {
                    Err(ErrorCode::Unauthorized)
                } else {
                    Ok(
                        StoreView {
                            counter: Some(
                                CounterView {
                                    total_text_created: (c.total_text_created - 1) as u64,
                                    ..c
                                },
                            ),
                            records: remove_id(s.records, id),
                            ..s
                        },
                    )
                },
            }
        },
    }
}

/// Records before an index that all miss the id do not affect the search.
pub proof fn lemma_lookup_prefix_miss(s: Seq<RecordView>, id: u64, i: int)
    requires
        0 <= i <= s.len(),
        forall|j: int| 0 <= j < i ==> s[j].text.id != id,
    ensures
        lookup(s, id) == lookup(s.skip(i), id),
    decreases i,
{
    if i > 0 {
        lemma_lookup_prefix_miss(s.drop_first(), id, i - 1);
        assert(s.drop_first().skip(i - 1) =~= s.skip(i));
    } else {
        assert(s.skip(0) =~= s);
    }
}

/// The search misses exactly when no record carries the id.
pub proof fn lemma_lookup_none_iff(s: Seq<RecordView>, id: u64)
    ensures
        (lookup(s, id) is None) <==> (forall|i: int| 0 <= i < s.len() ==> s[i].text.id != id),
    decreases s.len(),
{
    if s.len() > 0 {
        lemma_lookup_none_iff(s.drop_first(), id);
        assert(forall|i: int| 1 <= i < s.len() ==> s[i] == s.drop_first()[i - 1]);
    }
}

/// A found record sits at a first-match index.
pub proof fn lemma_lookup_first_index(s: Seq<RecordView>, id: u64, r: RecordView) -> (i: int)
    requires
        lookup(s, id) == Some(r),
    ensures
        0 <= i < s.len(),
        s[i] == r,
        s[i].text.id == id,
        forall|j: int| 0 <= j < i ==> s[j].text.id != id,
    decreases s.len(),
{
    if s[0].text.id == id {
        0
    } else {
        let k = lemma_lookup_first_index(s.drop_first(), id, r);
        assert(forall|j: int| 1 <= j < s.len() ==> s[j] == s.drop_first()[j - 1]);
        k + 1
    }
}

/// Appending a record changes the search only for its own id, and only if
/// that id was absent.
pub proof fn lemma_lookup_push(s: Seq<RecordView>, r: RecordView, id: u64)
    ensures
        lookup(s.push(r), id) == (if lookup(s, id) is Some {
            lookup(s, id)
        } else if r.text.id == id {
            Some(r)
        } else {
            None::<RecordView>
        }),
    decreases s.len(),
{
    if s.len() == 0 {
        assert(s.push(r)[0] == r);
        assert(s.push(r).drop_first() =~= Seq::<RecordView>::empty());
    } else {
        assert(s.push(r)[0] == s[0]);
        assert(s.push(r).drop_first() =~= s.drop_first().push(r));
        lemma_lookup_push(s.drop_first(), r, id);
    }
}

/// Removing the first match of an id at index `i` removes exactly that
/// element.
pub proof fn lemma_remove_id_at(s: Seq<RecordView>, id: u64, i: int)
    requires
        0 <= i < s.len(),
        s[i].text.id == id,
        forall|j: int| 0 <= j < i ==> s[j].text.id != id,
    ensures
        remove_id(s, id) == s.remove(i),
    decreases i,
{
    if i == 0 {
        assert(remove_id(s, id) =~= s.remove(0));
    } else {
        assert(forall|j: int| 1 <= j < s.len() ==> s[j] == s.drop_first()[j - 1]);
        lemma_remove_id_at(s.drop_first(), id, i - 1);
        assert(seq![s[0]] + s.drop_first().remove(i - 1) =~= s.remove(i));
    }
}

/// Updating the first match of an id at index `i` updates exactly that
/// element.
pub proof fn lemma_update_records_at(
    s: Seq<RecordView>,
    id: u64,
    new_title: Seq<char>,
    new_content: Seq<char>,
    now: i64,
    i: int,
)
    requires
        0 <= i < s.len(),
        s[i].text.id == id,
        forall|j: int| 0 <= j < i ==> s[j].text.id != id,
    ensures
        update_records(s, id, new_title, new_content, now) == s.update(
            i,
            record_with_update(s[i], new_title, new_content, now),
        ),
    decreases i,
{
    if i == 0 {
        assert(update_records(s, id, new_title, new_content, now) =~= s.update(
            0,
            record_with_update(s[0], new_title, new_content, now),
        ));
    } else {
        assert(forall|j: int| 1 <= j < s.len() ==> s[j] == s.drop_first()[j - 1]);
        lemma_update_records_at(s.drop_first(), id, new_title, new_content, now, i - 1);
        assert(seq![s[0]] + s.drop_first().update(
            i - 1,
            record_with_update(s[i], new_title, new_content, now),
        ) =~= s.update(i, record_with_update(s[i], new_title, new_content, now)));
    }
}

impl RecordStore {
    /// Well-formedness: a 32-byte program id, the counter counting exactly
    /// the live records, ids unique, and every record within bounds.
    pub open spec fn inv(self) -> bool {
        &&& self.program_id@.len() == 32
        &&& match self@.counter {
            Some(c) => c.total_text_created == self@.records.len(),
            None => self@.records.len() == 0,
        }
        &&& unique_ids(self@.records)
        &&& forall|i: int|
            0 <= i < self@.records.len() ==> (#[trigger] self@.records[i]).text.title.len()
                <= MAX_TITLE_LEN && self@.records[i].text.content.len() <= MAX_CONTENT_LEN
    }

    /// An empty, uninitialized store for the given deriving program.
    pub fn new(program_id: AccountId) -> (r: RecordStore)
        requires
            program_id@.len() == 32,
        ensures
            r.inv(),
            r@.program_id == program_id@,
            r@.counter is None,
            r@.records =~= Seq::<RecordView>::empty(),
    {
        let r = RecordStore {
            program_id,
            initialized: false,
            counter: StoredCounter {
                data: GlobalState {
                    admin: AccountId { bytes: Vec::new() },
                    total_text_created: 0,
                    bump: 0,
                },
                address: Vec::new(),
            },
            records: Vec::new(),
        };
        proof {
            assert(r@.records =~= Seq::<RecordView>::empty());
        }
        r
    }

    /// The number of records the counter claims; 0 before initialization.
    pub fn total_created(&self) -> (r: u64)
        ensures
            r == counter_total(self@),
    {
        if self.initialized {
            self.counter.data.total_text_created
        } else {
            0
        }
    }

    /// Whether the global counter has been set up.
    pub fn is_initialized(&self) -> (r: bool)
        ensures
            r == (self@.counter is Some),
    {
        self.initialized
    }

    /// The counter exists and its stored address and bump seed match
    /// re-derivation.
    fn counter_valid(&self) -> (r: bool)
        requires
            self.program_id@.len() == 32,
        ensures
            r == counter_ok(self@),
    {
        if !self.initialized {
            return false;
        }
        match derive_global(&self.program_id.bytes) {
            None => false,
            Some((address, bump)) => {
                let same = bytes_eq(&address, &self.counter.address);
                same && bump == self.counter.data.bump
            },
        }
    }

    /// The record's stored address and bump seed match re-derivation from
    /// its own id.
    fn record_valid(&self, rec: &StoredRecord) -> (r: bool)
        requires
            self.program_id@.len() == 32,
        ensures
            r == record_matches(self@.program_id, rec@),
    {
        match derive_record(&self.program_id.bytes, rec.data.id) {
            None => false,
            Some((address, bump)) => {
                let same = bytes_eq(&address, &rec.address);
                same && bump == rec.data.bump
            },
        }
    }

    /// Sets up the global counter exactly once.  A second call fails with
    /// `AlreadyInitialized` whoever the caller is.
    pub fn initialize(&mut self, caller: AccountId) -> (r: Result<(), ErrorCode>)
        requires
            old(self).inv(),
        ensures
            final(self).inv(),
            match r {
                Ok(()) => init_result(old(self)@, caller@) == Ok::<StoreView, ErrorCode>(
                    final(self)@,
                ),
                Err(e) => final(self)@ == old(self)@ && init_result(old(self)@, caller@) == Err::<
                    StoreView,
                    ErrorCode,
                >(e),
            },
    {
        if self.initialized {
            return Err(ErrorCode::AlreadyInitialized);
        }
        match derive_global(&self.program_id.bytes) {
            None => Err(ErrorCode::DerivationFailed),
            Some((address, bump)) => {
                self.counter = StoredCounter {
                    data: GlobalState { admin: caller, total_text_created: 0, bump },
                    address,
                };
                self.initialized = true;
                proof {
                    let s2 = init_result(old(self)@, caller@)->Ok_0;
                    assert(self@ =~~= s2);
                }
                Ok(())
            },
        }
    }

    /// The position of the record with the given id, if any.
    fn find_record(&self, id: u64) -> (r: Option<usize>)
        ensures
            match r {
                Some(i) => i < self.records@.len() && self@.records[i as int].text.id == id
                    && (forall|j: int| 0 <= j < i ==> self@.records[j].text.id != id) && lookup(
                    self@.records,
                    id,
                ) == Some(self@.records[i as int]),
                None => lookup(self@.records, id) is None,
            },
    {
        let ghost recs = self@.records;
        let n = self.records.len();
        let mut i: usize = 0;
        while i < n
            invariant
                n == recs.len(),
                recs == self@.records,
                i <= n,
                forall|j: int| 0 <= j < i ==> recs[j].text.id != id,
            decreases n - i,
        {
            if self.records[i].data.id == id {
                proof {
                    lemma_lookup_prefix_miss(recs, id, i as int);
                    assert(recs.skip(i as int)[0] == recs[i as int]);
                }
                return Some(i);
            }
            i = i + 1;
        }
        proof {
            lemma_lookup_prefix_miss(recs, id, n as int);
            assert(recs.skip(n as int) =~= Seq::<RecordView>::empty());
        }
        None
    }

    /// A snapshot of the record with the given id.  Read is public: no
    /// authorization check, no mutation.
    pub fn read(&self, id: u64) -> (r: Result<Text, ErrorCode>)
        requires
            self.inv(),
        ensures
            match r {
                Ok(t) => read_result(self@, id) == Ok::<TextView, ErrorCode>(t@),
                Err(e) => read_result(self@, id) == Err::<TextView, ErrorCode>(e),
            },
    {
        if !self.counter_valid() {
            return Err(ErrorCode::InvalidCounterRecord);
        }
        match self.find_record(id) {
            None => Err(ErrorCode::RecordNotFound),
            Some(i) => {
                let rec = &self.records[i];
                if !self.record_valid(rec) {
                    return Err(ErrorCode::RecordNotFound);
                }
                let t = Text {
                    id: rec.data.id,
                    owner: rec.data.owner.clone(),
                    title: rec.data.title.clone(),
                    content: rec.data.content.clone(),
                    created_at: rec.data.created_at,
                    updated_at: rec.data.updated_at,
                    bump: rec.data.bump,
                };
                proof {
                    assert(t@ =~~= self@.records[i as int].text);
                }
                Ok(t)
            },
        }
    }

    /// Creates a fresh record owned by the caller.  The record's address is
    /// derived from the counter value current at this call, which becomes
    /// the record's permanent id; the counter then advances by one.
    pub fn create_text(
        &mut self,
        title: String,
        content: String,
        caller: AccountId,
        now: i64,
    ) -> (r: Result<u64, ErrorCode>)
        requires
            old(self).inv(),
            counter_total(old(self)@) < u64::MAX,
        ensures
            final(self).inv(),
            match r {
                Ok(id) => create_result(old(self)@, caller@, title@, content@, now) == Ok::<
                    (StoreView, u64),
                    ErrorCode,
                >((final(self)@, id)),
                Err(e) => final(self)@ == old(self)@ && create_result(
                    old(self)@,
                    caller@,
                    title@,
                    content@,
                    now,
                ) == Err::<(StoreView, u64), ErrorCode>(e),
            },
    {
        if !self.counter_valid() {
            return Err(ErrorCode::InvalidCounterRecord);
        }
        if title.as_str().unicode_len() > MAX_TITLE_LEN {
            return Err(ErrorCode::TitleTooLong);
        }
        if content.as_str().unicode_len() > MAX_CONTENT_LEN {
            return Err(ErrorCode::ContentTooLong);
        }
        let id = self.counter.data.total_text_created;
        match derive_record(&self.program_id.bytes, id) {
            None => Err(ErrorCode::DerivationFailed),
            Some((address, bump)) => {
                if self.find_record(id).is_some() {
                    return Err(ErrorCode::RecordAlreadyExists);
                }
                let ghost prev = self@;
                let fresh = StoredRecord {
                    data: Text {
                        id,
                        owner: caller,
                        title,
                        content,
                        created_at: now,
                        updated_at: now,
                        bump,
                    },
                    address,
                };
                let ghost fresh_view = fresh@;
                self.records.push(fresh);
                self.counter.data.total_text_created = id + 1;
                proof {
                    assert(self@.records =~= prev.records.push(fresh_view));
                    let s2 = create_result(prev, caller@, title@, content@, now)->Ok_0.0;
                    assert(self@ =~~= s2);
                    lemma_lookup_none_iff(prev.records, id);
                    assert(forall|k: int|
                        0 <= k < prev.records.len() ==> self@.records[k] == prev.records[k]);
                    assert(final(self).inv());
                }
                Ok(id)
            },
        }
    }

    /// Overwrites the record's title and content and stamps the update
    /// time.  Only the owner may update; id, owner and creation time are
    /// untouched, and the counter plays no part.
    pub fn update(
        &mut self,
        id: u64,
        new_title: String,
        new_content: String,
        caller: AccountId,
        now: i64,
    ) -> (r: Result<(), ErrorCode>)
        requires
            old(self).inv(),
        ensures
            final(self).inv(),
            match r {
                Ok(()) => update_result(old(self)@, id, caller@, new_title@, new_content@, now)
                    == Ok::<StoreView, ErrorCode>(final(self)@),
                Err(e) => final(self)@ == old(self)@ && update_result(
                    old(self)@,
                    id,
                    caller@,
                    new_title@,
                    new_content@,
                    now,
                ) == Err::<StoreView, ErrorCode>(e),
            },
    {
        match self.find_record(id) {
            None => Err(ErrorCode::RecordNotFound),
            Some(i) => {
                if !self.record_valid(&self.records[i]) {
                    return Err(ErrorCode::RecordNotFound);
                }
                if !bytes_eq(&self.records[i].data.owner.bytes, &caller.bytes) {
                    return Err(ErrorCode::Unauthorized);
                }
                if new_title.as_str().unicode_len() > MAX_TITLE_LEN {
                    return Err(ErrorCode::TitleTooLong);
                }
                if new_content.as_str().unicode_len() > MAX_CONTENT_LEN {
                    return Err(ErrorCode::ContentTooLong);
                }
                let ghost prev = self@;
                let mut rec = self.records.remove(i);
                rec.data.title = new_title;
                rec.data.content = new_content;
                rec.data.updated_at = now;
                self.records.insert(i, rec);
                proof {
                    lemma_update_records_at(
                        prev.records,
                        id,
                        new_title@,
                        new_content@,
                        now,
                        i as int,
                    );
                    assert(self@.records =~= prev.records.update(
                        i as int,
                        record_with_update(prev.records[i as int], new_title@, new_content@, now),
                    ));
                    let s2 = update_result(prev, id, caller@, new_title@, new_content@, now)->Ok_0;
                    assert(self@ =~~= s2);
                    assert(final(self).inv());
                }
                Ok(())
            },
        }
    }

    /// Removes the record for good; the storage substrate then refunds the
    /// record's deposit to whoever called.  Deletion is granted to the
    /// record's owner and to the administrator alike; the counter steps
    /// back by one.
    pub fn delete(&mut self, id: u64, caller: AccountId) -> (r: Result<(), ErrorCode>)
        requires
            old(self).inv(),
        ensures
            final(self).inv(),
            match r {
                Ok(()) => delete_result(old(self)@, id, caller@) == Ok::<StoreView, ErrorCode>(
                    final(self)@,
                ),
                Err(e) => final(self)@ == old(self)@ && delete_result(old(self)@, id, caller@)
                    == Err::<StoreView, ErrorCode>(e),
            },
    {
        if !self.counter_valid() {
            return Err(ErrorCode::InvalidCounterRecord);
        }
        match self.find_record(id) {
            None => Err(ErrorCode::RecordNotFound),
            Some(i) => {
                if !self.record_valid(&self.records[i]) {
                    return Err(ErrorCode::RecordNotFound);
                }
                let owner_ok = bytes_eq(&self.records[i].data.owner.bytes, &caller.bytes);
                let admin_ok = bytes_eq(&self.counter.data.admin.bytes, &caller.bytes);
                if !owner_ok && !admin_ok {
                    return Err(ErrorCode::Unauthorized);
                }
                let ghost prev = self@;
                let _removed = self.records.remove(i);
                self.counter.data.total_text_created = self.counter.data.total_text_created - 1;
                proof {
                    lemma_remove_id_at(prev.records, id, i as int);
                    assert(self@.records =~= prev.records.remove(i as int));
                    let s2 = delete_result(prev, id, caller@)->Ok_0;
                    assert(self@ =~~= s2);
                    assert(forall|k: int|
                        0 <= k < self@.records.len() ==> self@.records[k] == (if k < i {
                            prev.records[k]
                        } else {
                            prev.records[k + 1]
                        }));
                    assert(final(self).inv());
                }
                Ok(())
            },
        }
    }
}

} // verus!
