//! The store's governing properties, each proved from the operation
//! specifications in `store`.

use crate::store::counter_ok;
use crate::store::counter_total;
use crate::store::create_result;
use crate::store::delete_result;
use crate::store::init_result;
use crate::store::lemma_lookup_first_index;
use crate::store::lemma_lookup_none_iff;
use crate::store::lemma_lookup_prefix_miss;
use crate::store::lemma_lookup_push;
use crate::store::lemma_remove_id_at;
use crate::store::lemma_update_records_at;
use crate::store::lookup;
use crate::store::read_result;
use crate::store::record_matches;
use crate::store::record_with_update;
use crate::store::unique_ids;
use crate::store::update_result;
use crate::store::ErrorCode;
use crate::store::RecordStore;
use crate::store::RecordView;
use crate::store::StoreView;
use crate::store::TextView;
use crate::store::MAX_CONTENT_LEN;
use crate::store::MAX_TITLE_LEN;
use crate::addr::pda_derivation;
use crate::addr::record_seeds;
use vstd::prelude::*;

verus! {

/// In every well-formed store the counter equals the number of live
/// records.  Each successful create raises both by one and each successful
/// delete lowers both by one, so after N creates and D deletes the counter
/// reads N - D; being a count of records it can never go below zero.
pub proof fn lemma_counter_counts_records(s: RecordStore)
    requires
        s.inv(),
    ensures
        match s@.counter {
            Some(c) => c.total_text_created == s@.records.len(),
            None => s@.records.len() == 0,
        },
{
}

/// A successful create advances the counter by exactly one and adds
/// exactly one record.
pub proof fn lemma_create_advances_counter(
    s: StoreView,
    caller: Seq<u8>,
    title: Seq<char>,
    content: Seq<char>,
    now: i64,
    s2: StoreView,
    id: u64,
)
    requires
        counter_total(s) < u64::MAX,
        create_result(s, caller, title, content, now) == Ok::<(StoreView, u64), ErrorCode>(
            (s2, id),
        ),
    ensures
        counter_total(s2) == counter_total(s) + 1,
        s2.records.len() == s.records.len() + 1,
        id == counter_total(s),
{
}

/// A successful delete steps the counter back by exactly one and removes
/// exactly one record.
pub proof fn lemma_delete_decrements_counter(s: StoreView, id: u64, caller: Seq<u8>, s2: StoreView)
    requires
        counter_total(s) >= 1,
        delete_result(s, id, caller) == Ok::<StoreView, ErrorCode>(s2),
    ensures
        counter_total(s2) == counter_total(s) - 1,
        s2.records.len() == s.records.len() - 1,
{
    let r = lookup(s.records, id)->Some_0;
    let i = lemma_lookup_first_index(s.records, id, r);
    lemma_remove_id_at(s.records, id, i);
}

/// A created record's address is a reproducible function of its captured
/// id: re-deriving from that id yields exactly the address and bump seed
/// fixed at creation.
pub proof fn lemma_address_round_trip(
    s: StoreView,
    caller: Seq<u8>,
    title: Seq<char>,
    content: Seq<char>,
    now: i64,
    s2: StoreView,
    id: u64,
)
    requires
        create_result(s, caller, title, content, now) == Ok::<(StoreView, u64), ErrorCode>(
            (s2, id),
        ),
    ensures
        lookup(s2.records, id) is Some,
        record_matches(s2.program_id, lookup(s2.records, id)->Some_0),
        lookup(s2.records, id)->Some_0.address == pda_derivation(
            record_seeds(id),
            s2.program_id,
        )->Some_0.0,
{
    let c = s.counter->Some_0;
    let ab = pda_derivation(record_seeds(c.total_text_created), s.program_id)->Some_0;
    let fresh = RecordView {
        text: TextView {
            id: c.total_text_created,
            owner: caller,
            title: title,
            content: content,
            created_at: now,
            updated_at: now,
            bump: ab.1,
        },
        address: ab.0,
    };
    lemma_lookup_push(s.records, fresh, id);
}

/// Update never changes id, owner or creation time, puts the new title and
/// content in place, and — with a clock that has not stepped back — never
/// lowers the update time.
pub proof fn lemma_update_preserves_identity(
    s: StoreView,
    id: u64,
    caller: Seq<u8>,
    new_title: Seq<char>,
    new_content: Seq<char>,
    now: i64,
    s2: StoreView,
)
    requires
        update_result(s, id, caller, new_title, new_content, now) == Ok::<StoreView, ErrorCode>(
            s2,
        ),
        now >= lookup(s.records, id)->Some_0.text.updated_at,
    ensures
        lookup(s2.records, id) is Some,
        ({
            let before = lookup(s.records, id)->Some_0.text;
            let after = lookup(s2.records, id)->Some_0.text;
            after.id == before.id && after.owner == before.owner && after.created_at
                == before.created_at && after.updated_at >= before.updated_at && after.title
                == new_title && after.content == new_content
        }),
{
    let r = lookup(s.records, id)->Some_0;
    let i = lemma_lookup_first_index(s.records, id, r);
    lemma_update_records_at(s.records, id, new_title, new_content, now, i);
    let upd = s.records.update(i, record_with_update(s.records[i], new_title, new_content, now));
    assert(forall|j: int| 0 <= j < i ==> upd[j].text.id != id);
    lemma_lookup_prefix_miss(upd, id, i);
    assert(upd.skip(i)[0] == upd[i]);
}

/// Once gone, gone: after a successful delete, a read of the same id fails
/// because no record is found at the derived address.
pub proof fn lemma_delete_then_read(s: StoreView, id: u64, caller: Seq<u8>, s2: StoreView)
    requires
        unique_ids(s.records),
        delete_result(s, id, caller) == Ok::<StoreView, ErrorCode>(s2),
    ensures
        read_result(s2, id) == Err::<TextView, ErrorCode>(ErrorCode::RecordNotFound),
{
    let r = lookup(s.records, id)->Some_0;
    let i = lemma_lookup_first_index(s.records, id, r);
    lemma_remove_id_at(s.records, id, i);
    assert(forall|k: int|
        0 <= k < s2.records.len() ==> s2.records[k] == (if k < i {
            s.records[k]
        } else {
            s.records[k + 1]
        }));
    lemma_lookup_none_iff(s2.records, id);
    assert(counter_ok(s2));
}

/// Update by any identity other than the owner is refused as unauthorized;
/// the update contract then leaves the store unchanged.
pub proof fn lemma_update_requires_owner(
    s: StoreView,
    id: u64,
    caller: Seq<u8>,
    new_title: Seq<char>,
    new_content: Seq<char>,
    now: i64,
)
    requires
        lookup(s.records, id) matches Some(r) && record_matches(s.program_id, r) && r.text.owner
            != caller,
    ensures
        update_result(s, id, caller, new_title, new_content, now) == Err::<StoreView, ErrorCode>(
            ErrorCode::Unauthorized,
        ),
{
}

/// Delete by an identity that is neither the record's owner nor the
/// administrator is refused as unauthorized.
pub proof fn lemma_delete_requires_authority(s: StoreView, id: u64, caller: Seq<u8>)
    requires
        counter_ok(s),
        s.counter matches Some(c) && c.admin != caller,
        lookup(s.records, id) matches Some(r) && record_matches(s.program_id, r) && r.text.owner
            != caller,
    ensures
        delete_result(s, id, caller) == Err::<StoreView, ErrorCode>(ErrorCode::Unauthorized),
{
}

/// A second initialization always fails, whoever the caller is.
pub proof fn lemma_initialize_once(
    s: StoreView,
    caller1: Seq<u8>,
    s2: StoreView,
    caller2: Seq<u8>,
)
    requires
        init_result(s, caller1) == Ok::<StoreView, ErrorCode>(s2),
    ensures
        init_result(s2, caller2) == Err::<StoreView, ErrorCode>(ErrorCode::AlreadyInitialized),
{
}

/// An oversize title or content is refused at create time; the create
/// contract then leaves the store unchanged, so nothing is persisted and
/// the counter does not move.
pub proof fn lemma_create_rejects_oversize(
    s: StoreView,
    caller: Seq<u8>,
    title: Seq<char>,
    content: Seq<char>,
    now: i64,
)
    requires
        title.len() > MAX_TITLE_LEN || content.len() > MAX_CONTENT_LEN,
    ensures
        create_result(s, caller, title, content, now) is Err,
        counter_ok(s) && title.len() > MAX_TITLE_LEN ==> create_result(
            s,
            caller,
            title,
            content,
            now,
        ) == Err::<(StoreView, u64), ErrorCode>(ErrorCode::TitleTooLong),
        counter_ok(s) && title.len() <= MAX_TITLE_LEN && content.len() > MAX_CONTENT_LEN
            ==> create_result(s, caller, title, content, now) == Err::<
            (StoreView, u64),
            ErrorCode,
        >(ErrorCode::ContentTooLong),
{
}

} // verus!
