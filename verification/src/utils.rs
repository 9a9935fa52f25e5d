//! Helpers shared by the middlewares: version splitting, tag-name
//! conversions, database updates from a typed value, and record collection.

use vstd::prelude::*;

use crate::context::Context;
use crate::database::Database;
use crate::id_tag::IdTag;
use crate::id_users::IdUser;
use crate::records::RecordData;
use crate::t_value::TValue;

verus! {

use crate::be_data::spec_u64_to_be;
use crate::context::{spec_records_set, ContextView, RecordsView};
use crate::database::{db_wf, spec_find_by_id, spec_value_written, DatabaseView, DB_NB_BYTES};
use crate::database_rw::{spec_bool_byte, spec_low_byte_write};
use crate::id_message::{spec_id_tag_of_bytes, spec_version_split};
use crate::records::RecordDataView;
use crate::t_value::{pad_trunc, TValueView};

/// Splits a packed version number into version, revision and edition.
pub fn u32_to_version_revision_edition(version_revision_edition: u32) -> (r: (u16, u16, u16))
    ensures
        r == spec_version_split(version_revision_edition),
{
    crate::id_message::get_version_revision_edition_from_u32(version_revision_edition)
}

/// Builds the key a zone and a five-byte tag name describe; missing name
/// bytes read as 0.
pub fn zone_vec_u8_tag_to_id_tag(zone: u8, vec_u8_tag: &[u8]) -> (r: IdTag)
    ensures
        r == spec_id_tag_of_bytes(zone, vec_u8_tag@),
{
    let n = vec_u8_tag.len();
    let len = if n >= 5 {
        n
    } else {
        5
    };
    let mut p: Vec<u8> = Vec::new();
    let mut i: usize = 0;
    while i < len
        invariant
            0 <= i <= len,
            len == if n >= 5 {
                n
            } else {
                5
            },
            n == vec_u8_tag@.len(),
            p@.len() == i,
            forall|j: int|
                0 <= j < i ==> p@[j] == (if j < vec_u8_tag@.len() {
                    vec_u8_tag@[j]
                } else {
                    0u8
                }),
        decreases len - i,
    {
        if i < n {
            p.push(vec_u8_tag[i]);
        } else {
            p.push(0);
        }
        i += 1;
    }
    proof {
        assert(p@ =~= pad_trunc(vec_u8_tag@, len as nat));
    }
    let num_tag = (p[0] as u16) * 256 + (p[1] as u16);
    IdTag { zone, num_tag, indice_0: p[2], indice_1: p[3], indice_2: p[4] }
}

/// The five bytes naming a tag: two big-endian bytes of its number, then the
/// three indices.
pub open spec fn spec_tag_name_bytes(num_tag: u16, i0: u8, i1: u8, i2: u8) -> Seq<u8> {
    seq![(num_tag / 256) as u8, (num_tag % 256) as u8, i0, i1, i2]
}

/// Writes a tag number and its indices as the five-byte tag name.
pub fn tag_num_indices_to_vec_u8(num_tag: u16, indice_0: u8, indice_1: u8, indice_2: u8) -> (r: Vec<
    u8,
>)
    ensures
        r@ == spec_tag_name_bytes(num_tag, indice_0, indice_1, indice_2),
{
    let mut vec_u8: Vec<u8> = Vec::new();
    vec_u8.push((num_tag / 256) as u8);
    vec_u8.push((num_tag % 256) as u8);
    vec_u8.push(indice_0);
    vec_u8.push(indice_1);
    vec_u8.push(indice_2);
    proof {
        assert(vec_u8@ =~= spec_tag_name_bytes(num_tag, indice_0, indice_1, indice_2));
    }
    vec_u8
}

/// How the database evolves when a typed value is written to a tag key: an
/// unknown key changes nothing; a known key receives the value's bytes at the
/// tag's word address (a float value its bit pattern), with the notifications
/// of that write.
pub open spec fn spec_update_database_rel(
    pre: DatabaseView,
    id_user: IdUser,
    id_tag: IdTag,
    v: TValueView,
    post: DatabaseView,
) -> bool {
    match spec_find_by_id(pre.tags, id_tag) {
        None => post == pre,
        Some(t) => match v {
            TValueView::Bool(b) => spec_value_written(
                pre,
                id_user,
                t.word_address,
                spec_bool_byte(b),
                post,
            ),
            TValueView::U8(x) => (2 * t.word_address + 2 <= DB_NB_BYTES ==> spec_value_written(
                pre,
                id_user,
                t.word_address,
                spec_low_byte_write(pre, t.word_address, x),
                post,
            )) && (2 * t.word_address + 2 > DB_NB_BYTES ==> post == pre),
            TValueView::I8(x) => (2 * t.word_address + 2 <= DB_NB_BYTES ==> spec_value_written(
                pre,
                id_user,
                t.word_address,
                spec_low_byte_write(pre, t.word_address, x as u8),
                post,
            )) && (2 * t.word_address + 2 > DB_NB_BYTES ==> post == pre),
            TValueView::U16(x) => spec_value_written(
                pre,
                id_user,
                t.word_address,
                spec_u64_to_be(x as u64, 2),
                post,
            ),
            TValueView::I16(x) => spec_value_written(
                pre,
                id_user,
                t.word_address,
                spec_u64_to_be(x as u16 as u64, 2),
                post,
            ),
            TValueView::U32(x) => spec_value_written(
                pre,
                id_user,
                t.word_address,
                spec_u64_to_be(x as u64, 4),
                post,
            ),
            TValueView::I32(x) => spec_value_written(
                pre,
                id_user,
                t.word_address,
                spec_u64_to_be(x as u32 as u64, 4),
                post,
            ),
            TValueView::U64(x) => spec_value_written(
                pre,
                id_user,
                t.word_address,
                spec_u64_to_be(x, 8),
                post,
            ),
            TValueView::I64(x) => spec_value_written(
                pre,
                id_user,
                t.word_address,
                spec_u64_to_be(x as u64, 8),
                post,
            ),
            TValueView::F32(bits) => spec_value_written(
                pre,
                id_user,
                t.word_address,
                spec_u64_to_be(bits as u64, 4),
                post,
            ),
            TValueView::F64(bits) => spec_value_written(
                pre,
                id_user,
                t.word_address,
                spec_u64_to_be(bits, 8),
                post,
            ),
            TValueView::VecU8(len, bytes) => spec_value_written(
                pre,
                id_user,
                t.word_address,
                pad_trunc(bytes, len),
                post,
            ),
        },
    }
}

/// Writes a typed value to a tag key: the value's bytes land at the tag's
/// word address (a float value as its bit pattern, a byte string padded or
/// truncated to its nominal length); an unknown key changes nothing.
pub fn update_database(db: &mut Database, id_user: IdUser, id_tag: IdTag, t_value: TValue)
    requires
        db_wf(old(db)@),
    ensures
        db_wf(final (db)@),
        spec_update_database_rel(old(db)@, id_user, id_tag, t_value@, final (db)@),
{
    match t_value {
        TValue::Bool(value) => db.set_bool_to_id_tag(id_user, id_tag, value),
        TValue::U8(value) => db.set_u8_to_id_tag(id_user, id_tag, value),
        TValue::I8(value) => db.set_i8_to_id_tag(id_user, id_tag, value),
        TValue::U16(value) => db.set_u16_to_id_tag(id_user, id_tag, value),
        TValue::I16(value) => db.set_i16_to_id_tag(id_user, id_tag, value),
        TValue::U32(value) => db.set_u32_to_id_tag(id_user, id_tag, value),
        TValue::I32(value) => db.set_i32_to_id_tag(id_user, id_tag, value),
        TValue::U64(value) => db.set_u64_to_id_tag(id_user, id_tag, value),
        TValue::I64(value) => db.set_i64_to_id_tag(id_user, id_tag, value),
        TValue::F32(bits) => db.set_u32_to_id_tag(id_user, id_tag, bits),
        TValue::F64(bits) => db.set_u64_to_id_tag(id_user, id_tag, bits),
        TValue::VecU8(len, value) => {
            let data = crate::t_value::pad_trunc_exec(&value, len);
            db.set_vec_u8_to_id_tag(id_user, id_tag, data.as_slice());
        },
    }
}

/// The index table after every collected record's index is noted in its
/// record's zone, in collection order.
pub open spec fn spec_collect_records(records: RecordsView, rds: Seq<RecordDataView>) -> RecordsView
    decreases rds.len(),
{
    if rds.len() == 0 {
        records
    } else {
        spec_collect_records(
            spec_records_set(records, rds[0].id_tag.zone, rds[0].table_index),
            rds.skip(1),
        )
    }
}

impl RecordData {
    /// Closes the record under collection: every collected datum's table
    /// index is noted in its zone's range and the collection is emptied.
    pub fn collect_record_datas(context: &mut Context)
        requires
            crate::context::context_wf(old(context)@),
        ensures
            crate::context::context_wf(final (context)@),
            final (context)@ == (ContextView {
                records: spec_collect_records(old(context)@.records, old(context)@.record_datas),
                record_datas: Seq::<RecordDataView>::empty(),
                ..old(context)@
            }),
    {
        let ghost rds = context@.record_datas;
        let mut i: usize = 0;
        proof {
            assert(rds.skip(0) =~= rds);
        }
        while i < context.record_datas.len()
            invariant
                0 <= i <= context.record_datas@.len(),
                crate::context::context_wf(context@),
                context@ == (ContextView {
                    records: context@.records,
                    ..old(context)@
                }),
                spec_collect_records(old(context)@.records, rds) == spec_collect_records(
                    context@.records,
                    rds.skip(i as int),
                ),
                rds == context@.record_datas,
            decreases context.record_datas@.len() - i,
        {
            let zone = context.record_datas[i].id_tag.zone;
            let index = context.record_datas[i].table_index;
            proof {
                assert(rds.skip(i as int)[0] == rds[i as int]);
                assert(rds.skip(i as int).skip(1) =~= rds.skip(i + 1));
            }
            context.records.set_index(zone, index);
            i += 1;
        }
        proof {
            assert(rds.skip(rds.len() as int) =~= Seq::<RecordDataView>::empty());
        }
        context.record_datas = Vec::new();
        proof {
            assert(final (context)@.record_datas =~= Seq::<RecordDataView>::empty());
        }
    }
}

/// Adds one record datum to the collection; the end-of-record key closes and
/// collects the record instead.
pub fn add_record(context: &mut Context, record: RecordData)
    requires
        crate::context::context_wf(old(context)@),
    ensures
        crate::context::context_wf(final (context)@),
        record.id_tag.num_tag == crate::id_message::TAG_NUM_END_OF_RECORD ==> final (context)@
            == (ContextView {
            records: spec_collect_records(old(context)@.records, old(context)@.record_datas),
            record_datas: Seq::<RecordDataView>::empty(),
            ..old(context)@
        }),
        record.id_tag.num_tag != crate::id_message::TAG_NUM_END_OF_RECORD ==> final (context)@
            == (ContextView {
            record_datas: old(context)@.record_datas.push(record@),
            ..old(context)@
        }),
{
    if RecordData::is_id_tag_end_of_record(record.id_tag) {
        RecordData::collect_record_datas(context);
    } else {
        let ghost rv = record@;
        context.record_datas.push(record);
        proof {
            assert(final (context)@.record_datas =~= old(context)@.record_datas.push(rv));
        }
    }
}

} // verus!
