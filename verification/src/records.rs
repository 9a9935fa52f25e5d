//! One datum of a table record, collected during a DATA_OUT conversation.

use vstd::prelude::*;

use crate::id_tag::IdTag;
use crate::t_value::TValue;

verus! {

use crate::id_message::TAG_NUM_END_OF_RECORD;
use crate::t_value::TValueView;

/// One datum of a record: its table index, key and value.
#[derive(Debug)]
pub struct RecordData {
    /// Index of the record in its table.
    pub table_index: u64,
    /// Key of the datum.
    pub id_tag: IdTag,
    /// Value of the datum.
    pub t_value: TValue,
}

/// Mathematical model of a `RecordData`.
#[verifier::ext_equal]
pub struct RecordDataView {
    pub table_index: u64,
    pub id_tag: IdTag,
    pub t_value: TValueView,
}

impl View for RecordData {
    type V = RecordDataView;

    open spec fn view(&self) -> RecordDataView {
        RecordDataView {
            table_index: self.table_index,
            id_tag: self.id_tag,
            t_value: self.t_value@,
        }
    }
}

impl RecordData {
    /// Builds one record datum.
    pub fn new(table_index: u64, id_tag: IdTag, t_value: &TValue) -> (r: RecordData)
        ensures
            r@ == (RecordDataView { table_index, id_tag, t_value: t_value@ }),
    {
        RecordData { table_index, id_tag, t_value: t_value.clone() }
    }

    /// True for the key that closes a record.
    pub fn is_id_tag_end_of_record(id_tag: IdTag) -> (r: bool)
        ensures
            r == (id_tag.num_tag == TAG_NUM_END_OF_RECORD),
    {
        id_tag.num_tag == TAG_NUM_END_OF_RECORD
    }
}

} // verus!
