//! One TLV data item inside a message frame: a tag byte, a format byte, and
//! the value's big-endian bytes.

use vstd::prelude::*;

use crate::raw_frame::FrameError;
use crate::t_format::TFormat;
use crate::t_value::{TValue, TValueView};

verus! {

use crate::be_data;
use crate::be_data::{spec_decode_value, spec_encode_value};
use crate::t_format::{spec_format_from_u8, spec_format_to_u8, spec_nb_bytes};
use crate::t_value::spec_format_of;

/// A data item carried in a message frame.
#[derive(Debug)]
pub struct DataItem {
    /// Tag of the item.
    pub tag: u8,
    /// Format of the value.
    pub t_format: TFormat,
    /// The value itself.
    pub t_value: TValue,
}

/// Mathematical model of a `DataItem`.
#[verifier::ext_equal]
pub struct DataItemView {
    pub tag: u8,
    pub t_format: TFormat,
    pub t_value: TValueView,
}

impl View for DataItem {
    type V = DataItemView;

    open spec fn view(&self) -> DataItemView {
        DataItemView { tag: self.tag, t_format: self.t_format, t_value: self.t_value@ }
    }
}

impl Clone for DataItem {
    /// A copy of the item, equal to the original in its model.
    fn clone(&self) -> (r: Self)
        ensures
            r@ == self@,
    {
        DataItem { tag: self.tag, t_format: self.t_format, t_value: self.t_value.clone() }
    }
}

/// Wire bytes of a data item: tag, format code, value bytes.
pub open spec fn spec_encode_item(di: DataItemView) -> Seq<u8> {
    seq![di.tag, spec_format_to_u8(di.t_format)] + spec_encode_value(di.t_value)
}

/// First data item of a byte sequence together with the count of bytes it
/// occupies; `None` when the bytes are too few.
pub open spec fn spec_decode_item(values: Seq<u8>) -> Option<(DataItemView, int)> {
    if values.len() < 2 {
        None
    } else {
        let f = spec_format_from_u8(values[1]);
        let n = 2 + spec_nb_bytes(f);
        if values.len() < n {
            None
        } else {
            match spec_decode_value(f, values.skip(2)) {
                Some(v) => Some((DataItemView { tag: values[0], t_format: f, t_value: v }, n as int)),
                None => None,
            }
        }
    }
}

/// All data items of a byte sequence, decoded one after the other until the
/// bytes are used up; `None` when a tail is too short.
pub open spec fn spec_decode_items(values: Seq<u8>) -> Option<Seq<DataItemView>>
    decreases values.len(),
{
    if values.len() == 0 {
        Some(Seq::empty())
    } else {
        match spec_decode_item(values) {
            None => None,
            Some((di, n)) => if 2 <= n <= values.len() {
                match spec_decode_items(values.skip(n)) {
                    None => None,
                    Some(rest) => Some(seq![di] + rest),
                }
            } else {
                None
            },
        }
    }
}

/// Views of a sequence of data items.
pub open spec fn items_views(s: Seq<DataItem>) -> Seq<DataItemView> {
    s.map_values(|di: DataItem| di@)
}

/// An item is wire-sound when its format is the format of its value and the
/// value's byte string, if any, is sound.
pub open spec fn item_wire_sound(di: DataItemView) -> bool {
    di.t_format == spec_format_of(di.t_value) && be_data::value_wire_sound(di.t_value)
}

impl DataItem {
    /// Builds a data item. Callers keep `t_format` equal to the value's own
    /// format; the decoder only ever builds such items.
    pub fn new(tag: u8, t_format: TFormat, t_value: TValue) -> (r: DataItem)
        ensures
            r@ == (DataItemView { tag, t_format, t_value: t_value@ }),
    {
        DataItem { tag, t_format, t_value }
    }

    /// Decodes the first data item of a byte slice; returns the item and the
    /// count of bytes it occupies. Fails with `BadDataLength` exactly when
    /// the bytes are too few for the announced format.
    pub fn decode(values: &[u8]) -> (r: Result<(DataItem, usize), FrameError>)
        ensures
            match r {
                Ok((di, n)) => spec_decode_item(values@) == Some((di@, n as int)),
                Err(e) => spec_decode_item(values@) is None && e == FrameError::BadDataLength,
            },
    {
        if values.len() < 2 {
            return Err(FrameError::BadDataLength);
        }
        let tag = values[0];
        let t_format = TFormat::from(values[1]);
        let nb = t_format.nb_bytes();
        if nb > values.len() - 2 {
            return Err(FrameError::BadDataLength);
        }
        let data_item_len = 2 + nb;
        let rest = slice_skip2(values);
        match be_data::decode(t_format, rest) {
            Ok(t_value) => Ok((DataItem { tag, t_format, t_value }, data_item_len)),
            Err(_) => Err(FrameError::BadDataItem),
        }
    }

    /// Decodes a whole byte slice as consecutive data items.
    pub fn decode_all(values: &[u8]) -> (r: Result<Vec<DataItem>, FrameError>)
        ensures
            match r {
                Ok(items) => spec_decode_items(values@) == Some(items_views(items@)),
                Err(e) => spec_decode_items(values@) is None && e == FrameError::BadDataLength,
            },
    {
        let mut data_items: Vec<DataItem> = Vec::new();
        let mut start_index: usize = 0;
        proof {
            assert(values@.skip(0) =~= values@);
            assert(items_views(Seq::empty()) =~= Seq::<DataItemView>::empty());
        }
        while start_index < values.len()
            invariant
                0 <= start_index <= values@.len(),
                spec_decode_items(values@) is Some <==> spec_decode_items(
                    values@.skip(start_index as int),
                ) is Some,
                spec_decode_items(values@) matches Some(all) ==> spec_decode_items(
                    values@.skip(start_index as int),
                ) matches Some(rest) && all == items_views(data_items@) + rest,
            decreases values@.len() - start_index,
        {
            let sub = slice_skip(values, start_index);
            match DataItem::decode(sub) {
                Ok((data_item, len)) => {
                    proof {
                        let tail = values@.skip(start_index as int);
                        assert(spec_decode_item(tail) == Some((data_item@, len as int)));
                        assert(tail.skip(len as int) =~= values@.skip(start_index + len));
                        if spec_decode_items(values@.skip(start_index + len)) is Some {
                            let rest2 = spec_decode_items(values@.skip(start_index + len))->Some_0;
                            assert(spec_decode_items(tail) == Some(seq![data_item@] + rest2));
                            assert(items_views(data_items@.push(data_item)) =~= items_views(
                                data_items@,
                            ).push(data_item@));
                            assert(items_views(data_items@) + (seq![data_item@] + rest2)
                                =~= items_views(data_items@).push(data_item@) + rest2);
                        }

                    }
                    data_items.push(data_item);
                    start_index += len;
                },
                Err(e) => {
                    return Err(e);
                },
            }
        }
        proof {
            assert(values@.skip(start_index as int) =~= Seq::<u8>::empty());
            assert(items_views(data_items@) + Seq::<DataItemView>::empty() =~= items_views(
                data_items@,
            ));
        }
        Ok(data_items)
    }

    /// Wire bytes of the item: tag, format code, value bytes.
    pub fn encode(&self) -> (r: Vec<u8>)
        ensures
            r@ == spec_encode_item(self@),
    {
        let format_u8 = u8::from(self.t_format);
        let value_vec_u8 = be_data::encode(&self.t_value);
        let mut vec_u8: Vec<u8> = Vec::new();
        vec_u8.push(self.tag);
        vec_u8.push(format_u8);
        let mut i: usize = 0;
        while i < value_vec_u8.len()
            invariant
                0 <= i <= value_vec_u8@.len(),
                vec_u8@ == seq![self.tag, spec_format_to_u8(self.t_format)] + value_vec_u8@.take(
                    i as int,
                ),
            decreases value_vec_u8@.len() - i,
        {
            vec_u8.push(value_vec_u8[i]);
            proof {
                let base = seq![self.tag, spec_format_to_u8(self.t_format)];
                assert(base + value_vec_u8@.take(i + 1 as int) =~= (base + value_vec_u8@.take(
                    i as int,
                )).push(value_vec_u8@[i as int]));
            }
            i += 1;
        }
        proof {
            assert(value_vec_u8@.take(value_vec_u8@.len() as int) =~= value_vec_u8@);
        }
        vec_u8
    }
}

/// The two header bytes dropped from a slice.
fn slice_skip2(values: &[u8]) -> (r: &[u8])
    requires
        values@.len() >= 2,
    ensures
        r@ == values@.skip(2),
{
    slice_skip(values, 2)
}

/// A slice without its first `n` bytes.
fn slice_skip(values: &[u8], n: usize) -> (r: &[u8])
    requires
        n <= values@.len(),
    ensures
        r@ == values@.skip(n as int),
{
    vstd::slice::slice_subrange(values, n, values.len())
}

/// Decoding a value from its exact bytes followed by anything gives the same
/// value as decoding the exact bytes alone.
pub proof fn lemma_decode_value_prefix(f: TFormat, v: Seq<u8>, rest: Seq<u8>)
    requires
        v.len() == spec_nb_bytes(f),
    ensures
        spec_decode_value(f, v + rest) == spec_decode_value(f, v),
{
    let w = v + rest;
    match f {
        TFormat::Unknown => {},
        TFormat::Bool | TFormat::U8 | TFormat::I8 => {
            assert(w[0] == v[0]);
        },
        TFormat::U16 | TFormat::I16 => {
            assert(w.take(2) =~= v.take(2));
        },
        TFormat::U32 | TFormat::I32 | TFormat::F32 => {
            assert(w.take(4) =~= v.take(4));
        },
        TFormat::U64 | TFormat::I64 | TFormat::F64 => {
            assert(w.take(8) =~= v.take(8));
        },
        TFormat::VecU8(n) => {
            assert(w.take(n as int) =~= v.take(n as int));
        },
    }
}

/// Concatenated wire bytes of a sequence of data items.
pub open spec fn concat_encodings(items: Seq<DataItemView>) -> Seq<u8>
    decreases items.len(),
{
    if items.len() == 0 {
        Seq::empty()
    } else {
        spec_encode_item(items[0]) + concat_encodings(items.skip(1))
    }
}

/// Decoding the concatenated encodings of wire-sound items gives the items
/// back.
pub proof fn lemma_items_round_trip(items: Seq<DataItemView>)
    requires
        forall|i: int| 0 <= i < items.len() ==> item_wire_sound(#[trigger] items[i]),
    ensures
        spec_decode_items(concat_encodings(items)) == Some(items),
    decreases items.len(),
{
    if items.len() == 0 {
        assert(concat_encodings(items) =~= Seq::<u8>::empty());
        assert(Seq::<DataItemView>::empty() =~= items);
    } else {
        let di = items[0];
        let enc = spec_encode_item(di);
        let rest = concat_encodings(items.skip(1));
        let whole = concat_encodings(items);
        be_data::lemma_value_round_trip(di.t_value);
        crate::t_format::lemma_format_code_round_trip(di.t_format);
        assert(enc.len() == 2 + spec_nb_bytes(di.t_format));
        assert(whole =~= enc + rest);
        assert(whole[0] == di.tag);
        assert(whole[1] == spec_format_to_u8(di.t_format));
        assert(whole.skip(2) =~= spec_encode_value(di.t_value) + rest);
        lemma_decode_value_prefix(di.t_format, spec_encode_value(di.t_value), rest);
        assert(spec_decode_item(whole) == Some((di, 2 + spec_nb_bytes(di.t_format) as int)));
        assert(whole.skip(2 + spec_nb_bytes(di.t_format) as int) =~= rest);
        assert forall|i: int| 0 <= i < items.skip(1).len() implies item_wire_sound(
            #[trigger] items.skip(1)[i],
        ) by {
            assert(items.skip(1)[i] == items[i + 1]);
        }
        lemma_items_round_trip(items.skip(1));
        assert(seq![di] + items.skip(1) =~= items);
    }
}

} // verus!
