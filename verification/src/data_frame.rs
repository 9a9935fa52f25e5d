//! Semantic view of a complete raw frame: a plain acknowledgement, or a
//! message tag with its decoded data items.

use vstd::prelude::*;

use crate::data_item::DataItem;
use crate::raw_frame::{FrameError, RawFrame, ACK, NACK};

verus! {

use crate::data_item::{
    concat_encodings,
    item_wire_sound,
    items_views,
    spec_decode_items,
    DataItemView,
};
use crate::raw_frame::{
    message_bytes,
    spec_feed,
    spec_state,
    spec_xor_of,
    FrameState,
    RawFrameView,
};

/// Decoded content of a complete frame.
#[derive(Debug)]
pub enum DataFrame {
    /// A plain ACK.
    SimpleACK,
    /// A plain NACK.
    SimpleNACK,
    /// A message: tag and data items.
    Message(u8, Vec<DataItem>),
}

/// Mathematical model of a `DataFrame`.
#[verifier::ext_equal]
pub enum DataFrameView {
    SimpleACK,
    SimpleNACK,
    Message(u8, Seq<DataItemView>),
}

impl View for DataFrame {
    type V = DataFrameView;

    open spec fn view(&self) -> DataFrameView {
        match self {
            DataFrame::SimpleACK => DataFrameView::SimpleACK,
            DataFrame::SimpleNACK => DataFrameView::SimpleNACK,
            DataFrame::Message(tag, items) => DataFrameView::Message(*tag, items_views(items@)),
        }
    }
}

/// The data frame a builder state decodes to: an error on an empty, junk or
/// unfinished builder, the acknowledgement for ACK / NACK, and the decoded
/// items for a complete message.
pub open spec fn spec_data_frame_of(f: RawFrameView) -> Result<DataFrameView, FrameError> {
    match f {
        RawFrameView::Empty => Err(FrameError::IsEmpty),
        RawFrameView::Ack => Ok(DataFrameView::SimpleACK),
        RawFrameView::Nack => Ok(DataFrameView::SimpleNACK),
        RawFrameView::AckAndJunk(_) | RawFrameView::NackAndJunk(_)
            | RawFrameView::CompleteAndJunk(..) | RawFrameView::Junk(_) => Err(FrameError::IsJunk),
        RawFrameView::Stx | RawFrameView::Tag(_) | RawFrameView::TagLen(..)
            | RawFrameView::TagLenValue(..) | RawFrameView::Xor(..) => Err(FrameError::IsBuilding),
        RawFrameView::Complete(tag, _, payload, _) => match spec_decode_items(payload) {
            Some(items) => Ok(DataFrameView::Message(tag, items)),
            None => Err(FrameError::BadDataItem),
        },
    }
}

/// Tag reported for a data frame: the ACK or NACK byte for the plain
/// acknowledgements, the message tag otherwise.
pub open spec fn spec_frame_tag(df: DataFrameView) -> u8 {
    match df {
        DataFrameView::SimpleACK => ACK,
        DataFrameView::SimpleNACK => NACK,
        DataFrameView::Message(tag, _) => tag,
    }
}

/// Data items of a frame; an acknowledgement has none.
pub open spec fn spec_frame_items(df: DataFrameView) -> Seq<DataItemView> {
    match df {
        DataFrameView::Message(_, items) => items,
        _ => Seq::empty(),
    }
}

impl DataFrame {
    /// Decodes a raw frame. Fails with `IsEmpty`, `IsJunk` or `IsBuilding`
    /// when the builder holds no complete frame, and with `BadDataItem` when
    /// the payload does not split into data items.
    pub fn try_from_raw_frame(value: RawFrame) -> (r: Result<DataFrame, FrameError>)
        ensures
            match r {
                Ok(df) => spec_data_frame_of(value@) == Ok::<DataFrameView, FrameError>(df@),
                Err(e) => spec_data_frame_of(value@) == Err::<DataFrameView, FrameError>(e),
            },
    {
        match value {
            RawFrame::Empty => Err(FrameError::IsEmpty),
            RawFrame::Ack => Ok(DataFrame::SimpleACK),
            RawFrame::Nack => Ok(DataFrame::SimpleNACK),
            RawFrame::AckAndJunk(_) | RawFrame::NackAndJunk(_) | RawFrame::CompleteAndJunk(..)
                | RawFrame::Junk(_) => Err(FrameError::IsJunk),
            RawFrame::Stx | RawFrame::Tag(_) | RawFrame::TagLen(..) | RawFrame::TagLenValue(..)
                | RawFrame::Xor(..) => Err(FrameError::IsBuilding),
            RawFrame::Complete(tag, _, payload, _) => {
                match DataItem::decode_all(payload.as_slice()) {
                    Ok(data_items) => Ok(DataFrame::Message(tag, data_items)),
                    Err(_) => Err(FrameError::BadDataItem),
                }
            },
        }
    }

    /// True for a plain ACK.
    pub fn is_simple_ack(&self) -> (r: bool)
        ensures
            r == (self@ is SimpleACK),
    {
        matches!(self, DataFrame::SimpleACK)
    }

    /// True for a plain NACK.
    pub fn is_simple_nack(&self) -> (r: bool)
        ensures
            r == (self@ is SimpleNACK),
    {
        matches!(self, DataFrame::SimpleNACK)
    }

    /// True for a message frame.
    pub fn is_message(&self) -> (r: bool)
        ensures
            r == (self@ is Message),
    {
        matches!(self, DataFrame::Message(_, _))
    }

    /// The frame's tag: the ACK or NACK byte for acknowledgements, the
    /// message tag otherwise.
    pub fn get_tag(&self) -> (r: u8)
        ensures
            r == spec_frame_tag(self@),
    {
        match self {
            DataFrame::SimpleACK => ACK,
            DataFrame::SimpleNACK => NACK,
            DataFrame::Message(tag, _) => *tag,
        }
    }

    /// A copy of the message's data items; empty for an acknowledgement.
    pub fn get_data_items(&self) -> (r: Vec<DataItem>)
        ensures
            items_views(r@) == spec_frame_items(self@),
    {
        match self {
            DataFrame::Message(_, data_items) => {
                let mut r: Vec<DataItem> = Vec::new();
                let mut i: usize = 0;
                proof {
                    assert(items_views(r@) =~= items_views(data_items@).take(0));
                }
                while i < data_items.len()
                    invariant
                        0 <= i <= data_items@.len(),
                        r@.len() == i,
                        items_views(r@) == items_views(data_items@).take(i as int),
                    decreases data_items@.len() - i,
                {
                    let ghost r_pre = r@;
                    let item = data_items[i].clone();
                    let ghost itemv = item@;
                    r.push(item);
                    proof {
                        assert(r@ == r_pre.push(r@[i as int]));
                        assert(r@[i as int]@ == data_items@[i as int]@);
                        assert forall|j: int| 0 <= j < i + 1 implies items_views(r@)[j]
                            == items_views(data_items@).take(i + 1 as int)[j] by {
                            if j < i {
                                assert(items_views(r_pre)[j] == items_views(data_items@).take(
                                    i as int,
                                )[j]);
                                assert(r@[j] == r_pre[j]);
                            }
                        }
                        assert(items_views(r@) =~= items_views(data_items@).take(i + 1 as int));
                    }
                    i += 1;
                }
                proof {
                    assert(items_views(data_items@).take(data_items@.len() as int) =~= items_views(
                        data_items@,
                    ));
                }
                r
            },
            _ => {
                let r: Vec<DataItem> = Vec::new();
                proof {
                    assert(items_views(r@) =~= Seq::<DataItemView>::empty());
                }
                r
            },
        }
    }
}

/// Message round trip: for wire-sound items whose encodings fit one frame,
/// feeding the canonical message bytes byte by byte into a fresh builder
/// stays in `Building` up to the last byte, reaches a complete frame exactly
/// there, and decoding that frame gives the same tag and items back.
pub proof fn lemma_message_round_trip(tag: u8, items: Seq<DataItemView>)
    requires
        forall|i: int| 0 <= i < items.len() ==> item_wire_sound(#[trigger] items[i]),
        concat_encodings(items).len() <= crate::raw_frame::RAW_FRAME_MAX_LEN as nat,
    ensures
        ({
            let payload = concat_encodings(items);
            let len = payload.len() as u8;
            let x = spec_xor_of(tag, len, payload);
            let bytes = message_bytes(tag, len, payload);
            &&& spec_feed(RawFrameView::Empty, bytes) == RawFrameView::Complete(
                tag,
                len,
                payload,
                x,
            )
            &&& forall|k: int|
                1 <= k < bytes.len() ==> spec_state(
                    #[trigger] spec_feed(RawFrameView::Empty, bytes.take(k)),
                ) == FrameState::Building
            &&& spec_data_frame_of(RawFrameView::Complete(tag, len, payload, x)) == Ok::<
                DataFrameView,
                FrameError,
            >(DataFrameView::Message(tag, items))
        }),
{
    let payload = concat_encodings(items);
    let len = payload.len() as u8;
    crate::raw_frame::lemma_frame_round_trip(tag, len, payload);
    crate::data_item::lemma_items_round_trip(items);
}

} // verus!
