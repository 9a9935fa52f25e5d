//! Raw TLV frames as exchanged on the serial link, built byte by byte.
//!
//! The wire grammar is `ACK`, `NACK`, or `STX tag len payload[len] xor ETX`
//! with `xor = tag ^ len ^ payload[0] ^ ... ^ payload[len-1]`. Each
//! distinguishable builder state is its own variant, so pushing one byte is a
//! pure step of a state machine.

use vstd::prelude::*;

use crate::data_item::DataItem;

verus! {

use crate::data_item::{spec_encode_item, DataItemView};

/// Start of a message.
pub const STX: u8 = 0x02;

/// End of a message.
pub const ETX: u8 = 0x03;

/// Acknowledge.
pub const ACK: u8 = 0x06;

/// Not acknowledged.
pub const NACK: u8 = 0x15;

/// Largest payload a frame may carry.
pub const RAW_FRAME_MAX_LEN: usize = 250;

/// Error while a frame is encoded or decoded.
#[derive(Clone, Copy, Debug, PartialEq, Eq, Structural)]
pub enum FrameError {
    /// The frame is empty.
    IsEmpty,
    /// The frame holds bytes that fit no frame.
    IsJunk,
    /// The frame is not complete yet.
    IsBuilding,
    /// The frame is not a complete message.
    IsNotOk,
    /// A data item announces more bytes than the payload holds.
    BadDataLength,
    /// A data item does not decode.
    BadDataItem,
    /// Appending would exceed the largest payload length.
    MaxLengthOverflow,
}

/// Coarse state of the builder.
#[derive(Clone, Copy, Debug, PartialEq, Eq, Structural)]
pub enum FrameState {
    /// Nothing received.
    Empty,
    /// A plausible frame is under construction.
    Building,
    /// A complete, valid frame was received.
    Complete,
    /// The bytes received fit no frame.
    Junk,
}

/// Builder for a raw frame; every distinguishable state is a variant.
#[derive(Debug, PartialEq, Eq)]
pub enum RawFrame {
    /// Nothing received.
    Empty,
    /// A single ACK byte.
    Ack,
    /// ACK followed by stray bytes.
    AckAndJunk(Vec<u8>),
    /// A single NACK byte.
    Nack,
    /// NACK followed by stray bytes.
    NackAndJunk(Vec<u8>),
    /// The STX byte alone.
    Stx,
    /// STX and the message tag.
    Tag(u8),
    /// STX, tag and announced payload length.
    TagLen(u8, u8),
    /// STX, tag, length and a prefix of the payload.
    TagLenValue(u8, u8, Vec<u8>),
    /// Full payload and a correct checksum byte.
    Xor(u8, u8, Vec<u8>, u8),
    /// A complete message: STX, tag, length, payload, checksum, ETX.
    Complete(u8, u8, Vec<u8>, u8),
    /// A complete message followed by stray bytes.
    CompleteAndJunk(u8, u8, Vec<u8>, u8, Vec<u8>),
    /// Bytes that fit no frame.
    Junk(Vec<u8>),
}

/// Mathematical model of a `RawFrame`.
#[verifier::ext_equal]
pub enum RawFrameView {
    Empty,
    Ack,
    AckAndJunk(Seq<u8>),
    Nack,
    NackAndJunk(Seq<u8>),
    Stx,
    Tag(u8),
    TagLen(u8, u8),
    TagLenValue(u8, u8, Seq<u8>),
    Xor(u8, u8, Seq<u8>, u8),
    Complete(u8, u8, Seq<u8>, u8),
    CompleteAndJunk(u8, u8, Seq<u8>, u8, Seq<u8>),
    Junk(Seq<u8>),
}

impl View for RawFrame {
    type V = RawFrameView;

    open spec fn view(&self) -> RawFrameView {
        match self {
            RawFrame::Empty => RawFrameView::Empty,
            RawFrame::Ack => RawFrameView::Ack,
            RawFrame::AckAndJunk(j) => RawFrameView::AckAndJunk(j@),
            RawFrame::Nack => RawFrameView::Nack,
            RawFrame::NackAndJunk(j) => RawFrameView::NackAndJunk(j@),
            RawFrame::Stx => RawFrameView::Stx,
            RawFrame::Tag(t) => RawFrameView::Tag(*t),
            RawFrame::TagLen(t, l) => RawFrameView::TagLen(*t, *l),
            RawFrame::TagLenValue(t, l, p) => RawFrameView::TagLenValue(*t, *l, p@),
            RawFrame::Xor(t, l, p, x) => RawFrameView::Xor(*t, *l, p@, *x),
            RawFrame::Complete(t, l, p, x) => RawFrameView::Complete(*t, *l, p@, *x),
            RawFrame::CompleteAndJunk(t, l, p, x, j) => RawFrameView::CompleteAndJunk(*t, *l, p@, *x, j@),
            RawFrame::Junk(j) => RawFrameView::Junk(j@),
        }
    }
}

impl Clone for RawFrame {
    /// A copy of the builder, equal to the original in its model.
    fn clone(&self) -> (r: Self)
        ensures
            r@ == self@,
    {
        match self {
            RawFrame::Empty => RawFrame::Empty,
            RawFrame::Ack => RawFrame::Ack,
            RawFrame::AckAndJunk(j) => RawFrame::AckAndJunk(crate::text::copy_bytes(j)),
            RawFrame::Nack => RawFrame::Nack,
            RawFrame::NackAndJunk(j) => RawFrame::NackAndJunk(crate::text::copy_bytes(j)),
            RawFrame::Stx => RawFrame::Stx,
            RawFrame::Tag(t) => RawFrame::Tag(*t),
            RawFrame::TagLen(t, l) => RawFrame::TagLen(*t, *l),
            RawFrame::TagLenValue(t, l, p) => RawFrame::TagLenValue(
                *t,
                *l,
                crate::text::copy_bytes(p),
            ),
            RawFrame::Xor(t, l, p, x) => RawFrame::Xor(*t, *l, crate::text::copy_bytes(p), *x),
            RawFrame::Complete(t, l, p, x) => RawFrame::Complete(
                *t,
                *l,
                crate::text::copy_bytes(p),
                *x,
            ),
            RawFrame::CompleteAndJunk(t, l, p, x, j) => RawFrame::CompleteAndJunk(
                *t,
                *l,
                crate::text::copy_bytes(p),
                *x,
                crate::text::copy_bytes(j),
            ),
            RawFrame::Junk(j) => RawFrame::Junk(crate::text::copy_bytes(j)),
        }
    }
}

/// XOR of all bytes of a sequence.
pub open spec fn xor_seq(s: Seq<u8>) -> u8
    decreases s.len(),
{
    if s.len() == 0 {
        0
    } else {
        xor_seq(s.drop_last()) ^ s.last()
    }
}

/// The checksum byte of a frame: tag, length and every payload byte XORed.
pub open spec fn spec_xor_of(tag: u8, len: u8, payload: Seq<u8>) -> u8 {
    (tag ^ len) ^ xor_seq(payload)
}

/// One step of the builder state machine.
pub open spec fn spec_push(f: RawFrameView, b: u8) -> RawFrameView {
    match f {
        RawFrameView::Empty => {
            if b == ACK {
                RawFrameView::Ack
            } else if b == NACK {
                RawFrameView::Nack
            } else if b == STX {
                RawFrameView::Stx
            } else {
                RawFrameView::Junk(seq![b])
            }
        },
        RawFrameView::Ack => RawFrameView::AckAndJunk(seq![b]),
        RawFrameView::AckAndJunk(j) => RawFrameView::AckAndJunk(j.push(b)),
        RawFrameView::Nack => RawFrameView::NackAndJunk(seq![b]),
        RawFrameView::NackAndJunk(j) => RawFrameView::NackAndJunk(j.push(b)),
        RawFrameView::Stx => RawFrameView::Tag(b),
        RawFrameView::Tag(t) => RawFrameView::TagLen(t, b),
        RawFrameView::TagLen(t, l) => {
            if l == 0 {
                if b == t {
                    RawFrameView::Xor(t, 0, Seq::empty(), b)
                } else {
                    RawFrameView::Junk(seq![STX, t, 0, b])
                }
            } else {
                RawFrameView::TagLenValue(t, l, seq![b])
            }
        },
        RawFrameView::TagLenValue(t, l, p) => {
            if p.len() == l {
                let x = spec_xor_of(t, l, p);
                if b == x {
                    RawFrameView::Xor(t, l, p, x)
                } else {
                    RawFrameView::Junk(seq![STX, t, l] + p + seq![b])
                }
            } else {
                RawFrameView::TagLenValue(t, l, p.push(b))
            }
        },
        RawFrameView::Xor(t, l, p, x) => {
            if b == ETX {
                RawFrameView::Complete(t, l, p, x)
            } else {
                RawFrameView::Junk(seq![STX, t, l] + p + seq![x, b])
            }
        },
        RawFrameView::Complete(t, l, p, x) => RawFrameView::CompleteAndJunk(t, l, p, x, seq![b]),
        RawFrameView::CompleteAndJunk(t, l, p, x, j) => RawFrameView::CompleteAndJunk(t, l, p, x, j.push(b)),
        RawFrameView::Junk(j) => RawFrameView::Junk(j.push(b)),
    }
}

/// The builder state after feeding a whole byte sequence.
pub open spec fn spec_feed(f: RawFrameView, bytes: Seq<u8>) -> RawFrameView
    decreases bytes.len(),
{
    if bytes.len() == 0 {
        f
    } else {
        spec_feed(spec_push(f, bytes[0]), bytes.skip(1))
    }
}

/// Coarse state of a builder state.
pub open spec fn spec_state(f: RawFrameView) -> FrameState {
    match f {
        RawFrameView::Empty => FrameState::Empty,
        RawFrameView::Ack | RawFrameView::Nack | RawFrameView::Complete(..) => FrameState::Complete,
        RawFrameView::AckAndJunk(_) | RawFrameView::NackAndJunk(_) | RawFrameView::CompleteAndJunk(..)
            | RawFrameView::Junk(_) => FrameState::Junk,
        RawFrameView::Stx | RawFrameView::Tag(_) | RawFrameView::TagLen(..)
            | RawFrameView::TagLenValue(..) | RawFrameView::Xor(..) => FrameState::Building,
    }
}

/// The canonical bytes of a builder state.
pub open spec fn spec_encode(f: RawFrameView) -> Seq<u8> {
    match f {
        RawFrameView::Empty => Seq::empty(),
        RawFrameView::Ack => seq![ACK],
        RawFrameView::AckAndJunk(j) => seq![ACK] + j,
        RawFrameView::Nack => seq![NACK],
        RawFrameView::NackAndJunk(j) => seq![NACK] + j,
        RawFrameView::Stx => seq![STX],
        RawFrameView::Tag(t) => seq![STX, t],
        RawFrameView::TagLen(t, l) => seq![STX, t, l],
        RawFrameView::TagLenValue(t, l, p) => seq![STX, t, l] + p,
        RawFrameView::Xor(t, l, p, x) => seq![STX, t, l] + p + seq![x],
        RawFrameView::Complete(t, l, p, x) => seq![STX, t, l] + p + seq![x, ETX],
        RawFrameView::CompleteAndJunk(t, l, p, x, j) => seq![STX, t, l] + p + seq![x, ETX] + j,
        RawFrameView::Junk(j) => j,
    }
}

/// The builder state with any stray tail removed: a complete frame is kept,
/// junk alone rewinds to an empty builder.
pub open spec fn spec_remove_junk(f: RawFrameView) -> RawFrameView {
    match f {
        RawFrameView::AckAndJunk(_) => RawFrameView::Ack,
        RawFrameView::NackAndJunk(_) => RawFrameView::Nack,
        RawFrameView::CompleteAndJunk(t, l, p, x, _) => RawFrameView::Complete(t, l, p, x),
        RawFrameView::Junk(_) => RawFrameView::Empty,
        _ => f,
    }
}

/// Structural soundness of a builder state: the payload never outgrows the
/// announced length, and a present checksum byte is the true checksum.
pub open spec fn frame_wf(f: RawFrameView) -> bool {
    match f {
        RawFrameView::TagLenValue(t, l, p) => 1 <= l && p.len() <= l,
        RawFrameView::Xor(t, l, p, x) => p.len() == l && x == spec_xor_of(t, l, p),
        RawFrameView::Complete(t, l, p, x) => p.len() == l && x == spec_xor_of(t, l, p),
        RawFrameView::CompleteAndJunk(t, l, p, x, _) => p.len() == l && x == spec_xor_of(t, l, p),
        _ => true,
    }
}

impl RawFrame {
    /// Builds a frame by feeding every byte of a slice into an empty builder.
    pub fn new(octets: &[u8]) -> (r: RawFrame)
        ensures
            r@ == spec_feed(RawFrameView::Empty, octets@),
    {
        let mut ret = RawFrame::Empty;
        ret.extend(octets);
        ret
    }

    /// A frame holding a single ACK.
    pub fn new_ack() -> (r: RawFrame)
        ensures
            r@ == RawFrameView::Ack,
    {
        RawFrame::Ack
    }

    /// A frame holding a single NACK.
    pub fn new_nack() -> (r: RawFrame)
        ensures
            r@ == RawFrameView::Nack,
    {
        RawFrame::Nack
    }

    /// A complete message with the given tag and no payload yet; data items
    /// are appended with `try_extend_data_item`.
    pub fn new_message(tag: u8) -> (r: RawFrame)
        ensures
            r@ == RawFrameView::Complete(tag, 0, Seq::empty(), tag),
            frame_wf(r@),
    {
        proof {
            assert(xor_seq(Seq::empty()) == 0);
            assert((tag ^ 0) ^ 0 == tag) by (bit_vector);
        }
        RawFrame::Complete(tag, 0, Vec::new(), tag)
    }

    /// Feeds one byte into the builder.
    pub fn push(&mut self, octet: u8)
        ensures
            final (self)@ == spec_push(old(self)@, octet),
    {
        let mut cur = RawFrame::Empty;
        core::mem::swap(&mut cur, self);
        *self = match cur {
            RawFrame::Empty => {
                if octet == ACK {
                    RawFrame::Ack
                } else if octet == NACK {
                    RawFrame::Nack
                } else if octet == STX {
                    RawFrame::Stx
                } else {
                    let mut j: Vec<u8> = Vec::new();
                    j.push(octet);
                    proof {
                        assert(j@ =~= seq![octet]);
                    }
                    RawFrame::Junk(j)
                }
            },
            RawFrame::Ack => {
                let mut j: Vec<u8> = Vec::new();
                j.push(octet);
                proof {
                    assert(j@ =~= seq![octet]);
                }
                RawFrame::AckAndJunk(j)
            },
            RawFrame::AckAndJunk(mut j) => {
                j.push(octet);
                RawFrame::AckAndJunk(j)
            },
            RawFrame::Nack => {
                let mut j: Vec<u8> = Vec::new();
                j.push(octet);
                proof {
                    assert(j@ =~= seq![octet]);
                }
                RawFrame::NackAndJunk(j)
            },
            RawFrame::NackAndJunk(mut j) => {
                j.push(octet);
                RawFrame::NackAndJunk(j)
            },
            RawFrame::Stx => RawFrame::Tag(octet),
            RawFrame::Tag(tag) => RawFrame::TagLen(tag, octet),
            RawFrame::TagLen(tag, len) => {
                if len == 0 {
                    if octet == tag {
                        RawFrame::Xor(tag, 0, Vec::new(), octet)
                    } else {
                        let mut j: Vec<u8> = Vec::new();
                        j.push(STX);
                        j.push(tag);
                        j.push(0);
                        j.push(octet);
                        proof {
                            assert(j@ =~= seq![STX, tag, 0, octet]);
                        }
                        RawFrame::Junk(j)
                    }
                } else {
                    let mut p: Vec<u8> = Vec::new();
                    p.push(octet);
                    proof {
                        assert(p@ =~= seq![octet]);
                    }
                    RawFrame::TagLenValue(tag, len, p)
                }
            },
            RawFrame::TagLenValue(tag, len, mut values) => {
                if (len as usize) == values.len() {
                    let xor = calcul_xor(tag, len, values.as_slice());
                    if octet == xor {
                        RawFrame::Xor(tag, len, values, xor)
                    } else {
                        let mut j: Vec<u8> = Vec::new();
                        j.push(STX);
                        j.push(tag);
                        j.push(len);
                        let mut i: usize = 0;
                        while i < values.len()
                            invariant
                                0 <= i <= values@.len(),
                                j@ == seq![STX, tag, len] + values@.take(i as int),
                            decreases values@.len() - i,
                        {
                            j.push(values[i]);
                            proof {
                                assert(seq![STX, tag, len] + values@.take(i + 1 as int) =~= (
                                seq![STX, tag, len] + values@.take(i as int)).push(
                                    values@[i as int],
                                ));
                            }
                            i += 1;
                        }
                        j.push(octet);
                        proof {
                            assert(values@.take(values@.len() as int) =~= values@);
                            assert(j@ =~= seq![STX, tag, len] + values@ + seq![octet]);
                        }
                        RawFrame::Junk(j)
                    }
                } else {
                    values.push(octet);
                    RawFrame::TagLenValue(tag, len, values)
                }
            },
            RawFrame::Xor(tag, len, values, xor) => {
                if octet == ETX {
                    RawFrame::Complete(tag, len, values, xor)
                } else {
                    let mut j: Vec<u8> = Vec::new();
                    j.push(STX);
                    j.push(tag);
                    j.push(len);
                    let mut i: usize = 0;
                    while i < values.len()
                        invariant
                            0 <= i <= values@.len(),
                            j@ == seq![STX, tag, len] + values@.take(i as int),
                        decreases values@.len() - i,
                    {
                        j.push(values[i]);
                        proof {
                            assert(seq![STX, tag, len] + values@.take(i + 1 as int) =~= (
                            seq![STX, tag, len] + values@.take(i as int)).push(values@[i as int]));
                        }
                        i += 1;
                    }
                    j.push(xor);
                    j.push(octet);
                    proof {
                        assert(values@.take(values@.len() as int) =~= values@);
                        assert(j@ =~= seq![STX, tag, len] + values@ + seq![xor, octet]);
                    }
                    RawFrame::Junk(j)
                }
            },
            RawFrame::Complete(tag, len, values, xor) => {
                let mut j: Vec<u8> = Vec::new();
                j.push(octet);
                proof {
                    assert(j@ =~= seq![octet]);
                }
                RawFrame::CompleteAndJunk(tag, len, values, xor, j)
            },
            RawFrame::CompleteAndJunk(tag, len, values, xor, mut j) => {
                j.push(octet);
                RawFrame::CompleteAndJunk(tag, len, values, xor, j)
            },
            RawFrame::Junk(mut j) => {
                j.push(octet);
                RawFrame::Junk(j)
            },
        };
    }

    /// Feeds every byte of a slice into the builder.
    pub fn extend(&mut self, octets: &[u8])
        ensures
            final (self)@ == spec_feed(old(self)@, octets@),
    {
        let n = octets.len();
        let mut i: usize = 0;
        proof {
            assert(octets@.take(0) =~= Seq::<u8>::empty());
        }
        while i < n
            invariant
                0 <= i <= n,
                n == octets@.len(),
                self@ == spec_feed(old(self)@, octets@.take(i as int)),
            decreases n - i,
        {
            self.push(octets[i]);
            proof {
                lemma_feed_snoc(old(self)@, octets@.take(i as int), octets@[i as int]);
                assert(octets@.take(i + 1 as int) =~= octets@.take(i as int).push(
                    octets@[i as int],
                ));
            }
            i += 1;
        }
        proof {
            assert(octets@.take(n as int) =~= octets@);
        }
    }

    /// Appends a data item's encoding to a complete message, recomputing the
    /// checksum. Fails with `IsNotOk` on anything but a complete message and
    /// with `MaxLengthOverflow` when the payload would exceed the largest
    /// length; the frame is unchanged on failure.
    pub fn try_extend_data_item(&mut self, data_item: &DataItem) -> (r: Result<(), FrameError>)
        ensures
            match old(self)@ {
                RawFrameView::Complete(t, l, p, x) => {
                    let enc = spec_encode_item(data_item@);
                    if p.len() + enc.len() > RAW_FRAME_MAX_LEN as nat {
                        r == Result::<(), FrameError>::Err(FrameError::MaxLengthOverflow) && final (
                        self)@ == old(self)@
                    } else {
                        &&& r == Result::<(), FrameError>::Ok(())
                        &&& final (self)@ == RawFrameView::Complete(
                            t,
                            (p.len() + enc.len()) as u8,
                            p + enc,
                            spec_xor_of(t, (p.len() + enc.len()) as u8, p + enc),
                        )
                    }
                },
                _ => r == Result::<(), FrameError>::Err(FrameError::IsNotOk) && final (self)@ == old(
                    self,
                )@,
            },
            frame_wf(old(self)@) && frame_wf(final (self)@) || !frame_wf(old(self)@),
    {
        let mut cur = RawFrame::Empty;
        core::mem::swap(&mut cur, self);
        match cur {
            RawFrame::Complete(tag, len, values, xor) => {
                let vec_u8 = data_item.encode();
                if vec_u8.len() > RAW_FRAME_MAX_LEN || values.len() > RAW_FRAME_MAX_LEN
                    - vec_u8.len() {
                    *self = RawFrame::Complete(tag, len, values, xor);
                    proof {
                        assert(final (self)@ == old(self)@);
                    }
                    Err(FrameError::MaxLengthOverflow)
                } else {
                    let mut new_values = values;
                    let mut i: usize = 0;
                    let ghost base = new_values@;
                    while i < vec_u8.len()
                        invariant
                            0 <= i <= vec_u8@.len(),
                            new_values@ == base + vec_u8@.take(i as int),
                        decreases vec_u8@.len() - i,
                    {
                        new_values.push(vec_u8[i]);
                        proof {
                            assert(base + vec_u8@.take(i + 1 as int) =~= (base + vec_u8@.take(
                                i as int,
                            )).push(vec_u8@[i as int]));
                        }
                        i += 1;
                    }
                    proof {
                        assert(base + vec_u8@.take(vec_u8@.len() as int) =~= base + vec_u8@);
                    }
                    let new_len = new_values.len() as u8;
                    let new_xor = calcul_xor(tag, new_len, new_values.as_slice());
                    *self = RawFrame::Complete(tag, new_len, new_values, new_xor);
                    Ok(())
                }
            },
            other => {
                *self = other;
                Err(FrameError::IsNotOk)
            },
        }
    }

    /// Returns the coarse state of the builder.
    pub fn get_state(&self) -> (r: FrameState)
        ensures
            r == spec_state(self@),
    {
        match self {
            RawFrame::Empty => FrameState::Empty,
            RawFrame::Ack | RawFrame::Nack | RawFrame::Complete(..) => FrameState::Complete,
            RawFrame::AckAndJunk(_) | RawFrame::NackAndJunk(_) | RawFrame::CompleteAndJunk(..)
                | RawFrame::Junk(_) => FrameState::Junk,
            RawFrame::Stx | RawFrame::Tag(_) | RawFrame::TagLen(..) | RawFrame::TagLenValue(..)
                | RawFrame::Xor(..) => FrameState::Building,
        }
    }

    /// Writes out the canonical bytes of the builder state.
    pub fn encode(&self) -> (r: Vec<u8>)
        ensures
            r@ == spec_encode(self@),
    {
        match self {
            RawFrame::Empty => Vec::new(),
            RawFrame::Ack => {
                let mut r: Vec<u8> = Vec::new();
                r.push(ACK);
                proof {
                    assert(r@ =~= seq![ACK]);
                }
                r
            },
            RawFrame::AckAndJunk(j) => {
                let mut r: Vec<u8> = Vec::new();
                r.push(ACK);
                append_bytes(&mut r, j);
                proof {
                    assert(r@ =~= seq![ACK] + j@);
                }
                r
            },
            RawFrame::Nack => {
                let mut r: Vec<u8> = Vec::new();
                r.push(NACK);
                proof {
                    assert(r@ =~= seq![NACK]);
                }
                r
            },
            RawFrame::NackAndJunk(j) => {
                let mut r: Vec<u8> = Vec::new();
                r.push(NACK);
                append_bytes(&mut r, j);
                proof {
                    assert(r@ =~= seq![NACK] + j@);
                }
                r
            },
            RawFrame::Stx => {
                let mut r: Vec<u8> = Vec::new();
                r.push(STX);
                proof {
                    assert(r@ =~= seq![STX]);
                }
                r
            },
            RawFrame::Tag(t) => {
                let mut r: Vec<u8> = Vec::new();
                r.push(STX);
                r.push(*t);
                proof {
                    assert(r@ =~= seq![STX, *t]);
                }
                r
            },
            RawFrame::TagLen(t, l) => {
                let mut r: Vec<u8> = Vec::new();
                r.push(STX);
                r.push(*t);
                r.push(*l);
                proof {
                    assert(r@ =~= seq![STX, *t, *l]);
                }
                r
            },
            RawFrame::TagLenValue(t, l, p) => {
                let mut r: Vec<u8> = Vec::new();
                r.push(STX);
                r.push(*t);
                r.push(*l);
                append_bytes(&mut r, p);
                proof {
                    assert(r@ =~= seq![STX, *t, *l] + p@);
                }
                r
            },
            RawFrame::Xor(t, l, p, x) => {
                let mut r: Vec<u8> = Vec::new();
                r.push(STX);
                r.push(*t);
                r.push(*l);
                append_bytes(&mut r, p);
                r.push(*x);
                proof {
                    assert(r@ =~= seq![STX, *t, *l] + p@ + seq![*x]);
                }
                r
            },
            RawFrame::Complete(t, l, p, x) => {
                let mut r: Vec<u8> = Vec::new();
                r.push(STX);
                r.push(*t);
                r.push(*l);
                append_bytes(&mut r, p);
                r.push(*x);
                r.push(ETX);
                proof {
                    assert(r@ =~= seq![STX, *t, *l] + p@ + seq![*x, ETX]);
                }
                r
            },
            RawFrame::CompleteAndJunk(t, l, p, x, j) => {
                let mut r: Vec<u8> = Vec::new();
                r.push(STX);
                r.push(*t);
                r.push(*l);
                append_bytes(&mut r, p);
                r.push(*x);
                r.push(ETX);
                append_bytes(&mut r, j);
                proof {
                    assert(r@ =~= seq![STX, *t, *l] + p@ + seq![*x, ETX] + j@);
                }
                r
            },
            RawFrame::Junk(j) => {
                let mut r: Vec<u8> = Vec::new();
                append_bytes(&mut r, j);
                proof {
                    assert(r@ =~= j@);
                }
                r
            },
        }
    }

    /// Removes any stray tail: a complete frame is kept, junk alone rewinds
    /// to an empty builder.
    pub fn remove_junk(&mut self)
        ensures
            final (self)@ == spec_remove_junk(old(self)@),
    {
        let mut cur = RawFrame::Empty;
        core::mem::swap(&mut cur, self);
        *self = match cur {
            RawFrame::AckAndJunk(_) => RawFrame::Ack,
            RawFrame::NackAndJunk(_) => RawFrame::Nack,
            RawFrame::CompleteAndJunk(t, l, p, x, _) => RawFrame::Complete(t, l, p, x),
            RawFrame::Junk(_) => RawFrame::Empty,
            other => other,
        };
    }
}

/// Appends every byte of a vector to another.
fn append_bytes(dst: &mut Vec<u8>, src: &Vec<u8>)
    ensures
        final (dst)@ == old(dst)@ + src@,
{
    let mut i: usize = 0;
    while i < src.len()
        invariant
            0 <= i <= src@.len(),
            dst@ == old(dst)@ + src@.take(i as int),
        decreases src@.len() - i,
    {
        dst.push(src[i]);
        proof {
            assert(old(dst)@ + src@.take(i + 1 as int) =~= (old(dst)@ + src@.take(i as int)).push(
                src@[i as int],
            ));
        }
        i += 1;
    }
    proof {
        assert(old(dst)@ + src@.take(src@.len() as int) =~= old(dst)@ + src@);
    }
}

/// Computes the frame checksum: tag, length and every payload byte XORed.
fn calcul_xor(tag: u8, len: u8, values: &[u8]) -> (r: u8)
    ensures
        r == spec_xor_of(tag, len, values@),
{
    let mut acc: u8 = tag ^ len;
    let mut i: usize = 0;
    proof {
        assert(values@.take(0) =~= Seq::<u8>::empty());
        assert(xor_seq(Seq::<u8>::empty()) == 0);
        let base = tag ^ len;
        assert(base ^ 0 == base) by (bit_vector);
    }
    while i < values.len()
        invariant
            0 <= i <= values@.len(),
            acc == (tag ^ len) ^ xor_seq(values@.take(i as int)),
        decreases values@.len() - i,
    {
        proof {
            let pre = values@.take(i as int);
            let b = values@[i as int];
            assert(values@.take(i + 1 as int) =~= pre.push(b));
            assert(values@.take(i + 1 as int).drop_last() =~= pre);
            let base = tag ^ len;
            let xs = xor_seq(pre);
            assert((base ^ xs) ^ b == base ^ (xs ^ b)) by (bit_vector);
        }
        acc = acc ^ values[i];
        i += 1;
    }
    proof {
        assert(values@.take(values@.len() as int) =~= values@);
    }
    acc
}

/// Feeding one more byte is one more step of the state machine.
pub proof fn lemma_feed_snoc(f: RawFrameView, bytes: Seq<u8>, b: u8)
    ensures
        spec_feed(f, bytes.push(b)) == spec_push(spec_feed(f, bytes), b),
    decreases bytes.len(),
{
    if bytes.len() == 0 {
        assert(bytes.push(b)[0] == b);
        assert(bytes.push(b).skip(1) =~= Seq::<u8>::empty());
        assert(spec_feed(f, bytes.push(b)) == spec_feed(spec_push(f, b), Seq::<u8>::empty()));
        assert(spec_feed(spec_push(f, b), Seq::<u8>::empty()) == spec_push(f, b));
        assert(spec_feed(f, bytes) == f);
    } else {
        assert(bytes.push(b)[0] == bytes[0]);
        assert(bytes.push(b).skip(1) =~= bytes.skip(1).push(b));
        assert(spec_feed(f, bytes.push(b)) == spec_feed(
            spec_push(f, bytes[0]),
            bytes.skip(1).push(b),
        ));
        lemma_feed_snoc(spec_push(f, bytes[0]), bytes.skip(1), b);
        assert(spec_feed(f, bytes) == spec_feed(spec_push(f, bytes[0]), bytes.skip(1)));
    }
}

/// Feeding a concatenation is feeding the parts one after the other.
pub proof fn lemma_feed_append(f: RawFrameView, a: Seq<u8>, b: Seq<u8>)
    ensures
        spec_feed(f, a + b) == spec_feed(spec_feed(f, a), b),
    decreases a.len(),
{
    if a.len() == 0 {
        assert(a + b =~= b);
    } else {
        assert((a + b)[0] == a[0]);
        assert((a + b).skip(1) =~= a.skip(1) + b);
        lemma_feed_append(spec_push(f, a[0]), a.skip(1), b);
    }
}

/// One step of the builder preserves structural soundness.
pub proof fn lemma_push_preserves_wf(f: RawFrameView, b: u8)
    requires
        frame_wf(f),
    ensures
        frame_wf(spec_push(f, b)),
{
    match f {
        RawFrameView::TagLen(t, l) => {
            if l == 0 && b == t {
                assert(xor_seq(Seq::<u8>::empty()) == 0);
                assert((t ^ 0) ^ 0 == t) by (bit_vector);
            }
        },
        _ => {},
    }
}

/// From `Building`, one byte leads to `Building`, `Ok` or `Junk`, never back
/// to `Empty`; from `Ok`, any byte leads to `Junk`.
pub proof fn lemma_state_monotone(f: RawFrameView, b: u8)
    ensures
        spec_state(f) == FrameState::Building ==> (spec_state(spec_push(f, b))
            == FrameState::Building || spec_state(spec_push(f, b)) == FrameState::Complete || spec_state(
            spec_push(f, b),
        ) == FrameState::Junk),
        spec_state(f) == FrameState::Complete ==> spec_state(spec_push(f, b)) == FrameState::Junk,
        spec_state(f) == FrameState::Junk ==> spec_state(spec_push(f, b)) == FrameState::Junk,
{
}

/// Removing stray bytes twice is the same as removing them once.
pub proof fn lemma_remove_junk_idempotent(f: RawFrameView)
    ensures
        spec_remove_junk(spec_remove_junk(f)) == spec_remove_junk(f),
{
}

/// The builder state after feeding the first `k` bytes of a complete message
/// frame `STX tag len payload xor ETX`.
pub open spec fn builder_at(tag: u8, len: u8, payload: Seq<u8>, k: int) -> RawFrameView {
    if k == 0 {
        RawFrameView::Empty
    } else if k == 1 {
        RawFrameView::Stx
    } else if k == 2 {
        RawFrameView::Tag(tag)
    } else if k == 3 {
        RawFrameView::TagLen(tag, len)
    } else if k <= 3 + payload.len() {
        RawFrameView::TagLenValue(tag, len, payload.take(k - 3))
    } else if k == 4 + payload.len() {
        RawFrameView::Xor(tag, len, payload, spec_xor_of(tag, len, payload))
    } else {
        RawFrameView::Complete(tag, len, payload, spec_xor_of(tag, len, payload))
    }
}

/// The canonical bytes of a complete message frame.
pub open spec fn message_bytes(tag: u8, len: u8, payload: Seq<u8>) -> Seq<u8> {
    seq![STX, tag, len] + payload + seq![spec_xor_of(tag, len, payload), ETX]
}

/// Feeding any prefix of a complete message frame into an empty builder
/// reaches exactly the builder state `builder_at` describes.
pub proof fn lemma_feed_message_prefix(tag: u8, len: u8, payload: Seq<u8>, k: int)
    requires
        len == payload.len(),
        0 <= k <= 5 + payload.len(),
    ensures
        spec_feed(RawFrameView::Empty, message_bytes(tag, len, payload).take(k)) == builder_at(
            tag,
            len,
            payload,
            k,
        ),
    decreases k,
{
    let bytes = message_bytes(tag, len, payload);
    assert(bytes.len() == 5 + payload.len());
    if k == 0 {
        assert(bytes.take(0) =~= Seq::<u8>::empty());
    } else {
        lemma_feed_message_prefix(tag, len, payload, k - 1);
        assert(bytes.take(k) =~= bytes.take(k - 1).push(bytes[k - 1]));
        lemma_feed_snoc(RawFrameView::Empty, bytes.take(k - 1), bytes[k - 1]);
        assert(spec_feed(RawFrameView::Empty, bytes.take(k)) == spec_push(
            builder_at(tag, len, payload, k - 1),
            bytes[k - 1],
        ));
        let prev = builder_at(tag, len, payload, k - 1);
        let b = bytes[k - 1];
        let head = seq![STX, tag, len];
        let tail = seq![spec_xor_of(tag, len, payload), ETX];
        assert(bytes =~= head + payload + tail);
        if k == 1 {
            assert(b == STX);
            assert(spec_push(prev, b) == builder_at(tag, len, payload, k));
        } else if k == 2 {
            assert(b == tag);
            assert(spec_push(prev, b) == builder_at(tag, len, payload, k));
        } else if k == 3 {
            assert(b == len);
            assert(spec_push(prev, b) == builder_at(tag, len, payload, k));
        } else if k <= 3 + payload.len() {
            assert((head + payload)[k - 1] == payload[k - 4]);
            assert(b == payload[k - 4]);
            if k == 4 {
                assert(prev == RawFrameView::TagLen(tag, len));
                assert(len >= 1);
                assert(payload.take(1) =~= seq![payload[0]]);
                assert(spec_push(prev, b) == builder_at(tag, len, payload, k));
            } else {
                assert(prev == RawFrameView::TagLenValue(tag, len, payload.take(k - 4)));
                assert(payload.take(k - 4).len() < len);
                assert(payload.take(k - 3) =~= payload.take(k - 4).push(payload[k - 4]));
                assert(spec_push(prev, b) == builder_at(tag, len, payload, k));
            }
        } else if k == 4 + payload.len() {
            assert(b == tail[0]);
            assert(b == spec_xor_of(tag, len, payload));
            if payload.len() == 0 {
                assert(prev == RawFrameView::TagLen(tag, 0));
                assert(xor_seq(Seq::<u8>::empty()) == 0);
                let t = tag;
                assert((t ^ 0) ^ 0 == t) by (bit_vector);
                assert(b == tag);
                assert(payload =~= Seq::<u8>::empty());
                assert(spec_push(prev, b) == builder_at(tag, len, payload, k));
            } else {
                assert(payload.take(payload.len() as int) =~= payload);
                assert(prev == RawFrameView::TagLenValue(tag, len, payload));
                assert(spec_push(prev, b) == builder_at(tag, len, payload, k));
            }
        } else {
            assert(k == 5 + payload.len());
            assert(b == tail[1]);
            assert(b == ETX);
            assert(prev == RawFrameView::Xor(tag, len, payload, spec_xor_of(tag, len, payload)));
            assert(spec_push(prev, b) == builder_at(tag, len, payload, k));
        }
    }
}

/// Frame round trip: feeding the encoding of a complete message byte by byte
/// into a fresh builder reaches `Ok` exactly on the last byte, with the same
/// tag, length, payload and checksum, and every proper nonempty prefix leaves
/// the builder in `Building`.
pub proof fn lemma_frame_round_trip(tag: u8, len: u8, payload: Seq<u8>)
    requires
        len == payload.len(),
    ensures
        spec_encode(RawFrameView::Complete(tag, len, payload, spec_xor_of(tag, len, payload)))
            == message_bytes(tag, len, payload),
        spec_feed(RawFrameView::Empty, message_bytes(tag, len, payload)) == RawFrameView::Complete(
            tag,
            len,
            payload,
            spec_xor_of(tag, len, payload),
        ),
        forall|k: int|
            1 <= k < 5 + payload.len() ==> spec_state(
                #[trigger] spec_feed(RawFrameView::Empty, message_bytes(tag, len, payload).take(k)),
            ) == FrameState::Building,
{
    let bytes = message_bytes(tag, len, payload);
    assert(bytes.take(5 + payload.len() as int) =~= bytes);
    lemma_feed_message_prefix(tag, len, payload, 5 + payload.len() as int);
    assert forall|k: int| 1 <= k < 5 + payload.len() implies spec_state(
        #[trigger] spec_feed(RawFrameView::Empty, bytes.take(k)),
    ) == FrameState::Building by {
        lemma_feed_message_prefix(tag, len, payload, k);
    }
}

} // verus!
