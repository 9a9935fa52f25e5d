//! Typed access to the database: read and write every primitive width at a
//! word address or through a tag key, text-driven writes, and the user-facing
//! ledger operations.
//!
//! Multi-byte values are big-endian. A one-byte number lives in the low byte
//! of its two-byte word; a boolean is the single byte at the word's start.

use vstd::prelude::*;

use crate::database::Database;
use crate::id_tag::IdTag;
use crate::id_users::{IdUser, NotificationChange};
use crate::t_format::TFormat;
use crate::t_value::TValue;
use crate::tag::{Tag, WordAddress};

verus! {

use vstd::utf8::encode_utf8;
use crate::be_data::{spec_be_val, spec_u64_to_be};
use crate::database::{db_wf, spec_find_by_id, spec_value_written, DatabaseView, DB_NB_BYTES};
use crate::t_value::{pad_trunc, TValueView};
use crate::text;
use crate::text::{spec_parse_bool, spec_parse_dec, spec_parse_i64, utf8_lossy_of};

/// The single byte a boolean writes: 1 for true, 0 for false.
pub open spec fn spec_bool_byte(value: bool) -> Seq<u8> {
    if value {
        seq![1u8]
    } else {
        seq![0u8]
    }
}

/// The two bytes a one-byte write leaves in a word: the word's old high
/// byte, then the new value in the low byte.
pub open spec fn spec_low_byte_write(d: DatabaseView, wa: u16, value: u8) -> Seq<u8> {
    seq![d.bytes[2 * wa as int], value]
}

/// Bytes read at a word address; a read past the store is empty.
pub open spec fn spec_read_bytes(d: DatabaseView, wa: u16, nb: nat) -> Seq<u8> {
    if 2 * wa + nb <= d.bytes.len() {
        d.bytes.subrange(2 * wa as int, 2 * wa + nb)
    } else {
        Seq::empty()
    }
}

/// Unsigned number read big-endian at a word address; 0 past the store.
pub open spec fn spec_read_uint(d: DatabaseView, wa: u16, nb: nat) -> nat {
    if 2 * wa + nb <= d.bytes.len() {
        spec_be_val(d.bytes.subrange(2 * wa as int, 2 * wa + nb))
    } else {
        0
    }
}

/// Low byte of the word at a word address; 0 past the store.
pub open spec fn spec_read_low_byte(d: DatabaseView, wa: u16) -> u8 {
    if 2 * wa + 2 <= d.bytes.len() {
        d.bytes[2 * wa + 1]
    } else {
        0
    }
}

/// Boolean read at a word address: the word's first byte is not 0.
pub open spec fn spec_read_bool(d: DatabaseView, wa: u16) -> bool {
    if 2 * wa + 1 <= d.bytes.len() {
        d.bytes[2 * wa as int] != 0
    } else {
        false
    }
}

/// The typed value a tag's format reads at a word address. An unknown format
/// reads as the three-byte text `???`.
pub open spec fn spec_read_t_value(d: DatabaseView, t_format: TFormat, wa: u16) -> TValueView {
    match t_format {
        TFormat::Bool => TValueView::Bool(spec_read_bool(d, wa)),
        TFormat::U8 => TValueView::U8(spec_read_low_byte(d, wa)),
        TFormat::I8 => TValueView::I8(spec_read_low_byte(d, wa) as i8),
        TFormat::U16 => TValueView::U16(spec_read_uint(d, wa, 2) as u16),
        TFormat::I16 => TValueView::I16(spec_read_uint(d, wa, 2) as u16 as i16),
        TFormat::U32 => TValueView::U32(spec_read_uint(d, wa, 4) as u32),
        TFormat::I32 => TValueView::I32(spec_read_uint(d, wa, 4) as u32 as i32),
        TFormat::U64 => TValueView::U64(spec_read_uint(d, wa, 8) as u64),
        TFormat::I64 => TValueView::I64(spec_read_uint(d, wa, 8) as u64 as i64),
        TFormat::F32 => TValueView::F32(spec_read_uint(d, wa, 4) as u32),
        TFormat::F64 => TValueView::F64(spec_read_uint(d, wa, 8) as u64),
        TFormat::VecU8(len) => TValueView::VecU8(len as nat, spec_read_bytes(d, wa, len as nat)),
        TFormat::Unknown => TValueView::VecU8(3, seq![0x3Fu8, 0x3F, 0x3F]),
    }
}

impl Database {
    /// Reads an unsigned big-endian number of `nb` bytes at a word address.
    fn read_uint(&self, word_address: WordAddress, nb: usize) -> (r: u64)
        requires
            db_wf(self@),
            1 <= nb <= 8,
        ensures
            r == spec_read_uint(self@, word_address, nb as nat),
    {
        let bytes = self.get_vec_u8_from_word_address(0, word_address, nb);
        if bytes.len() == nb {
            let r = crate::be_data::be_to_u64(bytes.as_slice(), 0, nb);
            proof {
                assert(bytes@.subrange(0, nb as int) =~= bytes@);
            }
            r
        } else {
            0
        }
    }

    // ---- bool ----

    /// Reads the boolean at a word address (the word's first byte is not 0).
    pub fn get_bool_from_word_address(&self, id_user: IdUser, word_address: WordAddress) -> (r:
        bool)
        requires
            db_wf(self@),
        ensures
            r == spec_read_bool(self@, word_address),
    {
        let bytes = self.get_vec_u8_from_word_address(id_user, word_address, 1);
        if bytes.len() == 1 {
            bytes[0] != 0
        } else {
            false
        }
    }

    /// Writes a boolean at a word address, as the single byte 1 or 0.
    pub fn set_bool_to_word_address(
        &mut self,
        id_user: IdUser,
        word_address: WordAddress,
        value: bool,
    )
        requires
            db_wf(old(self)@),
        ensures
            db_wf(final (self)@),
            spec_value_written(old(self)@,
                    id_user,
                    word_address,
                    spec_bool_byte(value), final (self)@),
    {
        let mut data: Vec<u8> = Vec::new();
        data.push(if value {
            1
        } else {
            0
        });
        proof {
            assert(data@ =~= spec_bool_byte(value));
        }
        self.set_vec_u8_to_word_address(id_user, word_address, data.as_slice());
    }

    /// Reads the boolean of a tag key; false for an unknown key.
    pub fn get_bool_from_id_tag(&self, id_user: IdUser, id_tag: IdTag) -> (r: bool)
        requires
            db_wf(self@),
        ensures
            r == match spec_find_by_id(self@.tags, id_tag) {
                Some(t) => spec_read_bool(self@, t.word_address),
                None => false,
            },
    {
        let wa = match self.get_tag_from_id_tag(id_tag) {
            Some(tag) => Some(tag.word_address),
            None => None,
        };
        match wa {
            Some(word_address) => self.get_bool_from_word_address(id_user, word_address),
            None => false,
        }
    }

    /// Writes the boolean of a tag key; an unknown key changes nothing.
    pub fn set_bool_to_id_tag(&mut self, id_user: IdUser, id_tag: IdTag, value: bool)
        requires
            db_wf(old(self)@),
        ensures
            db_wf(final (self)@),
            match spec_find_by_id(old(self)@.tags, id_tag) {
                Some(t) => spec_value_written(old(self)@,
                        id_user,
                        t.word_address,
                        spec_bool_byte(value), final (self)@),
                None => final (self)@ == old(self)@,
            },
    {
        let wa = match self.get_tag_from_id_tag(id_tag) {
            Some(tag) => Some(tag.word_address),
            None => None,
        };
        match wa {
            Some(word_address) => self.set_bool_to_word_address(id_user, word_address, value),
            None => {},
        }
    }

    // ---- u8 / i8 (low byte of the word) ----

    /// Reads the one-byte number at a word address (the word's low byte).
    pub fn get_u8_from_word_address(&self, id_user: IdUser, word_address: WordAddress) -> (r: u8)
        requires
            db_wf(self@),
        ensures
            r == spec_read_low_byte(self@, word_address),
    {
        let bytes = self.get_vec_u8_from_word_address(id_user, word_address, 2);
        if bytes.len() == 2 {
            bytes[1]
        } else {
            0
        }
    }

    /// Writes a one-byte number into the word's low byte, keeping the high
    /// byte; a write past the store changes nothing.
    pub fn set_u8_to_word_address(&mut self, id_user: IdUser, word_address: WordAddress, value: u8)
        requires
            db_wf(old(self)@),
        ensures
            db_wf(final (self)@),
            2 * word_address + 2 <= DB_NB_BYTES ==> spec_value_written(old(self)@,
                    id_user,
                    word_address,
                    spec_low_byte_write(old(self)@, word_address, value), final (self)@),
            2 * word_address + 2 > DB_NB_BYTES ==> final (self)@ == old(self)@,
    {
        let bytes = self.get_vec_u8_from_word_address(id_user, word_address, 2);
        if bytes.len() == 2 {
            let mut data: Vec<u8> = Vec::new();
            data.push(bytes[0]);
            data.push(value);
            proof {
                assert(data@ =~= spec_low_byte_write(old(self)@, word_address, value));
            }
            self.set_vec_u8_to_word_address(id_user, word_address, data.as_slice());
        }
    }

    /// Reads the one-byte signed number at a word address.
    pub fn get_i8_from_word_address(&self, id_user: IdUser, word_address: WordAddress) -> (r: i8)
        requires
            db_wf(self@),
        ensures
            r == spec_read_low_byte(self@, word_address) as i8,
    {
        self.get_u8_from_word_address(id_user, word_address) as i8
    }

    /// Writes a one-byte signed number into the word's low byte.
    pub fn set_i8_to_word_address(&mut self, id_user: IdUser, word_address: WordAddress, value: i8)
        requires
            db_wf(old(self)@),
        ensures
            db_wf(final (self)@),
            2 * word_address + 2 <= DB_NB_BYTES ==> spec_value_written(old(self)@,
                    id_user,
                    word_address,
                    spec_low_byte_write(old(self)@, word_address, value as u8), final (self)@),
            2 * word_address + 2 > DB_NB_BYTES ==> final (self)@ == old(self)@,
    {
        self.set_u8_to_word_address(id_user, word_address, value as u8)
    }

    /// Reads the one-byte number of a tag key; 0 for an unknown key.
    pub fn get_u8_from_id_tag(&self, id_user: IdUser, id_tag: IdTag) -> (r: u8)
        requires
            db_wf(self@),
        ensures
            r == match spec_find_by_id(self@.tags, id_tag) {
                Some(t) => spec_read_low_byte(self@, t.word_address),
                None => 0u8,
            },
    {
        let wa = match self.get_tag_from_id_tag(id_tag) {
            Some(tag) => Some(tag.word_address),
            None => None,
        };
        match wa {
            Some(word_address) => self.get_u8_from_word_address(id_user, word_address),
            None => 0,
        }
    }

    /// Writes the one-byte number of a tag key; an unknown key changes
    /// nothing.
    pub fn set_u8_to_id_tag(&mut self, id_user: IdUser, id_tag: IdTag, value: u8)
        requires
            db_wf(old(self)@),
        ensures
            db_wf(final (self)@),
            match spec_find_by_id(old(self)@.tags, id_tag) {
                Some(t) => (2 * t.word_address + 2 <= DB_NB_BYTES ==> spec_value_written(old(self)@,
                        id_user,
                        t.word_address,
                        spec_low_byte_write(old(self)@, t.word_address, value), final (self)@)) && (2 * t.word_address + 2 > DB_NB_BYTES ==> final (self)@ == old(self)@),
                None => final (self)@ == old(self)@,
            },
    {
        let wa = match self.get_tag_from_id_tag(id_tag) {
            Some(tag) => Some(tag.word_address),
            None => None,
        };
        match wa {
            Some(word_address) => self.set_u8_to_word_address(id_user, word_address, value),
            None => {},
        }
    }

    /// Reads the one-byte signed number of a tag key; 0 for an unknown key.
    pub fn get_i8_from_id_tag(&self, id_user: IdUser, id_tag: IdTag) -> (r: i8)
        requires
            db_wf(self@),
        ensures
            r == match spec_find_by_id(self@.tags, id_tag) {
                Some(t) => spec_read_low_byte(self@, t.word_address) as i8,
                None => 0i8,
            },
    {
        let wa = match self.get_tag_from_id_tag(id_tag) {
            Some(tag) => Some(tag.word_address),
            None => None,
        };
        match wa {
            Some(word_address) => self.get_i8_from_word_address(id_user, word_address),
            None => 0,
        }
    }

    /// Writes the one-byte signed number of a tag key; an unknown key changes
    /// nothing.
    pub fn set_i8_to_id_tag(&mut self, id_user: IdUser, id_tag: IdTag, value: i8)
        requires
            db_wf(old(self)@),
        ensures
            db_wf(final (self)@),
            match spec_find_by_id(old(self)@.tags, id_tag) {
                Some(t) => (2 * t.word_address + 2 <= DB_NB_BYTES ==> spec_value_written(old(self)@,
                        id_user,
                        t.word_address,
                        spec_low_byte_write(old(self)@, t.word_address, value as u8), final (self)@)) && (2 * t.word_address + 2 > DB_NB_BYTES ==> final (self)@ == old(self)@),
                None => final (self)@ == old(self)@,
            },
    {
        let wa = match self.get_tag_from_id_tag(id_tag) {
            Some(tag) => Some(tag.word_address),
            None => None,
        };
        match wa {
            Some(word_address) => self.set_i8_to_word_address(id_user, word_address, value),
            None => {},
        }
    }

    // ---- u16 / i16 ----

    /// Reads the two-byte number at a word address.
    pub fn get_u16_from_word_address(&self, id_user: IdUser, word_address: WordAddress) -> (r: u16)
        requires
            db_wf(self@),
        ensures
            r == spec_read_uint(self@, word_address, 2) as u16,
    {
        proof {
            crate::be_data::lemma_pow256_le8();
            if 2 * word_address + 2 <= DB_NB_BYTES {
                crate::be_data::lemma_be_val_bound(
                    self@.bytes.subrange(2 * word_address as int, 2 * word_address + 2),
                );
            }
        }
        self.read_uint(word_address, 2) as u16
    }

    /// Writes a two-byte number big-endian at a word address.
    pub fn set_u16_to_word_address(
        &mut self,
        id_user: IdUser,
        word_address: WordAddress,
        value: u16,
    )
        requires
            db_wf(old(self)@),
        ensures
            db_wf(final (self)@),
            spec_value_written(old(self)@,
                    id_user,
                    word_address,
                    spec_u64_to_be(value as u64, 2), final (self)@),
    {
        let data = crate::be_data::u64_to_be(value as u64, 2);
        self.set_vec_u8_to_word_address(id_user, word_address, data.as_slice());
    }

    /// Reads the two-byte signed number at a word address.
    pub fn get_i16_from_word_address(&self, id_user: IdUser, word_address: WordAddress) -> (r: i16)
        requires
            db_wf(self@),
        ensures
            r == spec_read_uint(self@, word_address, 2) as u16 as i16,
    {
        self.get_u16_from_word_address(id_user, word_address) as i16
    }

    /// Writes a two-byte signed number big-endian at a word address.
    pub fn set_i16_to_word_address(
        &mut self,
        id_user: IdUser,
        word_address: WordAddress,
        value: i16,
    )
        requires
            db_wf(old(self)@),
        ensures
            db_wf(final (self)@),
            spec_value_written(old(self)@,
                    id_user,
                    word_address,
                    spec_u64_to_be(value as u16 as u64, 2), final (self)@),
    {
        self.set_u16_to_word_address(id_user, word_address, value as u16)
    }

    /// Reads the two-byte number of a tag key; 0 for an unknown key.
    pub fn get_u16_from_id_tag(&self, id_user: IdUser, id_tag: IdTag) -> (r: u16)
        requires
            db_wf(self@),
        ensures
            r == match spec_find_by_id(self@.tags, id_tag) {
                Some(t) => spec_read_uint(self@, t.word_address, 2) as u16,
                None => 0u16,
            },
    {
        let wa = match self.get_tag_from_id_tag(id_tag) {
            Some(tag) => Some(tag.word_address),
            None => None,
        };
        match wa {
            Some(word_address) => self.get_u16_from_word_address(id_user, word_address),
            None => 0,
        }
    }

    /// Writes the two-byte number of a tag key; an unknown key changes
    /// nothing.
    pub fn set_u16_to_id_tag(&mut self, id_user: IdUser, id_tag: IdTag, value: u16)
        requires
            db_wf(old(self)@),
        ensures
            db_wf(final (self)@),
            match spec_find_by_id(old(self)@.tags, id_tag) {
                Some(t) => spec_value_written(old(self)@,
                        id_user,
                        t.word_address,
                        spec_u64_to_be(value as u64, 2), final (self)@),
                None => final (self)@ == old(self)@,
            },
    {
        let wa = match self.get_tag_from_id_tag(id_tag) {
            Some(tag) => Some(tag.word_address),
            None => None,
        };
        match wa {
            Some(word_address) => self.set_u16_to_word_address(id_user, word_address, value),
            None => {},
        }
    }

    /// Reads the two-byte signed number of a tag key; 0 for an unknown key.
    pub fn get_i16_from_id_tag(&self, id_user: IdUser, id_tag: IdTag) -> (r: i16)
        requires
            db_wf(self@),
        ensures
            r == match spec_find_by_id(self@.tags, id_tag) {
                Some(t) => spec_read_uint(self@, t.word_address, 2) as u16 as i16,
                None => 0i16,
            },
    {
        let wa = match self.get_tag_from_id_tag(id_tag) {
            Some(tag) => Some(tag.word_address),
            None => None,
        };
        match wa {
            Some(word_address) => self.get_i16_from_word_address(id_user, word_address),
            None => 0,
        }
    }

    /// Writes the two-byte signed number of a tag key; an unknown key changes
    /// nothing.
    pub fn set_i16_to_id_tag(&mut self, id_user: IdUser, id_tag: IdTag, value: i16)
        requires
            db_wf(old(self)@),
        ensures
            db_wf(final (self)@),
            match spec_find_by_id(old(self)@.tags, id_tag) {
                Some(t) => spec_value_written(old(self)@,
                        id_user,
                        t.word_address,
                        spec_u64_to_be(value as u16 as u64, 2), final (self)@),
                None => final (self)@ == old(self)@,
            },
    {
        let wa = match self.get_tag_from_id_tag(id_tag) {
            Some(tag) => Some(tag.word_address),
            None => None,
        };
        match wa {
            Some(word_address) => self.set_i16_to_word_address(id_user, word_address, value),
            None => {},
        }
    }

    // ---- u32 / i32 ----

    /// Reads the four-byte number at a word address.
    pub fn get_u32_from_word_address(&self, id_user: IdUser, word_address: WordAddress) -> (r: u32)
        requires
            db_wf(self@),
        ensures
            r == spec_read_uint(self@, word_address, 4) as u32,
    {
        proof {
            crate::be_data::lemma_pow256_le8();
            if 2 * word_address + 4 <= DB_NB_BYTES {
                crate::be_data::lemma_be_val_bound(
                    self@.bytes.subrange(2 * word_address as int, 2 * word_address + 4),
                );
            }
        }
        self.read_uint(word_address, 4) as u32
    }

    /// Writes a four-byte number big-endian at a word address.
    pub fn set_u32_to_word_address(
        &mut self,
        id_user: IdUser,
        word_address: WordAddress,
        value: u32,
    )
        requires
            db_wf(old(self)@),
        ensures
            db_wf(final (self)@),
            spec_value_written(old(self)@,
                    id_user,
                    word_address,
                    spec_u64_to_be(value as u64, 4), final (self)@),
    {
        let data = crate::be_data::u64_to_be(value as u64, 4);
        self.set_vec_u8_to_word_address(id_user, word_address, data.as_slice());
    }

    /// Reads the four-byte signed number at a word address.
    pub fn get_i32_from_word_address(&self, id_user: IdUser, word_address: WordAddress) -> (r: i32)
        requires
            db_wf(self@),
        ensures
            r == spec_read_uint(self@, word_address, 4) as u32 as i32,
    {
        self.get_u32_from_word_address(id_user, word_address) as i32
    }

    /// Writes a four-byte signed number big-endian at a word address.
    pub fn set_i32_to_word_address(
        &mut self,
        id_user: IdUser,
        word_address: WordAddress,
        value: i32,
    )
        requires
            db_wf(old(self)@),
        ensures
            db_wf(final (self)@),
            spec_value_written(old(self)@,
                    id_user,
                    word_address,
                    spec_u64_to_be(value as u32 as u64, 4), final (self)@),
    {
        self.set_u32_to_word_address(id_user, word_address, value as u32)
    }

    /// Reads the four-byte number of a tag key; 0 for an unknown key.
    pub fn get_u32_from_id_tag(&self, id_user: IdUser, id_tag: IdTag) -> (r: u32)
        requires
            db_wf(self@),
        ensures
            r == match spec_find_by_id(self@.tags, id_tag) {
                Some(t) => spec_read_uint(self@, t.word_address, 4) as u32,
                None => 0u32,
            },
    {
        let wa = match self.get_tag_from_id_tag(id_tag) {
            Some(tag) => Some(tag.word_address),
            None => None,
        };
        match wa {
            Some(word_address) => self.get_u32_from_word_address(id_user, word_address),
            None => 0,
        }
    }

    /// Writes the four-byte number of a tag key; an unknown key changes
    /// nothing.
    pub fn set_u32_to_id_tag(&mut self, id_user: IdUser, id_tag: IdTag, value: u32)
        requires
            db_wf(old(self)@),
        ensures
            db_wf(final (self)@),
            match spec_find_by_id(old(self)@.tags, id_tag) {
                Some(t) => spec_value_written(old(self)@,
                        id_user,
                        t.word_address,
                        spec_u64_to_be(value as u64, 4), final (self)@),
                None => final (self)@ == old(self)@,
            },
    {
        let wa = match self.get_tag_from_id_tag(id_tag) {
            Some(tag) => Some(tag.word_address),
            None => None,
        };
        match wa {
            Some(word_address) => self.set_u32_to_word_address(id_user, word_address, value),
            None => {},
        }
    }

    /// Reads the four-byte signed number of a tag key; 0 for an unknown key.
    pub fn get_i32_from_id_tag(&self, id_user: IdUser, id_tag: IdTag) -> (r: i32)
        requires
            db_wf(self@),
        ensures
            r == match spec_find_by_id(self@.tags, id_tag) {
                Some(t) => spec_read_uint(self@, t.word_address, 4) as u32 as i32,
                None => 0i32,
            },
    {
        let wa = match self.get_tag_from_id_tag(id_tag) {
            Some(tag) => Some(tag.word_address),
            None => None,
        };
        match wa {
            Some(word_address) => self.get_i32_from_word_address(id_user, word_address),
            None => 0,
        }
    }

    /// Writes the four-byte signed number of a tag key; an unknown key
    /// changes nothing.
    pub fn set_i32_to_id_tag(&mut self, id_user: IdUser, id_tag: IdTag, value: i32)
        requires
            db_wf(old(self)@),
        ensures
            db_wf(final (self)@),
            match spec_find_by_id(old(self)@.tags, id_tag) {
                Some(t) => spec_value_written(old(self)@,
                        id_user,
                        t.word_address,
                        spec_u64_to_be(value as u32 as u64, 4), final (self)@),
                None => final (self)@ == old(self)@,
            },
    {
        let wa = match self.get_tag_from_id_tag(id_tag) {
            Some(tag) => Some(tag.word_address),
            None => None,
        };
        match wa {
            Some(word_address) => self.set_i32_to_word_address(id_user, word_address, value),
            None => {},
        }
    }

    // ---- u64 / i64 ----

    /// Reads the eight-byte number at a word address.
    pub fn get_u64_from_word_address(&self, id_user: IdUser, word_address: WordAddress) -> (r: u64)
        requires
            db_wf(self@),
        ensures
            r == spec_read_uint(self@, word_address, 8) as u64,
    {
        proof {
            crate::be_data::lemma_pow256_le8();
            if 2 * word_address + 8 <= DB_NB_BYTES {
                crate::be_data::lemma_be_val_bound(
                    self@.bytes.subrange(2 * word_address as int, 2 * word_address + 8),
                );
            }
        }
        self.read_uint(word_address, 8)
    }

    /// Writes an eight-byte number big-endian at a word address.
    pub fn set_u64_to_word_address(
        &mut self,
        id_user: IdUser,
        word_address: WordAddress,
        value: u64,
    )
        requires
            db_wf(old(self)@),
        ensures
            db_wf(final (self)@),
            spec_value_written(old(self)@,
                    id_user,
                    word_address,
                    spec_u64_to_be(value, 8), final (self)@),
    {
        let data = crate::be_data::u64_to_be(value, 8);
        self.set_vec_u8_to_word_address(id_user, word_address, data.as_slice());
    }

    /// Reads the eight-byte signed number at a word address.
    pub fn get_i64_from_word_address(&self, id_user: IdUser, word_address: WordAddress) -> (r: i64)
        requires
            db_wf(self@),
        ensures
            r == spec_read_uint(self@, word_address, 8) as u64 as i64,
    {
        self.get_u64_from_word_address(id_user, word_address) as i64
    }

    /// Writes an eight-byte signed number big-endian at a word address.
    pub fn set_i64_to_word_address(
        &mut self,
        id_user: IdUser,
        word_address: WordAddress,
        value: i64,
    )
        requires
            db_wf(old(self)@),
        ensures
            db_wf(final (self)@),
            spec_value_written(old(self)@,
                    id_user,
                    word_address,
                    spec_u64_to_be(value as u64, 8), final (self)@),
    {
        self.set_u64_to_word_address(id_user, word_address, value as u64)
    }

    /// Reads the eight-byte number of a tag key; 0 for an unknown key.
    pub fn get_u64_from_id_tag(&self, id_user: IdUser, id_tag: IdTag) -> (r: u64)
        requires
            db_wf(self@),
        ensures
            r == match spec_find_by_id(self@.tags, id_tag) {
                Some(t) => spec_read_uint(self@, t.word_address, 8) as u64,
                None => 0u64,
            },
    {
        let wa = match self.get_tag_from_id_tag(id_tag) {
            Some(tag) => Some(tag.word_address),
            None => None,
        };
        match wa {
            Some(word_address) => self.get_u64_from_word_address(id_user, word_address),
            None => 0,
        }
    }

    /// Writes the eight-byte number of a tag key; an unknown key changes
    /// nothing.
    pub fn set_u64_to_id_tag(&mut self, id_user: IdUser, id_tag: IdTag, value: u64)
        requires
            db_wf(old(self)@),
        ensures
            db_wf(final (self)@),
            match spec_find_by_id(old(self)@.tags, id_tag) {
                Some(t) => spec_value_written(old(self)@,
                        id_user,
                        t.word_address,
                        spec_u64_to_be(value, 8), final (self)@),
                None => final (self)@ == old(self)@,
            },
    {
        let wa = match self.get_tag_from_id_tag(id_tag) {
            Some(tag) => Some(tag.word_address),
            None => None,
        };
        match wa {
            Some(word_address) => self.set_u64_to_word_address(id_user, word_address, value),
            None => {},
        }
    }

    /// Reads the eight-byte signed number of a tag key; 0 for an unknown key.
    pub fn get_i64_from_id_tag(&self, id_user: IdUser, id_tag: IdTag) -> (r: i64)
        requires
            db_wf(self@),
        ensures
            r == match spec_find_by_id(self@.tags, id_tag) {
                Some(t) => spec_read_uint(self@, t.word_address, 8) as u64 as i64,
                None => 0i64,
            },
    {
        let wa = match self.get_tag_from_id_tag(id_tag) {
            Some(tag) => Some(tag.word_address),
            None => None,
        };
        match wa {
            Some(word_address) => self.get_i64_from_word_address(id_user, word_address),
            None => 0,
        }
    }

    /// Writes the eight-byte signed number of a tag key; an unknown key
    /// changes nothing.
    pub fn set_i64_to_id_tag(&mut self, id_user: IdUser, id_tag: IdTag, value: i64)
        requires
            db_wf(old(self)@),
        ensures
            db_wf(final (self)@),
            match spec_find_by_id(old(self)@.tags, id_tag) {
                Some(t) => spec_value_written(old(self)@,
                        id_user,
                        t.word_address,
                        spec_u64_to_be(value as u64, 8), final (self)@),
                None => final (self)@ == old(self)@,
            },
    {
        let wa = match self.get_tag_from_id_tag(id_tag) {
            Some(tag) => Some(tag.word_address),
            None => None,
        };
        match wa {
            Some(word_address) => self.set_i64_to_word_address(id_user, word_address, value),
            None => {},
        }
    }

    // ---- text and raw bytes ----

    /// Reads `width` bytes at a word address as text (invalid UTF-8 replaced).
    pub fn get_string_from_word_address(
        &self,
        id_user: IdUser,
        word_address: WordAddress,
        width: usize,
    ) -> (r: String)
        requires
            db_wf(self@),
        ensures
            r@ == utf8_lossy_of(spec_read_bytes(self@, word_address, width as nat)),
    {
        let bytes = self.get_vec_u8_from_word_address(id_user, word_address, width);
        text::vec_u8_to_string(bytes.as_slice())
    }

    /// Writes the UTF-8 bytes of a text at a word address.
    pub fn set_string_to_word_address(
        &mut self,
        id_user: IdUser,
        word_address: WordAddress,
        value: &str,
    )
        requires
            db_wf(old(self)@),
        ensures
            db_wf(final (self)@),
            spec_value_written(old(self)@,
                    id_user,
                    word_address,
                    encode_utf8(value@), final (self)@),
    {
        let data = text::string_to_vec_u8(value);
        self.set_vec_u8_to_word_address(id_user, word_address, data.as_slice());
    }

    /// Reads `width` bytes of a tag key as text; empty for an unknown key.
    pub fn get_string_from_id_tag(&self, id_user: IdUser, id_tag: &IdTag, width: usize) -> (r:
        String)
        requires
            db_wf(self@),
        ensures
            match spec_find_by_id(self@.tags, *id_tag) {
                Some(t) => r@ == utf8_lossy_of(spec_read_bytes(self@, t.word_address, width as nat)),
                None => r@ == Seq::<char>::empty(),
            },
    {
        let wa = match self.get_tag_from_id_tag(*id_tag) {
            Some(tag) => Some(tag.word_address),
            None => None,
        };
        match wa {
            Some(word_address) => self.get_string_from_word_address(id_user, word_address, width),
            None => String::new(),
        }
    }

    /// Writes the UTF-8 bytes of a text for a tag key; an unknown key changes
    /// nothing.
    pub fn set_string_to_id_tag(&mut self, id_user: IdUser, id_tag: &IdTag, value: &str)
        requires
            db_wf(old(self)@),
        ensures
            db_wf(final (self)@),
            match spec_find_by_id(old(self)@.tags, *id_tag) {
                Some(t) => spec_value_written(old(self)@,
                        id_user,
                        t.word_address,
                        encode_utf8(value@), final (self)@),
                None => final (self)@ == old(self)@,
            },
    {
        let wa = match self.get_tag_from_id_tag(*id_tag) {
            Some(tag) => Some(tag.word_address),
            None => None,
        };
        match wa {
            Some(word_address) => self.set_string_to_word_address(id_user, word_address, value),
            None => {},
        }
    }

    /// Reads `width` raw bytes of a tag key; empty for an unknown key.
    pub fn get_vec_u8_from_id_tag(&self, id_user: IdUser, id_tag: IdTag, width: usize) -> (r: Vec<
        u8,
    >)
        requires
            db_wf(self@),
        ensures
            match spec_find_by_id(self@.tags, id_tag) {
                Some(t) => r@ == spec_read_bytes(self@, t.word_address, width as nat),
                None => r@ == Seq::<u8>::empty(),
            },
    {
        let wa = match self.get_tag_from_id_tag(id_tag) {
            Some(tag) => Some(tag.word_address),
            None => None,
        };
        match wa {
            Some(word_address) => self.get_vec_u8_from_word_address(id_user, word_address, width),
            None => Vec::new(),
        }
    }

    /// Writes raw bytes for a tag key; an unknown key changes nothing.
    pub fn set_vec_u8_to_id_tag(&mut self, id_user: IdUser, id_tag: IdTag, value: &[u8])
        requires
            db_wf(old(self)@),
        ensures
            db_wf(final (self)@),
            match spec_find_by_id(old(self)@.tags, id_tag) {
                Some(t) => spec_value_written(old(self)@,
                        id_user,
                        t.word_address,
                        value@, final (self)@),
                None => final (self)@ == old(self)@,
            },
    {
        let wa = match self.get_tag_from_id_tag(id_tag) {
            Some(tag) => Some(tag.word_address),
            None => None,
        };
        match wa {
            Some(word_address) => self.set_vec_u8_to_word_address(id_user, word_address, value),
            None => {},
        }
    }

    /// Reads the typed value of a tag, by its format, at its word address.
    pub fn get_t_value_from_tag(&self, id_user: IdUser, tag: &Tag) -> (r: TValue)
        requires
            db_wf(self@),
        ensures
            r@ == spec_read_t_value(self@, tag.t_format, tag.word_address),
    {
        let word_address = tag.word_address;
        match tag.t_format {
            TFormat::Bool => TValue::Bool(self.get_bool_from_word_address(id_user, word_address)),
            TFormat::U8 => TValue::U8(self.get_u8_from_word_address(id_user, word_address)),
            TFormat::I8 => TValue::I8(self.get_i8_from_word_address(id_user, word_address)),
            TFormat::U16 => TValue::U16(self.get_u16_from_word_address(id_user, word_address)),
            TFormat::I16 => TValue::I16(self.get_i16_from_word_address(id_user, word_address)),
            TFormat::U32 => TValue::U32(self.get_u32_from_word_address(id_user, word_address)),
            TFormat::I32 => TValue::I32(self.get_i32_from_word_address(id_user, word_address)),
            TFormat::U64 => TValue::U64(self.get_u64_from_word_address(id_user, word_address)),
            TFormat::I64 => TValue::I64(self.get_i64_from_word_address(id_user, word_address)),
            TFormat::F32 => TValue::F32(self.get_u32_from_word_address(id_user, word_address)),
            TFormat::F64 => TValue::F64(self.get_u64_from_word_address(id_user, word_address)),
            TFormat::VecU8(len) => TValue::VecU8(
                len,
                self.get_vec_u8_from_word_address(id_user, word_address, len),
            ),
            TFormat::Unknown => {
                let mut bytes: Vec<u8> = Vec::new();
                bytes.push(0x3F);
                bytes.push(0x3F);
                bytes.push(0x3F);
                proof {
                    assert(bytes@ =~= seq![0x3Fu8, 0x3F, 0x3F]);
                }
                TValue::VecU8(3, bytes)
            },
        }
    }

    /// Writes a tag's value from its textual rendering, parsed by the tag's
    /// format. Text that does not parse — and a float or unknown format,
    /// whose parsing the embedding program owns — changes nothing.
    #[verifier::rlimit(100)]
    #[verifier::spinoff_prover]
    pub fn set_value(&mut self, id_user: IdUser, tag: &Tag, value: &str)
        requires
            db_wf(old(self)@),
        ensures
            db_wf(final (self)@),
            ({
                let wa = tag.word_address;
                let text_bytes = encode_utf8(value@);
                match tag.t_format {
                    TFormat::Bool => match spec_parse_bool(text_bytes) {
                        Some(b) => spec_value_written(old(self)@,
                                id_user,
                                wa,
                                spec_bool_byte(b), final (self)@),
                        None => final (self)@ == old(self)@,
                    },
                    TFormat::U8 => match spec_parse_dec(text_bytes, u8::MAX as nat) {
                        Some(v) => (2 * wa + 2 <= DB_NB_BYTES ==> spec_value_written(old(self)@,
                                id_user,
                                wa,
                                spec_low_byte_write(old(self)@, wa, v as u8), final (self)@)) && (2 * wa + 2 > DB_NB_BYTES ==> final (self)@ == old(self)@),
                        None => final (self)@ == old(self)@,
                    },
                    TFormat::I8 => match spec_parse_i64(text_bytes) {
                        Some(v) => if i8::MIN <= v <= i8::MAX {
                            (2 * wa + 2 <= DB_NB_BYTES ==> spec_value_written(old(self)@,
                                    id_user,
                                    wa,
                                    spec_low_byte_write(old(self)@, wa, v as i8 as u8), final (self)@)) && (2 * wa + 2 > DB_NB_BYTES ==> final (self)@ == old(self)@)
                        } else {
                            final (self)@ == old(self)@
                        },
                        None => final (self)@ == old(self)@,
                    },
                    TFormat::U16 => match spec_parse_dec(text_bytes, u16::MAX as nat) {
                        Some(v) => spec_value_written(old(self)@,
                                id_user,
                                wa,
                                spec_u64_to_be(v as u64, 2), final (self)@),
                        None => final (self)@ == old(self)@,
                    },
                    TFormat::I16 => match spec_parse_i64(text_bytes) {
                        Some(v) => if i16::MIN <= v <= i16::MAX {
                            spec_value_written(old(self)@,
                                    id_user,
                                    wa,
                                    spec_u64_to_be(v as i16 as u16 as u64, 2), final (self)@)
                        } else {
                            final (self)@ == old(self)@
                        },
                        None => final (self)@ == old(self)@,
                    },
                    TFormat::U32 => match spec_parse_dec(text_bytes, u32::MAX as nat) {
                        Some(v) => spec_value_written(old(self)@,
                                id_user,
                                wa,
                                spec_u64_to_be(v as u64, 4), final (self)@),
                        None => final (self)@ == old(self)@,
                    },
                    TFormat::I32 => match spec_parse_i64(text_bytes) {
                        Some(v) => if i32::MIN <= v <= i32::MAX {
                            spec_value_written(old(self)@,
                                    id_user,
                                    wa,
                                    spec_u64_to_be(v as i32 as u32 as u64, 4), final (self)@)
                        } else {
                            final (self)@ == old(self)@
                        },
                        None => final (self)@ == old(self)@,
                    },
                    TFormat::U64 => match spec_parse_dec(text_bytes, u64::MAX as nat) {
                        Some(v) => spec_value_written(old(self)@,
                                id_user,
                                wa,
                                spec_u64_to_be(v as u64, 8), final (self)@),
                        None => final (self)@ == old(self)@,
                    },
                    TFormat::I64 => match spec_parse_i64(text_bytes) {
                        Some(v) => spec_value_written(old(self)@,
                                id_user,
                                wa,
                                spec_u64_to_be(v as u64, 8), final (self)@),
                        None => final (self)@ == old(self)@,
                    },
                    TFormat::VecU8(len) => spec_value_written(old(self)@,
                            id_user,
                            wa,
                            pad_trunc(text_bytes, len as nat), final (self)@),
                    _ => final (self)@ == old(self)@,
                }
            }),
    {
        let word_address = tag.word_address;
        let text_bytes = text::string_to_vec_u8(value);
        match tag.t_format {
            TFormat::Bool => {
                match text::parse_bool_bytes(text_bytes.as_slice()) {
                    Some(v) => self.set_bool_to_word_address(id_user, word_address, v),
                    None => {},
                }
            },
            TFormat::U8 => {
                match text::parse_dec_bytes(text_bytes.as_slice(), 0xFF) {
                    Some(v) => self.set_u8_to_word_address(id_user, word_address, v as u8),
                    None => {},
                }
            },
            TFormat::I8 => {
                match text::parse_i64_bytes(text_bytes.as_slice()) {
                    Some(v) => {
                        if -128 <= v && v <= 127 {
                            self.set_i8_to_word_address(id_user, word_address, v as i8)
                        }
                    },
                    None => {},
                }
            },
            TFormat::U16 => {
                match text::parse_dec_bytes(text_bytes.as_slice(), 0xFFFF) {
                    Some(v) => self.set_u16_to_word_address(id_user, word_address, v as u16),
                    None => {},
                }
            },
            TFormat::I16 => {
                match text::parse_i64_bytes(text_bytes.as_slice()) {
                    Some(v) => {
                        if -32768 <= v && v <= 32767 {
                            self.set_i16_to_word_address(id_user, word_address, v as i16)
                        }
                    },
                    None => {},
                }
            },
            TFormat::U32 => {
                match text::parse_dec_bytes(text_bytes.as_slice(), 0xFFFF_FFFF) {
                    Some(v) => self.set_u32_to_word_address(id_user, word_address, v as u32),
                    None => {},
                }
            },
            TFormat::I32 => {
                match text::parse_i64_bytes(text_bytes.as_slice()) {
                    Some(v) => {
                        if -0x8000_0000 <= v && v <= 0x7FFF_FFFF {
                            self.set_i32_to_word_address(id_user, word_address, v as i32)
                        }
                    },
                    None => {},
                }
            },
            TFormat::U64 => {
                match text::parse_dec_bytes(text_bytes.as_slice(), u64::MAX) {
                    Some(v) => self.set_u64_to_word_address(id_user, word_address, v),
                    None => {},
                }
            },
            TFormat::I64 => {
                match text::parse_i64_bytes(text_bytes.as_slice()) {
                    Some(v) => self.set_i64_to_word_address(id_user, word_address, v),
                    None => {},
                }
            },
            TFormat::VecU8(len) => {
                let data = crate::t_value::pad_trunc_exec(&text_bytes, len);
                self.set_vec_u8_to_word_address(id_user, word_address, data.as_slice());
            },
            _ => {},
        }
    }


    // ---- register block access (the TCP server's view) ----

    /// Reads `cnt` consecutive registers from `addr` on; a register past the
    /// register space reads as 0.
    pub fn read_registers(&self, id_user: IdUser, addr: u16, cnt: u16) -> (r: Vec<u16>)
        requires
            db_wf(self@),
        ensures
            r@.len() == cnt,
            forall|i: int|
                0 <= i < cnt ==> r@[i] == (if addr + i < crate::database::DB_NB_WORDS {
                    spec_read_uint(self@, (addr + i) as u16, 2) as u16
                } else {
                    0u16
                }),
    {
        let mut response_values: Vec<u16> = Vec::new();
        let mut i: u16 = 0;
        while i < cnt
            invariant
                0 <= i <= cnt,
                db_wf(self@),
                response_values@.len() == i,
                forall|j: int|
                    0 <= j < i ==> response_values@[j] == (if addr + j
                        < crate::database::DB_NB_WORDS {
                        spec_read_uint(self@, (addr + j) as u16, 2) as u16
                    } else {
                        0u16
                    }),
            decreases cnt - i,
        {
            let reg_addr: u32 = addr as u32 + i as u32;
            if reg_addr < crate::database::DB_NB_WORDS as u32 {
                response_values.push(self.get_u16_from_word_address(id_user, reg_addr as u16));
            } else {
                response_values.push(0);
            }
            i += 1;
        }
        response_values
    }

    /// Writes consecutive registers from `addr` on; a register past the
    /// register space is skipped.
    pub fn write_registers(&mut self, id_user: IdUser, addr: u16, values: &[u16])
        requires
            db_wf(old(self)@),
        ensures
            db_wf(final (self)@),
            spec_write_registers_rel(old(self)@, id_user, addr as int, values@, final (self)@),
    {
        let n = values.len();
        let mut i: usize = 0;
        proof {
            assert(values@.take(0) =~= Seq::<u16>::empty());
        }
        while i < n
            invariant
                0 <= i <= n,
                n == values@.len(),
                db_wf(self@),
                spec_write_registers_rel(
                    old(self)@,
                    id_user,
                    addr as int,
                    values@.take(i as int),
                    self@,
                ),
            decreases n - i,
        {
            let ghost pre = self@;
            if i <= 0xFFFF {
                let reg_addr: u64 = addr as u64 + i as u64;
                if reg_addr < crate::database::DB_NB_WORDS as u64 {
                    self.set_u16_to_word_address(id_user, reg_addr as u16, values[i]);
                }
            }
            proof {
                assert(spec_write_register_step(
                    pre,
                    id_user,
                    addr + i as int,
                    values@[i as int],
                    self@,
                ));
                lemma_write_registers_snoc(
                    old(self)@,
                    id_user,
                    addr as int,
                    values@.take(i as int),
                    pre,
                    values@[i as int],
                    self@,
                );
                assert(values@.take(i + 1 as int) =~= values@.take(i as int).push(
                    values@[i as int],
                ));
            }
            i += 1;
        }
        proof {
            assert(values@.take(n as int) =~= values@);
        }
    }
}

/// The typed reading of a tag depends on the store's bytes alone: two
/// database states with equal bytes read every format alike.
pub proof fn lemma_read_t_value_bytes_only(
    d1: DatabaseView,
    d2: DatabaseView,
    t_format: TFormat,
    wa: u16,
)
    requires
        d1.bytes == d2.bytes,
    ensures
        spec_read_t_value(d1, t_format, wa) == spec_read_t_value(d2, t_format, wa),
{
    match t_format {
        TFormat::VecU8(len) => {
            assert(spec_read_bytes(d1, wa, len as nat) == spec_read_bytes(d2, wa, len as nat));
        },
        _ => {},
    }
}

/// One register's write: its two big-endian bytes land at word address `a`
/// when that register exists, and nothing happens otherwise.
pub open spec fn spec_write_register_step(
    pre: DatabaseView,
    id_user: IdUser,
    a: int,
    value: u16,
    post: DatabaseView,
) -> bool {
    if 0 <= a < crate::database::DB_NB_WORDS {
        spec_value_written(pre, id_user, a as u16, spec_u64_to_be(value as u64, 2), post)
    } else {
        post == pre
    }
}

/// How the database evolves under a block register write: the values land at
/// consecutive word addresses from `a` on, one write after the other.
pub open spec fn spec_write_registers_rel(
    pre: DatabaseView,
    id_user: IdUser,
    a: int,
    values: Seq<u16>,
    post: DatabaseView,
) -> bool
    decreases values.len(),
{
    if values.len() == 0 {
        post == pre
    } else {
        exists|mid: DatabaseView|
            #[trigger] spec_write_register_step(pre, id_user, a, values[0], mid)
                && spec_write_registers_rel(mid, id_user, a + 1, values.skip(1), post)
    }
}

/// One more register's write extends the chain at its end.
pub proof fn lemma_write_registers_snoc(
    pre: DatabaseView,
    id_user: IdUser,
    a: int,
    values: Seq<u16>,
    mid: DatabaseView,
    value: u16,
    post: DatabaseView,
)
    requires
        spec_write_registers_rel(pre, id_user, a, values, mid),
        spec_write_register_step(mid, id_user, a + values.len(), value, post),
    ensures
        spec_write_registers_rel(pre, id_user, a, values.push(value), post),
    decreases values.len(),
{
    if values.len() == 0 {
        assert(values.push(value)[0] == value);
        assert(values.push(value).skip(1) =~= Seq::<u16>::empty());
        assert(spec_write_register_step(pre, id_user, a, values.push(value)[0], post));
        assert(spec_write_registers_rel(post, id_user, a + 1, values.push(value).skip(1), post));
    } else {
        let m0 = choose|m0: DatabaseView|
            #[trigger] spec_write_register_step(pre, id_user, a, values[0], m0)
                && spec_write_registers_rel(m0, id_user, a + 1, values.skip(1), mid);
        lemma_write_registers_snoc(m0, id_user, a + 1, values.skip(1), mid, value, post);
        assert(values.push(value)[0] == values[0]);
        assert(values.push(value).skip(1) =~= values.skip(1).push(value));
        assert(spec_write_register_step(pre, id_user, a, values.push(value)[0], m0));
        assert(spec_write_registers_rel(m0, id_user, a + 1, values.push(value).skip(1), post));
    }
}

} // verus!
