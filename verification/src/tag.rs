//! One atomic datum of the database: its word address, key, format and
//! descriptive fields.

use vstd::prelude::*;

use crate::id_tag::IdTag;
use crate::t_format::TFormat;

verus! {

use crate::t_format::spec_nb_words;

/// Word-granular address into the store.
pub type WordAddress = u16;

/// An atomic datum held in the database.
#[derive(Debug)]
pub struct Tag {
    /// Word address of the datum in the store.
    pub word_address: WordAddress,
    /// Unique key of the datum.
    pub id_tag: IdTag,
    /// True for a datum the board keeps for itself.
    pub is_internal: bool,
    /// Format of the datum in the store.
    pub t_format: TFormat,
    /// Unit of the quantity, when one is defined.
    pub unity: String,
    /// Label of the datum, when one is defined.
    pub label: String,
    /// True when an external client may write the datum.
    pub is_write: bool,
    /// Default value, as text.
    pub default_value: String,
}

impl Clone for Tag {
    /// A copy of the tag, equal to the original.
    fn clone(&self) -> (r: Self)
        ensures
            r == *self,
    {
        let r = Tag {
            word_address: self.word_address,
            id_tag: self.id_tag,
            is_internal: self.is_internal,
            t_format: self.t_format,
            unity: self.unity.clone(),
            label: self.label.clone(),
            is_write: self.is_write,
            default_value: self.default_value.clone(),
        };
        proof {
            assert(r == *self);
        }
        r
    }
}

impl Default for Tag {
    /// A tag with every field at its zero: address 0, empty key, unknown
    /// format, empty texts.
    fn default() -> (r: Self)
        ensures
            r.word_address == 0,
            r.id_tag == (IdTag { zone: 0, num_tag: 0, indice_0: 0, indice_1: 0, indice_2: 0 }),
            !r.is_internal,
            r.t_format == TFormat::Unknown,
            r.unity@ == Seq::<char>::empty(),
            r.label@ == Seq::<char>::empty(),
            !r.is_write,
            r.default_value@ == Seq::<char>::empty(),
    {
        Tag {
            word_address: 0,
            id_tag: IdTag { zone: 0, num_tag: 0, indice_0: 0, indice_1: 0, indice_2: 0 },
            is_internal: false,
            t_format: TFormat::Unknown,
            unity: String::new(),
            label: String::new(),
            is_write: false,
            default_value: String::new(),
        }
    }
}

/// Whether a tag's occupied word range meets the word area starting at
/// `word_address` and `nb_words` long.
pub open spec fn spec_contains_area(t_format: TFormat, tag_address: u16, word_address: u16, nb_words: nat) -> bool {
    &&& word_address + nb_words - 1 >= tag_address
    &&& word_address <= tag_address + spec_nb_words(t_format) - 1
}

impl Tag {
    /// True when a part of this tag lies in the word area starting at
    /// `word_address` and `nb_words` long.
    pub fn contains_word_address_area(&self, word_address: WordAddress, nb_words: usize) -> (r:
        bool)
        requires
            nb_words < 0x1_0000_0000,
        ensures
            r == spec_contains_area(self.t_format, self.word_address, word_address, nb_words as nat),
    {
        let word_address_start = word_address as u64;
        let tag_address_start = self.word_address as u64;
        let tag_nb_words = self.t_format.nb_words() as u64;
        (word_address_start + (nb_words as u64) > tag_address_start) && (word_address_start
            < tag_address_start + tag_nb_words)
    }
}

} // verus!
