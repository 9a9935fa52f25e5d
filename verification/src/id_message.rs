//! Message-type and data-item tag constants of the serial protocol, and small
//! helpers on their payloads.

use vstd::prelude::*;

use crate::id_tag::IdTag;

verus! {

use vstd::utf8::encode_utf8;
use crate::t_value::pad_trunc;

// Message types: requests from the co-processor (`AF_`) and replies from the
// board (`IC_`).

pub const AF_ALIVE: u8 = 0x00;

pub const IC_ALIVE: u8 = 0x80;

pub const AF_INIT: u8 = 0x01;

pub const IC_INIT: u8 = 0x81;

pub const AF_MENU: u8 = 0x02;

pub const IC_MENU: u8 = 0x82;

pub const AF_DATA_OUT: u8 = 0x03;

pub const IC_DATA_OUT: u8 = 0x83;

pub const AF_DATA_IN: u8 = 0x04;

pub const IC_DATA_IN: u8 = 0x84;

pub const AF_DATA_OUT_TABLE_INDEX: u8 = 0x05;

pub const IC_DATA_OUT_TABLE_INDEX: u8 = 0x85;

pub const AF_DOWNLOAD: u8 = 0x06;

pub const IC_DOWNLOAD: u8 = 0x86;

pub const AF_TEST: u8 = 0x7F;

pub const IC_TEST: u8 = 0xFF;

pub const AF_PACK_OUT: u8 = 0x0B;

pub const IC_PACK_OUT: u8 = 0x8B;

pub const AF_PACK_IN: u8 = 0x0C;

pub const IC_PACK_IN: u8 = 0x8C;

// Data-item tags inside the messages.

pub const D_PROTOCOLE_VERSION: u8 = 0x01;

pub const D_ICOM_VERSION: u8 = 0x02;

pub const D_RESIDENT_VERSION: u8 = 0x03;

pub const D_APPLI_NUMBER: u8 = 0x04;

pub const D_APPLI_VERSION: u8 = 0x05;

pub const D_APPLI_CONFIG: u8 = 0x06;

pub const D_MODE_AFSEC: u8 = 0x07;

pub const D_LANGUAGE: u8 = 0x08;

pub const D_DATA_ERROR: u8 = 0x30;

pub const D_DATA_ZONE: u8 = 0x31;

pub const D_DATA_TABLE_INDEX: u8 = 0x32;

pub const D_DATA_TAG: u8 = 0x33;

pub const D_DATA_VALUE: u8 = 0x35;

pub const D_DATA_FIRST_TABLE_INDEX: u8 = 0x50;

pub const D_DATA_LAST_TABLE_INDEX: u8 = 0x51;

pub const D_PACK_PAYLOAD: u8 = 0xB0;

/// Tag number of the PACK blocks, in the supervision and command zones.
pub const TAG_DATA_PACK: u16 = 0x0F45;

/// Tag number that closes a record of a table.
pub const TAG_NUM_END_OF_RECORD: u16 = 0x7210;

/// The version, revision and edition packed in a number as
/// `10000 * version + 100 * revision + edition`, each kept below 100.
pub open spec fn spec_version_split(v: u32) -> (u16, u16, u16) {
    (((v / 10000) % 100) as u16, ((v / 100) % 100) as u16, ((v % 100) as u16))
}

/// Splits a packed version number into version, revision and edition.
pub fn get_version_revision_edition_from_u32(version_revision_edition: u32) -> (r: (u16, u16, u16))
    ensures
        r == spec_version_split(version_revision_edition),
{
    let edition = version_revision_edition % 100;
    let reste = version_revision_edition / 100;
    let revision = reste % 100;
    let reste = reste / 100;
    let version = reste % 100;
    proof {
        assert(version_revision_edition / 100 / 100 == version_revision_edition / 10000);
    }
    (version as u16, revision as u16, edition as u16)
}

/// The key five bytes name inside a zone: two bytes of tag number, then the
/// three indices; missing bytes read as 0.
pub open spec fn spec_id_tag_of_bytes(zone: u8, b: Seq<u8>) -> IdTag {
    let p = pad_trunc(b, if b.len() >= 5 {
        b.len()
    } else {
        5
    });
    IdTag {
        zone,
        num_tag: (p[0] * 256 + p[1]) as u16,
        indice_0: p[2],
        indice_1: p[3],
        indice_2: p[4],
    }
}

/// Builds the key a zone and a five-byte text name.
pub fn get_id_tag_from_zone_str5(zone: u8, tag_str5: &str) -> (r: IdTag)
    ensures
        r == spec_id_tag_of_bytes(zone, encode_utf8(tag_str5@)),
{
    let bytes = crate::text::string_to_vec_u8(tag_str5);
    crate::utils::zone_vec_u8_tag_to_id_tag(zone, bytes.as_slice())
}

} // verus!
