//! Software model of an ICOM communications board: the AFSEC protocol engine,
//! the shared tag database and its change-notification ledger.
//!
//! The crate is organised bottom-up:
//! * `t_format` / `t_value` / `be_data`: atomic typed values and their
//!   big-endian wire encoding,
//! * `raw_frame` / `data_item` / `data_frame`: the TLV serial frame codec with
//!   its byte-at-a-time builder state machine,
//! * `id_tag` / `tag` / `database` / `database_rw` / `database_csv` /
//!   `id_users`: the word-addressable tag store with typed accessors, its
//!   table-file parser and the per-user notification ledger,
//! * `context`, the `m_*` modules and `middlewares`: the conversation
//!   middlewares and their dispatcher.

pub mod be_data;
pub mod context;
pub mod data_frame;
pub mod data_item;
pub mod database;
pub mod database_csv;
pub mod database_rw;
pub mod id_message;
pub mod id_tag;
pub mod id_users;
pub mod m_data_in;
pub mod m_data_out;
pub mod m_data_out_table_index;
pub mod m_init;
pub mod m_menu;
pub mod m_pack_in;
pub mod m_pack_out;
pub mod middlewares;
pub mod raw_frame;
pub mod records;
pub mod t_format;
pub mod t_value;
pub mod tag;
pub mod text;
pub mod utils;
