//! Event type codes, the fixed-width event header, the decoded event
//! union and its mathematical model, and the error taxonomy.

use vstd::prelude::*;

verus! {

/// Type code of a statement (query) event.
pub const QUERY_EVENT: u8 = 2;
/// Type code of a stop event: the server closed the log cleanly.
pub const STOP_EVENT: u8 = 3;
/// Type code of a rotate event: names the successor log file.
pub const ROTATE_EVENT: u8 = 4;
/// Type code of a format-description event.
pub const FORMAT_DESCRIPTION_EVENT: u8 = 15;
/// Type code of a transaction-commit (xid) event.
pub const XID_EVENT: u8 = 16;
/// Type code of a table-map (schema context) event.
pub const TABLE_MAP_EVENT: u8 = 19;
/// Type code of a row-insertion event (second row-event family).
pub const WRITE_ROWS_EVENT2: u8 = 30;
/// Type code of a row-update event (second row-event family).
pub const UPDATE_ROWS_EVENT2: u8 = 31;
/// Type code of a row-deletion event (second row-event family).
pub const DELETE_ROWS_EVENT2: u8 = 32;

/// Number of bytes of the fixed-width event header.
pub const HEADER_SIZE: usize = 19;

/// Fixed-width record standing at the start of every event.
/// `event_length` counts the whole event, header included, so advancing
/// the stream by exactly `event_length` bytes from the event's start
/// reaches the next header.
#[derive(Clone, Copy, PartialEq, Eq, Structural, Debug)]
pub struct EventHeader {
    pub timestamp: u32,
    pub event_type: u8,
    pub server_id: u32,
    pub event_length: u32,
    pub next_position: u32,
    pub flags: u16,
}

/// A decoded event. Payload layouts beyond the fields below are kept as
/// raw bytes: their interpretation belongs to external payload decoders.
#[derive(Clone, PartialEq, Eq, Debug)]
pub enum Event {
    Query { raw: Vec<u8> },
    Rotate { position: u64, next_filename: Vec<u8> },
    FormatDescription { raw: Vec<u8> },
    Xid { transaction_id: u64 },
    TableMap { table_id: u64, db_name: Vec<u8>, table_name: Vec<u8>, column_defs: Vec<u8> },
    WriteRows { table_id: u64, rows_data: Vec<u8> },
    UpdateRows { table_id: u64, rows_data: Vec<u8> },
    DeleteRows { table_id: u64, rows_data: Vec<u8> },
    Unknown { raw: Vec<u8> },
}

/// Mathematical model of an `Event`: byte vectors become sequences and
/// machine integers become unbounded integers.
pub enum EventModel {
    Query { raw: Seq<u8> },
    Rotate { position: int, next_filename: Seq<u8> },
    FormatDescription { raw: Seq<u8> },
    Xid { transaction_id: int },
    TableMap { table_id: int, db_name: Seq<u8>, table_name: Seq<u8>, column_defs: Seq<u8> },
    WriteRows { table_id: int, rows_data: Seq<u8> },
    UpdateRows { table_id: int, rows_data: Seq<u8> },
    DeleteRows { table_id: int, rows_data: Seq<u8> },
    Unknown { raw: Seq<u8> },
}

impl View for Event {
    type V = EventModel;

    open spec fn view(&self) -> EventModel {
        match self {
            Event::Query { raw } => EventModel::Query { raw: raw@ },
            Event::Rotate { position, next_filename } => EventModel::Rotate {
                position: *position as int,
                next_filename: next_filename@,
            },
            Event::FormatDescription { raw } => EventModel::FormatDescription { raw: raw@ },
            Event::Xid { transaction_id } => EventModel::Xid {
                transaction_id: *transaction_id as int,
            },
            Event::TableMap { table_id, db_name, table_name, column_defs } => EventModel::TableMap {
                table_id: *table_id as int,
                db_name: db_name@,
                table_name: table_name@,
                column_defs: column_defs@,
            },
            Event::WriteRows { table_id, rows_data } => EventModel::WriteRows {
                table_id: *table_id as int,
                rows_data: rows_data@,
            },
            Event::UpdateRows { table_id, rows_data } => EventModel::UpdateRows {
                table_id: *table_id as int,
                rows_data: rows_data@,
            },
            Event::DeleteRows { table_id, rows_data } => EventModel::DeleteRows {
                table_id: *table_id as int,
                rows_data: rows_data@,
            },
            Event::Unknown { raw } => EventModel::Unknown { raw: raw@ },
        }
    }
}

/// Why the initial log file could not be opened.
#[derive(Clone, Copy, PartialEq, Eq, Structural, Debug)]
pub enum OpenError {
    /// No file of the given name is available.
    FileNotFound,
}

/// Why a call to `read_event` returned no event.
#[derive(Clone, Copy, PartialEq, Eq, Structural, Debug)]
pub enum StreamError {
    /// Graceful exhaustion: no bytes remain and the last event seen was a
    /// rotate or stop event.
    EndOfLog,
    /// No bytes remain, but the log ended without a rotate or stop event:
    /// a dangling condition, reported rather than treated as success.
    DanglingEndOfLog,
    /// No bytes remain because a successor file could not be computed or
    /// opened after a rotate event.
    RotationError,
    /// Between one and eighteen bytes remained where a header was due.
    TruncatedHeader,
    /// The header declares an event shorter than the header itself.
    InvalidEventLength,
    /// Fewer payload bytes remain than the header declares.
    TruncatedEvent,
    /// A typed payload decoder found the payload too short for its
    /// mandatory fields.
    MalformedPayload,
}

} // verus!
