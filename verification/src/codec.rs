//! Byte-level codec: little-endian integer fields, the fixed-width event
//! header, and the per-type payload decoders behind the dispatch table.

use vstd::prelude::*;

use crate::events::DELETE_ROWS_EVENT2;
use crate::events::Event;
use crate::events::EventHeader;
use crate::events::EventModel;
use crate::events::FORMAT_DESCRIPTION_EVENT;
use crate::events::HEADER_SIZE;
use crate::events::QUERY_EVENT;
use crate::events::ROTATE_EVENT;
use crate::events::StreamError;
use crate::events::TABLE_MAP_EVENT;
use crate::events::UPDATE_ROWS_EVENT2;
use crate::events::WRITE_ROWS_EVENT2;
use crate::events::XID_EVENT;

verus! {

/// The little-endian two-byte integer standing at `s[i]`, `s[i + 1]`.
pub open spec fn le16_at(s: Seq<u8>, i: int) -> int {
    s[i] + s[i + 1] * 0x100
}

/// The little-endian four-byte integer standing at `s[i .. i + 4]`.
pub open spec fn le32_at(s: Seq<u8>, i: int) -> int {
    s[i] + s[i + 1] * 0x100 + s[i + 2] * 0x1_0000 + s[i + 3] * 0x100_0000
}

/// The little-endian six-byte integer standing at `s[i .. i + 6]`.
pub open spec fn le48_at(s: Seq<u8>, i: int) -> int {
    le32_at(s, i) + s[i + 4] * 0x1_0000_0000 + s[i + 5] * 0x100_0000_0000
}

/// The little-endian eight-byte integer standing at `s[i .. i + 8]`.
pub open spec fn le64_at(s: Seq<u8>, i: int) -> int {
    le48_at(s, i) + s[i + 6] * 0x1_0000_0000_0000 + s[i + 7] * 0x100_0000_0000_0000
}

/// The header laid down in the first nineteen bytes of `s`: timestamp,
/// type code, server id, event length, next position and flags, each
/// little-endian, in that order.
pub open spec fn header_of(s: Seq<u8>) -> EventHeader {
    EventHeader {
        timestamp: le32_at(s, 0) as u32,
        event_type: s[4],
        server_id: le32_at(s, 5) as u32,
        event_length: le32_at(s, 9) as u32,
        next_position: le32_at(s, 13) as u32,
        flags: le16_at(s, 17) as u16,
    }
}

/// Copy of `v[from .. to]`.
pub fn vec_sub(v: &Vec<u8>, from: usize, to: usize) -> (r: Vec<u8>)
    requires
        from <= to <= v@.len(),
    ensures
        r@ == v@.subrange(from as int, to as int),
{
    let mut r: Vec<u8> = Vec::new();
    let mut i: usize = from;
    while i < to
        invariant
            from <= i <= to <= v@.len(),
            r@ == v@.subrange(from as int, i as int),
        decreases to - i,
    {
        r.push(v[i]);
        assert(r@ =~= v@.subrange(from as int, i + 1));
        i = i + 1;
    }
    r
}

fn read_le16(v: &Vec<u8>, at: usize) -> (r: u16)
    requires
        at + 2 <= v.len(),
    ensures
        r == le16_at(v@, at as int),
{
    v[at] as u16 + v[at + 1] as u16 * 0x100
}

fn read_le32(v: &Vec<u8>, at: usize) -> (r: u32)
    requires
        at + 4 <= v.len(),
    ensures
        r == le32_at(v@, at as int),
{
    v[at] as u32 + v[at + 1] as u32 * 0x100 + v[at + 2] as u32 * 0x1_0000 + v[at
        + 3] as u32 * 0x100_0000
}

fn read_le48(v: &Vec<u8>, at: usize) -> (r: u64)
    requires
        at + 6 <= v.len(),
    ensures
        r == le48_at(v@, at as int),
{
    read_le32(v, at) as u64 + v[at + 4] as u64 * 0x1_0000_0000 + v[at
        + 5] as u64 * 0x100_0000_0000
}

fn read_le64(v: &Vec<u8>, at: usize) -> (r: u64)
    requires
        at + 8 <= v.len(),
    ensures
        r == le64_at(v@, at as int),
{
    read_le48(v, at) + v[at + 6] as u64 * 0x1_0000_0000_0000 + v[at
        + 7] as u64 * 0x100_0000_0000_0000
}

/// Decode the fixed-width event header from its nineteen bytes.
pub fn decode_event_header(bytes: &Vec<u8>) -> (h: EventHeader)
    requires
        bytes@.len() == HEADER_SIZE,
    ensures
        h == header_of(bytes@),
{
    EventHeader {
        timestamp: read_le32(bytes, 0),
        event_type: bytes[4],
        server_id: read_le32(bytes, 5),
        event_length: read_le32(bytes, 9),
        next_position: read_le32(bytes, 13),
        flags: read_le16(bytes, 17),
    }
}

/// What the dispatch table decodes a payload of type `t` to: `None` where
/// a typed decoder finds the payload too short for its mandatory fields.
/// A type code outside the table decodes to `Unknown`, never to `None`.
pub open spec fn decode_spec(t: u8, p: Seq<u8>) -> Option<EventModel> {
    if t == QUERY_EVENT {
        Some(EventModel::Query { raw: p })
    } else if t == ROTATE_EVENT {
        if p.len() >= 8 {
            Some(EventModel::Rotate { position: le64_at(p, 0), next_filename: p.skip(8) })
        } else {
            None
        }
    } else if t == FORMAT_DESCRIPTION_EVENT {
        Some(EventModel::FormatDescription { raw: p })
    } else if t == XID_EVENT {
        if p.len() >= 8 {
            Some(EventModel::Xid { transaction_id: le64_at(p, 0) })
        } else {
            None
        }
    } else if t == TABLE_MAP_EVENT {
        table_map_spec(p)
    } else if t == WRITE_ROWS_EVENT2 {
        if p.len() >= 6 {
            Some(EventModel::WriteRows { table_id: le48_at(p, 0), rows_data: p.skip(6) })
        } else {
            None
        }
    } else if t == UPDATE_ROWS_EVENT2 {
        if p.len() >= 6 {
            Some(EventModel::UpdateRows { table_id: le48_at(p, 0), rows_data: p.skip(6) })
        } else {
            None
        }
    } else if t == DELETE_ROWS_EVENT2 {
        if p.len() >= 6 {
            Some(EventModel::DeleteRows { table_id: le48_at(p, 0), rows_data: p.skip(6) })
        } else {
            None
        }
    } else {
        Some(EventModel::Unknown { raw: p })
    }
}

/// Table-map payload: table id (six bytes), schema flags (two bytes),
/// then the database and table names, each behind a one-byte length, then
/// the raw column definitions.
pub open spec fn table_map_spec(p: Seq<u8>) -> Option<EventModel> {
    if p.len() >= 9 && 10 + p[8] <= p.len() && 10 + p[8] + p[9 + p[8]] <= p.len() {
        Some(EventModel::TableMap {
            table_id: le48_at(p, 0),
            db_name: p.subrange(9, 9 + p[8]),
            table_name: p.subrange(10 + p[8], 10 + p[8] + p[9 + p[8]]),
            column_defs: p.skip(10 + p[8] + p[9 + p[8]]),
        })
    } else {
        None
    }
}

/// Dispatch an event payload to its per-type decoder. An unrecognized
/// type code is not an error: the payload passes through as `Unknown`.
pub fn decode_event(t: u8, payload: Vec<u8>) -> (r: Result<Event, StreamError>)
    ensures
        match r {
            Ok(e) => decode_spec(t, payload@) == Some(e@),
            Err(err) => decode_spec(t, payload@) is None && err == StreamError::MalformedPayload,
        },
{
    if t == QUERY_EVENT {
        Ok(Event::Query { raw: payload })
    } else if t == ROTATE_EVENT {
        if payload.len() >= 8 {
            let position = read_le64(&payload, 0);
            let next_filename = vec_sub(&payload, 8, payload.len());
            assert(next_filename@ =~= payload@.skip(8));
            Ok(Event::Rotate { position, next_filename })
        } else {
            Err(StreamError::MalformedPayload)
        }
    } else if t == FORMAT_DESCRIPTION_EVENT {
        Ok(Event::FormatDescription { raw: payload })
    } else if t == XID_EVENT {
        if payload.len() >= 8 {
            Ok(Event::Xid { transaction_id: read_le64(&payload, 0) })
        } else {
            Err(StreamError::MalformedPayload)
        }
    } else if t == TABLE_MAP_EVENT {
        decode_table_map(payload)
    } else if t == WRITE_ROWS_EVENT2 {
        if payload.len() >= 6 {
            let table_id = read_le48(&payload, 0);
            let rows_data = vec_sub(&payload, 6, payload.len());
            assert(rows_data@ =~= payload@.skip(6));
            Ok(Event::WriteRows { table_id, rows_data })
        } else {
            Err(StreamError::MalformedPayload)
        }
    } else if t == UPDATE_ROWS_EVENT2 {
        if payload.len() >= 6 {
            let table_id = read_le48(&payload, 0);
            let rows_data = vec_sub(&payload, 6, payload.len());
            assert(rows_data@ =~= payload@.skip(6));
            Ok(Event::UpdateRows { table_id, rows_data })
        } else {
            Err(StreamError::MalformedPayload)
        }
    } else if t == DELETE_ROWS_EVENT2 {
        if payload.len() >= 6 {
            let table_id = read_le48(&payload, 0);
            let rows_data = vec_sub(&payload, 6, payload.len());
            assert(rows_data@ =~= payload@.skip(6));
            Ok(Event::DeleteRows { table_id, rows_data })
        } else {
            Err(StreamError::MalformedPayload)
        }
    } else {
        Ok(Event::Unknown { raw: payload })
    }
}

fn decode_table_map(payload: Vec<u8>) -> (r: Result<Event, StreamError>)
    ensures
        match r {
            Ok(e) => table_map_spec(payload@) == Some(e@),
            Err(err) => table_map_spec(payload@) is None && err == StreamError::MalformedPayload,
        },
{
    if payload.len() < 9 {
        return Err(StreamError::MalformedPayload);
    }
    let db_len = payload[8] as usize;
    if 10 + db_len > payload.len() {
        return Err(StreamError::MalformedPayload);
    }
    let tbl_len = payload[9 + db_len] as usize;
    if 10 + db_len + tbl_len > payload.len() {
        return Err(StreamError::MalformedPayload);
    }
    let table_id = read_le48(&payload, 0);
    let db_name = vec_sub(&payload, 9, 9 + db_len);
    let table_name = vec_sub(&payload, 10 + db_len, 10 + db_len + tbl_len);
    let column_defs = vec_sub(&payload, 10 + db_len + tbl_len, payload.len());
    assert(column_defs@ =~= payload@.skip(10 + payload@[8] + payload@[9 + payload@[8]]));
    Ok(Event::TableMap { table_id, db_name, table_name, column_defs })
}

} // verus!
