//! Pull-based event stream over a byte source: event-type filtering, the
//! two-state skip machine coupling a table-map exclusion to the very next
//! event, and rotation to successor files.

use vstd::prelude::*;

use crate::codec::decode_event;
use crate::codec::decode_event_header;
use crate::codec::decode_spec;
use crate::codec::header_of;
use crate::events::Event;
use crate::events::EventHeader;
use crate::events::EventModel;
use crate::events::HEADER_SIZE;
use crate::events::OpenError;
use crate::events::ROTATE_EVENT;
use crate::events::STOP_EVENT;
use crate::events::StreamError;
use crate::matcher::Pattern;
use crate::matcher::Token;
use crate::matcher::compile_pattern;
use crate::matcher::compiled_spec;
use crate::matcher::pattern_is_match;
use crate::matcher::pattern_matches;
use crate::stream::DEFAULT_EVICTION_THRESHOLD;
use crate::stream::FileStream;
use crate::stream::LogFile;
use crate::stream::find_file;
use crate::stream::successor_name;

verus! {

/// The `db.table` name a table-map event declares, as matched against
/// exclusion patterns.
pub open spec fn joined_name(db: Seq<u8>, tbl: Seq<u8>) -> Seq<u8> {
    db + seq![46u8] + tbl
}

/// Some registered pattern matches the joined `db.table` name.
pub open spec fn excluded_match(patterns: Seq<Seq<Token>>, db: Seq<u8>, tbl: Seq<u8>) -> bool {
    exists|i: int| 0 <= i < patterns.len() && pattern_matches(patterns[i], joined_name(db, tbl))
}

/// Whether an event of type `t` is diverted to the opaque path: either a
/// skip is pending, or the allow-list is non-empty and leaves `t` out.
/// An empty allow-list accepts every type code.
pub open spec fn opaque_disposition(skip: bool, concerned: Seq<u8>, t: u8) -> bool {
    skip || (concerned.len() > 0 && !concerned.contains(t))
}

/// The error a read returns once nothing remains: a failed rotation is
/// reported as such, exhaustion after a rotate or stop event is the
/// graceful end, and any other exhaustion is a dangling end.
pub open spec fn end_error(pre: FileReader) -> StreamError {
    if pre.rotation_failed {
        StreamError::RotationError
    } else if pre.after_rotate {
        StreamError::EndOfLog
    } else {
        StreamError::DanglingEndOfLog
    }
}

/// Streaming reader over a chain of log files: pulls one event per call,
/// filters by type, excludes tables one following event at a time, and
/// rotates to successor files.
pub struct FileReader {
    /// The byte source over the current log file.
    pub stream: FileStream,
    /// The skip machine: true means the very next event is forced onto
    /// the opaque path, whatever its own type filter status.
    pub skip_next_event: bool,
    /// Allow-list of concerned event-type codes; empty accepts all.
    pub concerned_events: Vec<u8>,
    /// Compiled `db.table` exclusion patterns.
    pub excluded_db_table_list: Vec<Pattern>,
    /// Whether the last emitted event was a rotate or stop event, so an
    /// exhaustion right after it is a clean end rather than dangling.
    pub after_rotate: bool,
    /// Whether a rotation failed: the successor file could not be
    /// computed or opened, so the stream ended there.
    pub rotation_failed: bool,
}

/// What a successful rotation must leave behind, and what a failed one
/// reports: on success the successor file is open with its four-byte
/// preamble consumed exactly once; on failure the stream ends cleanly
/// with nothing remaining.
pub open spec fn rotation_post(pre: FileReader, post: FileReader) -> bool {
    match successor_name(pre.stream.filename@) {
        Some(next) => match find_file(pre.stream.files@, next) {
            Some(i) => {
                let d = pre.stream.files@[i].data@;
                &&& post.stream.filename@ == next
                &&& post.stream.remaining() == d.skip(
                    if d.len() <= 4 {
                        d.len() as int
                    } else {
                        4
                    },
                )
                &&& post.rotation_failed == pre.rotation_failed
            },
            None => {
                &&& !post.stream.file_open
                &&& post.stream.remaining() == Seq::<u8>::empty()
                &&& post.stream.filename == pre.stream.filename
                &&& post.rotation_failed
            },
        },
        None => {
            &&& !post.stream.file_open
            &&& post.stream.remaining() == Seq::<u8>::empty()
            &&& post.stream.filename == pre.stream.filename
            &&& post.rotation_failed
        },
    }
}

/// Everything one `read_event` call does, as a relation between the
/// state before, the state after, and what it returned.
pub open spec fn read_event_post(
    pre: FileReader,
    post: FileReader,
    r: Result<(EventHeader, Event), StreamError>,
) -> bool {
    let rem = pre.stream.remaining();
    &&& post.wf()
    &&& post.concerned_events@ == pre.concerned_events@
    &&& post.patterns() == pre.patterns()
    &&& post.stream.files == pre.stream.files
    &&& post.stream.threshold == pre.stream.threshold
    &&& if rem.len() == 0 {
        &&& r == Result::<(EventHeader, Event), StreamError>::Err(end_error(pre))
        &&& post.skip_next_event == pre.skip_next_event
        &&& post.after_rotate == pre.after_rotate
        &&& post.rotation_failed == pre.rotation_failed
        &&& post.stream.filename == pre.stream.filename
        &&& post.stream.remaining() == Seq::<u8>::empty()
    } else if rem.len() < HEADER_SIZE {
        &&& r == Result::<(EventHeader, Event), StreamError>::Err(StreamError::TruncatedHeader)
        &&& post.skip_next_event == pre.skip_next_event
        &&& post.after_rotate == pre.after_rotate
        &&& post.rotation_failed == pre.rotation_failed
        &&& post.stream.filename == pre.stream.filename
        &&& post.stream.remaining() == Seq::<u8>::empty()
    } else {
        let h = header_of(rem.take(HEADER_SIZE as int));
        let body = rem.skip(HEADER_SIZE as int);
        if h.event_length < HEADER_SIZE {
            &&& r == Result::<(EventHeader, Event), StreamError>::Err(
                StreamError::InvalidEventLength,
            )
            &&& post.skip_next_event == pre.skip_next_event
            &&& post.after_rotate == pre.after_rotate
            &&& post.rotation_failed == pre.rotation_failed
            &&& post.stream.filename == pre.stream.filename
            &&& post.stream.remaining() == body
        } else {
            let plen = h.event_length - HEADER_SIZE;
            if opaque_disposition(pre.skip_next_event, pre.concerned_events@, h.event_type) {
                &&& post.skip_next_event == false
                &&& post.rotation_failed == pre.rotation_failed
                &&& post.stream.filename == pre.stream.filename
                &&& if body.len() < plen {
                    &&& r == Result::<(EventHeader, Event), StreamError>::Err(
                        StreamError::TruncatedEvent,
                    )
                    &&& post.after_rotate == pre.after_rotate
                    &&& post.stream.remaining() == Seq::<u8>::empty()
                } else {
                    &&& r matches Ok(p) && p.0 == h && p.1@ == (EventModel::Unknown {
                        raw: body.take(plen),
                    })
                    &&& post.after_rotate == (h.event_type == ROTATE_EVENT || h.event_type
                        == STOP_EVENT)
                    &&& post.stream.remaining() == body.skip(plen)
                }
            } else {
                if body.len() < plen {
                    &&& r == Result::<(EventHeader, Event), StreamError>::Err(
                        StreamError::TruncatedEvent,
                    )
                    &&& post.skip_next_event == pre.skip_next_event
                    &&& post.after_rotate == pre.after_rotate
                    &&& post.rotation_failed == pre.rotation_failed
                    &&& post.stream.filename == pre.stream.filename
                    &&& post.stream.remaining() == Seq::<u8>::empty()
                } else {
                    match decode_spec(h.event_type, body.take(plen)) {
                        None => {
                            &&& r == Result::<(EventHeader, Event), StreamError>::Err(
                                StreamError::MalformedPayload,
                            )
                            &&& post.skip_next_event == pre.skip_next_event
                            &&& post.after_rotate == pre.after_rotate
                            &&& post.rotation_failed == pre.rotation_failed
                            &&& post.stream.filename == pre.stream.filename
                            &&& post.stream.remaining() == body.skip(plen)
                        },
                        Some(em) => {
                            &&& r matches Ok(p) && p.0 == h && p.1@ == em
                            &&& post.skip_next_event == (match em {
                                EventModel::TableMap { db_name, table_name, .. } => excluded_match(
                                    pre.patterns(),
                                    db_name,
                                    table_name,
                                ),
                                _ => false,
                            })
                            &&& post.after_rotate == (h.event_type == ROTATE_EVENT
                                || h.event_type == STOP_EVENT)
                            &&& (match em {
                                EventModel::Rotate { .. } => rotation_post(pre, post),
                                _ => {
                                    &&& post.stream.remaining() == body.skip(plen)
                                    &&& post.stream.filename == pre.stream.filename
                                    &&& post.rotation_failed == pre.rotation_failed
                                },
                            })
                        },
                    }
                }
            }
        }
    }
}

impl FileReader {
    /// Structural invariant: the byte source is well-formed.
    pub open spec fn wf(self) -> bool {
        self.stream.wf()
    }

    /// The registered exclusion patterns, as token sequences.
    pub open spec fn patterns(self) -> Seq<Seq<Token>> {
        self.excluded_db_table_list@.map_values(|p: Pattern| p@)
    }

    /// Open the named log file from the table and consume its four-byte
    /// preamble. No filters are registered yet and no skip is pending.
    pub fn new(files: Vec<LogFile>, filename: &Vec<u8>) -> (r: Result<FileReader, OpenError>)
        ensures
            match r {
                Ok(rd) => {
                    &&& find_file(files@, filename@) is Some
                    &&& rd.wf()
                    &&& rd.stream.files == files
                    &&& rd.stream.filename@ == filename@
                    &&& rd.stream.threshold == DEFAULT_EVICTION_THRESHOLD
                    &&& rd.skip_next_event == false
                    &&& rd.concerned_events@ == Seq::<u8>::empty()
                    &&& rd.patterns() == Seq::<Seq<Token>>::empty()
                    &&& rd.after_rotate == false
                    &&& rd.rotation_failed == false
                    &&& {
                        let d = files@[find_file(files@, filename@)->Some_0].data@;
                        rd.stream.remaining() == d.skip(
                            if d.len() <= 4 {
                                d.len() as int
                            } else {
                                4
                            },
                        )
                    }
                },
                Err(e) => e == OpenError::FileNotFound && find_file(files@, filename@) is None,
            },
    {
        match FileStream::from_file(files, filename) {
            None => Err(OpenError::FileNotFound),
            Some(mut stream) => {
                let _preamble_ok = stream.read_binlog_file_header();
                let rd = FileReader {
                    stream,
                    skip_next_event: false,
                    concerned_events: Vec::new(),
                    excluded_db_table_list: Vec::new(),
                    after_rotate: false,
                    rotation_failed: false,
                };
                proof {
                    assert(rd.patterns() =~= Seq::<Seq<Token>>::empty());
                }
                Ok(rd)
            },
        }
    }

    /// Rotate the source to the successor file and consume its preamble;
    /// on failure, mark the rotation failed and end the stream cleanly.
    /// True when the successor was opened and held a full preamble.
    pub fn open_next_binlog_file(&mut self) -> (r: bool)
        requires
            old(self).wf(),
        ensures
            final(self).wf(),
            final(self).stream.files == old(self).stream.files,
            final(self).stream.threshold == old(self).stream.threshold,
            final(self).skip_next_event == old(self).skip_next_event,
            final(self).concerned_events == old(self).concerned_events,
            final(self).excluded_db_table_list == old(self).excluded_db_table_list,
            final(self).after_rotate == old(self).after_rotate,
            rotation_post(*old(self), *final(self)),
            r == (match successor_name(old(self).stream.filename@) {
                Some(next) => match find_file(old(self).stream.files@, next) {
                    Some(i) => old(self).stream.files@[i].data@.len() >= 4,
                    None => false,
                },
                None => false,
            }),
    {
        let rotated = self.stream.read_next_binlog_file();
        if !rotated {
            self.rotation_failed = true;
            return false;
        }
        self.stream.read_binlog_file_header()
    }

    /// Register a concerned event type. The allow-list starts empty,
    /// which accepts every type code.
    pub fn add_concerned_event(&mut self, event_type: u8)
        ensures
            final(self).concerned_events@ == old(self).concerned_events@.push(event_type),
            final(self).stream == old(self).stream,
            final(self).skip_next_event == old(self).skip_next_event,
            final(self).excluded_db_table_list == old(self).excluded_db_table_list,
            final(self).after_rotate == old(self).after_rotate,
            final(self).rotation_failed == old(self).rotation_failed,
    {
        self.concerned_events.push(event_type);
    }

    /// Whether an event of type `event_type` is concerned: the allow-list
    /// is empty, or it names the type.
    pub fn is_concerned_event(&self, event_type: u8) -> (r: bool)
        ensures
            r == (self.concerned_events@.len() == 0 || self.concerned_events@.contains(
                event_type,
            )),
    {
        if self.concerned_events.len() == 0 {
            return true;
        }
        let mut i: usize = 0;
        while i < self.concerned_events.len()
            invariant
                i <= self.concerned_events@.len(),
                forall|j: int| 0 <= j < i ==> self.concerned_events@[j] != event_type,
            decreases self.concerned_events@.len() - i,
        {
            if self.concerned_events[i] == event_type {
                return true;
            }
            i = i + 1;
        }
        false
    }

    /// Compile and register a `db.table` exclusion pattern: `*` matches
    /// a run of word characters within one segment, every other byte
    /// itself.
    pub fn add_excluded_db_table(&mut self, db_table_name: &Vec<u8>)
        ensures
            final(self).patterns() == old(self).patterns().push(compiled_spec(db_table_name@)),
            final(self).stream == old(self).stream,
            final(self).skip_next_event == old(self).skip_next_event,
            final(self).concerned_events == old(self).concerned_events,
            final(self).after_rotate == old(self).after_rotate,
            final(self).rotation_failed == old(self).rotation_failed,
    {
        let pat = compile_pattern(db_table_name);
        self.excluded_db_table_list.push(pat);
        proof {
            assert(final(self).patterns() =~= old(self).patterns().push(
                compiled_spec(db_table_name@),
            ));
        }
    }

    /// Whether some registered pattern matches `db_name.table_name`.
    pub fn is_excluded(&self, db_name: &Vec<u8>, table_name: &Vec<u8>) -> (r: bool)
        ensures
            r == excluded_match(self.patterns(), db_name@, table_name@),
    {
        let mut joined: Vec<u8> = Vec::new();
        let mut i: usize = 0;
        while i < db_name.len()
            invariant
                i <= db_name@.len(),
                joined@ == db_name@.take(i as int),
            decreases db_name@.len() - i,
        {
            joined.push(db_name[i]);
            assert(joined@ =~= db_name@.take(i + 1));
            i = i + 1;
        }
        joined.push(46);
        let mut i: usize = 0;
        while i < table_name.len()
            invariant
                i <= table_name@.len(),
                joined@ == db_name@.take(db_name@.len() as int).push(46u8) + table_name@.take(
                    i as int,
                ),
            decreases table_name@.len() - i,
        {
            joined.push(table_name[i]);
            assert(joined@ =~= db_name@.take(db_name@.len() as int).push(46u8)
                + table_name@.take(i + 1));
            i = i + 1;
        }
        proof {
            assert(joined@ =~= joined_name(db_name@, table_name@));
        }
        let mut i: usize = 0;
        while i < self.excluded_db_table_list.len()
            invariant
                i <= self.excluded_db_table_list@.len(),
                joined@ == joined_name(db_name@, table_name@),
                forall|j: int|
                    0 <= j < i ==> !pattern_matches(#[trigger] self.patterns()[j], joined@),
            decreases self.excluded_db_table_list@.len() - i,
        {
            if pattern_is_match(&self.excluded_db_table_list[i], &joined) {
                proof {
                    assert(self.patterns()[i as int] == self.excluded_db_table_list@[i as int]@);
                }
                return true;
            }
            i = i + 1;
        }
        false
    }

    /// Force (or release) the skip of the very next event.
    pub fn set_skip_next_event(&mut self, skip: bool)
        ensures
            final(self).skip_next_event == skip,
            final(self).stream == old(self).stream,
            final(self).concerned_events == old(self).concerned_events,
            final(self).excluded_db_table_list == old(self).excluded_db_table_list,
            final(self).after_rotate == old(self).after_rotate,
            final(self).rotation_failed == old(self).rotation_failed,
    {
        self.skip_next_event = skip;
    }

    /// Whether a skip is pending for the very next event.
    pub fn skip_next_event(&self) -> (r: bool)
        ensures
            r == self.skip_next_event,
    {
        self.skip_next_event
    }

    /// Read and validate the next event header: exhaustion, a short
    /// header and a declared length below the header size are each
    /// reported distinctly, and a header comes back if and only if
    /// nineteen bytes remain and the declared length is valid.
    pub fn read_event_header(&mut self) -> (r: Result<EventHeader, StreamError>)
        requires
            old(self).wf(),
        ensures
            final(self).wf(),
            final(self).skip_next_event == old(self).skip_next_event,
            final(self).concerned_events == old(self).concerned_events,
            final(self).excluded_db_table_list == old(self).excluded_db_table_list,
            final(self).after_rotate == old(self).after_rotate,
            final(self).rotation_failed == old(self).rotation_failed,
            final(self).stream.files == old(self).stream.files,
            final(self).stream.threshold == old(self).stream.threshold,
            final(self).stream.filename == old(self).stream.filename,
            r is Ok <==> (old(self).stream.remaining().len() >= HEADER_SIZE && header_of(
                old(self).stream.remaining().take(HEADER_SIZE as int),
            ).event_length >= HEADER_SIZE),
            match r {
                Ok(h) => {
                    &&& h == header_of(old(self).stream.remaining().take(HEADER_SIZE as int))
                    &&& final(self).stream.remaining() == old(self).stream.remaining().skip(
                        HEADER_SIZE as int,
                    )
                },
                Err(e) => {
                    let rem = old(self).stream.remaining();
                    if rem.len() == 0 {
                        e == end_error(*old(self)) && final(self).stream.remaining()
                            == Seq::<u8>::empty()
                    } else if rem.len() < HEADER_SIZE {
                        e == StreamError::TruncatedHeader && final(self).stream.remaining()
                            == Seq::<u8>::empty()
                    } else {
                        e == StreamError::InvalidEventLength && final(self).stream.remaining()
                            == rem.skip(HEADER_SIZE as int)
                    }
                },
            },
    {
        let hdr = self.stream.read(HEADER_SIZE);
        if hdr.len() == 0 {
            proof {
                assert(final(self).stream.remaining() =~= Seq::<u8>::empty());
            }
            let e = if self.rotation_failed {
                StreamError::RotationError
            } else if self.after_rotate {
                StreamError::EndOfLog
            } else {
                StreamError::DanglingEndOfLog
            };
            return Err(e);
        }
        if hdr.len() < HEADER_SIZE {
            return Err(StreamError::TruncatedHeader);
        }
        proof {
            assert(hdr@ =~= old(self).stream.remaining().take(HEADER_SIZE as int));
        }
        let h = decode_event_header(&hdr);
        if h.event_length < 19 {
            return Err(StreamError::InvalidEventLength);
        }
        Ok(h)
    }

    /// Opaque decode: consume exactly the declared payload length and
    /// pass the bytes through uninterpreted.
    pub fn read_unknown_event(&mut self, eh: &EventHeader) -> (r: Result<Event, StreamError>)
        requires
            old(self).wf(),
            eh.event_length >= HEADER_SIZE,
        ensures
            final(self).wf(),
            final(self).skip_next_event == old(self).skip_next_event,
            final(self).concerned_events == old(self).concerned_events,
            final(self).excluded_db_table_list == old(self).excluded_db_table_list,
            final(self).after_rotate == old(self).after_rotate,
            final(self).rotation_failed == old(self).rotation_failed,
            final(self).stream.files == old(self).stream.files,
            final(self).stream.threshold == old(self).stream.threshold,
            final(self).stream.filename == old(self).stream.filename,
            r is Ok <==> old(self).stream.remaining().len() >= eh.event_length - HEADER_SIZE,
            match r {
                Ok(e) => {
                    &&& e@ == (EventModel::Unknown {
                        raw: old(self).stream.remaining().take(eh.event_length - HEADER_SIZE),
                    })
                    &&& final(self).stream.remaining() == old(self).stream.remaining().skip(
                        eh.event_length - HEADER_SIZE,
                    )
                },
                Err(e) => e == StreamError::TruncatedEvent && final(self).stream.remaining()
                    == Seq::<u8>::empty(),
            },
    {
        let plen = (eh.event_length as usize) - HEADER_SIZE;
        let payload = self.stream.read(plen);
        if payload.len() < plen {
            return Err(StreamError::TruncatedEvent);
        }
        Ok(Event::Unknown { raw: payload })
    }

    /// Full decode: consume exactly the declared payload length and
    /// dispatch it to the per-type decoder. Rotation is never triggered
    /// here; a rotate event only carries the rotation request out.
    pub fn read_event_detail(&mut self, eh: &EventHeader) -> (r: Result<Event, StreamError>)
        requires
            old(self).wf(),
            eh.event_length >= HEADER_SIZE,
        ensures
            final(self).wf(),
            final(self).skip_next_event == old(self).skip_next_event,
            final(self).concerned_events == old(self).concerned_events,
            final(self).excluded_db_table_list == old(self).excluded_db_table_list,
            final(self).after_rotate == old(self).after_rotate,
            final(self).rotation_failed == old(self).rotation_failed,
            final(self).stream.files == old(self).stream.files,
            final(self).stream.threshold == old(self).stream.threshold,
            final(self).stream.filename == old(self).stream.filename,
            match r {
                Ok(e) => {
                    &&& old(self).stream.remaining().len() >= eh.event_length - HEADER_SIZE
                    &&& decode_spec(
                        eh.event_type,
                        old(self).stream.remaining().take(eh.event_length - HEADER_SIZE),
                    ) == Some(e@)
                    &&& final(self).stream.remaining() == old(self).stream.remaining().skip(
                        eh.event_length - HEADER_SIZE,
                    )
                },
                Err(e) => {
                    let rem = old(self).stream.remaining();
                    if rem.len() < eh.event_length - HEADER_SIZE {
                        e == StreamError::TruncatedEvent && final(self).stream.remaining()
                            == Seq::<u8>::empty()
                    } else {
                        &&& e == StreamError::MalformedPayload
                        &&& decode_spec(
                            eh.event_type,
                            rem.take(eh.event_length - HEADER_SIZE),
                        ) is None
                        &&& final(self).stream.remaining() == rem.skip(
                            eh.event_length - HEADER_SIZE,
                        )
                    }
                },
            },
    {
        let plen = (eh.event_length as usize) - HEADER_SIZE;
        let payload = self.stream.read(plen);
        if payload.len() < plen {
            return Err(StreamError::TruncatedEvent);
        }
        decode_event(eh.event_type, payload)
    }

    /// Pull the next event: read and validate the header, decide the
    /// disposition (a pending skip or a filtered-out type goes opaque,
    /// consuming the skip either way), decode, then apply side effects —
    /// an excluded table-map arms the skip for the very next event, and
    /// a rotate event switches the source to the successor file.
    pub fn read_event(&mut self) -> (r: Result<(EventHeader, Event), StreamError>)
        requires
            old(self).wf(),
        ensures
            final(self).wf(),
            read_event_post(*old(self), *final(self), r),
    {
        let eh = match self.read_event_header() {
            Ok(h) => h,
            Err(e) => {
                return Err(e);
            },
        };
        if self.skip_next_event || !self.is_concerned_event(eh.event_type) {
            self.skip_next_event = false;
            match self.read_unknown_event(&eh) {
                Ok(e) => {
                    self.after_rotate = eh.event_type == ROTATE_EVENT || eh.event_type
                        == STOP_EVENT;
                    Ok((eh, e))
                },
                Err(err) => Err(err),
            }
        } else {
            match self.read_event_detail(&eh) {
                Ok(e) => {
                    match &e {
                        Event::TableMap { db_name, table_name, .. } => {
                            if self.is_excluded(db_name, table_name) {
                                self.skip_next_event = true;
                            }
                        },
                        Event::Rotate { .. } => {
                            let _rotated = self.open_next_binlog_file();
                        },
                        _ => {},
                    }
                    self.after_rotate = eh.event_type == ROTATE_EVENT || eh.event_type
                        == STOP_EVENT;
                    Ok((eh, e))
                },
                Err(err) => Err(err),
            }
        }
    }

    /// Pull the next event, collapsing every end or failure to `None`.
    pub fn next(&mut self) -> (r: Option<(EventHeader, Event)>)
        requires
            old(self).wf(),
        ensures
            final(self).wf(),
            match r {
                Some(p) => read_event_post(*old(self), *final(self), Ok(p)),
                None => exists|e: StreamError|
                    read_event_post(*old(self), *final(self), Err(e)),
            },
    {
        match self.read_event() {
            Ok(p) => Some(p),
            Err(e) => {
                proof {
                    assert(read_event_post(*old(self), *final(self), Err(e)));
                }
                None
            },
        }
    }
}

/// The header of the next pending event in the remaining byte stream.
pub open spec fn pending_header(s: FileReader) -> EventHeader {
    header_of(s.stream.remaining().take(HEADER_SIZE as int))
}

/// The remaining byte stream after the next pending header.
pub open spec fn pending_body(s: FileReader) -> Seq<u8> {
    s.stream.remaining().skip(HEADER_SIZE as int)
}

/// A full event stands next in the remaining byte stream: a whole
/// header, a valid declared length, and the whole declared payload.
pub open spec fn pending_event_complete(s: FileReader) -> bool {
    &&& s.stream.remaining().len() >= HEADER_SIZE
    &&& pending_header(s).event_length >= HEADER_SIZE
    &&& pending_body(s).len() >= pending_header(s).event_length - HEADER_SIZE
}

/// With no concerned event types registered and no pending skip, no
/// type code — zero and out-of-range codes included — is diverted to
/// the opaque path: every event gets a full decoding attempt.
pub proof fn lemma_no_filter_accepts_every_type(t: u8)
    ensures
        !opaque_disposition(false, Seq::<u8>::empty(), t),
{
}

/// A table-map matching a registered exclusion arms the skip, and the
/// skip forces the immediately following event — whatever its own type
/// filter status — onto the opaque path: it comes back as `Unknown`
/// carrying exactly `event_length` minus the header size bytes of
/// payload, and the skip is clear immediately after.
pub proof fn lemma_exclusion_skips_following_event(
    s0: FileReader,
    s1: FileReader,
    s2: FileReader,
    r1: Result<(EventHeader, Event), StreamError>,
    r2: Result<(EventHeader, Event), StreamError>,
)
    requires
        read_event_post(s0, s1, r1),
        read_event_post(s1, s2, r2),
        r1 matches Ok(p1) && (match p1.1@ {
            EventModel::TableMap { db_name, table_name, .. } => excluded_match(
                s0.patterns(),
                db_name,
                table_name,
            ),
            _ => false,
        }),
        pending_event_complete(s1),
    ensures
        s1.skip_next_event,
        r2 matches Ok(p2) && p2.1@ == (EventModel::Unknown {
            raw: pending_body(s1).take(pending_header(s1).event_length - HEADER_SIZE),
        }),
        !s2.skip_next_event,
{
}

/// A table-map matching no registered exclusion leaves the skip unarmed,
/// so the following event — its type allowed by the filter and its
/// payload well-formed — decodes to its typed variant, never to an
/// opaque passthrough.
pub proof fn lemma_non_matching_table_map_keeps_decoding(
    s0: FileReader,
    s1: FileReader,
    s2: FileReader,
    r1: Result<(EventHeader, Event), StreamError>,
    r2: Result<(EventHeader, Event), StreamError>,
    em2: EventModel,
)
    requires
        read_event_post(s0, s1, r1),
        read_event_post(s1, s2, r2),
        r1 matches Ok(p1) && (match p1.1@ {
            EventModel::TableMap { db_name, table_name, .. } => !excluded_match(
                s0.patterns(),
                db_name,
                table_name,
            ),
            _ => false,
        }),
        s1.concerned_events@.len() == 0 || s1.concerned_events@.contains(
            pending_header(s1).event_type,
        ),
        pending_event_complete(s1),
        decode_spec(
            pending_header(s1).event_type,
            pending_body(s1).take(pending_header(s1).event_length - HEADER_SIZE),
        ) == Some(em2),
    ensures
        !s1.skip_next_event,
        r2 matches Ok(p2) && p2.1@ == em2,
{
}

} // verus!
