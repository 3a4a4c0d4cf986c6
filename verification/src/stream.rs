//! Bounded-memory byte source over one in-memory log file, with successor
//! computation and rotation across a table of numbered files. Reading and
//! eviction change only the memory footprint, never the observed bytes.

use vstd::prelude::*;

use crate::codec::vec_sub;

verus! {

/// One log file the source can open: a name and its full contents.
/// Loading the bytes from their physical carrier happens outside this
/// library; the source itself only ever consumes plain values.
pub struct LogFile {
    pub name: Vec<u8>,
    pub data: Vec<u8>,
}

/// Index of the first file named `name`, searching from `i` on.
pub open spec fn find_file_from(files: Seq<LogFile>, name: Seq<u8>, i: int) -> Option<int>
    decreases files.len() - i,
{
    if i < 0 || i >= files.len() {
        None
    } else if files[i].name@ == name {
        Some(i)
    } else {
        find_file_from(files, name, i + 1)
    }
}

/// Index of the first file named `name`.
pub open spec fn find_file(files: Seq<LogFile>, name: Seq<u8>) -> Option<int> {
    find_file_from(files, name, 0)
}

fn lookup_file(files: &Vec<LogFile>, name: &Vec<u8>) -> (r: Option<usize>)
    ensures
        match r {
            Some(i) => i < files@.len() && find_file(files@, name@) == Some(i as int),
            None => find_file(files@, name@) is None,
        },
{
    let mut i: usize = 0;
    while i < files.len()
        invariant
            i <= files@.len(),
            find_file(files@, name@) == find_file_from(files@, name@, i as int),
        decreases files@.len() - i,
    {
        if bytes_eq(&files[i].name, name) {
            return Some(i);
        }
        i = i + 1;
    }
    None
}

/// Byte-wise equality of two byte vectors.
pub fn bytes_eq(a: &Vec<u8>, b: &Vec<u8>) -> (r: bool)
    ensures
        r == (a@ == b@),
{
    if a.len() != b.len() {
        return false;
    }
    let mut i: usize = 0;
    while i < a.len()
        invariant
            a@.len() == b@.len(),
            i <= a@.len(),
            forall|j: int| 0 <= j < i ==> a@[j] == b@[j],
        decreases a@.len() - i,
    {
        if a[i] != b[i] {
            return false;
        }
        i = i + 1;
    }
    proof {
        assert(a@ =~= b@);
    }
    true
}

/// An ASCII decimal digit.
pub open spec fn is_digit_spec(b: u8) -> bool {
    48 <= b <= 57
}

/// Every byte of `s` is an ASCII decimal digit.
pub open spec fn all_digits(s: Seq<u8>) -> bool {
    forall|i: int| 0 <= i < s.len() ==> is_digit_spec(s[i])
}

/// Position of the last `.` in `s`, if any.
pub open spec fn rfind_dot(s: Seq<u8>) -> Option<int>
    decreases s.len(),
{
    if s.len() == 0 {
        None
    } else if s[s.len() - 1] == 46 {
        Some(s.len() - 1)
    } else {
        rfind_dot(s.take(s.len() - 1))
    }
}

/// `n` ASCII zeros.
pub open spec fn zeros(n: int) -> Seq<u8> {
    Seq::new(n as nat, |i: int| 48u8)
}

/// The decimal digit string `s` plus one, with its width preserved while
/// the value fits, and a leading `1` grown only past all nines.
pub open spec fn inc_digits(s: Seq<u8>) -> Seq<u8>
    decreases s.len(),
{
    if s.len() == 0 {
        seq![49u8]
    } else if s[s.len() - 1] == 57 {
        inc_digits(s.take(s.len() - 1)).push(48u8)
    } else {
        s.update(s.len() - 1, (s[s.len() - 1] + 1) as u8)
    }
}

/// The successor of a log file name `<base>.<N>`: same base, `N` plus
/// one, width preserved. `None` where the suffix after the last `.` is
/// empty or not all digits, or where no `.` occurs at all.
pub open spec fn successor_name(s: Seq<u8>) -> Option<Seq<u8>> {
    match rfind_dot(s) {
        None => None,
        Some(p) => {
            let suffix = s.skip(p + 1);
            if suffix.len() > 0 && all_digits(suffix) {
                Some(s.take(p + 1) + inc_digits(suffix))
            } else {
                None
            }
        },
    }
}

proof fn lemma_rfind_dot_char(s: Seq<u8>)
    ensures
        match rfind_dot(s) {
            Some(p) => 0 <= p < s.len() && s[p] == 46 && (forall|j: int|
                p < j < s.len() ==> s[j] != 46),
            None => forall|j: int| 0 <= j < s.len() ==> s[j] != 46,
        },
    decreases s.len(),
{
    if s.len() > 0 && s[s.len() - 1] != 46 {
        lemma_rfind_dot_char(s.take(s.len() - 1));
        assert(forall|j: int| 0 <= j < s.len() - 1 ==> s.take(s.len() - 1)[j] == s[j]);
    }
}

proof fn lemma_inc_digits_all_nines(s: Seq<u8>)
    requires
        forall|i: int| 0 <= i < s.len() ==> s[i] == 57,
    ensures
        inc_digits(s) == seq![49u8] + zeros(s.len() as int),
    decreases s.len(),
{
    if s.len() == 0 {
        assert(inc_digits(s) =~= seq![49u8] + zeros(0));
    } else {
        assert(s[s.len() - 1] == 57);
        lemma_inc_digits_all_nines(s.take(s.len() - 1));
        assert((seq![49u8] + zeros(s.len() - 1)).push(48u8) =~= seq![49u8] + zeros(
            s.len() as int,
        ));
    }
}

proof fn lemma_inc_digits_last_non_nine(s: Seq<u8>, q: int)
    requires
        0 <= q < s.len(),
        s[q] != 57,
        forall|j: int| q < j < s.len() ==> s[j] == 57,
    ensures
        inc_digits(s) == s.take(q) + seq![(s[q] + 1) as u8] + zeros(s.len() - q - 1),
    decreases s.len(),
{
    if q == s.len() - 1 {
        assert(inc_digits(s) == s.update(s.len() - 1, (s[s.len() - 1] + 1) as u8));
        assert(s.update(s.len() - 1, (s[s.len() - 1] + 1) as u8) =~= s.take(q) + seq![(s[q]
            + 1) as u8] + zeros(0));
    } else {
        assert(s[s.len() - 1] == 57);
        let t = s.take(s.len() - 1);
        assert(t[q] == s[q]);
        assert(forall|j: int| q < j < t.len() ==> t[j] == 57);
        lemma_inc_digits_last_non_nine(t, q);
        assert(t.take(q) =~= s.take(q));
        assert((t.take(q) + seq![(t[q] + 1) as u8] + zeros(t.len() - q - 1)).push(48u8) =~= s.take(
            q,
        ) + seq![(s[q] + 1) as u8] + zeros(s.len() - q - 1));
    }
}

/// Compute the successor file name: `<base>.<N>` becomes `<base>.<N+1>`
/// with the zero-padded width of `N` preserved; `None` where the suffix
/// after the last `.` is not a non-empty run of digits.
pub fn get_next_binlog_filename(filename: &Vec<u8>) -> (r: Option<Vec<u8>>)
    ensures
        match r {
            Some(v) => successor_name(filename@) == Some(v@),
            None => successor_name(filename@) is None,
        },
{
    proof {
        lemma_rfind_dot_char(filename@);
    }
    let n = filename.len();
    // Find the last dot.
    let mut have_dot = false;
    let mut dot: usize = 0;
    let mut i: usize = n;
    while i > 0
        invariant
            i <= n,
            n == filename@.len(),
            !have_dot ==> forall|j: int| i <= j < n ==> filename@[j] != 46,
            have_dot ==> i <= dot < n && filename@[dot as int] == 46 && (forall|j: int|
                dot < j < n ==> filename@[j] != 46),
        decreases i,
    {
        i = i - 1;
        if !have_dot && filename[i] == 46 {
            dot = i;
            have_dot = true;
        }
    }
    if !have_dot {
        return None;
    }
    proof {
        assert(rfind_dot(filename@) == Some(dot as int));
    }
    if dot + 1 == n {
        return None;
    }
    // The suffix must be all digits.
    let mut i: usize = dot + 1;
    while i < n
        invariant
            dot + 1 <= i <= n,
            n == filename@.len(),
            rfind_dot(filename@) == Some(dot as int),
            forall|j: int| dot < j < i ==> is_digit_spec(filename@[j]),
        decreases n - i,
    {
        if filename[i] < 48 || filename[i] > 57 {
            proof {
                assert(!is_digit_spec(filename@.skip(dot + 1)[i - dot - 1]));
            }
            return None;
        }
        i = i + 1;
    }
    proof {
        assert(all_digits(filename@.skip(dot + 1))) by {
            assert(forall|j: int|
                0 <= j < filename@.skip(dot + 1).len() ==> is_digit_spec(
                    #[trigger] filename@.skip(dot + 1)[j],
                ));
        }
    }
    // Find the last non-nine digit of the suffix.
    let mut have_q = false;
    let mut q: usize = 0;
    let mut i: usize = n;
    while i > dot + 1
        invariant
            dot + 1 <= i <= n,
            n == filename@.len(),
            !have_q ==> forall|j: int| i <= j < n ==> filename@[j] == 57,
            have_q ==> i <= q < n && dot < q && filename@[q as int] != 57 && (forall|j: int|
                q < j < n ==> filename@[j] == 57),
        decreases i,
    {
        i = i - 1;
        if !have_q && filename[i] != 57 {
            q = i;
            have_q = true;
        }
    }
    let suffix_ghost = Ghost(filename@.skip(dot + 1));
    if have_q {
        // Bump the digit at `q`, zero everything after it.
        let mut r = vec_sub(filename, 0, q);
        r.push(filename[q] + 1);
        let mut fill: usize = q + 1;
        while fill < n
            invariant
                q + 1 <= fill <= n,
                n == filename@.len(),
                q < n,
                r@ == filename@.take(q as int) + seq![(filename@[q as int] + 1) as u8] + zeros(
                    fill - q - 1,
                ),
            decreases n - fill,
        {
            r.push(48);
            assert(r@ =~= filename@.take(q as int) + seq![(filename@[q as int] + 1) as u8]
                + zeros(fill - q));
            fill = fill + 1;
        }
        proof {
            lemma_inc_digits_last_non_nine(suffix_ghost@, q - dot - 1);
            assert(r@ =~= filename@.take(dot + 1) + inc_digits(suffix_ghost@)) by {
                assert(suffix_ghost@.take(q - dot - 1) =~= filename@.subrange(
                    dot + 1,
                    q as int,
                ));
                assert(filename@.take(dot + 1) + filename@.subrange(dot + 1, q as int)
                    =~= filename@.take(q as int));
            }
        }
        Some(r)
    } else {
        // All nines: grow a leading one, zero the rest.
        let mut r = vec_sub(filename, 0, dot + 1);
        r.push(49);
        let mut fill: usize = dot + 1;
        while fill < n
            invariant
                dot + 1 <= fill <= n,
                n == filename@.len(),
                dot < n,
                r@ == filename@.take(dot + 1) + seq![49u8] + zeros(fill - dot - 1),
            decreases n - fill,
        {
            r.push(48);
            assert(r@ =~= filename@.take(dot + 1) + seq![49u8] + zeros(fill - dot));
            fill = fill + 1;
        }
        proof {
            lemma_inc_digits_all_nines(suffix_ghost@);
            assert(r@ =~= filename@.take(dot + 1) + inc_digits(suffix_ghost@));
        }
        Some(r)
    }
}

/// Default eviction threshold of the retained byte window, in bytes.
pub const DEFAULT_EVICTION_THRESHOLD: usize = 1000000;

/// Bounded-memory buffered reader over one open log file.
///
/// `content[offset ..]` is the buffered, not yet consumed window;
/// `file_data[file_pos ..]` (while `file_open`) is what the underlying
/// file still holds. Once the file is exhausted the handle is dropped:
/// `file_open` turns false and stays false until a rotation.
pub struct FileStream {
    /// The table of log files the source can open, by name.
    pub files: Vec<LogFile>,
    /// Name of the file currently open (or last open).
    pub filename: Vec<u8>,
    /// Whether an underlying file is still open.
    pub file_open: bool,
    /// Contents of the open file.
    pub file_data: Vec<u8>,
    /// How much of `file_data` has been pulled into the window already.
    pub file_pos: usize,
    /// The retained byte window.
    pub content: Vec<u8>,
    /// Read cursor into `content`: bytes before it are already consumed.
    pub offset: usize,
    /// How many underlying file reads have been made (saturating).
    pub counter: usize,
    /// Eviction threshold: once the cursor passes it, the oldest
    /// threshold-sized span is dropped and the cursor rebased.
    pub threshold: usize,
}

/// What a read of `n` bytes returns: the next `n` remaining bytes, or
/// all of them where fewer than `n` remain. A pure function of the
/// remaining stream alone — the eviction threshold plays no part in it.
pub open spec fn read_result(s: FileStream, n: int) -> Seq<u8> {
    s.remaining().take(if n <= s.remaining().len() { n } else { s.remaining().len() as int })
}

impl FileStream {
    /// Structural invariant: the cursor stays inside the window and
    /// before the eviction threshold, and the file position stays inside
    /// the file.
    pub open spec fn wf(self) -> bool {
        &&& self.offset <= self.content@.len()
        &&& self.offset < self.threshold
        &&& (self.file_open ==> self.file_pos <= self.file_data@.len())
    }

    /// Bytes the underlying file still holds.
    pub open spec fn file_remaining(self) -> Seq<u8> {
        if self.file_open {
            self.file_data@.skip(self.file_pos as int)
        } else {
            Seq::<u8>::empty()
        }
    }

    /// All bytes not yet handed to the caller: the unconsumed window,
    /// then the rest of the file.
    pub open spec fn remaining(self) -> Seq<u8> {
        self.content@.skip(self.offset as int) + self.file_remaining()
    }

    /// Length of the unconsumed part of the retained window.
    pub open spec fn buffered(self) -> int {
        self.content@.len() - self.offset
    }

    /// Pull one chunk of up to `size` bytes from the underlying file
    /// into the window. A zero-byte result signals end-of-file, and the
    /// handle is dropped at that moment. The remaining stream is
    /// unchanged: only its split between window and file moves.
    pub fn read_file(&mut self, size: usize) -> (read: usize)
        requires
            old(self).wf(),
            size >= 1,
        ensures
            final(self).wf(),
            final(self).remaining() == old(self).remaining(),
            final(self).filename == old(self).filename,
            final(self).files == old(self).files,
            final(self).threshold == old(self).threshold,
            final(self).offset == old(self).offset,
            !old(self).file_open ==> *final(self) == *old(self) && read == 0,
            old(self).file_open ==> final(self).counter == (if old(self).counter < usize::MAX {
                old(self).counter + 1
            } else {
                old(self).counter as int
            }),
            old(self).file_open ==> {
                &&& read == if size as int <= old(self).file_remaining().len() {
                    size as int
                } else {
                    old(self).file_remaining().len() as int
                }
                &&& final(self).content@ == old(self).content@ + old(
                    self,
                ).file_remaining().take(read as int)
                &&& (read == 0 <==> old(self).file_remaining().len() == 0)
                &&& (read == 0 ==> !final(self).file_open)
                &&& (read > 0 ==> final(self).file_open && final(self).file_data == old(
                    self,
                ).file_data && final(self).file_pos == old(self).file_pos + read)
            },
    {
        if !self.file_open {
            return 0;
        }
        let avail = self.file_data.len() - self.file_pos;
        let take_n = if size <= avail {
            size
        } else {
            avail
        };
        if take_n == 0 {
            self.file_open = false;
            self.file_data = Vec::new();
            self.file_pos = 0;
            if self.counter < usize::MAX {
                self.counter = self.counter + 1;
            }
            proof {
                assert(old(self).file_remaining().len() == 0);
                assert(final(self).remaining() =~= old(self).remaining());
                assert(final(self).content@ =~= old(self).content@ + old(
                    self,
                ).file_remaining().take(0));
            }
            return 0;
        }
        let mut chunk = vec_sub(&self.file_data, self.file_pos, self.file_pos + take_n);
        self.content.append(&mut chunk);
        self.file_pos = self.file_pos + take_n;
        if self.counter < usize::MAX {
            self.counter = self.counter + 1;
        }
        proof {
            assert(final(self).content@ =~= old(self).content@ + old(
                self,
            ).file_remaining().take(take_n as int));
            assert(final(self).remaining() =~= old(self).remaining());
        }
        take_n
    }

    /// Return up to `size` bytes: the next `size` remaining bytes, or
    /// fewer at end-of-file (a short result exactly once, then empty
    /// forever). Bytes beyond the window are pulled from the file
    /// first; once the cursor passes the eviction threshold, the oldest
    /// threshold-sized span is dropped and the cursor rebased, so the
    /// retained window never outgrows the threshold plus one pending
    /// read. What is returned is a function of the remaining stream
    /// alone: eviction changes memory, never observed bytes.
    pub fn read(&mut self, size: usize) -> (r: Vec<u8>)
        requires
            old(self).wf(),
        ensures
            final(self).wf(),
            final(self).filename == old(self).filename,
            final(self).files == old(self).files,
            final(self).threshold == old(self).threshold,
            r@ == read_result(*old(self), size as int),
            final(self).remaining() == old(self).remaining().skip(r@.len() as int),
            r@.len() < size ==> final(self).remaining() == Seq::<u8>::empty()
                && !final(self).file_open,
            final(self).buffered() <= old(self).buffered() - size || final(self).buffered()
                < size,
    {
        if size == 0 {
            let r: Vec<u8> = Vec::new();
            proof {
                assert(r@ =~= read_result(*old(self), 0));
                assert(final(self).remaining() =~= old(self).remaining().skip(0));
            }
            return r;
        }
        while self.content.len() - self.offset < size && self.file_open
            invariant
                self.wf(),
                size >= 1,
                self.remaining() == old(self).remaining(),
                self.filename == old(self).filename,
                self.files == old(self).files,
                self.threshold == old(self).threshold,
                self.offset == old(self).offset,
                self.buffered() < 2 * (size as int) || self.buffered() == old(self).buffered(),
            decreases self.file_remaining().len() + (if self.file_open {
                1int
            } else {
                0int
            }),
        {
            let _pulled = self.read_file(size);
        }
        let buffered = self.content.len() - self.offset;
        let k = if size <= buffered {
            size
        } else {
            buffered
        };
        proof {
            if k < size {
                assert(!self.file_open);
                assert(self.remaining() =~= self.content@.skip(self.offset as int));
            }
            assert(self.content@.subrange(self.offset as int, self.offset + k) =~= self
                .remaining()
                .take(k as int));
        }
        let r = vec_sub(&self.content, self.offset, self.offset + k);
        self.offset = self.offset + k;
        proof {
            assert(self.remaining() =~= old(self).remaining().skip(k as int));
            if k < size {
                assert(self.remaining() =~= Seq::<u8>::empty());
            }
            assert(r@ =~= read_result(*old(self), size as int));
        }
        let ghost mid = *self;
        while self.offset >= self.threshold
            invariant
                self.offset <= self.content@.len(),
                self.threshold == old(self).threshold,
                self.threshold >= 1,
                self.remaining() == mid.remaining(),
                self.buffered() == mid.buffered(),
                self.filename == mid.filename,
                self.files == mid.files,
                self.file_open == mid.file_open,
                self.file_data == mid.file_data,
                self.file_pos == mid.file_pos,
            decreases self.offset,
        {
            let ghost pre = *self;
            let rest = self.content.split_off(self.threshold);
            self.content = rest;
            self.offset = self.offset - self.threshold;
            proof {
                assert(self.content@.skip(self.offset as int) =~= pre.content@.skip(
                    pre.offset as int,
                ));
                assert(self.remaining() =~= pre.remaining());
            }
        }
        r
    }

    /// Consume the fixed four-byte magic preamble at the start of a
    /// freshly opened file. True when all four bytes were there.
    pub fn read_binlog_file_header(&mut self) -> (r: bool)
        requires
            old(self).wf(),
        ensures
            final(self).wf(),
            final(self).filename == old(self).filename,
            final(self).files == old(self).files,
            final(self).threshold == old(self).threshold,
            final(self).remaining() == old(self).remaining().skip(
                if old(self).remaining().len() <= 4 {
                    old(self).remaining().len() as int
                } else {
                    4
                },
            ),
            r == (old(self).remaining().len() >= 4),
    {
        let v = self.read(4);
        v.len() == 4
    }

    /// Open the named file from the table, with the default eviction
    /// threshold. The preamble is not consumed here.
    pub fn from_file(files: Vec<LogFile>, filename: &Vec<u8>) -> (r: Option<FileStream>)
        ensures
            match r {
                Some(s) => {
                    &&& find_file(files@, filename@) is Some
                    &&& s.wf()
                    &&& s.files == files
                    &&& s.filename@ == filename@
                    &&& s.threshold == DEFAULT_EVICTION_THRESHOLD
                    &&& s.counter == 0
                    &&& s.remaining() == files@[find_file(files@, filename@)->Some_0].data@
                },
                None => find_file(files@, filename@) is None,
            },
    {
        FileStream::from_file_with_threshold(files, filename, DEFAULT_EVICTION_THRESHOLD)
    }

    /// Open the named file from the table with a chosen eviction
    /// threshold. Any positive threshold gives the same observable
    /// reads; only the memory bound differs.
    pub fn from_file_with_threshold(
        files: Vec<LogFile>,
        filename: &Vec<u8>,
        threshold: usize,
    ) -> (r: Option<FileStream>)
        requires
            threshold >= 1,
        ensures
            match r {
                Some(s) => {
                    &&& find_file(files@, filename@) is Some
                    &&& s.wf()
                    &&& s.files == files
                    &&& s.filename@ == filename@
                    &&& s.threshold == threshold
                    &&& s.counter == 0
                    &&& s.remaining() == files@[find_file(files@, filename@)->Some_0].data@
                },
                None => find_file(files@, filename@) is None,
            },
    {
        match lookup_file(&files, filename) {
            None => None,
            Some(i) => {
                let data_len = files[i].data.len();
                let file_data = vec_sub(&files[i].data, 0, data_len);
                let name = vec_sub(filename, 0, filename.len());
                let s = FileStream {
                    files,
                    filename: name,
                    file_open: true,
                    file_data,
                    file_pos: 0,
                    content: Vec::new(),
                    offset: 0,
                    counter: 0,
                    threshold,
                };
                proof {
                    assert(s.remaining() =~= s.files@[find_file(s.files@, filename@)->Some_0]
                        .data@);
                }
                Some(s)
            },
        }
    }

    /// Switch to the successor file: compute the next name, open it from
    /// the table, and fully reset the window and cursor. Where no
    /// successor can be computed or found, the stream ends cleanly: the
    /// handle is dropped and nothing remains.
    pub fn read_next_binlog_file(&mut self) -> (r: bool)
        requires
            old(self).wf(),
        ensures
            final(self).wf(),
            final(self).files == old(self).files,
            final(self).threshold == old(self).threshold,
            match successor_name(old(self).filename@) {
                Some(next) => match find_file(old(self).files@, next) {
                    Some(i) => {
                        &&& r == true
                        &&& final(self).filename@ == next
                        &&& final(self).remaining() == old(self).files@[i].data@
                        &&& final(self).content@.len() == 0
                        &&& final(self).offset == 0
                    },
                    None => {
                        &&& r == false
                        &&& !final(self).file_open
                        &&& final(self).filename == old(self).filename
                        &&& final(self).remaining() == Seq::<u8>::empty()
                    },
                },
                None => {
                    &&& r == false
                    &&& !final(self).file_open
                    &&& final(self).filename == old(self).filename
                    &&& final(self).remaining() == Seq::<u8>::empty()
                },
            },
    {
        let next = get_next_binlog_filename(&self.filename);
        match next {
            None => {
                self.close_stream();
                false
            },
            Some(next) => {
                match lookup_file(&self.files, &next) {
                    None => {
                        self.close_stream();
                        false
                    },
                    Some(i) => {
                        let data_len = self.files[i].data.len();
                        let file_data = vec_sub(&self.files[i].data, 0, data_len);
                        self.filename = next;
                        self.file_data = file_data;
                        self.file_pos = 0;
                        self.file_open = true;
                        self.content = Vec::new();
                        self.offset = 0;
                        proof {
                            assert(final(self).remaining() =~= old(self).files@[i as int].data@);
                        }
                        true
                    },
                }
            },
        }
    }

    fn close_stream(&mut self)
        requires
            old(self).wf(),
        ensures
            final(self).wf(),
            final(self).files == old(self).files,
            final(self).filename == old(self).filename,
            final(self).threshold == old(self).threshold,
            !final(self).file_open,
            final(self).remaining() == Seq::<u8>::empty(),
    {
        self.file_open = false;
        self.file_data = Vec::new();
        self.file_pos = 0;
        self.content = Vec::new();
        self.offset = 0;
        proof {
            assert(final(self).remaining() =~= Seq::<u8>::empty());
        }
    }
}

/// Bounded memory, stated over the invariant: while the unconsumed part
/// of the window stays within one pending read of size `n`, the whole
/// retained window stays within the eviction threshold plus `n`.
pub proof fn lemma_retained_window_bound(s: FileStream, n: int)
    requires
        s.wf(),
        s.buffered() <= n,
    ensures
        s.content@.len() <= s.threshold + n,
{
}

/// Eviction affects memory only: what a read returns is a function of
/// the remaining byte stream alone, so two sources over the same
/// remaining bytes — whatever their thresholds or window layouts —
/// observe exactly the same result for every request size.
pub proof fn lemma_read_observation_threshold_independent(
    s1: FileStream,
    s2: FileStream,
    n: int,
)
    requires
        s1.remaining() == s2.remaining(),
    ensures
        read_result(s1, n) == read_result(s2, n),
{
}

/// After exhaustion, nothing more: a source with no remaining bytes
/// answers every request with the empty result.
pub proof fn lemma_exhausted_reads_empty(s: FileStream, n: int)
    requires
        n >= 0,
        s.remaining().len() == 0,
    ensures
        read_result(s, n) == Seq::<u8>::empty(),
{
    assert(read_result(s, n) =~= Seq::<u8>::empty());
}

} // verus!
