//! Reading a file with an upper limit on its size.
//!
//! [`LimitedRead`] decides what to read next and what to make of what was read. Whoever holds the
//! file performs the steps that it asks for: reading into [`LimitedRead::buffer_mut`], then
//! reporting the number of bytes with [`LimitedRead::absorb`], until [`LimitedRead::next_step`]
//! asks for no more.

use vstd::prelude::*;
use vstd::slice::*;
use vstd::string::*;

use crate::text::{decimal, push_decimal};
use crate::zeroizing::{ZeroizingBuffer, ZeroizingVec, MAX_BUF_SIZE};

verus! {

/// Why a file could not be read within its limit.
#[derive(Clone, Copy, PartialEq, Eq, Debug, Structural)]
pub enum ReadError {
    /// The file could not be opened.
    Open,
    /// The file's metadata could not be read.
    Metadata,
    /// The file's length is not a `usize`.
    Length,
    /// The file is longer than allowed, by its metadata.
    TooLarge { file_len: usize, max_size: usize },
    /// Reading from the file failed.
    Read,
    /// Reading past the expected end failed.
    Probe,
    /// As many bytes as allowed were read, and the file has more.
    MoreData { read_len: usize, max_size: usize },
}

impl ReadError {
    /// The text of the error for the file at `path`.
    pub open spec fn text(self, path: Seq<char>) -> Seq<char> {
        match self {
            ReadError::Open => "Failed to open file: "@ + path,
            ReadError::Metadata => "Failed to read metadata for "@ + path,
            ReadError::Length => "File size for "@ + path + " exceeds usize::MAX ("@ + decimal(
                usize::MAX as nat,
            ) + ") or is invalid"@,
            ReadError::TooLarge { file_len, max_size } => "File "@ + path + " is "@ + decimal(
                file_len as nat,
            ) + " bytes, which exceeds expected-maximum size of "@ + decimal(max_size as nat)
                + " bytes"@,
            ReadError::Read => "Failed to read file: "@ + path,
            ReadError::Probe => "Failed to check for extra data: "@ + path,
            ReadError::MoreData { read_len, max_size } => "File "@ + path
                + " has more data after reading "@ + decimal(read_len as nat)
                + " bytes, exceeding maximum size of "@ + decimal(max_size as nat) + " bytes"@,
        }
    }

    /// The text of the error for the file at `path`.
    pub fn message(&self, path: &str) -> (r: String)
        ensures
            r@ == self.text(path@),
            match *self {
                ReadError::Open => r@ == "Failed to open file: "@ + path@,
                ReadError::Metadata => r@ == "Failed to read metadata for "@ + path@,
                ReadError::Length => r@ == "File size for "@ + path@ + " exceeds usize::MAX ("@
                    + decimal(usize::MAX as nat) + ") or is invalid"@,
                ReadError::TooLarge { file_len, max_size } => r@ == "File "@ + path@ + " is "@
                    + decimal(file_len as nat)
                    + " bytes, which exceeds expected-maximum size of "@ + decimal(max_size as nat)
                    + " bytes"@,
                ReadError::Read => r@ == "Failed to read file: "@ + path@,
                ReadError::Probe => r@ == "Failed to check for extra data: "@ + path@,
                ReadError::MoreData { read_len, max_size } => r@ == "File "@ + path@
                    + " has more data after reading "@ + decimal(read_len as nat)
                    + " bytes, exceeding maximum size of "@ + decimal(max_size as nat)
                    + " bytes"@,
            },
    {
        let mut out = String::new();
        match *self {
            ReadError::Open => {
                out.append("Failed to open file: ");
                out.append(path);
            },
            ReadError::Metadata => {
                out.append("Failed to read metadata for ");
                out.append(path);
            },
            ReadError::Length => {
                out.append("File size for ");
                out.append(path);
                out.append(" exceeds usize::MAX (");
                push_decimal(&mut out, usize::MAX as u64);
                out.append(") or is invalid");
            },
            ReadError::TooLarge { file_len, max_size } => {
                out.append("File ");
                out.append(path);
                out.append(" is ");
                push_decimal(&mut out, file_len as u64);
                out.append(" bytes, which exceeds expected-maximum size of ");
                push_decimal(&mut out, max_size as u64);
                out.append(" bytes");
            },
            ReadError::Read => {
                out.append("Failed to read file: ");
                out.append(path);
            },
            ReadError::Probe => {
                out.append("Failed to check for extra data: ");
                out.append(path);
            },
            ReadError::MoreData { read_len, max_size } => {
                out.append("File ");
                out.append(path);
                out.append(" has more data after reading ");
                push_decimal(&mut out, read_len as u64);
                out.append(" bytes, exceeding maximum size of ");
                push_decimal(&mut out, max_size as u64);
                out.append(" bytes");
            },
        }
        assert(out@ =~= self.text(path@));
        out
    }
}

/// What to do next with the file.
#[derive(Clone, Copy, PartialEq, Eq, Debug, Structural)]
pub enum ReadStep {
    /// Read at most so many bytes, at least one, into the front of the buffer.
    Read(usize),
    /// Try to read one more byte, to see whether the file ends here.
    Probe,
    /// Nothing: the file has ended.
    Finish,
}

/// The state of a [`LimitedRead`].
#[verifier::ext_equal]
pub struct ReadState {
    /// The largest size that is allowed.
    pub limit: nat,
    /// How many bytes to read: the file's length where it is known, else the limit.
    pub goal: nat,
    /// The bytes read so far.
    pub data: Seq<u8>,
    /// Whether the file ended before the goal was reached.
    pub ended: bool,
}

/// The smaller of two numbers.
pub open spec fn min_nat(a: nat, b: nat) -> nat {
    if a <= b {
        a
    } else {
        b
    }
}

/// The limit that a requested maximum stands for: zero asks for no limit.
pub open spec fn effective_limit(max_size: usize) -> usize {
    if max_size == 0 {
        usize::MAX
    } else {
        max_size
    }
}

/// The smaller of two numbers, where zero stands for an unknown one.
pub open spec fn smallest_known(a: nat, b: nat) -> nat {
    if a == 0 {
        b
    } else if b == 0 {
        a
    } else {
        min_nat(a, b)
    }
}

impl ReadState {
    /// The state before anything was read, or why reading does not begin.
    pub open spec fn begun(file_len: u64, max_size: usize) -> Result<ReadState, ReadError> {
        let limit = effective_limit(max_size);
        if file_len > usize::MAX {
            Err(ReadError::Length)
        } else if file_len > limit {
            Err(ReadError::TooLarge { file_len: file_len as usize, max_size: limit })
        } else {
            Ok(
                ReadState {
                    limit: limit as nat,
                    goal: smallest_known(file_len as nat, limit as nat),
                    data: Seq::empty(),
                    ended: false,
                },
            )
        }
    }

    /// What holds between any two steps.
    pub open spec fn wf(self) -> bool {
        &&& 0 < self.goal <= self.limit <= usize::MAX
        &&& self.data.len() <= self.goal
        &&& self.ended ==> self.data.len() < self.goal
    }

    pub open spec fn step(self) -> ReadStep {
        if self.ended {
            ReadStep::Finish
        } else if self.data.len() < self.goal {
            ReadStep::Read(min_nat((self.goal - self.data.len()) as nat, MAX_BUF_SIZE as nat) as usize)
        } else {
            ReadStep::Probe
        }
    }

    /// The state after a read that gave `chunk`. An empty chunk tells that the file has ended.
    pub open spec fn absorbed(self, chunk: Seq<u8>) -> ReadState {
        ReadState { data: self.data + chunk, ended: chunk.len() == 0, ..self }
    }

    /// What the whole read comes to, where `extra` is the number of bytes that the probe gave.
    pub open spec fn outcome(self, extra: nat) -> Result<Seq<u8>, ReadError> {
        if self.step() is Probe && extra > 0 && self.goal == self.limit {
            Err(
                ReadError::MoreData {
                    read_len: self.goal as usize,
                    max_size: self.limit as usize,
                },
            )
        } else {
            Ok(self.data)
        }
    }

    /// The state after a sequence of reads.
    pub open spec fn after(self, chunks: Seq<Seq<u8>>) -> ReadState
        decreases chunks.len(),
    {
        if chunks.len() == 0 {
            self
        } else {
            self.absorbed(chunks[0]).after(chunks.drop_first())
        }
    }

    /// Whether `chunks` is what a file with the given content answers, read by read, from this
    /// state on: each read gives the bytes that follow those read before, at least one and at most
    /// as many as were asked for, and nothing only where the content ends.
    pub open spec fn answers(self, content: Seq<u8>, chunks: Seq<Seq<u8>>) -> bool
        decreases chunks.len(),
    {
        chunks.len() > 0 ==> {
            let chunk = chunks[0];
            let at = self.data.len();
            &&& self.step() is Read
            &&& chunk.len() <= self.step()->Read_0
            &&& at + chunk.len() <= content.len()
            &&& chunk == content.subrange(at as int, (at + chunk.len()) as int)
            &&& chunk.len() == 0 <==> at == content.len()
            &&& self.absorbed(chunk).answers(content, chunks.drop_first())
        }
    }
}

/// How many bytes the probe gives when `at` bytes of the content were read.
pub open spec fn probed(content: Seq<u8>, at: nat) -> nat {
    if at < content.len() {
        1
    } else {
        0
    }
}

/// The smaller of two numbers, where zero stands for an unknown one. At least one must be known.
pub fn smallest_non_zero(a: usize, b: usize) -> (r: usize)
    requires
        a != 0 || b != 0,
    ensures
        r == smallest_known(a as nat, b as nat),
        r != 0,
        r == a || r == b,
        a != 0 ==> r <= a,
        b != 0 ==> r <= b,
{
    if a == 0 {
        b
    } else if b == 0 {
        a
    } else if a <= b {
        a
    } else {
        b
    }
}

/// A read in progress. The bytes collected so far and the buffer are zeroized when it is dropped;
/// only [`LimitedRead::finish`] hands the bytes out.
pub struct LimitedRead {
    limit: usize,
    goal: usize,
    data: ZeroizingVec,
    /// For how many bytes `data` has room without being moved in memory.
    room: usize,
    buffer: ZeroizingBuffer,
    ended: bool,
}

impl LimitedRead {
    pub closed spec fn view(&self) -> ReadState {
        ReadState {
            limit: self.limit as nat,
            goal: self.goal as nat,
            data: self.data@,
            ended: self.ended,
        }
    }

    /// What the buffer holds.
    pub closed spec fn buffer_view(&self) -> Seq<u8> {
        self.buffer@
    }

    /// The state is consistent, and the buffer has its size.
    pub open spec fn wf(&self) -> bool {
        &&& self@.wf()
        &&& self.buffer_view().len() == MAX_BUF_SIZE
    }

    /// Begins to read a file whose metadata give the length `file_len` (zero for files whose
    /// length is not known, such as devices), with `max_size` bytes allowed. If `max_size` is
    /// zero, no limit is applied.
    pub fn begin(file_len: u64, max_size: usize) -> (r: Result<Self, ReadError>)
        ensures
            r is Ok <==> ReadState::begun(file_len, max_size) is Ok,
            r matches Ok(read) ==> read.wf() && read@ == ReadState::begun(file_len, max_size)->Ok_0,
            r matches Err(e) ==> e == ReadState::begun(file_len, max_size)->Err_0,
            r is Ok <==> file_len <= usize::MAX && (max_size == 0 || file_len <= max_size),
            r matches Ok(read) ==> {
                &&& read@.data == Seq::<u8>::empty()
                &&& !read@.ended
                &&& max_size != 0 ==> read@.limit == max_size
                &&& max_size == 0 ==> read@.limit == usize::MAX
                &&& file_len != 0 ==> read@.goal == file_len
                &&& file_len == 0 ==> read@.goal == read@.limit
            },
            r matches Err(e) ==> match e {
                ReadError::Length => file_len > usize::MAX,
                ReadError::TooLarge { file_len: len, max_size: max } => {
                    &&& len == file_len
                    &&& max == max_size
                    &&& max < len
                },
                _ => false,
            },
    {
        let limit: usize = if max_size == 0 {
            usize::MAX
        } else {
            max_size
        };
        if file_len > usize::MAX as u64 {
            return Err(ReadError::Length);
        }
        let known_len: usize = file_len as usize;
        if known_len > limit {
            return Err(ReadError::TooLarge { file_len: known_len, max_size: limit });
        }
        let goal: usize = smallest_non_zero(known_len, limit);
        let room: usize = if goal <= isize::MAX as usize {
            goal
        } else {
            0
        };
        Ok(
            LimitedRead {
                limit,
                goal,
                data: ZeroizingVec::new(room),
                room,
                buffer: ZeroizingBuffer::new(),
                ended: false,
            },
        )
    }

    /// What to do next.
    pub fn next_step(&self) -> (r: ReadStep)
        requires
            self.wf(),
        ensures
            r == self@.step(),
            r matches ReadStep::Read(n) ==> 0 < n <= MAX_BUF_SIZE,
            match r {
                ReadStep::Read(n) => {
                    &&& !self@.ended
                    &&& self@.data.len() + n <= self@.goal
                    &&& n < MAX_BUF_SIZE ==> self@.data.len() + n == self@.goal
                },
                ReadStep::Probe => !self@.ended && self@.data.len() == self@.goal,
                ReadStep::Finish => self@.ended,
            },
    {
        let total: usize = self.data.len();
        if self.ended {
            ReadStep::Finish
        } else if total < self.goal {
            let rest: usize = self.goal - total;
            ReadStep::Read(
                if rest <= MAX_BUF_SIZE {
                    rest
                } else {
                    MAX_BUF_SIZE
                },
            )
        } else {
            ReadStep::Probe
        }
    }

    /// The buffer to read into.
    pub fn buffer_mut(&mut self) -> (r: &mut [u8])
        requires
            old(self).wf(),
        ensures
            r@ == old(self).buffer_view(),
            r@.len() == MAX_BUF_SIZE,
            final(self).wf(),
            final(self)@ == old(self)@,
            final(self).buffer_view() == final(r)@,
    {
        self.buffer.as_mut_slice()
    }

    /// Makes room for `n` more bytes. Where the bytes have to move, they are copied, and what they
    /// leave is zeroized.
    fn make_room(&mut self, n: usize)
        requires
            old(self)@.data.len() + n <= usize::MAX,
        ensures
            final(self)@ == old(self)@,
            final(self).buffer_view() == old(self).buffer_view(),
    {
        let needed: usize = self.data.len() + n;
        if self.room < needed && needed <= isize::MAX as usize {
            let room: usize = if needed <= isize::MAX as usize / 2 {
                needed * 2
            } else {
                needed
            };
            let mut moved = ZeroizingVec::new(room);
            moved.as_mut_vec().extend_from_slice(self.data.as_mut_vec().as_slice());
            assert(moved@ =~= self.data@);
            self.data = moved;
            self.room = room;
        }
    }

    /// Takes over the `n` bytes at the front of the buffer, which a read gave.
    pub fn absorb(&mut self, n: usize)
        requires
            old(self).wf(),
            old(self)@.step() is Read,
            n <= old(self)@.step()->Read_0,
        ensures
            final(self).wf(),
            final(self)@ == old(self)@.absorbed(old(self).buffer_view().take(n as int)),
            final(self)@.data == old(self)@.data + old(self).buffer_view().take(n as int),
            final(self)@.ended == (n == 0),
            final(self)@.limit == old(self)@.limit,
            final(self)@.goal == old(self)@.goal,
            final(self).buffer_view() == old(self).buffer_view(),
    {
        let ghost before = self.data@;
        if n == 0 {
            self.ended = true;
            assert(self.data@ =~= before + self.buffer@.take(0));
        } else {
            self.make_room(n);
            let chunk = slice_subrange(self.buffer.as_slice(), 0, n);
            self.data.as_mut_vec().extend_from_slice(chunk);
            assert(self.data@ =~= before + self.buffer@.take(n as int));
        }
    }

    /// Ends the read and hands the bytes out, where `extra` is the number of bytes that the probe
    /// gave, if one was asked for.
    pub fn finish(self, extra: usize) -> (r: Result<Vec<u8>, ReadError>)
        requires
            self.wf(),
            !(self@.step() is Read),
        ensures
            r is Ok <==> self@.outcome(extra as nat) is Ok,
            r matches Ok(bytes) ==> bytes@ == self@.outcome(extra as nat)->Ok_0,
            r matches Err(e) ==> e == self@.outcome(extra as nat)->Err_0,
            r is Err <==> !self@.ended && extra > 0 && self@.goal == self@.limit,
            r matches Ok(bytes) ==> bytes@ == self@.data,
            r matches Err(e) ==> (e matches ReadError::MoreData { read_len, max_size } && read_len
                == self@.limit && max_size == self@.limit),
    {
        if !self.ended && extra > 0 && self.goal == self.limit {
            return Err(ReadError::MoreData { read_len: self.goal, max_size: self.limit });
        }
        Ok(self.data.into_inner())
    }
}

/// A step keeps the state consistent, and makes progress: it comes closer to the goal, or finds
/// the file's end.
pub proof fn law_absorbing_makes_progress(state: ReadState, chunk: Seq<u8>)
    requires
        state.wf(),
        state.step() is Read,
        chunk.len() <= state.step()->Read_0,
    ensures
        state.absorbed(chunk).wf(),
        state.absorbed(chunk).ended || state.data.len() < state.absorbed(chunk).data.len(),
{
}

/// What was read from a file is always the front of its content, in order and complete, and no
/// more reads are answered than there are bytes to read, and one that finds the end.
pub proof fn law_reads_collect_the_content(
    state: ReadState,
    content: Seq<u8>,
    chunks: Seq<Seq<u8>>,
)
    requires
        state.wf(),
        !state.ended,
        state.data.len() <= content.len(),
        state.data == content.take(state.data.len() as int),
        state.answers(content, chunks),
    ensures
        ({
            let last = state.after(chunks);
            &&& last.wf()
            &&& last.limit == state.limit
            &&& last.goal == state.goal
            &&& last.data.len() <= content.len()
            &&& last.data == content.take(last.data.len() as int)
            &&& last.ended ==> last.data == content
            &&& !(last.step() is Read) ==> last.data == content.take(
                min_nat(state.goal, content.len()) as int,
            )
            &&& chunks.len() <= state.goal - state.data.len() + 1
        }),
    decreases chunks.len(),
{
    if chunks.len() > 0 {
        let next = state.absorbed(chunks[0]);
        let rest = chunks.drop_first();
        assert(next.data =~= content.take(next.data.len() as int));
        if next.ended {
            assert(next.answers(content, rest));
            assert(rest.len() == 0);
            assert(state.after(chunks) == next.after(rest));
            assert(next.after(rest) == next);
            assert(content.take(content.len() as int) =~= content);
        } else {
            law_reads_collect_the_content(next, content, rest);
        }
    }
}

/// A file whose metadata tell its true length is returned whole if it is no longer than the limit
/// (the limit itself included), and refused before anything is read if it is longer.
pub proof fn law_regular_file(content: Seq<u8>, max_size: usize, chunks: Seq<Seq<u8>>)
    requires
        content.len() <= usize::MAX,
        ReadState::begun(content.len() as u64, max_size) matches Ok(start) ==> start.answers(
            content,
            chunks,
        ) && !(start.after(chunks).step() is Read),
    ensures
        match ReadState::begun(content.len() as u64, max_size) {
            Ok(start) => {
                let last = start.after(chunks);
                &&& max_size == 0 || content.len() <= max_size
                &&& content.len() <= effective_limit(max_size)
                &&& last.outcome(probed(content, last.data.len())) == Ok::<Seq<u8>, ReadError>(
                    content,
                )
            },
            Err(e) => {
                &&& max_size != 0 && content.len() > max_size
                &&& e == (ReadError::TooLarge { file_len: content.len() as usize, max_size })
                &&& content.len() > effective_limit(max_size)
                &&& e == ReadError::TooLarge {
                    file_len: content.len() as usize,
                    max_size: effective_limit(max_size),
                }
            },
        },
{
    if let Ok(start) = ReadState::begun(content.len() as u64, max_size) {
        assert(start.data =~= content.take(0));
        law_reads_collect_the_content(start, content, chunks);
        assert(content.take(content.len() as int) =~= content);
    }
}

/// A file whose length is not known beforehand is returned whole if it holds no more than the
/// limit, and refused once the limit is reached if it holds more.
pub proof fn law_file_of_unknown_length(
    content: Seq<u8>,
    max_size: usize,
    chunks: Seq<Seq<u8>>,
)
    requires
        ReadState::begun(0, max_size) matches Ok(start) ==> start.answers(content, chunks) && !(
        start.after(chunks).step() is Read),
    ensures
        ReadState::begun(0, max_size) is Ok,
        ({
            let last = ReadState::begun(0, max_size)->Ok_0.after(chunks);
            let limit = effective_limit(max_size);
            last.outcome(probed(content, last.data.len())) == if content.len() <= limit {
                Ok::<Seq<u8>, ReadError>(content)
            } else {
                Err(ReadError::MoreData { read_len: limit, max_size: limit })
            }
        }),
        ({
            let last = ReadState::begun(0, max_size)->Ok_0.after(chunks);
            let outcome = last.outcome(probed(content, last.data.len()));
            &&& max_size != 0 && content.len() <= max_size ==> outcome == Ok::<
                Seq<u8>,
                ReadError,
            >(content)
            &&& max_size != 0 && content.len() > max_size ==> outcome == Err::<
                Seq<u8>,
                ReadError,
            >(ReadError::MoreData { read_len: max_size, max_size })
            &&& max_size == 0 && content.len() <= usize::MAX ==> outcome == Ok::<
                Seq<u8>,
                ReadError,
            >(content)
        }),
{
    let start = ReadState::begun(0, max_size)->Ok_0;
    assert(start.data =~= content.take(0));
    law_reads_collect_the_content(start, content, chunks);
    if content.len() <= start.goal {
        assert(content.take(content.len() as int) =~= content);
    }
}

/// Whatever a file's metadata claim and whatever it answers, no more than the limit is ever
/// returned, and what is returned is the front of the file's content.
pub proof fn law_limit_is_never_exceeded(
    file_len: u64,
    content: Seq<u8>,
    max_size: usize,
    chunks: Seq<Seq<u8>>,
    extra: nat,
)
    requires
        ReadState::begun(file_len, max_size) matches Ok(start) ==> start.answers(content, chunks),
    ensures
        ReadState::begun(file_len, max_size) matches Ok(start) ==> (start.after(chunks).outcome(
            extra,
        ) matches Ok(bytes) ==> bytes.len() <= effective_limit(max_size) && bytes.len()
            <= content.len() && bytes == content.take(bytes.len() as int)),
        ReadState::begun(file_len, max_size) matches Ok(start) ==> (start.after(chunks).outcome(
            extra,
        ) matches Ok(bytes) ==> max_size == 0 || bytes.len() <= max_size),
{
    if let Ok(start) = ReadState::begun(file_len, max_size) {
        assert(start.data =~= content.take(0));
        law_reads_collect_the_content(start, content, chunks);
    }
}

/// The limit is the maximum that was asked for, and nothing else: a file whose metadata give a
/// greater length is refused, with both numbers told, and every other one is begun with just that
/// limit. Zero asks for no limit but what a `usize` can count.
pub proof fn law_limit_is_what_was_asked_for(file_len: u64, max_size: usize)
    ensures
        file_len > usize::MAX ==> ReadState::begun(file_len, max_size) == Err::<
            ReadState,
            ReadError,
        >(ReadError::Length),
        max_size < file_len <= usize::MAX && max_size != 0 ==> ReadState::begun(file_len, max_size)
            == Err::<ReadState, ReadError>(
            ReadError::TooLarge { file_len: file_len as usize, max_size },
        ),
        file_len <= usize::MAX && (max_size == 0 || file_len <= max_size) ==> {
            &&& ReadState::begun(file_len, max_size) matches Ok(start)
            &&& max_size != 0 ==> start.limit == max_size
            &&& max_size == 0 ==> start.limit == usize::MAX
            &&& file_len != 0 ==> start.goal == file_len
            &&& file_len == 0 ==> start.goal == start.limit
            &&& start.data.len() == 0
            &&& !start.ended
        },
{
}

/// A higher limit never refuses what a lower one allows, and begins the same read of a file whose
/// length is known.
pub proof fn law_higher_limit_allows_more(file_len: u64, lower: usize, higher: usize)
    requires
        0 < lower <= higher || higher == 0,
    ensures
        ReadState::begun(file_len, lower) matches Ok(a) ==> {
            &&& ReadState::begun(file_len, higher) matches Ok(b)
            &&& a.limit <= b.limit
            &&& file_len != 0 ==> a.goal == b.goal
        },
{
}

/// Bytes are returned, or more data are told, and nothing between: a read whose goal is its limit
/// fails if the file goes on past it, and what was collected is returned as it is otherwise.
pub proof fn law_outcome_tells_the_data_or_the_limit(state: ReadState, extra: nat)
    requires
        state.wf(),
        !(state.step() is Read),
    ensures
        state.ended ==> state.outcome(extra) == Ok::<Seq<u8>, ReadError>(state.data),
        extra == 0 ==> state.outcome(extra) == Ok::<Seq<u8>, ReadError>(state.data),
        state.goal < state.limit ==> state.outcome(extra) == Ok::<Seq<u8>, ReadError>(state.data),
        !state.ended && extra > 0 && state.goal == state.limit ==> state.outcome(extra) == Err::<
            Seq<u8>,
            ReadError,
        >(
            ReadError::MoreData {
                read_len: state.data.len() as usize,
                max_size: state.limit as usize,
            },
        ),
{
}

/// Reads ask for as much as is missing, at most a buffer's worth at a time, and are followed by a
/// probe when nothing is missing, and by nothing when the file has ended.
pub proof fn law_steps_follow_what_is_missing(state: ReadState)
    requires
        state.wf(),
    ensures
        match state.step() {
            ReadStep::Read(n) => {
                &&& !state.ended
                &&& 0 < n <= 65536
                &&& state.data.len() + n <= state.goal
                &&& n < 65536 ==> state.data.len() + n == state.goal
            },
            ReadStep::Probe => !state.ended && state.data.len() == state.goal,
            ReadStep::Finish => state.ended,
        },
{
}

/// Taking over bytes adds them at the end, and touches nothing else; taking over two pieces is
/// taking over both at once.
pub proof fn law_absorbed_bytes_are_added_at_the_end(
    state: ReadState,
    first: Seq<u8>,
    second: Seq<u8>,
)
    ensures
        state.absorbed(first).data.len() == state.data.len() + first.len(),
        forall|i: int|
            0 <= i < state.data.len() ==> #[trigger] state.absorbed(first).data[i]
                == state.data[i],
        forall|i: int|
            0 <= i < first.len() ==> state.absorbed(first).data[state.data.len() + i]
                == #[trigger] first[i],
        state.absorbed(first).limit == state.limit,
        state.absorbed(first).goal == state.goal,
        state.absorbed(first).ended <==> first.len() == 0,
        state.absorbed(first).absorbed(second).data == state.absorbed(first + second).data,
{
    assert(state.absorbed(first).absorbed(second).data =~= state.absorbed(first + second).data);
}

} // verus!
