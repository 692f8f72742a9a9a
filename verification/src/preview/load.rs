//! Loading a preview off the UI thread.
//!
//! A slow archive or image codec must never run on the preview host's UI
//! thread. A loader thread does that work and leaves its result in a
//! [`LoadSlot`]; the handler cancels the slot when it loses interest and
//! never waits. The functions named `after_..` take the outcome of one
//! step of the work and say what the next one is.

use vstd::prelude::*;

use std::sync::atomic::AtomicBool;
use std::sync::atomic::Ordering;

use crate::hresult::E_FAIL;
use crate::preview::token::draw_token;
use crate::preview::video::{detect_mov_codec, VideoCodec};
use crate::text::join;

verus! {

/// Window message that reports the end of a loading job.
pub const WM_ARCTHUMB_LOAD_COMPLETE: u32 = 0x8000 + 0x349;

/// What a loading job has produced.
pub enum LoadOutcome<I, V> {
    Ready(LoadedPreview<I, V>),
    Failed,
}

/// A decoded cover and, for a Live Photo, its clip.
pub struct LoadedPreview<I, V> {
    pub image: I,
    pub video_bytes: Option<V>,
    pub video_codec: VideoCodec,
}

/// What a loader and the UI thread share: nothing but the job's own
/// state, so that a late loader cannot reach a handler that is gone.
pub struct LoadSlot<O> {
    pub token: u32,
    pub cancelled: bool,
    pub outcome: Option<O>,
}

impl<O> LoadSlot<O> {
    /// A job that is running and wanted.
    pub fn new(token: u32) -> (slot: LoadSlot<O>)
        ensures
            slot == (LoadSlot::<O> { token, cancelled: false, outcome: None }),
    {
        LoadSlot { token, cancelled: false, outcome: None }
    }

    /// Loses interest in the job, for good.
    pub fn cancel(&mut self)
        ensures
            *final(self) == (LoadSlot { cancelled: true, ..*old(self) }),
    {
        self.cancelled = true;
    }

    pub fn token(&self) -> (token: u32)
        ensures
            token == self.token,
    {
        self.token
    }

    pub fn is_cancelled(&self) -> (cancelled: bool)
        ensures
            cancelled == self.cancelled,
    {
        self.cancelled
    }

    /// Leaves the outcome in the slot. Returns the token that is posted
    /// to the window; a cancelled job leaves and posts nothing.
    pub fn publish(&mut self, outcome: O) -> (posted: Option<u32>)
        ensures
            if old(self).cancelled {
                posted is None && *final(self) == *old(self)
            } else {
                posted == Some(old(self).token) && *final(self) == (LoadSlot {
                    outcome: Some(outcome),
                    ..*old(self)
                })
            },
    {
        if self.cancelled {
            return None;
        }
        self.outcome = Some(outcome);
        Some(self.token)
    }

    /// Takes the outcome, if there is one that has not been taken yet.
    pub fn take_outcome(&mut self) -> (outcome: Option<O>)
        ensures
            outcome == old(self).outcome,
            *final(self) == (LoadSlot { outcome: None, ..*old(self) }),
    {
        self.outcome.take()
    }
}

/// The outcome of a loader that has returned a preview or an error, or
/// has panicked (`None`).
pub fn outcome_of<I, V>(result: Option<Result<LoadedPreview<I, V>, String>>) -> (
    outcome: LoadOutcome<I, V>)
    ensures
        outcome == (match result {
            Some(Ok(loaded)) => LoadOutcome::Ready(loaded),
            _ => LoadOutcome::Failed,
        }),
{
    match result {
        Some(Ok(loaded)) => LoadOutcome::Ready(loaded),
        _ => LoadOutcome::Failed,
    }
}

/// Most loader threads at a time.
pub const MAX_ACTIVE_LOADERS: u32 = 4;

/// Counts the running loader threads.
pub struct LoaderPool {
    pub active: u32,
}

impl LoaderPool {
    /// There are never more loaders than allowed.
    pub open spec fn wf(self) -> bool {
        self.active <= MAX_ACTIVE_LOADERS
    }

    pub fn new() -> (pool: LoaderPool)
        ensures
            pool.wf(),
            pool.active == 0,
    {
        LoaderPool { active: 0 }
    }

    /// Admits one more loader, if there is room for it.
    pub fn acquire(&mut self) -> (permit: Result<(), i32>)
        requires
            old(self).wf(),
        ensures
            final(self).wf(),
            match permit {
                Ok(_) => old(self).active < MAX_ACTIVE_LOADERS && final(self).active == old(
                    self,
                ).active + 1,
                Err(code) => old(self).active == MAX_ACTIVE_LOADERS && final(self).active == old(
                    self,
                ).active && code == E_FAIL,
            },
    {
        if self.active < MAX_ACTIVE_LOADERS {
            self.active += 1;
            Ok(())
        } else {
            Err(E_FAIL)
        }
    }

    /// Takes note that an admitted loader has ended.
    pub fn release(&mut self)
        requires
            old(self).wf(),
            old(self).active > 0,
        ensures
            final(self).wf(),
            final(self).active == old(self).active - 1,
    {
        self.active -= 1;
    }
}

/// Draws a token for a loading job. Zero is never drawn: it stands for
/// "no job".
pub fn next_load_token(counter: &mut u32) -> (token: u32)
    ensures
        token == crate::preview::token::token_at(*old(counter)),
        token != 0,
        *final(counter) == crate::preview::token::counter_after(token),
{
    draw_token(counter)
}

/// Starts a job once a permit was asked for, the stream was prepared for
/// the other thread, and the thread was spawned; each step is `None`
/// where the one before it failed. The status is that of the first
/// failure, and a permit that was granted is given back on failure.
pub fn after_start(
    pool: &mut LoaderPool,
    permit: Result<(), i32>,
    marshalled: Option<Result<(), i32>>,
    spawned: Option<bool>,
) -> (started: Result<(), i32>)
    requires
        old(pool).wf(),
        permit is Ok ==> old(pool).active > 0,
    ensures
        final(pool).wf(),
        started == (match (permit, marshalled, spawned) {
            (Err(code), _, _) => Err::<(), i32>(code),
            (Ok(_), Some(Err(code)), _) => Err(code),
            (Ok(_), Some(Ok(_)), Some(true)) => Ok(()),
            _ => Err(E_FAIL),
        }),
        final(pool).active == if permit is Ok && started is Err {
            old(pool).active - 1
        } else {
            old(pool).active as int
        },
{
    match permit {
        Err(code) => Err(code),
        Ok(_) => match (marshalled, spawned) {
            (Some(Err(code)), _) => {
                pool.release();
                Err(code)
            },
            (Some(Ok(_)), Some(true)) => Ok(()),
            _ => {
                pool.release();
                Err(E_FAIL)
            },
        },
    }
}

/// The still image and the clip of a Live Photo.
pub struct LivpParts {
    pub image_name: String,
    pub image_bytes: Vec<u8>,
    pub video_bytes: Vec<u8>,
}

/// A cover that is ready to be decoded.
pub struct Cover {
    pub name: String,
    pub bytes: Vec<u8>,
    pub video_bytes: Option<Vec<u8>>,
    pub video_codec: VideoCodec,
}

/// The next step of a loading job.
pub enum LoadStep<I> {
    /// Take the stream over from the UI thread.
    Unmarshal,
    /// Look for the parts of a Live Photo.
    Inspect,
    /// Read the first image of an archive.
    ReadArchive,
    /// See whether anybody still wants the cover.
    CheckCancelled(Cover),
    /// Decode the cover.
    Decode(Cover),
    /// The job has ended.
    Finish(Result<LoadedPreview<I, Vec<u8>>, String>),
}

/// A job that ended with an error text.
pub open spec fn ends_with<I>(step: LoadStep<I>, text: Seq<char>) -> bool {
    step matches LoadStep::Finish(Err(message)) && message@ == text
}

/// The loader has entered its apartment, or failed to.
pub fn after_enter<I>(entered: Result<(), String>) -> (step: LoadStep<I>)
    ensures
        match entered {
            Ok(_) => step is Unmarshal,
            Err(e) => ends_with(step, "CoInitializeEx failed: "@ + e@),
        },
{
    match entered {
        Ok(_) => LoadStep::Unmarshal,
        Err(e) => LoadStep::Finish(Err(join("CoInitializeEx failed: ", e.as_str()))),
    }
}

/// The stream was taken over, or was not.
pub fn after_unmarshal<I>(unmarshalled: Result<(), String>) -> (step: LoadStep<I>)
    ensures
        match unmarshalled {
            Ok(_) => step is Inspect,
            Err(e) => ends_with(step, "stream unmarshal failed: "@ + e@),
        },
{
    match unmarshalled {
        Ok(_) => LoadStep::Inspect,
        Err(e) => LoadStep::Finish(Err(join("stream unmarshal failed: ", e.as_str()))),
    }
}

/// The file is a Live Photo, or another archive, or unreadable.
pub fn after_inspect<I>(inspected: Result<Option<LivpParts>, String>) -> (step: LoadStep<I>)
    ensures
        match inspected {
            Ok(Some(parts)) => step == LoadStep::<I>::CheckCancelled(
                Cover {
                    name: parts.image_name,
                    bytes: parts.image_bytes,
                    video_bytes: Some(parts.video_bytes),
                    video_codec: crate::preview::video::codec_of(parts.video_bytes@),
                },
            ),
            Ok(None) => step is ReadArchive,
            Err(e) => ends_with(step, "LIVP inspection failed: "@ + e@),
        },
{
    match inspected {
        Ok(Some(parts)) => {
            let video_codec = detect_mov_codec(parts.video_bytes.as_slice());
            LoadStep::CheckCancelled(
                Cover {
                    name: parts.image_name,
                    bytes: parts.image_bytes,
                    video_bytes: Some(parts.video_bytes),
                    video_codec,
                },
            )
        },
        Ok(None) => LoadStep::ReadArchive,
        Err(e) => LoadStep::Finish(Err(join("LIVP inspection failed: ", e.as_str()))),
    }
}

/// The archive's first image was read, or could not be.
pub fn after_read<I>(read: Result<(String, Vec<u8>), String>) -> (step: LoadStep<I>)
    ensures
        match read {
            Ok((name, bytes)) => step == LoadStep::<I>::CheckCancelled(
                Cover { name, bytes, video_bytes: None, video_codec: VideoCodec::Unknown },
            ),
            Err(e) => ends_with(step, "archive read failed: "@ + e@),
        },
{
    match read {
        Ok((name, bytes)) => LoadStep::CheckCancelled(
            Cover { name, bytes, video_bytes: None, video_codec: VideoCodec::Unknown },
        ),
        Err(e) => LoadStep::Finish(Err(join("archive read failed: ", e.as_str()))),
    }
}

/// Somebody still wants the cover, or nobody does.
pub fn after_cancel_check<I>(cover: Cover, cancelled: bool) -> (step: LoadStep<I>)
    ensures
        if cancelled {
            ends_with(step, "cancelled before image decode"@)
        } else {
            step == LoadStep::<I>::Decode(cover)
        },
{
    if cancelled {
        LoadStep::Finish(Err("cancelled before image decode".to_owned()))
    } else {
        LoadStep::Decode(cover)
    }
}

/// The cover was decoded, or could not be.
pub fn after_decode<I>(cover: Cover, decoded: Result<I, String>) -> (step: LoadStep<I>)
    ensures
        match decoded {
            Ok(image) => step == LoadStep::<I>::Finish(
                Ok(
                    LoadedPreview {
                        image,
                        video_bytes: cover.video_bytes,
                        video_codec: cover.video_codec,
                    },
                ),
            ),
            Err(e) => ends_with(step, "decode failed for "@ + cover.name@ + ": "@ + e@),
        },
{
    match decoded {
        Ok(image) => LoadStep::Finish(
            Ok(
                LoadedPreview {
                    image,
                    video_bytes: cover.video_bytes,
                    video_codec: cover.video_codec,
                },
            ),
        ),
        Err(e) => {
            let mut message = join("decode failed for ", cover.name.as_str());
            message.append(": ");
            message.append(e.as_str());
            LoadStep::Finish(Err(message))
        },
    }
}

/// Why a read or a seek failed.
#[derive(Debug, Clone, Copy, PartialEq, Eq, Structural)]
pub enum ReadErrorKind {
    ConnectionAborted,
    UnexpectedEof,
    InvalidInput,
}

/// A failed read or seek.
#[derive(Debug, Clone, Copy)]
pub struct ReadError {
    pub kind: ReadErrorKind,
    pub message: &'static str,
}

impl ReadError {
    pub fn kind(&self) -> (kind: ReadErrorKind)
        ensures
            kind == self.kind,
    {
        self.kind
    }
}

/// The error of a cancelled load. Its kind is not one that readers
/// retry: cancelling is permanent.
pub open spec fn is_cancellation(error: ReadError) -> bool {
    error.kind == ReadErrorKind::ConnectionAborted && error.message@ == "preview load cancelled"@
}

/// The error of a read that ended before the buffer was full.
pub open spec fn is_short_read(error: ReadError) -> bool {
    error.kind == ReadErrorKind::UnexpectedEof && error.message@ == "failed to fill whole buffer"@
}

/// Fails if the load has been cancelled.
pub fn check_cancelled(cancelled: bool) -> (status: Result<(), ReadError>)
    ensures
        match status {
            Ok(_) => !cancelled,
            Err(error) => cancelled && is_cancellation(error),
        },
        status is Err <==> cancelled,
        status matches Err(error) ==> error.kind is ConnectionAborted && error.message@
            == "preview load cancelled"@,
{
    if cancelled {
        Err(
            ReadError {
                kind: ReadErrorKind::ConnectionAborted,
                message: "preview load cancelled",
            },
        )
    } else {
        Ok(())
    }
}

/// Where to seek to.
#[derive(Debug, Clone, Copy, PartialEq, Eq, Structural)]
pub enum SeekTarget {
    Start(u64),
    End(i64),
    Current(i64),
}

/// Bytes in memory with a reading position, which may lie behind the
/// end.
pub struct MemoryReader {
    pub bytes: Vec<u8>,
    pub position: u64,
}

impl MemoryReader {
    pub fn new(bytes: Vec<u8>) -> (reader: MemoryReader)
        ensures
            reader.bytes == bytes,
            reader.position == 0,
    {
        MemoryReader { bytes, position: 0 }
    }

    /// What has not been read yet.
    pub open spec fn rest(self) -> Seq<u8> {
        if self.position <= self.bytes@.len() {
            self.bytes@.skip(self.position as int)
        } else {
            Seq::empty()
        }
    }

    /// The position that a seek leads to.
    pub open spec fn target(self, to: SeekTarget) -> int {
        match to {
            SeekTarget::Start(offset) => offset as int,
            SeekTarget::End(offset) => self.bytes@.len() + offset,
            SeekTarget::Current(offset) => self.position + offset,
        }
    }

    /// Reads as much as is there and fits into the buffer.
    pub fn read(&mut self, buf: &mut [u8]) -> (count: usize)
        ensures
            final(self).bytes == old(self).bytes,
            count == if old(self).rest().len() < old(buf)@.len() {
                old(self).rest().len()
            } else {
                old(buf)@.len()
            },
            final(self).position == old(self).position + count,
            final(buf)@ == old(self).rest().take(count as int) + old(buf)@.skip(count as int),
    {
        let len: u64 = self.bytes.len() as u64;
        let ghost before = buf@;
        if self.position >= len {
            proof {
                assert(self.rest() =~= Seq::empty());
                assert(buf@ =~= self.rest().take(0) + before.skip(0));
            }
            return 0;
        }
        let from: usize = self.position as usize;
        let left: usize = self.bytes.len() - from;
        let count: usize = if left < buf.len() {
            left
        } else {
            buf.len()
        };
        let ghost rest = self.rest();
        let mut k: usize = 0;
        while k < count
            invariant
                k <= count <= buf@.len(),
                from + count <= self.bytes.len(),
                from == self.position,
                rest == self.bytes@.skip(from as int),
                count <= rest.len(),
                before.len() == buf@.len(),
                buf@ == rest.take(k as int) + before.skip(k as int),
            decreases count - k,
        {
            buf[k] = self.bytes[from + k];
            k += 1;
            proof {
                assert(buf@ =~= rest.take(k as int) + before.skip(k as int));
            }
        }
        self.position = self.position + count as u64;
        count
    }

    /// Moves the position, which must not become negative or too large.
    pub fn seek(&mut self, to: SeekTarget) -> (position: Result<u64, ReadError>)
        ensures
            final(self).bytes == old(self).bytes,
            match position {
                Ok(position) => position == old(self).target(to) && final(self).position
                    == position,
                Err(error) => {
                    &&& !(0 <= old(self).target(to) <= u64::MAX)
                    &&& final(self).position == old(self).position
                    &&& error.kind == ReadErrorKind::InvalidInput
                },
            },
            match to {
                SeekTarget::Start(offset) => position matches Ok(at) && at == offset,
                SeekTarget::End(offset) => {
                    &&& position is Ok <==> 0 <= old(self).bytes@.len() + offset <= u64::MAX
                    &&& position matches Ok(at) ==> at == old(self).bytes@.len() + offset
                },
                SeekTarget::Current(offset) => {
                    &&& position is Ok <==> 0 <= old(self).position + offset <= u64::MAX
                    &&& position matches Ok(at) ==> at == old(self).position + offset
                },
            },
    {
        let (base, offset): (u64, i64) = match to {
            SeekTarget::Start(position) => {
                self.position = position;
                return Ok(position);
            },
            SeekTarget::End(offset) => (self.bytes.len() as u64, offset),
            SeekTarget::Current(offset) => (self.position, offset),
        };
        let target: i128 = base as i128 + offset as i128;
        if target < 0 || target > u64::MAX as i128 {
            return Err(
                ReadError {
                    kind: ReadErrorKind::InvalidInput,
                    message: "invalid seek to a negative or overflowing position",
                },
            );
        }
        self.position = target as u64;
        Ok(target as u64)
    }

    /// Appends everything that is left to `out`.
    pub fn read_to_end(&mut self, out: &mut Vec<u8>) -> (count: usize)
        ensures
            final(self).bytes == old(self).bytes,
            count == old(self).rest().len(),
            final(self).position == old(self).position + count,
            final(out)@ == old(out)@ + old(self).rest(),
    {
        let ghost rest = self.rest();
        let ghost before = out@;
        if self.position >= self.bytes.len() as u64 {
            proof {
                assert(rest =~= Seq::empty());
                assert(out@ =~= before + rest);
            }
            return 0;
        }
        let from: usize = self.position as usize;
        let left: usize = self.bytes.len() - from;
        let mut count: usize = 0;
        while count < left
            invariant
                count <= left,
                from + left == self.bytes.len(),
                rest == self.bytes@.skip(from as int),
                out@ == before + rest.take(count as int),
            decreases left - count,
        {
            out.push(self.bytes[from + count]);
            count += 1;
            proof {
                assert(out@ =~= before + rest.take(count as int));
            }
        }
        self.position = self.position + left as u64;
        proof {
            assert(rest.take(left as int) =~= rest);
        }
        left
    }
}

/// Lets the parsing of an archive notice between two reads that nobody
/// wants the result any more.
pub struct CancellableReader<'a, R> {
    pub inner: R,
    pub cancelled: &'a AtomicBool,
}

impl<'a, R> CancellableReader<'a, R> {
    /// A reader that checks the flag before it reads.
    pub fn new(inner: R, cancelled: &'a AtomicBool) -> (reader: CancellableReader<'a, R>)
        ensures
            reader.inner == inner,
            reader.cancelled == cancelled,
    {
        CancellableReader { inner, cancelled }
    }

    /// Reads the flag and fails if it was set. What the read gives is up
    /// to the threads that share the flag.
    pub fn check(&self) -> (status: Result<(), ReadError>)
        ensures
            exists|flag: bool| #[trigger]
                flag_reads(self.cancelled, flag) && match status {
                    Ok(_) => !flag,
                    Err(error) => flag && is_cancellation(error),
                },
    {
        let flag = self.cancelled.load(Ordering::Acquire);
        assert(flag_reads(self.cancelled, flag));
        check_cancelled(flag)
    }

    /// Hands out what is read from, unless the load has been cancelled.
    pub fn inner_unless(&mut self, cancelled: bool) -> (inner: Result<&mut R, ReadError>)
        ensures
            final(self).cancelled == old(self).cancelled,
            match inner {
                Ok(inner) => {
                    &&& !cancelled
                    &&& *inner == old(self).inner
                    &&& *final(inner) == final(self).inner
                },
                Err(error) => {
                    &&& cancelled
                    &&& is_cancellation(error)
                    &&& final(self).inner == old(self).inner
                },
            },
    {
        match check_cancelled(cancelled) {
            Err(error) => Err(error),
            Ok(_) => Ok(&mut self.inner),
        }
    }

    /// Reads the flag and hands out what is read from, unless the flag
    /// was set. Every read and seek starts here.
    pub fn checked_inner(&mut self) -> (inner: Result<&mut R, ReadError>)
        ensures
            final(self).cancelled == old(self).cancelled,
            exists|flag: bool| #[trigger]
                flag_reads(old(self).cancelled, flag) && match inner {
                    Ok(inner) => {
                        &&& !flag
                        &&& *inner == old(self).inner
                        &&& *final(inner) == final(self).inner
                    },
                    Err(error) => {
                        &&& flag
                        &&& is_cancellation(error)
                        &&& final(self).inner == old(self).inner
                    },
                },
    {
        let flag = self.cancelled.load(Ordering::Acquire);
        assert(flag_reads(self.cancelled, flag));
        self.inner_unless(flag)
    }
}

/// Can a read of the shared flag, with acquire ordering, give `value`?
pub open spec fn flag_reads(flag: &AtomicBool, value: bool) -> bool {
    call_ensures(AtomicBool::load, (flag, Ordering::Acquire), value)
}

impl<'a> CancellableReader<'a, MemoryReader> {
    /// Reads as much as is there and fits into the buffer, unless the
    /// load has been cancelled.
    pub fn read(&mut self, buf: &mut [u8]) -> (count: Result<usize, ReadError>)
        ensures
            final(self).cancelled == old(self).cancelled,
            final(self).inner.bytes == old(self).inner.bytes,
            match count {
                Ok(count) => {
                    let rest = old(self).inner.rest();
                    &&& count == if rest.len() < old(buf)@.len() {
                        rest.len()
                    } else {
                        old(buf)@.len()
                    }
                    &&& final(self).inner.position == old(self).inner.position + count
                    &&& final(buf)@ == rest.take(count as int) + old(buf)@.skip(count as int)
                },
                Err(error) => {
                    &&& is_cancellation(error)
                    &&& final(self).inner.position == old(self).inner.position
                    &&& final(buf)@ == old(buf)@
                },
            },
            exists|flag: bool| #[trigger]
                flag_reads(old(self).cancelled, flag) && match count {
                    Ok(_) => !flag,
                    Err(_) => flag,
                },
    {
        match self.checked_inner() {
            Err(error) => Err(error),
            Ok(inner) => Ok(inner.read(buf)),
        }
    }

    /// Moves the position, unless the load has been cancelled.
    pub fn seek(&mut self, to: SeekTarget) -> (position: Result<u64, ReadError>)
        ensures
            final(self).cancelled == old(self).cancelled,
            final(self).inner.bytes == old(self).inner.bytes,
            match position {
                Ok(position) => position == old(self).inner.target(to)
                    && final(self).inner.position == position,
                Err(error) => {
                    &&& is_cancellation(error) || (error.kind == ReadErrorKind::InvalidInput && !(0
                        <= old(self).inner.target(to) <= u64::MAX))
                    &&& final(self).inner.position == old(self).inner.position
                },
            },
            exists|flag: bool| #[trigger]
                flag_reads(old(self).cancelled, flag) && match position {
                    Ok(_) => !flag,
                    Err(error) => flag == (error.kind == ReadErrorKind::ConnectionAborted),
                },
    {
        match self.checked_inner() {
            Err(error) => Err(error),
            Ok(inner) => inner.seek(to),
        }
    }

    /// What filling a buffer of `wanted` bytes leads to. `first` and `last`
    /// are what the flag gave before the first and before the last read:
    /// reading goes on until the buffer is full or a read gives nothing.
    pub open spec fn filling(
        self,
        after: Self,
        wanted: Seq<u8>,
        got: Seq<u8>,
        filled: Result<(), ReadError>,
        first: bool,
        last: bool,
    ) -> bool {
        let rest = self.inner.rest();
        if first {
            &&& filled matches Err(error) && is_cancellation(error)
            &&& after.inner.position == self.inner.position
            &&& got == wanted
        } else if wanted.len() <= rest.len() {
            &&& filled is Ok
            &&& after.inner.position == self.inner.position + wanted.len()
            &&& got == rest.take(wanted.len() as int)
        } else {
            &&& filled matches Err(error) && if last && rest.len() > 0 {
                is_cancellation(error)
            } else {
                is_short_read(error)
            }
            &&& after.inner.position == self.inner.position + rest.len()
            &&& got == rest + wanted.skip(rest.len() as int)
        }
    }

    /// Fills the whole buffer. Fails if the load has been cancelled, also
    /// between two reads, or if there are not enough bytes left; those
    /// that are left have then been read. An empty buffer is full without
    /// a read.
    pub fn read_exact(&mut self, buf: &mut [u8]) -> (filled: Result<(), ReadError>)
        ensures
            final(self).cancelled == old(self).cancelled,
            final(self).inner.bytes == old(self).inner.bytes,
            old(buf)@.len() == 0 ==> {
                &&& filled is Ok
                &&& final(self).inner.position == old(self).inner.position
                &&& final(buf)@ == old(buf)@
            },
            old(buf)@.len() > 0 ==> exists|first: bool, last: bool| #[trigger]
                flag_reads(old(self).cancelled, first) && #[trigger] flag_reads(
                    old(self).cancelled,
                    last,
                ) && old(self).filling(
                    *final(self),
                    old(buf)@,
                    final(buf)@,
                    filled,
                    first,
                    last,
                ),
    {
        if buf.len() == 0 {
            return Ok(());
        }
        let ghost rest = self.inner.rest();
        let ghost wanted = buf@;
        match self.read(buf) {
            Err(error) => Err(error),
            Ok(count) => {
                if count == buf.len() {
                    proof {
                        assert(buf@ =~= rest.take(wanted.len() as int));
                    }
                    return Ok(());
                }
                proof {
                    assert(rest.take(count as int) =~= rest);
                }
                if count > 0 {
                    match self.check() {
                        Err(error) => return Err(error),
                        Ok(_) => {},
                    }
                }
                Err(
                    ReadError {
                        kind: ReadErrorKind::UnexpectedEof,
                        message: "failed to fill whole buffer",
                    },
                )
            },
        }
    }

    /// What appending everything that is left leads to. `first` and `last`
    /// are what the flag gave before the first and before the last read:
    /// reading goes on until a read gives nothing.
    pub open spec fn draining(
        self,
        after: Self,
        before: Seq<u8>,
        got: Seq<u8>,
        count: Result<usize, ReadError>,
        first: bool,
        last: bool,
    ) -> bool {
        let rest = self.inner.rest();
        if first {
            &&& count matches Err(error) && is_cancellation(error)
            &&& after.inner.position == self.inner.position
            &&& got == before
        } else {
            &&& if last && rest.len() > 0 {
                count matches Err(error) && is_cancellation(error)
            } else {
                count matches Ok(count) && count == rest.len()
            }
            &&& after.inner.position == self.inner.position + rest.len()
            &&& got == before + rest
        }
    }

    /// Appends everything that is left to `out`. Fails if the load has
    /// been cancelled, also between two reads; what was read before that
    /// has then been appended.
    pub fn read_to_end(&mut self, out: &mut Vec<u8>) -> (count: Result<usize, ReadError>)
        ensures
            final(self).cancelled == old(self).cancelled,
            final(self).inner.bytes == old(self).inner.bytes,
            exists|first: bool, last: bool| #[trigger]
                flag_reads(old(self).cancelled, first) && #[trigger] flag_reads(
                    old(self).cancelled,
                    last,
                ) && old(self).draining(*final(self), old(out)@, final(out)@, count, first, last),
    {
        let count: usize = match self.checked_inner() {
            Err(error) => return Err(error),
            Ok(inner) => inner.read_to_end(out),
        };
        if count > 0 {
            match self.check() {
                Err(error) => return Err(error),
                Ok(_) => {},
            }
        }
        Ok(count)
    }
}

/// What is left to read is what stands behind the position; behind the
/// end there is nothing.
pub proof fn rest_stands_behind_the_position(reader: MemoryReader, read: Seq<u8>, left: Seq<u8>)
    ensures
        reader.bytes@ == read + left && reader.position == read.len() ==> reader.rest() == left,
        reader.position >= reader.bytes@.len() ==> reader.rest() == Seq::<u8>::empty(),
{
    if reader.bytes@ == read + left && reader.position == read.len() {
        assert(reader.rest() =~= left);
    }
    if reader.position >= reader.bytes@.len() {
        assert(reader.rest() =~= Seq::<u8>::empty());
    }
}

/// Filling a buffer gives the bytes behind the position, in order, if
/// there are enough of them. Otherwise it fails, with all that is left in
/// the front of the buffer. A load that is cancelled from the start reads
/// nothing.
pub proof fn filling_reads_in_order<'a>(
    before: CancellableReader<'a, MemoryReader>,
    after: CancellableReader<'a, MemoryReader>,
    read: Seq<u8>,
    left: Seq<u8>,
    more: Seq<u8>,
    wanted: Seq<u8>,
    got: Seq<u8>,
    filled: Result<(), ReadError>,
    first: bool,
    last: bool,
)
    requires
        before.filling(after, wanted, got, filled, first, last),
        before.inner.bytes@ == read + left + more,
        before.inner.position == read.len(),
    ensures
        first ==> {
            &&& filled matches Err(error) && error.kind is ConnectionAborted
            &&& after.inner.position == read.len()
            &&& got == wanted
        },
        !first && left.len() == wanted.len() ==> {
            &&& filled is Ok
            &&& after.inner.position == read.len() + left.len()
            &&& got == left
        },
        !first && left.len() < wanted.len() && more.len() == 0 ==> {
            &&& filled is Err
            &&& last && left.len() > 0 ==> filled->Err_0.kind is ConnectionAborted
            &&& !last || left.len() == 0 ==> filled->Err_0.kind is UnexpectedEof
            &&& after.inner.position == read.len() + left.len()
            &&& got == left + wanted.skip(left.len() as int)
        },
{
    let rest = before.inner.rest();
    assert(rest =~= left + more);
    assert(rest.take(left.len() as int) =~= left);
    if more.len() == 0 {
        assert(rest =~= left);
    }
}

/// Reading to the end appends the bytes behind the position, in order
/// and all of them, and counts them; a load that is cancelled from the
/// start appends nothing.
pub proof fn draining_reads_in_order<'a>(
    reader: CancellableReader<'a, MemoryReader>,
    after: CancellableReader<'a, MemoryReader>,
    read: Seq<u8>,
    left: Seq<u8>,
    before: Seq<u8>,
    got: Seq<u8>,
    count: Result<usize, ReadError>,
    first: bool,
    last: bool,
)
    requires
        reader.draining(after, before, got, count, first, last),
        reader.inner.bytes@ == read + left,
        reader.inner.position == read.len(),
    ensures
        first ==> {
            &&& count matches Err(error) && error.kind is ConnectionAborted
            &&& after.inner.position == read.len()
            &&& got == before
        },
        !first ==> {
            &&& got == before + left
            &&& after.inner.position == read.len() + left.len()
            &&& last && left.len() > 0 ==> (count matches Err(error) && error.kind
                is ConnectionAborted)
            &&& !last || left.len() == 0 ==> (count matches Ok(count) && count == left.len())
        },
{
    assert(reader.inner.rest() =~= left);
}

/// A job that ended with a text ended with exactly that text.
pub proof fn error_texts_are_exact<I>(step: LoadStep<I>, text: Seq<char>)
    ensures
        ends_with(step, text) <==> (step matches LoadStep::Finish(Err(message)) && message@
            == text),
{
}

/// The two errors of reading, by kind and text.
pub proof fn reading_errors(error: ReadError)
    ensures
        is_cancellation(error) <==> error.kind is ConnectionAborted && error.message@
            == "preview load cancelled"@,
        is_short_read(error) <==> error.kind is UnexpectedEof && error.message@
            == "failed to fill whole buffer"@,
{
}

/// Where a seek leads, from each of the three places to count from.
pub proof fn seeks_count_from_their_place(reader: MemoryReader, place: u64, offset: i64)
    ensures
        reader.target(SeekTarget::Start(place)) == place,
        reader.target(SeekTarget::End(offset)) == reader.bytes@.len() + offset,
        reader.target(SeekTarget::Current(offset)) == reader.position + offset,
{
}

} // verus!
