//! A bounded byte pipe between a thread that blocks on a device and one that polls, and the wake-ups
//! that go with it.

use std::collections::VecDeque;
use vstd::prelude::*;

verus! {

/// Contents of the pipe. Whoever shares it takes a lock around each call, and wakes the threads
/// that wait for the other end where a call says so.
#[derive(Debug)]
pub struct BlockingPipe {
    pub buffer: VecDeque<u8>,
    pub closed: bool,
    pub capacity: usize,
}

/// Outcome of an attempt to push bytes.
#[derive(Clone, Copy, Debug, PartialEq, Eq, Structural)]
pub enum PushStep {
    /// The pipe is full: wait until it can be written to.
    Wait,
    /// The pipe is closed.
    Closed,
    /// The bytes up to `written` are in the pipe; readers can go on.
    Wrote { written: usize },
}

/// Outcome of an attempt to take all bytes.
#[derive(Clone, Copy, Debug, PartialEq, Eq, Structural)]
pub enum PopStep {
    /// The pipe is empty: wait until it can be read from.
    Wait,
    /// The pipe is empty and closed.
    Closed,
    /// All bytes have been taken; writers can go on.
    Took,
}

/// The smaller of two lengths.
pub open spec fn shorter(a: int, b: int) -> int {
    if a < b {
        a
    } else {
        b
    }
}

impl BlockingPipe {
    /// The bytes in the pipe are never more than its capacity.
    pub open spec fn well_formed(self) -> bool {
        self.buffer@.len() <= self.capacity
    }

    pub fn new(capacity: usize) -> (pipe: Self)
        ensures
            pipe.well_formed(),
            pipe.buffer@ == Seq::<u8>::empty(),
            !pipe.closed,
            pipe.capacity == capacity,
    {
        BlockingPipe { buffer: VecDeque::with_capacity(capacity), closed: false, capacity }
    }

    /// Close the pipe; both ends can go on.
    pub fn close(&mut self)
        ensures
            final(self).closed,
            final(self).buffer == old(self).buffer,
            final(self).capacity == old(self).capacity,
    {
        self.closed = true;
    }

    pub fn is_empty(&self) -> (empty: bool)
        ensures
            empty == (self.buffer@.len() == 0),
    {
        self.buffer.len() == 0
    }

    pub fn is_full(&self) -> (full: bool)
        ensures
            full == (self.buffer@.len() >= self.capacity),
    {
        self.buffer.len() >= self.capacity
    }

    /// Append bytes.
    fn extend(&mut self, data: &[u8], start: usize, end: usize)
        requires
            start <= end <= data@.len(),
        ensures
            final(self).buffer@ == old(self).buffer@ + data@.subrange(start as int, end as int),
            final(self).closed == old(self).closed,
            final(self).capacity == old(self).capacity,
    {
        let mut i: usize = start;
        assert(self.buffer@ =~= old(self).buffer@ + data@.subrange(start as int, i as int));
        while i < end
            invariant
                start <= i <= end <= data@.len(),
                self.buffer@ == old(self).buffer@ + data@.subrange(start as int, i as int),
                self.closed == old(self).closed,
                self.capacity == old(self).capacity,
            decreases end - i,
        {
            self.buffer.push_back(data[i]);
            i += 1;
            assert(self.buffer@ =~= old(self).buffer@ + data@.subrange(start as int, i as int));
        }
    }

    /// Push as many of the bytes after the first `written` ones as there is room for.
    pub fn push_blocking(&mut self, data: &[u8], written: usize) -> (step: PushStep)
        requires
            old(self).well_formed(),
            written < data@.len(),
        ensures
            final(self).well_formed(),
            final(self).closed == old(self).closed,
            final(self).capacity == old(self).capacity,
            if old(self).closed {
                &&& step == PushStep::Closed
                &&& final(self).buffer@ == old(self).buffer@
            } else if old(self).buffer@.len() == old(self).capacity {
                &&& step == PushStep::Wait
                &&& final(self).buffer@ == old(self).buffer@
            } else {
                let end = push_end(
                    old(self).capacity as int,
                    old(self).buffer@.len() as int,
                    written as int,
                    data@.len() as int,
                );
                &&& step == PushStep::Wrote { written: end as usize }
                &&& written < end <= data@.len()
                &&& final(self).buffer@ == old(self).buffer@ + data@.subrange(written as int, end)
                &&& moved(
                    old(self).buffer@,
                    data@.subrange(written as int, end),
                    Seq::empty(),
                    final(self).buffer@,
                )
            },
    {
        if self.closed {
            return PushStep::Closed;
        }
        if self.buffer.len() >= self.capacity {
            return PushStep::Wait;
        }
        let available: usize = self.capacity - self.buffer.len();
        let rest: usize = data.len() - written;
        let end: usize = if available < rest { written + available } else { data.len() };
        self.extend(data, written, end);
        assert(Seq::<u8>::empty() + self.buffer@ =~= self.buffer@);
        PushStep::Wrote { written: end }
    }

    /// Move everything in the pipe to the end of `out`.
    pub fn pop_blocking(&mut self, out: &mut Vec<u8>) -> (step: PopStep)
        requires
            old(self).well_formed(),
        ensures
            final(self).well_formed(),
            final(self).closed == old(self).closed,
            final(self).capacity == old(self).capacity,
            final(self).buffer@ == Seq::<u8>::empty(),
            final(out)@ == old(out)@ + old(self).buffer@,
            moved(old(self).buffer@, Seq::empty(), old(self).buffer@, final(self).buffer@),
            step == if old(self).buffer@.len() > 0 {
                PopStep::Took
            } else if old(self).closed {
                PopStep::Closed
            } else {
                PopStep::Wait
            },
    {
        if self.buffer.len() == 0 {
            assert(out@ =~= old(out)@ + old(self).buffer@);
            assert(self.buffer@ =~= Seq::<u8>::empty());
            assert(self.buffer@ + Seq::<u8>::empty() =~= self.buffer@ + self.buffer@);
            return if self.closed { PopStep::Closed } else { PopStep::Wait };
        }
        let ghost all = self.buffer@;
        let ghost before = out@;
        let mut taken: usize = 0;
        let count: usize = self.buffer.len();
        while taken < count
            invariant
                taken <= count,
                count == all.len(),
                self.buffer@ == all.skip(taken as int),
                out@ == before + all.take(taken as int),
                self.closed == old(self).closed,
                self.capacity == old(self).capacity,
            decreases count - taken,
        {
            match self.buffer.pop_front() {
                Some(byte) => {
                    out.push(byte);
                },
                None => {},
            }
            taken += 1;
            assert(self.buffer@ =~= all.skip(taken as int));
            assert(out@ =~= before + all.take(taken as int));
        }
        assert(all.take(count as int) =~= all);
        assert(self.buffer@ =~= Seq::<u8>::empty());
        assert(all + self.buffer@ =~= all + Seq::<u8>::empty());
        PopStep::Took
    }

    /// Read what is there, up to the length of `buf`. Writers can go on if anything was read.
    pub fn try_read(&mut self, buf: &mut [u8]) -> (len: usize)
        requires
            old(self).well_formed(),
        ensures
            final(self).well_formed(),
            final(self).closed == old(self).closed,
            final(self).capacity == old(self).capacity,
            len == shorter(old(buf)@.len() as int, old(self).buffer@.len() as int),
            final(buf)@ == old(self).buffer@.take(len as int) + old(buf)@.skip(len as int),
            final(self).buffer@ == old(self).buffer@.skip(len as int),
            moved(
                old(self).buffer@,
                Seq::empty(),
                final(buf)@.take(len as int),
                final(self).buffer@,
            ),
    {
        let len: usize = if buf.len() < self.buffer.len() { buf.len() } else { self.buffer.len() };
        let ghost all = self.buffer@;
        let ghost before = buf@;
        let mut i: usize = 0;
        assert(self.buffer@ =~= all.skip(0));
        assert(buf@ =~= all.take(0) + before.skip(0));
        while i < len
            invariant
                i <= len,
                len <= all.len(),
                len <= before.len(),
                self.buffer@ == all.skip(i as int),
                buf@ == all.take(i as int) + before.skip(i as int),
                self.closed == old(self).closed,
                self.capacity == old(self).capacity,
            decreases len - i,
        {
            match self.buffer.pop_front() {
                Some(byte) => {
                    buf[i] = byte;
                },
                None => {},
            }
            i += 1;
            assert(self.buffer@ =~= all.skip(i as int));
            assert(buf@ =~= all.take(i as int) + before.skip(i as int));
        }
        assert(buf@.take(len as int) =~= all.take(len as int));
        assert(all + Seq::<u8>::empty() =~= all.take(len as int) + all.skip(len as int));
        len
    }

    /// Write what fits. Readers can go on if anything was written.
    pub fn try_write(&mut self, buf: &[u8]) -> (len: usize)
        requires
            old(self).well_formed(),
        ensures
            final(self).well_formed(),
            final(self).closed == old(self).closed,
            final(self).capacity == old(self).capacity,
            len == if old(self).closed {
                0
            } else {
                shorter(old(self).capacity - old(self).buffer@.len(), buf@.len() as int)
            },
            final(self).buffer@ == old(self).buffer@ + buf@.take(len as int),
            moved(
                old(self).buffer@,
                buf@.take(len as int),
                Seq::empty(),
                final(self).buffer@,
            ),
    {
        if self.closed {
            assert(self.buffer@ =~= old(self).buffer@ + buf@.take(0));
            assert(Seq::<u8>::empty() + self.buffer@ =~= self.buffer@);
            return 0;
        }
        let available: usize = self.capacity.saturating_sub(self.buffer.len());
        let len: usize = if available < buf.len() { available } else { buf.len() };
        self.extend(buf, 0, len);
        assert(Seq::<u8>::empty() + self.buffer@ =~= self.buffer@);
        len
    }
}

/// The pieces of a stream, one after another.
pub open spec fn joined(pieces: Seq<Seq<u8>>) -> Seq<u8>
    decreases pieces.len(),
{
    if pieces.len() == 0 {
        Seq::empty()
    } else {
        joined(pieces.drop_last()) + pieces.last()
    }
}

/// How many of `len` bytes are written after a step that finds `filled` bytes in the pipe, where
/// `written` were written before it: as many more as there is room for.
pub open spec fn push_end(capacity: int, filled: int, written: int, len: int) -> int {
    shorter(written + (capacity - filled), len)
}

/// How many bytes of a push are written after its first `count` steps, where step `i` finds
/// `filled[i]` bytes in the pipe.
pub open spec fn pushed(capacity: int, filled: Seq<int>, len: int, count: int) -> int
    decreases count,
{
    if count <= 0 {
        0
    } else {
        push_end(capacity, filled[count - 1], pushed(capacity, filled, len, count - 1), len)
    }
}

/// The pieces that the steps of a push write.
pub open spec fn pushed_pieces(capacity: int, filled: Seq<int>, data: Seq<u8>) -> Seq<Seq<u8>> {
    Seq::new(
        filled.len(),
        |i: int|
            data.subrange(
                pushed(capacity, filled, data.len() as int, i),
                pushed(capacity, filled, data.len() as int, i + 1),
            ),
    )
}

proof fn pushed_is_bounded(capacity: int, filled: Seq<int>, len: int, count: int)
    requires
        0 <= count <= filled.len(),
        0 <= len,
        forall|i: int| 0 <= i < filled.len() ==> 0 <= #[trigger] filled[i] < capacity,
    ensures
        shorter(count, len) <= pushed(capacity, filled, len, count) <= len,
        count > 0 ==> pushed(capacity, filled, len, count - 1) <= pushed(
            capacity,
            filled,
            len,
            count,
        ),
    decreases count,
{
    if count > 0 {
        pushed_is_bounded(capacity, filled, len, count - 1);
    }
}

/// A push writes its bytes once each and in order: the pieces of its steps, joined, are the bytes
/// written so far, and after as many steps as there are bytes, at the latest, they are all of them.
pub proof fn pushed_pieces_are_the_data(capacity: int, filled: Seq<int>, data: Seq<u8>)
    requires
        forall|i: int| 0 <= i < filled.len() ==> 0 <= #[trigger] filled[i] < capacity,
    ensures
        joined(pushed_pieces(capacity, filled, data)) == data.take(
            pushed(capacity, filled, data.len() as int, filled.len() as int),
        ),
        pushed(capacity, filled, data.len() as int, filled.len() as int) == data.len() ==> joined(
            pushed_pieces(capacity, filled, data),
        ) == data,
        filled.len() >= data.len() ==> joined(pushed_pieces(capacity, filled, data)) == data,
    decreases filled.len(),
{
    let len = data.len() as int;
    let count = filled.len() as int;
    pushed_is_bounded(capacity, filled, len, count);
    let pieces = pushed_pieces(capacity, filled, data);
    if count > 0 {
        let earlier = filled.drop_last();
        pushed_pieces_are_the_data(capacity, earlier, data);
        assert forall|i: int| 0 <= i <= count - 1 implies #[trigger] pushed(
            capacity,
            earlier,
            len,
            i,
        ) == pushed(capacity, filled, len, i) by {
            pushed_of_prefix(capacity, filled, len, i);
        }
        assert(pieces.drop_last() =~= pushed_pieces(capacity, earlier, data));
        pushed_is_bounded(capacity, filled, len, count - 1);
        assert(joined(pieces) =~= data.take(pushed(capacity, filled, len, count)));
    } else {
        assert(joined(pieces) =~= data.take(0));
    }
    assert(data.take(len) =~= data);
}

proof fn pushed_of_prefix(capacity: int, filled: Seq<int>, len: int, count: int)
    requires
        0 <= count < filled.len(),
    ensures
        pushed(capacity, filled.drop_last(), len, count) == pushed(capacity, filled, len, count),
    decreases count,
{
    if count > 0 {
        pushed_of_prefix(capacity, filled, len, count - 1);
    }
}

/// Whether a pipe that held `before` holds `after` once the bytes `put` have been added behind
/// those in it and the bytes `got` have been taken from their front.
pub open spec fn moved(before: Seq<u8>, put: Seq<u8>, got: Seq<u8>, after: Seq<u8>) -> bool {
    before + put == got + after
}

/// The pipe loses no byte, adds none and keeps their order: after any number of calls on a pipe
/// that was empty at first, all that was taken out, followed by what is still inside, is all that
/// was put in.
pub proof fn pipe_keeps_the_stream(
    contents: Seq<Seq<u8>>,
    put: Seq<Seq<u8>>,
    got: Seq<Seq<u8>>,
)
    requires
        contents.len() == put.len() + 1,
        got.len() == put.len(),
        contents[0] == Seq::<u8>::empty(),
        forall|i: int|
            0 <= i < put.len() ==> moved(#[trigger] contents[i], put[i], got[i], contents[i + 1]),
    ensures
        joined(got) + contents.last() == joined(put),
    decreases put.len(),
{
    if put.len() > 0 {
        let last = put.len() - 1;
        let earlier = contents.drop_last();
        assert forall|i: int| 0 <= i < last implies moved(
            #[trigger] earlier[i],
            put.drop_last()[i],
            got.drop_last()[i],
            earlier[i + 1],
        ) by {
            assert(earlier[i] == contents[i]);
        }
        pipe_keeps_the_stream(earlier, put.drop_last(), got.drop_last());
        assert(moved(contents[last], put[last], got[last], contents[last + 1]));
        let taken = joined(got.drop_last());
        assert((taken + got[last]) + contents[last + 1] =~= taken + (got[last] + contents[last
            + 1]));
        assert(taken + (contents[last] + put[last]) =~= (taken + contents[last]) + put[last]);
    } else {
        assert(joined(got) + contents.last() =~= joined(put));
    }
}

/// Which end of a pipe a registration serves.
#[derive(Clone, Copy, Debug, PartialEq, Eq, Structural)]
pub enum PipeEnd {
    Reader,
    Writer,
}

/// How often a poller reports an event.
#[derive(Clone, Copy, Debug, PartialEq, Eq, Structural)]
pub enum PollMode {
    Oneshot,
    Level,
    Edge,
    EdgeOneshot,
}

/// An event that somebody waits for.
#[derive(Clone, Copy, Debug, PartialEq, Eq, Structural)]
pub struct Interest {
    pub key: usize,
    pub readable: bool,
    pub writable: bool,
    pub mode: PollMode,
}

/// The interest in one end of a pipe.
#[derive(Clone, Copy, Debug, PartialEq, Eq, Structural)]
pub struct Registration {
    pub interest: Option<Interest>,
    pub end: PipeEnd,
}

impl Interest {
    /// Whether the interest is in the given end of a pipe.
    pub open spec fn concerns(self, end: PipeEnd) -> bool {
        match end {
            PipeEnd::Reader => self.readable,
            PipeEnd::Writer => self.writable,
        }
    }

    /// Whether the event is reported only once.
    pub open spec fn once(self) -> bool {
        self.mode == PollMode::Oneshot || self.mode == PollMode::EdgeOneshot
    }

    /// Whether an interest in an end of a pipe is reported as soon as it is taken.
    pub open spec fn reported_at_once(self, end: PipeEnd, ready: bool, first: bool) -> bool {
        match end {
            PipeEnd::Reader => (ready && self.readable) || first,
            PipeEnd::Writer => ready && self.writable,
        }
    }
}

impl Registration {
    /// The event that is reported when the pipe moves.
    pub open spec fn reported(self) -> Option<Interest> {
        match self.interest {
            Some(interest) if interest.concerns(self.end) => Some(interest),
            _ => None,
        }
    }

    /// The registration after the pipe has moved.
    pub open spec fn woken(self) -> Registration {
        Registration {
            interest: match self.interest {
                Some(interest) if interest.concerns(self.end) && interest.once() => None,
                other => other,
            },
            end: self.end,
        }
    }

    pub fn new(end: PipeEnd) -> (registration: Self)
        ensures
            registration == (Registration { interest: None, end }),
    {
        Registration { interest: None, end }
    }

    /// Take an interest, and say whether to report it at once: the reading end does so the first
    /// time and whenever it has data, the writing end whenever it has room.
    pub fn register(&mut self, interest: Interest, ready: bool, first: bool) -> (post: bool)
        ensures
            *final(self) == (Registration { interest: Some(interest), end: old(self).end }),
            post == interest.reported_at_once(old(self).end, ready, first),
    {
        self.interest = Some(interest);
        match self.end {
            PipeEnd::Reader => (ready && interest.readable) || first,
            PipeEnd::Writer => ready && interest.writable,
        }
    }

    /// Drop the interest.
    pub fn deregister(&mut self)
        ensures
            *final(self) == (Registration { interest: None, end: old(self).end }),
    {
        self.interest = None;
    }

    /// The pipe has moved: the event to report, if any. An interest in a single event is used up
    /// by it.
    pub fn wake(&mut self) -> (event: Option<Interest>)
        ensures
            event == old(self).reported(),
            *final(self) == old(self).woken(),
    {
        if let Some(interest) = self.interest {
            let send = match self.end {
                PipeEnd::Reader => interest.readable,
                PipeEnd::Writer => interest.writable,
            };
            if send {
                match interest.mode {
                    PollMode::Oneshot | PollMode::EdgeOneshot => {
                        self.interest = None;
                    },
                    _ => {},
                }
                return Some(interest);
            }
        }
        None
    }
}

/// What came of a blocking read or write on the device.
#[derive(Clone, Copy, Debug, PartialEq, Eq, Structural)]
pub enum DeviceOutcome {
    /// So many bytes were moved.
    Moved { count: usize },
    /// The call was interrupted.
    Interrupted,
    /// The call failed.
    Failed,
}

/// What the thread at the device does next.
#[derive(Clone, Copy, Debug, PartialEq, Eq, Structural)]
pub enum DeviceStep {
    /// Push the bytes that were read, then report them and read on, unless the pipe is closed.
    Push { count: usize },
    /// Report that there is room again, and take the next bytes.
    Report,
    /// Try again.
    Retry,
    /// Close the pipe, report it, and end; `log` says whether an error is logged.
    Stop { log: bool },
}

/// What follows a read from the device.
pub open spec fn read_step(outcome: DeviceOutcome) -> DeviceStep {
    match outcome {
        DeviceOutcome::Moved { count } => if count == 0 {
            DeviceStep::Stop { log: false }
        } else {
            DeviceStep::Push { count }
        },
        DeviceOutcome::Interrupted => DeviceStep::Retry,
        DeviceOutcome::Failed => DeviceStep::Stop { log: true },
    }
}

/// What follows a write to the device.
pub open spec fn write_step(outcome: DeviceOutcome) -> DeviceStep {
    match outcome {
        DeviceOutcome::Moved { .. } => DeviceStep::Report,
        DeviceOutcome::Interrupted => DeviceStep::Retry,
        DeviceOutcome::Failed => DeviceStep::Stop { log: true },
    }
}

/// A read from the device has returned.
pub fn after_device_read(outcome: DeviceOutcome) -> (step: DeviceStep)
    ensures
        step == read_step(outcome),
{
    match outcome {
        DeviceOutcome::Moved { count } => if count == 0 {
            DeviceStep::Stop { log: false }
        } else {
            DeviceStep::Push { count }
        },
        DeviceOutcome::Interrupted => DeviceStep::Retry,
        DeviceOutcome::Failed => DeviceStep::Stop { log: true },
    }
}

/// A write to the device has returned.
pub fn after_device_write(outcome: DeviceOutcome) -> (step: DeviceStep)
    ensures
        step == write_step(outcome),
{
    match outcome {
        DeviceOutcome::Moved { .. } => DeviceStep::Report,
        DeviceOutcome::Interrupted => DeviceStep::Retry,
        DeviceOutcome::Failed => DeviceStep::Stop { log: true },
    }
}

/// Who is interested in an end of a pipe hears of every move where the interest lasts, and of the
/// first one alone where it is in a single event. Nobody hears of what happens at the other end.
pub proof fn interests_last_as_asked(interest: Interest, end: PipeEnd)
    ensures
        ({
            let registration = Registration { interest: Some(interest), end };
            let heard = registration.reported();
            let then = registration.woken();
            let concerned = if end is Reader {
                interest.readable
            } else {
                interest.writable
            };
            &&& heard == if concerned {
                Some(interest)
            } else {
                None
            }
            &&& then.end == end
            &&& then.reported() is Some <==> concerned && (interest.mode is Level
                || interest.mode is Edge)
            &&& then.reported() is Some ==> then.reported() == heard && then.woken() == then
            &&& !concerned ==> then == registration
        }),
        (Registration { interest: None, end }).reported() is None,
        (Registration { interest: None, end }).woken().interest is None,
{
}

/// No news is missed: data that is there when the interest is taken is reported at once, and so is
/// room. The reading end also reports the first interest, the writing end nothing without room.
pub proof fn registered_ends_hear_of_what_is_there(interest: Interest, ready: bool, first: bool)
    ensures
        ready && interest.readable ==> interest.reported_at_once(PipeEnd::Reader, ready, first),
        first ==> interest.reported_at_once(PipeEnd::Reader, ready, first),
        !first && !(ready && interest.readable) ==> !interest.reported_at_once(
            PipeEnd::Reader,
            ready,
            first,
        ),
        interest.reported_at_once(PipeEnd::Writer, ready, first) <==> ready && interest.writable,
{
}

/// The threads at the device lose nothing and end when they must: all that was read is pushed, an
/// interrupted call is tried again, and a thread ends at the end of the data or because of an error,
/// which alone is logged.
pub proof fn device_threads_end_when_they_must(outcome: DeviceOutcome)
    ensures
        outcome matches DeviceOutcome::Moved { count } ==> count > 0 ==> read_step(outcome) == (
        DeviceStep::Push { count }),
        read_step(outcome) is Stop <==> outcome is Failed || outcome == (DeviceOutcome::Moved {
            count: 0,
        }),
        write_step(outcome) is Stop <==> outcome is Failed,
        write_step(outcome) is Report <==> outcome is Moved,
        read_step(outcome) is Retry <==> outcome is Interrupted,
        write_step(outcome) is Retry <==> outcome is Interrupted,
        read_step(outcome) == (DeviceStep::Stop { log: true }) <==> outcome is Failed,
        write_step(outcome) == (DeviceStep::Stop { log: true }) <==> outcome is Failed,
{
}

} // verus!
