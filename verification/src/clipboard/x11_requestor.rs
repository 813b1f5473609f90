//! The requestor's side of X11 selections: collecting the bytes of a selection, in one piece or in
//! increments, as its owner sends them.

use crate::clipboard::x11_owner::{
    answer, chunk_at, chunks_from, request_is_answered, SelectionRequest, X11Atoms,
    INCR_CHUNK_SIZE,
};
use vstd::prelude::*;

verus! {

/// The atom that stands for nothing.
pub const ATOM_NONE: u32 = 0;

/// Reasons why a selection could not be read.
#[derive(Clone, Copy, Debug, PartialEq, Eq, Structural)]
pub enum LoadError {
    Timeout,
    Event,
    UnexpectedType,
}

impl LoadError {
    /// The text of the error.
    pub open spec fn text(self) -> Seq<char> {
        match self {
            LoadError::Timeout => "timeout"@,
            LoadError::Event => "event error"@,
            LoadError::UnexpectedType => "unexpected type"@,
        }
    }

    /// The text of the error.
    pub fn message(&self) -> (message: &'static str)
        ensures
            message@ == self.text(),
    {
        match self {
            LoadError::Timeout => "timeout",
            LoadError::Event => "event error",
            LoadError::UnexpectedType => "unexpected type",
        }
    }
}

/// What to do next while a selection is being read.
#[derive(Clone, Copy, Debug, PartialEq, Eq, Structural)]
pub enum Next {
    /// Wait for the next event.
    Poll,
    /// Sleep for a moment, then wait for the next event.
    Park,
    /// Read the property that the owner has set, from `offset` on.
    ReadSelection { property: u32, offset: u32 },
    /// Delete the property, which asks the owner for the first increment, and wait.
    StartIncrements { property: u32 },
    /// Ask how long the increment is that the owner has set.
    MeasureIncrement { property: u32 },
    /// Read the increment and delete it.
    ReadIncrement { property: u32, length: u32 },
    /// All bytes are there.
    Finish,
    /// Give up.
    Fail(LoadError),
}

/// A selection that is being read.
#[derive(Clone, Debug)]
pub struct Requestor {
    pub selection: u32,
    pub target: u32,
    pub property: u32,
    /// The atom that announces an incremental transfer.
    pub incr: u32,
    /// Bytes read so far.
    pub buffer: Vec<u8>,
    pub is_incr: bool,
}

impl Requestor {
    /// Everything but the bytes and the mode of the transfer.
    pub open spec fn same_request(self, other: Self) -> bool {
        &&& self.selection == other.selection
        &&& self.target == other.target
        &&& self.property == other.property
        &&& self.incr == other.incr
    }

    /// What the owner's answer leads to: `property` holds what was asked for, or stands for nothing.
    pub open spec fn after_notify(self, selection: u32, property: u32) -> Next {
        if selection != self.selection {
            Next::Poll
        } else if property == ATOM_NONE {
            Next::Finish
        } else {
            Next::ReadSelection { property, offset: self.buffer@.len() as u32 }
        }
    }

    /// What reading the property leads to: `after` is the requestor once it has read it.
    pub open spec fn after_reply(self, kind: u32, value: Seq<u8>, after: Self, next: Next) -> bool {
        if kind == self.incr {
            &&& next == Next::StartIncrements { property: self.property }
            &&& after.is_incr
            &&& after.buffer@ == self.buffer@
        } else if kind != self.target {
            &&& next == Next::Fail(LoadError::UnexpectedType)
            &&& after.is_incr == self.is_incr
            &&& after.buffer@ == self.buffer@
        } else {
            &&& next == Next::Finish
            &&& after.is_incr == self.is_incr
            &&& after.buffer@ == self.buffer@ + value
        }
    }

    /// What reading an increment leads to: `after` is the requestor once it has read it.
    pub open spec fn after_increment(self, kind: u32, value: Seq<u8>, after: Self, next: Next) -> bool {
        if kind != self.target {
            &&& next == Next::Poll
            &&& after.buffer@ == self.buffer@
        } else {
            &&& next == if value.len() == 0 {
                Next::Finish
            } else {
                Next::Poll
            }
            &&& after.buffer@ == self.buffer@ + value
        }
    }

    /// What a round of waiting leads to, where there is no event to look at.
    pub open spec fn after_wait(timed_out: bool, failed: bool, has_event: bool) -> Option<Next> {
        if timed_out {
            Some(Next::Fail(LoadError::Timeout))
        } else if failed {
            Some(Next::Fail(LoadError::Event))
        } else if !has_event {
            Some(Next::Park)
        } else {
            None
        }
    }

    /// What a change of a property leads to.
    pub open spec fn after_property(self, new_value: bool) -> Next {
        if self.is_incr && new_value {
            Next::MeasureIncrement { property: self.property }
        } else {
            Next::Poll
        }
    }

    pub fn new(selection: u32, target: u32, property: u32, incr: u32) -> (requestor: Self)
        ensures
            requestor.selection == selection,
            requestor.target == target,
            requestor.property == property,
            requestor.incr == incr,
            requestor.buffer@ == Seq::<u8>::empty(),
            !requestor.is_incr,
    {
        Requestor { selection, target, property, incr, buffer: Vec::new(), is_incr: false }
    }

    /// Begin a round of waiting: time may be up, the connection may have failed, or there may be no
    /// event yet.
    pub fn waited(&self, timed_out: bool, failed: bool, has_event: bool) -> (next: Option<Next>)
        ensures
            next == Requestor::after_wait(timed_out, failed, has_event),
    {
        if timed_out {
            Some(Next::Fail(LoadError::Timeout))
        } else if failed {
            Some(Next::Fail(LoadError::Event))
        } else if !has_event {
            Some(Next::Park)
        } else {
            None
        }
    }

    /// The owner has answered: it has either set `property` or has nothing to give.
    pub fn selection_notify(&self, selection: u32, property: u32) -> (next: Next)
        ensures
            next == self.after_notify(selection, property),
    {
        if selection != self.selection {
            Next::Poll
        } else if property == ATOM_NONE {
            Next::Finish
        } else {
            let length: usize = self.buffer.len();
            Next::ReadSelection { property, offset: length as u32 }
        }
    }

    /// The property that the owner has set has been read. For an incremental transfer it announces
    /// the number of bytes to come.
    pub fn selection_reply(&mut self, kind: u32, value: &Vec<u8>, announced: Option<u32>) -> (next: Next)
        ensures
            final(self).same_request(*old(self)),
            old(self).after_reply(kind, value@, *final(self), next),
    {
        if kind == self.incr {
            if let Some(size) = announced {
                self.buffer.reserve(size as usize);
            }
            self.is_incr = true;
            Next::StartIncrements { property: self.property }
        } else if kind != self.target {
            Next::Fail(LoadError::UnexpectedType)
        } else {
            self.buffer.extend_from_slice(value.as_slice());
            assert(self.buffer@ =~= old(self).buffer@ + value@);
            Next::Finish
        }
    }

    /// A property has been set or deleted; during an incremental transfer a set property holds the
    /// next increment.
    pub fn property_notify(&self, new_value: bool) -> (next: Next)
        ensures
            next == self.after_property(new_value),
    {
        if self.is_incr && new_value {
            Next::MeasureIncrement { property: self.property }
        } else {
            Next::Poll
        }
    }

    /// The length of an increment is known.
    pub fn measured(&self, length: u32) -> (next: Next)
        ensures
            next == (Next::ReadIncrement { property: self.property, length }),
    {
        Next::ReadIncrement { property: self.property, length }
    }

    /// An increment has been read; an empty one ends the transfer.
    pub fn increment_reply(&mut self, kind: u32, value: &Vec<u8>) -> (next: Next)
        ensures
            final(self).same_request(*old(self)),
            final(self).is_incr == old(self).is_incr,
            old(self).after_increment(kind, value@, *final(self), next),
    {
        if kind != self.target {
            return Next::Poll;
        }
        if value.len() == 0 {
            assert(self.buffer@ =~= old(self).buffer@ + value@);
            return Next::Finish;
        }
        self.buffer.extend_from_slice(value.as_slice());
        assert(self.buffer@ =~= old(self).buffer@ + value@);
        Next::Poll
    }
}

/// The bytes that are held once increments of the right type have come in, up to the empty one that
/// ends the transfer; `None` if it did not come.
pub open spec fn collected(buffer: Seq<u8>, increments: Seq<Seq<u8>>) -> Option<Seq<u8>>
    decreases increments.len(),
{
    if increments.len() == 0 {
        None
    } else if increments[0].len() == 0 {
        Some(buffer)
    } else {
        collected(buffer + increments[0], increments.drop_first())
    }
}

/// An incremental transfer hands the stored value over unchanged: collecting the pieces that the
/// owner sends gives back all of its bytes.
pub proof fn increments_give_back_the_value(value: Seq<u8>)
    ensures
        collected(Seq::empty(), chunks_from(value, 0)) == Some(value),
{
    collected_rest(value, 0);
    assert(value.subrange(0, 0) =~= Seq::<u8>::empty());
}

proof fn collected_rest(value: Seq<u8>, pos: int)
    requires
        0 <= pos <= value.len(),
    ensures
        collected(value.subrange(0, pos), chunks_from(value, pos)) == Some(value),
    decreases value.len() - pos,
{
    if pos == value.len() {
        assert(value.subrange(0, pos) =~= value);
    } else {
        let chunk = chunk_at(value, pos);
        let next = pos + chunk.len();
        collected_rest(value, next);
        let rest = chunks_from(value, next);
        let all = seq![chunk] + rest;
        assert(all.drop_first() =~= rest);
        assert(all[0] == chunk);
        assert(value.subrange(0, pos) + chunk =~= value.subrange(0, next));
    }
}

/// What is copied in one program is pasted in another: where the value fits into a request, the answer
/// of the owner makes the requestor read the very property that the owner has put the value into,
/// and the requestor is then done and holds the value.
pub proof fn requestor_gets_the_stored_value(
    atoms: X11Atoms,
    max_length: usize,
    request: SelectionRequest,
    value: Seq<u8>,
    before: Requestor,
    after: Requestor,
    next: Next,
)
    requires
        value.len() + 24 < max_length,
        request.property != 0,
        request.target != atoms.targets,
        before.selection == request.selection,
        before.target == request.target,
        before.incr == atoms.incr,
        before.incr != before.target,
        before.buffer@.len() == 0,
        ({
            let sent = answer(atoms, max_length, request, request.target, value);
            before.after_reply(sent[0]->SetBytes_kind, sent[0]->bytes, after, next)
        }),
    ensures
        ({
            let sent = answer(atoms, max_length, request, request.target, value);
            let notice = sent[1]->request;
            &&& sent[0] is SetBytes && sent[1] is Notify
            &&& sent[0]->SetBytes_window == request.requestor
            &&& sent[0]->SetBytes_property == request.property
            &&& notice.requestor == request.requestor
            &&& before.after_notify(notice.selection, notice.property) == (Next::ReadSelection {
                property: sent[0]->SetBytes_property,
                offset: 0,
            })
            &&& next is Finish
            &&& after.buffer@ == value
        }),
{
    request_is_answered(atoms, max_length, request, request.target, value);
    assert(before.buffer@ + value =~= value);
}

/// A value that is too large for a request is announced, and the announcement makes the requestor ask
/// for the first increment. It has read nothing yet.
pub proof fn large_values_are_announced(
    atoms: X11Atoms,
    max_length: usize,
    request: SelectionRequest,
    value: Seq<u8>,
    before: Requestor,
    after: Requestor,
    next: Next,
)
    requires
        value.len() + 24 >= max_length,
        request.property != 0,
        request.target != atoms.targets,
        before.selection == request.selection,
        before.property == request.property,
        before.incr == atoms.incr,
        before.buffer@.len() == 0,
        before.after_reply(
            answer(atoms, max_length, request, request.target, value)[1]->SetAtoms_kind,
            Seq::empty(),
            after,
            next,
        ),
    ensures
        ({
            let sent = answer(atoms, max_length, request, request.target, value);
            let notice = sent[2]->request;
            &&& before.after_notify(notice.selection, notice.property) == (Next::ReadSelection {
                property: sent[1]->SetAtoms_property,
                offset: 0,
            })
            &&& next == (Next::StartIncrements { property: request.property })
            &&& after.is_incr
            &&& after.buffer@.len() == 0
        }),
{
    request_is_answered(atoms, max_length, request, request.target, value);
}

/// The increments of a large value give back the value: a requestor that reads the pieces of the owner,
/// one after the other, holds the whole value at the end, is done then, and not before.
pub proof fn requestor_collects_the_value(
    value: Seq<u8>,
    requestors: Seq<Requestor>,
    nexts: Seq<Next>,
    i: int,
)
    requires
        nexts.len() == chunks_from(value, 0).len(),
        requestors.len() == nexts.len() + 1,
        requestors[0].buffer@.len() == 0,
        forall|k: int|
            0 <= k < requestors.len() ==> (#[trigger] requestors[k]).target
                == requestors[0].target,
        forall|k: int|
            0 <= k < nexts.len() ==> (#[trigger] requestors[k]).after_increment(
                requestors[k].target,
                chunks_from(value, 0)[k],
                requestors[k + 1],
                nexts[k],
            ),
        0 <= i < nexts.len(),
    ensures
        requestors.last().buffer@ == value,
        nexts[i] is Finish <==> i == nexts.len() - 1,
        nexts[i] is Poll <==> i < nexts.len() - 1,
{
    assert(value.subrange(0, 0) =~= Seq::<u8>::empty());
    assert(requestors[0].buffer@ =~= value.subrange(0, 0));
    collects_from(value, 0, requestors, nexts);
    increments_are_small(value, 0, i);
    assert(requestors[i].after_increment(
        requestors[i].target,
        chunks_from(value, 0)[i],
        requestors[i + 1],
        nexts[i],
    ));
}

proof fn collects_from(value: Seq<u8>, pos: int, requestors: Seq<Requestor>, nexts: Seq<Next>)
    requires
        0 <= pos <= value.len(),
        nexts.len() == chunks_from(value, pos).len(),
        requestors.len() == nexts.len() + 1,
        requestors[0].buffer@ == value.subrange(0, pos),
        forall|k: int|
            0 <= k < nexts.len() ==> (#[trigger] requestors[k]).after_increment(
                requestors[k].target,
                chunks_from(value, pos)[k],
                requestors[k + 1],
                nexts[k],
            ),
    ensures
        requestors.last().buffer@ == value,
    decreases value.len() - pos,
{
    let chunks = chunks_from(value, pos);
    assert(chunks.len() >= 1);
    assert(requestors[0].after_increment(
        requestors[0].target,
        chunks[0],
        requestors[1],
        nexts[0],
    ));
    if pos == value.len() {
        assert(chunks[0] =~= Seq::<u8>::empty());
        assert(requestors[1].buffer@ =~= value);
    } else {
        let chunk = chunk_at(value, pos);
        let next = pos + chunk.len();
        let rest = chunks_from(value, next);
        assert(chunks =~= seq![chunk] + rest);
        let later = requestors.drop_first();
        let further = nexts.drop_first();
        assert(later[0].buffer@ =~= value.subrange(0, next));
        assert forall|k: int| 0 <= k < further.len() implies (
        #[trigger] later[k]).after_increment(later[k].target, rest[k], later[k + 1], further[k]) by {
            assert(later[k] == requestors[k + 1]);
            assert(chunks[k + 1] == rest[k]);
            assert(requestors[k + 1].after_increment(
                requestors[k + 1].target,
                chunks[k + 1],
                requestors[k + 2],
                nexts[k + 1],
            ));
        }
        collects_from(value, next, later, further);
        assert(later.last() == requestors.last());
    }
}

/// Every piece of an incremental transfer is small enough, and only the last one is empty.
pub proof fn increments_are_small(value: Seq<u8>, pos: int, i: int)
    requires
        0 <= pos <= value.len(),
        0 <= i < chunks_from(value, pos).len(),
    ensures
        chunks_from(value, pos)[i].len() <= INCR_CHUNK_SIZE,
        chunks_from(value, pos)[i].len() == 0 <==> i == chunks_from(value, pos).len() - 1,
    decreases value.len() - pos,
{
    if pos < value.len() {
        let chunk = chunk_at(value, pos);
        let rest = chunks_from(value, pos + chunk.len());
        assert(chunks_from(value, pos) == seq![chunk] + rest);
        if i > 0 {
            increments_are_small(value, pos + chunk.len(), i - 1);
        } else {
            assert(rest.len() > 0);
        }
    }
}

/// Waiting ends: when time is up, whatever else has happened, and when the connection fails. Events are
/// looked at in no other case, and without one the requestor sleeps.
pub proof fn waiting_ends(timed_out: bool, failed: bool, has_event: bool)
    ensures
        ({
            let next = Requestor::after_wait(timed_out, failed, has_event);
            &&& next is None <==> has_event && !timed_out && !failed
            &&& next == Some(Next::Fail(LoadError::Timeout)) <==> timed_out
            &&& next == Some(Next::Fail(LoadError::Event)) <==> failed && !timed_out
            &&& next == Some(Next::Park) <==> !has_event && !timed_out && !failed
        }),
{
}

/// Increments are asked for when the owner has set one during an incremental transfer, and only then;
/// that the requestor itself deletes the property is no news.
pub proof fn increments_are_asked_for_when_set(requestor: Requestor, new_value: bool)
    ensures
        requestor.after_property(new_value) is MeasureIncrement <==> requestor.is_incr && new_value,
        requestor.after_property(new_value) matches Next::MeasureIncrement { property }
            ==> property == requestor.property,
        !(requestor.after_property(new_value) is MeasureIncrement) ==> requestor.after_property(
            new_value,
        ) is Poll,
{
}

/// An answer to the own request is read, from behind the bytes that are already there; an answer without
/// a property ends the reading, and answers about other selections change nothing.
pub proof fn answers_are_read_from_where_it_stopped(
    requestor: Requestor,
    selection: u32,
    property: u32,
)
    requires
        requestor.buffer@.len() <= u32::MAX,
    ensures
        ({
            let next = requestor.after_notify(selection, property);
            &&& selection != requestor.selection ==> next is Poll
            &&& selection == requestor.selection && property == 0 ==> next is Finish
            &&& selection == requestor.selection && property != 0 ==> next is ReadSelection
                && next->ReadSelection_property == property && next->offset
                == requestor.buffer@.len()
        }),
{
}

/// Reading keeps to its request: whatever is read, the selection, the type and the property stay what they
/// were, an incremental transfer begins only where the owner announces one, and what is of another
/// type is not taken.
pub proof fn reading_keeps_to_its_request(
    before: Requestor,
    after: Requestor,
    kind: u32,
    value: Seq<u8>,
    next: Next,
)
    requires
        after.same_request(before),
        before.after_reply(kind, value, after, next),
        before.incr != before.target,
    ensures
        after.selection == before.selection,
        after.target == before.target,
        after.property == before.property,
        after.incr == before.incr,
        kind == before.incr ==> after.is_incr && after.buffer@ == before.buffer@,
        kind != before.incr ==> after.is_incr == before.is_incr,
        kind != before.target ==> after.buffer@ == before.buffer@,
        kind == before.target ==> next is Finish && after.buffer@.len() == before.buffer@.len()
            + value.len(),
        next == Next::Fail(LoadError::UnexpectedType) <==> kind != before.incr && kind
            != before.target,
{
}

} // verus!
