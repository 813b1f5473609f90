//! The owner's side of X11 selections: answering requests for the stored text, in one piece where
//! it fits into a request and in increments where it does not.

use std::collections::HashMap;
use vstd::prelude::*;
use vstd::string::*;

verus! {

broadcast use vstd::std_specs::hash::group_hash_axioms;

/// Largest piece of a value that is sent at once in an incremental transfer.
pub const INCR_CHUNK_SIZE: usize = 4000;

/// Bytes of a request that do not carry data.
pub const REQUEST_OVERHEAD: usize = 24;

/// The predefined atom `ATOM`.
pub const ATOM_ATOM: u32 = 4;

/// Atoms that take part in the exchange.
#[derive(Clone, Copy, Debug, PartialEq, Eq, Structural)]
pub struct X11Atoms {
    pub primary: u32,
    pub clipboard: u32,
    pub property: u32,
    pub targets: u32,
    pub utf8_string: u32,
    pub incr: u32,
}

/// The predefined atom `PRIMARY`.
pub const ATOM_PRIMARY: u32 = 1;

/// The names of the atoms that the server is asked for.
pub open spec fn atom_name_list() -> Seq<Seq<char>> {
    seq!["CLIPBOARD"@, "THIS_CLIPBOARD_OUT"@, "TARGETS"@, "UTF8_STRING"@, "INCR"@]
}

/// The names of the atoms that the server is asked for, in the order of [`X11Atoms::interned`].
pub fn atom_names() -> (names: Vec<String>)
    ensures
        crate::text::texts(names@) == atom_name_list(),
{
    let mut names: Vec<String> = Vec::new();
    names.push("CLIPBOARD".to_owned());
    names.push("THIS_CLIPBOARD_OUT".to_owned());
    names.push("TARGETS".to_owned());
    names.push("UTF8_STRING".to_owned());
    names.push("INCR".to_owned());
    assert(crate::text::texts(names@) =~= seq![
        "CLIPBOARD"@,
        "THIS_CLIPBOARD_OUT"@,
        "TARGETS"@,
        "UTF8_STRING"@,
        "INCR"@,
    ]);
    names
}

impl X11Atoms {
    /// The atoms that the server has for the names, in their order.
    pub open spec fn named_in_order(atoms: Seq<u32>) -> X11Atoms {
        X11Atoms {
            primary: ATOM_PRIMARY,
            clipboard: atoms[0],
            property: atoms[1],
            targets: atoms[2],
            utf8_string: atoms[3],
            incr: atoms[4],
        }
    }

    /// The atom of a name.
    pub open spec fn atom_of(self, name: Seq<char>) -> Option<u32> {
        if name == "PRIMARY"@ {
            Some(self.primary)
        } else if name == "CLIPBOARD"@ {
            Some(self.clipboard)
        } else if name == "THIS_CLIPBOARD_OUT"@ {
            Some(self.property)
        } else if name == "TARGETS"@ {
            Some(self.targets)
        } else if name == "UTF8_STRING"@ {
            Some(self.utf8_string)
        } else if name == "INCR"@ {
            Some(self.incr)
        } else {
            None
        }
    }

    /// The atoms that the server has for the names.
    pub fn interned(clipboard: u32, property: u32, targets: u32, utf8_string: u32, incr: u32) -> (
        atoms: X11Atoms)
        ensures
            atoms == X11Atoms::named_in_order(
                seq![clipboard, property, targets, utf8_string, incr],
            ),
    {
        X11Atoms { primary: ATOM_PRIMARY, clipboard, property, targets, utf8_string, incr }
    }
}

/// Whether a value is stored: it is once the own window is the owner of the selection.
pub fn selection_owned(owner: u32, window: u32) -> (result: Result<(), String>)
    ensures
        owner == window ==> result is Ok,
        owner != window ==> (result matches Err(message) && message@ == "failed to own selection"@),
{
    if owner == window {
        Ok(())
    } else {
        Err("failed to own selection".to_owned())
    }
}

/// An incremental transfer in progress.
#[derive(Clone, Copy, Debug, PartialEq, Eq, Structural)]
pub struct IncrState {
    pub selection: u32,
    pub requestor: u32,
    pub property: u32,
    /// Bytes that have been sent.
    pub pos: usize,
}

/// Another client asks for a selection.
#[derive(Clone, Copy, Debug, PartialEq, Eq, Structural)]
pub struct SelectionRequest {
    pub time: u32,
    pub requestor: u32,
    pub selection: u32,
    pub target: u32,
    pub property: u32,
}

/// What to do on the connection.
#[derive(Clone, Debug)]
pub enum OwnerAction {
    /// Replace a property of a window by a list of atoms.
    SetAtoms { window: u32, property: u32, kind: u32, atoms: Vec<u32> },
    /// Replace a property of a window by bytes.
    SetBytes { window: u32, property: u32, kind: u32, bytes: Vec<u8> },
    /// Ask for property changes of a window.
    Watch { window: u32 },
    /// Tell a requestor that its request has been served.
    Notify { request: SelectionRequest },
    /// Drop the stored value of a selection.
    Forget { selection: u32 },
    /// Send everything that has been queued.
    Flush,
}

/// An [`OwnerAction`] with its data as sequences.
pub enum OwnerEffect {
    SetAtoms { window: u32, property: u32, kind: u32, atoms: Seq<u32> },
    SetBytes { window: u32, property: u32, kind: u32, bytes: Seq<u8> },
    Watch { window: u32 },
    Notify { request: SelectionRequest },
    Forget { selection: u32 },
    Flush,
}

impl View for OwnerAction {
    type V = OwnerEffect;

    open spec fn view(&self) -> OwnerEffect {
        match *self {
            OwnerAction::SetAtoms { window, property, kind, atoms } => OwnerEffect::SetAtoms {
                window,
                property,
                kind,
                atoms: atoms@,
            },
            OwnerAction::SetBytes { window, property, kind, bytes } => OwnerEffect::SetBytes {
                window,
                property,
                kind,
                bytes: bytes@,
            },
            OwnerAction::Watch { window } => OwnerEffect::Watch { window },
            OwnerAction::Notify { request } => OwnerEffect::Notify { request },
            OwnerAction::Forget { selection } => OwnerEffect::Forget { selection },
            OwnerAction::Flush => OwnerEffect::Flush,
        }
    }
}

/// The effects of a list of actions.
pub open spec fn effects(actions: Seq<OwnerAction>) -> Seq<OwnerEffect> {
    actions.map_values(|action: OwnerAction| action@)
}

/// The stored values by selection: the type of the value and its bytes.
pub type Stored = HashMap<u32, (u32, Vec<u8>)>;

/// What the owner keeps between events.
pub struct Owner {
    pub atoms: X11Atoms,
    /// Largest request that the server accepts, in bytes.
    pub max_length: usize,
    /// Property of the latest incremental transfer of a selection.
    pub incr_map: HashMap<u32, u32>,
    /// Incremental transfers by property.
    pub state_map: HashMap<u32, IncrState>,
}

/// The owner's transfers as mathematical maps.
pub struct Transfers {
    pub incr: Map<u32, u32>,
    pub states: Map<u32, IncrState>,
}

/// Whether a value is sent in one piece.
pub open spec fn fits_request(len: nat, max_length: usize) -> bool {
    len + REQUEST_OVERHEAD < max_length
}

/// The piece of a value that is sent after `pos` bytes.
pub open spec fn chunk_at(value: Seq<u8>, pos: int) -> Seq<u8> {
    if value.len() - pos < INCR_CHUNK_SIZE {
        value.subrange(pos, value.len() as int)
    } else {
        value.subrange(pos, pos + INCR_CHUNK_SIZE)
    }
}

/// The pieces that are sent after `pos` bytes, up to and with the empty one that ends the transfer.
pub open spec fn chunks_from(value: Seq<u8>, pos: int) -> Seq<Seq<u8>>
    decreases value.len() - pos,
{
    if pos < 0 || pos >= value.len() {
        seq![Seq::<u8>::empty()]
    } else {
        seq![chunk_at(value, pos)] + chunks_from(value, pos + chunk_at(value, pos).len())
    }
}

/// How a request for a stored value is answered.
pub open spec fn answer(
    atoms: X11Atoms,
    max_length: usize,
    request: SelectionRequest,
    kind: u32,
    value: Seq<u8>,
) -> Seq<OwnerEffect> {
    let data = if request.target == atoms.targets {
        seq![
            OwnerEffect::SetAtoms {
                window: request.requestor,
                property: request.property,
                kind: ATOM_ATOM,
                atoms: seq![atoms.targets, kind],
            },
        ]
    } else if fits_request(value.len(), max_length) {
        seq![
            OwnerEffect::SetBytes {
                window: request.requestor,
                property: request.property,
                kind,
                bytes: value,
            },
        ]
    } else {
        seq![
            OwnerEffect::Watch { window: request.requestor },
            OwnerEffect::SetAtoms {
                window: request.requestor,
                property: request.property,
                kind: atoms.incr,
                atoms: Seq::empty(),
            },
        ]
    };
    data + seq![OwnerEffect::Notify { request }, OwnerEffect::Flush]
}

/// The transfers once a request for a stored value has been answered.
pub open spec fn transfers_after_request(
    before: Transfers,
    atoms: X11Atoms,
    max_length: usize,
    request: SelectionRequest,
    value: Seq<u8>,
) -> Transfers {
    if request.target == atoms.targets || fits_request(value.len(), max_length) {
        before
    } else {
        Transfers {
            incr: before.incr.insert(request.selection, request.property),
            states: before.states.insert(
                request.property,
                IncrState {
                    selection: request.selection,
                    requestor: request.requestor,
                    property: request.property,
                    pos: 0,
                },
            ),
        }
    }
}

/// What is sent of a value in a transfer: its next piece.
pub open spec fn piece_sent(state: IncrState, kind: u32, value: Seq<u8>) -> Seq<OwnerEffect> {
    seq![
        OwnerEffect::SetBytes {
            window: state.requestor,
            property: state.property,
            kind,
            bytes: chunk_at(value, state.pos as int),
        },
        OwnerEffect::Flush,
    ]
}

/// The transfers once the next piece of a value has been sent through `property`: the empty piece
/// ends a transfer.
pub open spec fn states_after_piece(
    states: Map<u32, IncrState>,
    property: u32,
    value: Seq<u8>,
) -> Map<u32, IncrState> {
    let state = states[property];
    let chunk = chunk_at(value, state.pos as int);
    if chunk.len() == 0 {
        states.remove(property)
    } else {
        states.insert(property, IncrState { pos: (state.pos + chunk.len()) as usize, ..state })
    }
}

/// The transfers without the one that serves `selection`.
pub open spec fn without_selection(before: Transfers, selection: u32) -> Transfers {
    if before.incr.contains_key(selection) {
        Transfers {
            incr: before.incr.remove(selection),
            states: before.states.remove(before.incr[selection]),
        }
    } else {
        before
    }
}

impl Owner {
    /// The transfers in progress.
    pub open spec fn transfers(self) -> Transfers {
        Transfers { incr: self.incr_map@, states: self.state_map@ }
    }

    /// Whether the transfer through `property` has sent no more than what is stored.
    pub open spec fn in_bounds(self, stored: Map<u32, (u32, Vec<u8>)>, property: u32) -> bool {
        self.state_map@.contains_key(property) && stored.contains_key(
            self.state_map@[property].selection,
        ) ==> self.state_map@[property].pos <= stored[self.state_map@[property].selection].1@.len()
    }

    /// An owner without transfers.
    pub fn new(atoms: X11Atoms, max_length: usize) -> (owner: Self)
        ensures
            owner.atoms == atoms,
            owner.max_length == max_length,
            owner.incr_map@ == Map::<u32, u32>::empty(),
            owner.state_map@ == Map::<u32, IncrState>::empty(),
    {
        Owner { atoms, max_length, incr_map: HashMap::new(), state_map: HashMap::new() }
    }

    /// A new value has been stored for `selection`: give up the transfer of the old one.
    pub fn restored(&mut self, selection: u32)
        ensures
            final(self).atoms == old(self).atoms,
            final(self).max_length == old(self).max_length,
            final(self).transfers() == without_selection(old(self).transfers(), selection),
    {
        if let Some(property) = self.incr_map.remove(&selection) {
            self.state_map.remove(&property);
            assert(self.state_map@ =~= old(self).state_map@.remove(property));
        }
        assert(self.incr_map@ =~= old(self).incr_map@.remove(selection));
        assert(!old(self).incr_map@.contains_key(selection) ==> self.incr_map@
            =~= old(self).incr_map@);
    }

    /// Nobody can store values any more: whether the owner is done.
    pub fn abandoned(&self) -> (done: bool)
        ensures
            done == (self.state_map@.dom() =~= Set::<u32>::empty()),
    {
        let done = self.state_map.is_empty();
        proof {
            if done {
                assert(self.state_map@.dom().len() == 0);
                assert(self.state_map@.dom().finite());
                assert(self.state_map@.dom() =~= Set::<u32>::empty()) by {
                    if exists|k: u32| self.state_map@.dom().contains(k) {
                        let k = choose|k: u32| self.state_map@.dom().contains(k);
                        vstd::set_lib::lemma_set_empty_equivalency_len(self.state_map@.dom());
                    }
                }
            }
        }
        done
    }

    /// Another client asks for a selection.
    pub fn selection_request(&mut self, stored: &Stored, request: SelectionRequest) -> (actions: Vec<
        OwnerAction,
    >)
        ensures
            final(self).atoms == old(self).atoms,
            final(self).max_length == old(self).max_length,
            stored@.contains_key(request.selection) ==> {
                let (kind, value) = stored@[request.selection];
                &&& effects(actions@) == answer(
                    old(self).atoms,
                    old(self).max_length,
                    request,
                    kind,
                    value@,
                )
                &&& final(self).transfers() == transfers_after_request(
                    old(self).transfers(),
                    old(self).atoms,
                    old(self).max_length,
                    request,
                    value@,
                )
            },
            !stored@.contains_key(request.selection) ==> actions@.len() == 0 && final(
                self).transfers() == old(self).transfers(),
    {
        let mut actions: Vec<OwnerAction> = Vec::new();
        let (kind, value) = match stored.get(&request.selection) {
            Some(entry) => (entry.0, &entry.1),
            None => {
                return actions;
            },
        };
        if request.target == self.atoms.targets {
            let mut atoms: Vec<u32> = Vec::new();
            atoms.push(self.atoms.targets);
            atoms.push(kind);
            assert(atoms@ =~= seq![self.atoms.targets, kind]);
            actions.push(
                OwnerAction::SetAtoms {
                    window: request.requestor,
                    property: request.property,
                    kind: ATOM_ATOM,
                    atoms,
                },
            );
        } else if value.len() < self.max_length.saturating_sub(REQUEST_OVERHEAD) {
            let mut bytes: Vec<u8> = Vec::new();
            bytes.extend_from_slice(value.as_slice());
            assert(bytes@ =~= value@);
            actions.push(
                OwnerAction::SetBytes {
                    window: request.requestor,
                    property: request.property,
                    kind,
                    bytes,
                },
            );
        } else {
            actions.push(OwnerAction::Watch { window: request.requestor });
            actions.push(
                OwnerAction::SetAtoms {
                    window: request.requestor,
                    property: request.property,
                    kind: self.atoms.incr,
                    atoms: Vec::new(),
                },
            );
            self.incr_map.insert(request.selection, request.property);
            self.state_map.insert(
                request.property,
                IncrState {
                    selection: request.selection,
                    requestor: request.requestor,
                    property: request.property,
                    pos: 0,
                },
            );
        }
        actions.push(OwnerAction::Notify { request });
        actions.push(OwnerAction::Flush);
        assert(effects(actions@) =~= answer(
            old(self).atoms,
            old(self).max_length,
            request,
            kind,
            value@,
        ));
        actions
    }

    /// Whether the next piece of the transfer through `property` can be cut from what is stored.
    pub fn can_continue(&self, stored: &Stored, property: u32) -> (can: bool)
        ensures
            can == self.in_bounds(stored@, property),
    {
        match self.state_map.get(&property) {
            Some(state) => match stored.get(&state.selection) {
                Some(entry) => state.pos <= entry.1.len(),
                None => true,
            },
            None => true,
        }
    }

    /// A property of some window has changed; once a requestor has deleted it, the next piece of
    /// the transfer through it is due.
    pub fn property_notify(&mut self, stored: &Stored, property: u32, deleted: bool) -> (actions: Vec<
        OwnerAction,
    >)
        requires
            deleted ==> old(self).in_bounds(stored@, property),
        ensures
            final(self).atoms == old(self).atoms,
            final(self).max_length == old(self).max_length,
            final(self).incr_map@ == old(self).incr_map@,
            ({
                let states = old(self).state_map@;
                let state = states[property];
                if deleted && states.contains_key(property) && stored@.contains_key(
                    state.selection,
                ) {
                    let (kind, value) = stored@[state.selection];
                    &&& effects(actions@) == piece_sent(state, kind, value@)
                    &&& final(self).state_map@ == states_after_piece(states, property, value@)
                } else {
                    &&& actions@.len() == 0
                    &&& final(self).state_map@ == states
                }
            }),
    {
        let mut actions: Vec<OwnerAction> = Vec::new();
        if !deleted {
            return actions;
        }
        let mut state: IncrState = match self.state_map.get(&property) {
            Some(state) => *state,
            None => {
                return actions;
            },
        };
        let (kind, value) = match stored.get(&state.selection) {
            Some(entry) => (entry.0, &entry.1),
            None => {
                return actions;
            },
        };
        let rest: usize = value.len() - state.pos;
        let len: usize = if rest < INCR_CHUNK_SIZE { rest } else { INCR_CHUNK_SIZE };
        let bytes = copy_range(value, state.pos, state.pos + len);
        assert(bytes@ =~= chunk_at(value@, state.pos as int));
        actions.push(
            OwnerAction::SetBytes {
                window: state.requestor,
                property: state.property,
                kind,
                bytes,
            },
        );
        state.pos = state.pos + len;
        if len == 0 {
            self.state_map.remove(&property);
            assert(self.state_map@ =~= old(self).state_map@.remove(property));
        } else {
            self.state_map.insert(property, state);
        }
        actions.push(OwnerAction::Flush);
        assert(effects(actions@) =~= seq![
            OwnerEffect::SetBytes {
                window: state.requestor,
                property: state.property,
                kind,
                bytes: chunk_at(value@, old(self).state_map@[property].pos as int),
            },
            OwnerEffect::Flush,
        ]);
        actions
    }

    /// Another client has taken over a selection.
    pub fn selection_clear(&mut self, selection: u32) -> (actions: Vec<OwnerAction>)
        ensures
            final(self).atoms == old(self).atoms,
            final(self).max_length == old(self).max_length,
            final(self).transfers() == without_selection(old(self).transfers(), selection),
            effects(actions@) == seq![OwnerEffect::Forget { selection }],
    {
        self.restored(selection);
        let mut actions: Vec<OwnerAction> = Vec::new();
        actions.push(OwnerAction::Forget { selection });
        assert(effects(actions@) =~= seq![OwnerEffect::Forget { selection }]);
        actions
    }
}

/// Each time that a requestor deletes the property of a transfer, the owner sends the next of the
/// pieces that make up the value, until the empty one ends the transfer.
pub proof fn owner_sends_piece_after_piece(value: Seq<u8>, pos: int)
    requires
        0 <= pos <= value.len(),
    ensures
        chunks_from(value, pos)[0] == chunk_at(value, pos),
        chunk_at(value, pos).len() == 0 ==> chunks_from(value, pos).drop_first() == Seq::<
            Seq<u8>,
        >::empty(),
        chunk_at(value, pos).len() > 0 ==> chunks_from(value, pos).drop_first() == chunks_from(
            value,
            pos + chunk_at(value, pos).len(),
        ),
{
    if pos == value.len() {
        assert(chunk_at(value, pos) =~= Seq::<u8>::empty());
        assert(chunks_from(value, pos).drop_first() =~= Seq::<Seq<u8>>::empty());
    } else {
        assert(chunks_from(value, pos).drop_first() =~= chunks_from(
            value,
            pos + chunk_at(value, pos).len(),
        ));
    }
}

/// Every request for a stored value is answered: what is asked for is put into the property that the
/// request names, on the window that asks, and then the requestor, and nobody else, is told so with
/// everything that its request said. A value that fits is put there as it is; for a larger one the
/// owner watches the window and announces an incremental transfer; and a request for the targets
/// gets the list of them.
pub proof fn request_is_answered(
    atoms: X11Atoms,
    max_length: usize,
    request: SelectionRequest,
    kind: u32,
    value: Seq<u8>,
)
    ensures
        ({
            let sent = answer(atoms, max_length, request, kind, value);
            let told = sent.len() - 2;
            &&& told >= 1
            &&& sent[told + 1] is Flush
            &&& sent[told] is Notify
            &&& sent[told]->request.time == request.time
            &&& sent[told]->request.requestor == request.requestor
            &&& sent[told]->request.selection == request.selection
            &&& sent[told]->request.target == request.target
            &&& sent[told]->request.property == request.property
            &&& request.target == atoms.targets ==> told == 1 && sent[0] is SetAtoms
                && sent[0]->SetAtoms_window == request.requestor && sent[0]->SetAtoms_property
                == request.property && sent[0]->SetAtoms_kind == 4 && sent[0]->atoms.len() == 2
                && sent[0]->atoms[0] == atoms.targets && sent[0]->atoms[1] == kind
            &&& request.target != atoms.targets && value.len() + 24 < max_length ==> told == 1
                && sent[0] is SetBytes && sent[0]->SetBytes_window == request.requestor
                && sent[0]->SetBytes_property == request.property && sent[0]->SetBytes_kind == kind
                && sent[0]->bytes == value
            &&& request.target != atoms.targets && value.len() + 24 >= max_length ==> told == 2
                && sent[0] is Watch && sent[0]->Watch_window == request.requestor
                && sent[1] is SetAtoms && sent[1]->SetAtoms_window == request.requestor
                && sent[1]->SetAtoms_property == request.property && sent[1]->SetAtoms_kind
                == atoms.incr && sent[1]->atoms.len() == 0
        }),
{
}

/// A large value goes to whoever asked for it: the transfer that a request starts sends the value from
/// its first byte on, to the window and through the property of the request, and no other transfer
/// is touched. Where no transfer is needed none is started.
pub proof fn transfer_serves_the_request(
    before: Transfers,
    atoms: X11Atoms,
    max_length: usize,
    request: SelectionRequest,
    kind: u32,
    value: Seq<u8>,
    other: u32,
)
    ensures
        ({
            let after = transfers_after_request(before, atoms, max_length, request, value);
            let large = request.target != atoms.targets && value.len() + 24 >= max_length;
            &&& !large ==> after == before
            &&& large ==> {
                let state = after.states[request.property];
                let sent = piece_sent(state, kind, value);
                &&& after.incr.contains_key(request.selection)
                &&& after.incr[request.selection] == request.property
                &&& after.states.contains_key(request.property)
                &&& state.selection == request.selection
                &&& state.requestor == request.requestor
                &&& state.property == request.property
                &&& state.pos == 0
                &&& sent.len() == 2 && sent[1] is Flush
                &&& sent[0] is SetBytes && sent[0]->SetBytes_window == request.requestor
                &&& sent[0]->SetBytes_property == request.property
                &&& sent[0]->SetBytes_kind == kind
                &&& sent[0]->bytes == value.take(sent[0]->bytes.len() as int)
            }
            &&& other != request.property ==> (after.states.contains_key(other)
                <==> before.states.contains_key(other)) && (before.states.contains_key(other)
                ==> after.states[other] == before.states[other])
            &&& other != request.selection ==> (after.incr.contains_key(other)
                <==> before.incr.contains_key(other)) && (before.incr.contains_key(other)
                ==> after.incr[other] == before.incr[other])
        }),
{
}

/// A transfer goes on where it stopped: a piece begins behind the bytes that have been sent, is as long
/// as the rest of the value or the largest piece, and is counted as sent. A transfer is over once
/// there is nothing left, and other transfers do not notice.
pub proof fn transfer_goes_on(
    states: Map<u32, IncrState>,
    property: u32,
    kind: u32,
    value: Seq<u8>,
    other: u32,
)
    requires
        states.contains_key(property),
        states[property].pos <= value.len() <= usize::MAX,
    ensures
        ({
            let state = states[property];
            let sent = piece_sent(state, kind, value);
            let after = states_after_piece(states, property, value);
            let rest = value.len() - state.pos;
            let length = sent[0]->bytes.len();
            &&& sent.len() == 2 && sent[0] is SetBytes && sent[1] is Flush
            &&& sent[0]->SetBytes_window == state.requestor
            &&& sent[0]->SetBytes_property == state.property
            &&& sent[0]->SetBytes_kind == kind
            &&& length <= 4000 && length <= rest
            &&& length == 4000 || length == rest
            &&& forall|i: int|
                0 <= i < length ==> #[trigger] sent[0]->bytes[i] == value[state.pos + i]
            &&& rest == 0 <==> !after.contains_key(property)
            &&& rest > 0 ==> {
                &&& after[property].pos == state.pos + length
                &&& after[property].selection == state.selection
                &&& after[property].requestor == state.requestor
                &&& after[property].property == state.property
            }
            &&& other != property ==> (after.contains_key(other) <==> states.contains_key(other))
                && (states.contains_key(other) ==> after[other] == states[other])
        }),
{
}

/// A value that is replaced or given up is not sent any further: the transfer of its selection is gone,
/// and every other one stays.
pub proof fn replaced_values_are_not_sent(before: Transfers, selection: u32, other: u32)
    ensures
        ({
            let after = without_selection(before, selection);
            &&& !after.incr.contains_key(selection)
            &&& before.incr.contains_key(selection) ==> !after.states.contains_key(
                before.incr[selection],
            )
            &&& other != selection ==> (after.incr.contains_key(other)
                <==> before.incr.contains_key(other)) && (before.incr.contains_key(other)
                ==> after.incr[other] == before.incr[other])
            &&& before.states.contains_key(other) && !(before.incr.contains_key(selection)
                && before.incr[selection] == other) ==> after.states.contains_key(other)
                && after.states[other] == before.states[other]
            &&& after.states.contains_key(other) ==> before.states.contains_key(other)
        }),
{
}

/// The bytes from `start` up to `end`.
fn copy_range(bytes: &Vec<u8>, start: usize, end: usize) -> (copy: Vec<u8>)
    requires
        start <= end <= bytes@.len(),
    ensures
        copy@ == bytes@.subrange(start as int, end as int),
{
    let mut copy: Vec<u8> = Vec::new();
    let mut i: usize = start;
    while i < end
        invariant
            start <= i <= end <= bytes@.len(),
            copy@ == bytes@.subrange(start as int, i as int),
        decreases end - i,
    {
        copy.push(bytes[i]);
        i += 1;
        assert(copy@ =~= bytes@.subrange(start as int, i as int));
    }
    copy
}

/// Every atom is used for its name: the server's answers are taken in the order of the questions.
pub proof fn atoms_belong_to_their_names(atoms: Seq<u32>, i: int)
    requires
        atoms.len() == 5,
        0 <= i < 5,
    ensures
        atom_name_list().len() == 5,
        X11Atoms::named_in_order(atoms).atom_of(atom_name_list()[i]) == Some(atoms[i]),
        X11Atoms::named_in_order(atoms).atom_of("PRIMARY"@) == Some(1u32),
{
    reveal_strlit("PRIMARY");
    reveal_strlit("CLIPBOARD");
    reveal_strlit("THIS_CLIPBOARD_OUT");
    reveal_strlit("TARGETS");
    reveal_strlit("UTF8_STRING");
    reveal_strlit("INCR");
    assert("PRIMARY"@[0] == 'P' && "TARGETS"@[0] == 'T');
    assert("PRIMARY"@.len() == 7 && "CLIPBOARD"@.len() == 9 && "THIS_CLIPBOARD_OUT"@.len() == 18);
    assert("TARGETS"@.len() == 7 && "UTF8_STRING"@.len() == 11 && "INCR"@.len() == 4);
}

} // verus!
