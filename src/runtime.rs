//! The decisions of the event loop that drives the membership engine. The
//! engine pushes its side effects into an accumulating buffer while it
//! handles one command; after the command the loop drains the buffer into
//! packets to send, timers to arm and updates of the member registry.

use vstd::prelude::*;
use std::time::Duration;
use crate::identity::{ID, PeerAddr};
use crate::members::{Members, count_of, counts_after_add, counts_after_remove};
use crate::broadcast::{GossipMessage, Tag, broadcast_bytes, craft_broadcast};

verus! {

/// A membership event reported by the engine.
#[derive(Clone, Copy, Debug, PartialEq, Eq, Structural)]
pub enum Notification {
    MemberUp(ID),
    MemberDown(ID),
    Active,
    Idle,
    Defunct,
    Rejoin(ID),
}

/// The side effects of one engine call, in the order they were pushed.
pub struct AccumulatingRuntime<E> {
    pub to_send: Vec<(ID, Vec<u8>)>,
    pub to_schedule: Vec<(Duration, E)>,
    pub notifications: Vec<Notification>,
}

fn copy_bytes(data: &[u8]) -> (r: Vec<u8>)
    ensures
        r@ == data@,
{
    let mut out: Vec<u8> = Vec::new();
    let mut i: usize = 0;
    while i < data.len()
        invariant
            i <= data@.len(),
            out@ == data@.subrange(0, i as int),
        decreases data@.len() - i,
    {
        out.push(data[i]);
        assert(data@.subrange(0, i + 1) =~= data@.subrange(0, i as int).push(data@[i as int]));
        i = i + 1;
    }
    assert(data@.subrange(0, data@.len() as int) =~= data@);
    out
}

impl<E> AccumulatingRuntime<E> {
    pub open spec fn drained(&self) -> bool {
        &&& self.to_send@.len() == 0
        &&& self.to_schedule@.len() == 0
        &&& self.notifications@.len() == 0
    }

    pub fn new() -> (r: AccumulatingRuntime<E>)
        ensures
            r.drained(),
    {
        AccumulatingRuntime { to_send: Vec::new(), to_schedule: Vec::new(), notifications: Vec::new() }
    }

    pub fn is_drained(&self) -> (r: bool)
        ensures
            r == self.drained(),
    {
        self.to_send.len() == 0 && self.to_schedule.len() == 0 && self.notifications.len() == 0
    }

    pub fn notify(&mut self, notification: Notification)
        ensures
            final(self).notifications@ == old(self).notifications@.push(notification),
            final(self).to_send@ == old(self).to_send@,
            final(self).to_schedule@ == old(self).to_schedule@,
    {
        self.notifications.push(notification);
    }

    pub fn send_to(&mut self, to: ID, data: &[u8])
        ensures
            final(self).to_send@.len() == old(self).to_send@.len() + 1,
            final(self).to_send@.drop_last() == old(self).to_send@,
            final(self).to_send@.last().0 == to,
            final(self).to_send@.last().1@ == data@,
            final(self).to_schedule@ == old(self).to_schedule@,
            final(self).notifications@ == old(self).notifications@,
    {
        let packet = copy_bytes(data);
        self.to_send.push((to, packet));
        proof {
            assert(self.to_send@.drop_last() =~= old(self).to_send@);
        }
    }

    pub fn submit_after(&mut self, event: E, after: Duration)
        ensures
            final(self).to_schedule@ == old(self).to_schedule@.push((after, event)),
            final(self).to_send@ == old(self).to_send@,
            final(self).notifications@ == old(self).notifications@,
    {
        self.to_schedule.push((after, event));
    }
}

/// The registry counts after one notification.
pub open spec fn counts_after_note(counts: Map<PeerAddr, nat>, n: Notification) -> Map<PeerAddr, nat> {
    match n {
        Notification::MemberUp(id) => counts_after_add(counts, id.addr),
        Notification::MemberDown(id) => counts_after_remove(counts, id.addr),
        _ => counts,
    }
}

/// Whether one notification changes the set of live addresses.
pub open spec fn note_changes(counts: Map<PeerAddr, nat>, n: Notification) -> bool {
    match n {
        Notification::MemberUp(id) => !counts.contains_key(id.addr),
        Notification::MemberDown(id) => count_of(counts, id.addr) == 1,
        _ => false,
    }
}

/// The registry counts after the notifications `notes`, taken last first.
pub open spec fn counts_after_notes(counts: Map<PeerAddr, nat>, notes: Seq<Notification>) -> Map<PeerAddr, nat>
    decreases notes.len(),
{
    if notes.len() == 0 {
        counts
    } else {
        counts_after_notes(counts_after_note(counts, notes.last()), notes.drop_last())
    }
}

/// Whether any of `notes`, taken last first, changes the set of live addresses.
pub open spec fn notes_change(counts: Map<PeerAddr, nat>, notes: Seq<Notification>) -> bool
    decreases notes.len(),
{
    if notes.len() == 0 {
        false
    } else {
        note_changes(counts, notes.last()) || notes_change(counts_after_note(counts, notes.last()), notes.drop_last())
    }
}

/// A request to the event loop.
pub enum FocaCommand<E> {
    /// Originate a broadcast.
    SendBroadcast(Tag, GossipMessage),
    /// A timer that was scheduled earlier fired.
    HandleTimer(E),
    /// A datagram arrived.
    HandleData(Vec<u8>),
    /// Join the cluster through this peer.
    Announce(ID),
}

/// What reaches the event loop from the socket reader and the timers.
pub enum Input<E> {
    Event(E),
    Data(Vec<u8>),
    Announce(ID),
}

/// The call to make on the membership engine for a command.
pub enum EngineCall<E> {
    AddBroadcast(Vec<u8>),
    HandleTimer(E),
    HandleData(Vec<u8>),
    Announce(ID),
}

impl<E> FocaCommand<E> {
    pub fn from_input(input: Input<E>) -> (r: FocaCommand<E>)
        ensures
            match input {
                Input::Event(e) => r == FocaCommand::<E>::HandleTimer(e),
                Input::Data(d) => r matches FocaCommand::HandleData(x) && x@ == d@,
                Input::Announce(id) => r == FocaCommand::<E>::Announce(id),
            },
    {
        match input {
            Input::Event(e) => FocaCommand::HandleTimer(e),
            Input::Data(d) => FocaCommand::HandleData(d),
            Input::Announce(id) => FocaCommand::Announce(id),
        }
    }

    /// The engine call that carries out this command; a broadcast to
    /// originate is framed first.
    pub fn engine_call(self) -> (r: EngineCall<E>)
        ensures
            match self {
                FocaCommand::SendBroadcast(tag, msg) => r matches EngineCall::AddBroadcast(b)
                    && b@ == broadcast_bytes(tag, msg.message_type, msg.message_payload@),
                FocaCommand::HandleTimer(e) => r == EngineCall::<E>::HandleTimer(e),
                FocaCommand::HandleData(d) => r matches EngineCall::HandleData(x) && x@ == d@,
                FocaCommand::Announce(id) => r == EngineCall::<E>::Announce(id),
            },
    {
        match self {
            FocaCommand::SendBroadcast(tag, msg) => EngineCall::AddBroadcast(craft_broadcast(tag, msg).data),
            FocaCommand::HandleTimer(e) => EngineCall::HandleTimer(e),
            FocaCommand::HandleData(d) => EngineCall::HandleData(d),
            FocaCommand::Announce(id) => EngineCall::Announce(id),
        }
    }
}

/// What one step hands to the outside: packets for the socket writer,
/// timers to arm, and whether the set of live addresses changed.
pub struct StepOutput<E> {
    pub packets: Vec<(PeerAddr, Vec<u8>)>,
    pub timers: Vec<(Duration, E)>,
    pub members_changed: bool,
}

/// The state the event loop owns besides the engine: the side-effect
/// buffer and the member registry.
pub struct Actor<E> {
    pub runtime: AccumulatingRuntime<E>,
    pub members: Members,
}

impl<E> Actor<E> {
    pub open spec fn members(&self) -> Map<PeerAddr, nat> {
        self.members.counts()
    }

    pub open spec fn wf(&self) -> bool {
        self.members.wf()
    }

    /// Starts with an empty buffer and the node's own identity live.
    pub fn new(identity: ID) -> (r: Actor<E>)
        ensures
            r.wf(),
            r.runtime.drained(),
            r.members() == Map::<PeerAddr, nat>::empty().insert(identity.addr, 1),
    {
        let mut members = Members::new();
        members.add_member(identity);
        Actor { runtime: AccumulatingRuntime::new(), members }
    }

    pub fn addresses(&self) -> (r: Vec<PeerAddr>)
        requires
            self.wf(),
        ensures
            r@.no_duplicates(),
            r@.to_set() == self.members().dom(),
            forall|a: PeerAddr| r@.contains(a) <==> count_of(self.members(), a) > 0,
    {
        self.members.addresses()
    }

    /// Ends a step: empties the buffer, most recent effect first, into
    /// packets and timers, and applies the notifications to the registry.
    pub fn drain(&mut self) -> (r: StepOutput<E>)
        requires
            old(self).wf(),
        ensures
            final(self).wf(),
            final(self).runtime.drained(),
            forall|a: PeerAddr| #[trigger] final(self).members().contains_key(a) ==> final(self).members()[a] > 0,
            r.packets@.len() == old(self).runtime.to_send@.len(),
            forall|i: int| 0 <= i < r.packets@.len() ==> {
                let sent = #[trigger] old(self).runtime.to_send@[old(self).runtime.to_send@.len() - 1 - i];
                &&& r.packets@[i].0 == sent.0.addr
                &&& r.packets@[i].1@ == sent.1@
            },
            r.timers@ == old(self).runtime.to_schedule@.reverse(),
            final(self).members() == counts_after_notes(old(self).members(), old(self).runtime.notifications@),
            r.members_changed == notes_change(old(self).members(), old(self).runtime.notifications@),
    {
        let ghost sends = self.runtime.to_send@;
        let mut packets: Vec<(PeerAddr, Vec<u8>)> = Vec::new();
        while self.runtime.to_send.len() > 0
            invariant
                self.runtime.to_send@.len() <= sends.len(),
                self.runtime.to_send@ == sends.subrange(0, self.runtime.to_send@.len() as int),
                self.runtime.to_schedule@ == old(self).runtime.to_schedule@,
                self.runtime.notifications@ == old(self).runtime.notifications@,
                self.members == old(self).members,
                packets@.len() + self.runtime.to_send@.len() == sends.len(),
                forall|i: int| 0 <= i < packets@.len() ==> {
                    let sent = #[trigger] sends[sends.len() - 1 - i];
                    &&& packets@[i].0 == sent.0.addr
                    &&& packets@[i].1@ == sent.1@
                },
            decreases self.runtime.to_send@.len(),
        {
            let (dst, data) = self.runtime.to_send.pop().unwrap();
            packets.push((dst.addr, data));
            assert(self.runtime.to_send@ =~= sends.subrange(0, self.runtime.to_send@.len() as int));
        }
        let ghost timers_in = self.runtime.to_schedule@;
        let mut timers: Vec<(Duration, E)> = Vec::new();
        while self.runtime.to_schedule.len() > 0
            invariant
                self.runtime.to_schedule@.len() <= timers_in.len(),
                self.runtime.to_schedule@ == timers_in.subrange(0, self.runtime.to_schedule@.len() as int),
                self.runtime.to_send@.len() == 0,
                self.runtime.notifications@ == old(self).runtime.notifications@,
                self.members == old(self).members,
                timers@ == timers_in.subrange(self.runtime.to_schedule@.len() as int, timers_in.len() as int).reverse(),
            decreases self.runtime.to_schedule@.len(),
        {
            let ghost k = self.runtime.to_schedule@.len();
            let t = self.runtime.to_schedule.pop().unwrap();
            timers.push(t);
            assert(self.runtime.to_schedule@ =~= timers_in.subrange(0, k - 1));
            assert(timers@ =~= timers_in.subrange(k - 1, timers_in.len() as int).reverse());
        }
        assert(timers_in.subrange(0, timers_in.len() as int) =~= timers_in);
        let ghost notes = self.runtime.notifications@;
        let ghost start = self.members.counts();
        let mut changed = false;
        assert(notes.subrange(0, notes.len() as int) =~= notes);
        while self.runtime.notifications.len() > 0
            invariant
                self.members.wf(),
                self.runtime.to_send@.len() == 0,
                self.runtime.to_schedule@.len() == 0,
                self.runtime.notifications@.len() <= notes.len(),
                self.runtime.notifications@ == notes.subrange(0, self.runtime.notifications@.len() as int),
                counts_after_notes(start, notes) == counts_after_notes(
                    self.members.counts(),
                    self.runtime.notifications@,
                ),
                notes_change(start, notes) == (changed || notes_change(
                    self.members.counts(),
                    self.runtime.notifications@,
                )),
            decreases self.runtime.notifications@.len(),
        {
            let ghost k = self.runtime.notifications@.len();
            let note = self.runtime.notifications.pop().unwrap();
            assert(self.runtime.notifications@ =~= notes.subrange(0, k - 1));
            match note {
                Notification::MemberUp(id) => {
                    let up = self.members.add_member(id);
                    changed = changed || up;
                },
                Notification::MemberDown(id) => {
                    let down = self.members.remove_member(id);
                    changed = changed || down;
                },
                _ => {},
            }
        }
        proof {
            self.members.lemma_counts_positive();
        }
        StepOutput { packets, timers, members_changed: changed }
    }
}

} // verus!
