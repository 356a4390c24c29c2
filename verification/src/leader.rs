//! The leader's side: the registry of members, the discovery phase, and the
//! fan-out of track list and commands.

use crate::message::{encode, encoding, CommandCode, MessageView, SyncMessage};
use crate::peer::{fan_out, fan_out_spec, outgoing_views, Outgoing, OutgoingView, PeerAddr};
use crate::player::{Dispatch, Phase, PlaybackState};
use crate::text::{chars_of, starts_with};
use crate::track::{name_views, track_names, track_views, Track, TrackView};
use vstd::prelude::*;

verus! {

/// The time between two discovery probes, in milliseconds.
pub const PING_INTERVAL_MS: u64 = 500;

/// The time for which the leader listens for answers after each probe, in
/// milliseconds.
pub const LISTEN_WINDOW_MS: u64 = 100;

/// The port on which members listen.
pub const MEMBER_PORT: u16 = 12345;

/// The members with `addr` among them: put at the end where it is new,
/// unchanged where it is known.
pub open spec fn with_member(members: Seq<PeerAddr>, addr: PeerAddr) -> Seq<PeerAddr> {
    if members.contains(addr) {
        members
    } else {
        members.push(addr)
    }
}

/// The members after the answers of `responses` have come in, one after
/// another.
pub open spec fn with_members(members: Seq<PeerAddr>, responses: Seq<PeerAddr>) -> Seq<
    PeerAddr,
>
    decreases responses.len(),
{
    if responses.len() == 0 {
        members
    } else {
        with_members(with_member(members, responses.first()), responses.drop_first())
    }
}

/// The members that the leader has discovered, each address once, in the
/// order of their first answers.
pub struct MemberSet {
    addrs: Vec<PeerAddr>,
}

impl View for MemberSet {
    type V = Seq<PeerAddr>;

    closed spec fn view(&self) -> Seq<PeerAddr> {
        self.addrs@
    }
}

impl MemberSet {
    #[verifier::type_invariant]
    spec fn well_formed(&self) -> bool {
        self.addrs@.no_duplicates()
    }

    /// No members.
    pub fn new() -> (members: Self)
        ensures
            members@ == Seq::<PeerAddr>::empty(),
    {
        MemberSet { addrs: Vec::new() }
    }

    /// Whether `addr` is a member.
    pub fn contains(&self, addr: PeerAddr) -> (found: bool)
        ensures
            found == self@.contains(addr),
    {
        let mut i: usize = 0;
        while i < self.addrs.len()
            invariant
                i <= self.addrs.len(),
                forall|j: int| 0 <= j < i ==> self.addrs@[j] != addr,
            decreases self.addrs.len() - i,
        {
            if self.addrs[i] == addr {
                return true;
            }
            i += 1;
        }
        false
    }

    /// Takes in the address of a peer that answered. Says whether the
    /// address is new; one that is known changes nothing.
    pub fn insert(&mut self, addr: PeerAddr) -> (added: bool)
        ensures
            added == !old(self)@.contains(addr),
            final(self)@ == with_member(old(self)@, addr),
            final(self)@.contains(addr),
            final(self)@.no_duplicates(),
    {
        proof {
            use_type_invariant(&*self);
        }
        if self.contains(addr) {
            false
        } else {
            let mut addrs = self.addrs.clone();
            assert(addrs@ =~= self.addrs@);
            addrs.push(addr);
            assert(addrs@[addrs@.len() - 1] == addr);
            self.addrs = addrs;
            true
        }
    }

    /// The number of members.
    pub fn len(&self) -> (count: usize)
        ensures
            count == self@.len(),
    {
        self.addrs.len()
    }

    /// The members, each once, in the order of their first answers.
    pub fn addrs(&self) -> (addrs: &Vec<PeerAddr>)
        ensures
            addrs@ == self@,
            self@.no_duplicates(),
    {
        proof {
            use_type_invariant(self);
        }
        &self.addrs
    }
}

/// An answer adds at most one member, and none where its address is known:
/// the members stay free of duplicates and are the members before and the
/// address.
pub proof fn lemma_with_member(members: Seq<PeerAddr>, addr: PeerAddr)
    requires
        members.no_duplicates(),
    ensures
        with_member(members, addr).no_duplicates(),
        members.is_prefix_of(with_member(members, addr)),
        with_member(members, addr).to_set() == members.to_set().insert(addr),
        members.contains(addr) ==> with_member(members, addr) == members,
        !members.contains(addr) ==> with_member(members, addr).len() == members.len() + 1,
{
    let after = with_member(members, addr);
    if members.contains(addr) {
        assert(after.to_set() =~= members.to_set().insert(addr));
    } else {
        assert forall|i: int, j: int| 0 <= i < after.len() && 0 <= j < after.len() && i != j
            implies after[i] != after[j] by {
            if i < members.len() {
                assert(members.contains(after[i]));
            }
            if j < members.len() {
                assert(members.contains(after[j]));
            }
        }
        assert forall|a: PeerAddr| after.to_set().contains(a) <==> members.to_set().insert(
            addr,
        ).contains(a) by {
            if after.contains(a) {
                let i = choose|i: int| 0 <= i < after.len() && after[i] == a;
                if i < members.len() {
                    assert(members[i] == a);
                }
            }
            if members.contains(a) {
                let i = choose|i: int| 0 <= i < members.len() && members[i] == a;
                assert(after[i] == a);
            }
            if a == addr {
                assert(after[members.len() as int] == a);
            }
        }
        assert(after.to_set() =~= members.to_set().insert(addr));
    }
}

/// Membership is free of duplicates: however often and in whatever order
/// addresses answer, the members are the members before and the addresses
/// that answered, each once. So the number of members grows by at most one
/// for each distinct address among the answers. No member is ever dropped,
/// and the members keep the order of their first answers.
pub proof fn lemma_with_members(members: Seq<PeerAddr>, responses: Seq<PeerAddr>)
    requires
        members.no_duplicates(),
    ensures
        with_members(members, responses).no_duplicates(),
        members.is_prefix_of(with_members(members, responses)),
        with_members(members, responses).to_set() == members.to_set().union(responses.to_set()),
        with_members(members, responses).len() == members.to_set().union(
            responses.to_set(),
        ).len(),
        members.len() <= with_members(members, responses).len() <= members.len()
            + responses.to_set().len(),
    decreases responses.len(),
{
    let after = with_members(members, responses);
    if responses.len() == 0 {
        assert(responses.to_set() =~= Set::<PeerAddr>::empty());
        assert(members.to_set().union(responses.to_set()) =~= members.to_set());
    } else {
        let first = responses.first();
        let rest = responses.drop_first();
        let next = with_member(members, first);
        lemma_with_member(members, first);
        lemma_with_members(next, rest);
        assert forall|a: PeerAddr| responses.to_set().contains(a) <==> (a == first
            || rest.to_set().contains(a)) by {
            if responses.contains(a) {
                let i = choose|i: int| 0 <= i < responses.len() && responses[i] == a;
                if i > 0 {
                    assert(rest[i - 1] == a);
                }
            }
            if rest.contains(a) {
                let i = choose|i: int| 0 <= i < rest.len() && rest[i] == a;
                assert(responses[i + 1] == a);
            }
            if a == first {
                assert(responses[0] == a);
            }
        }
        assert(after.to_set() =~= members.to_set().union(responses.to_set()));
    }
    after.unique_seq_to_set();
    members.unique_seq_to_set();
    vstd::seq_lib::seq_to_set_is_finite(members);
    vstd::seq_lib::seq_to_set_is_finite(responses);
    vstd::set_lib::lemma_len_union(members.to_set(), responses.to_set());
    vstd::set_lib::lemma_len_subset(members.to_set(), after.to_set());
}

/// What the leader's discovery phase is to the contracts.
pub struct DiscoveryView {
    /// The sequence id of the last probe.
    pub broadcast_id: u64,
    /// The members discovered so far.
    pub members: Seq<PeerAddr>,
    /// Whether the operator has asked for the end of the phase.
    pub stopping: bool,
    /// Whether the phase is over.
    pub finished: bool,
}

impl DiscoveryView {
    /// Whether a further probe can go out: the end of the phase has not been
    /// asked for, and the sequence ids have not run out.
    pub open spec fn can_ping(self) -> bool {
        !self.stopping && !self.finished && self.broadcast_id < u64::MAX
    }
}

/// The leader's discovery phase: the probes it sends with rising sequence
/// ids, the members whose answers it has seen, and its end.
///
/// The phase ends in two steps. Once the operator has asked for its end no
/// further probe goes out, while answers to earlier probes still count. Once
/// it is over the members are settled, and each of them is told so.
pub struct LeaderDiscovery {
    broadcast_id: u64,
    members: MemberSet,
    stopping: bool,
    finished: bool,
}

impl View for LeaderDiscovery {
    type V = DiscoveryView;

    closed spec fn view(&self) -> DiscoveryView {
        DiscoveryView {
            broadcast_id: self.broadcast_id,
            members: self.members@,
            stopping: self.stopping,
            finished: self.finished,
        }
    }
}

impl LeaderDiscovery {
    /// The beginning of discovery: no probe sent, no member known.
    pub fn new() -> (discovery: Self)
        ensures
            discovery@ == (DiscoveryView {
                broadcast_id: 0,
                members: Seq::<PeerAddr>::empty(),
                stopping: false,
                finished: false,
            }),
    {
        LeaderDiscovery {
            broadcast_id: 0,
            members: MemberSet::new(),
            stopping: false,
            finished: false,
        }
    }

    /// The text of the next probe, with the next sequence id. There is none
    /// once the end of the phase has been asked for, or once the sequence
    /// ids have run out.
    pub fn next_ping(&mut self) -> (ping: Option<String>)
        ensures
            match ping {
                Some(text) => {
                    &&& old(self)@.can_ping()
                    &&& final(self)@ == (DiscoveryView {
                        broadcast_id: (old(self)@.broadcast_id + 1) as u64,
                        ..old(self)@
                    })
                    &&& text@ == encoding(
                        MessageView::Ping { sequence_id: final(self)@.broadcast_id },
                    )
                },
                None => !old(self)@.can_ping() && final(self)@ == old(self)@,
            },
    {
        if self.stopping || self.finished || self.broadcast_id == u64::MAX {
            None
        } else {
            self.broadcast_id = self.broadcast_id + 1;
            Some(encode(&SyncMessage::Ping { sequence_id: self.broadcast_id }))
        }
    }

    /// Takes in the address from which a datagram came in during discovery.
    /// Where the address is new, it becomes a member, and the new number of
    /// members is returned. An address that is known, or one that answers
    /// after the phase is over, changes nothing.
    pub fn record_response(&mut self, addr: PeerAddr) -> (growth: Option<usize>)
        ensures
            final(self)@ == (DiscoveryView {
                members: if old(self)@.finished {
                    old(self)@.members
                } else {
                    with_member(old(self)@.members, addr)
                },
                ..old(self)@
            }),
            growth == if old(self)@.finished || old(self)@.members.contains(addr) {
                None::<usize>
            } else {
                Some(final(self)@.members.len() as usize)
            },
            final(self)@.members.no_duplicates(),
    {
        let added = !self.finished && self.members.insert(addr);
        let count = self.members.addrs().len();
        if added {
            Some(count)
        } else {
            None
        }
    }

    /// Takes note that the operator has asked for the end of the phase: from
    /// now on no probe goes out.
    pub fn request_stop(&mut self)
        ensures
            final(self)@ == (DiscoveryView { stopping: true, ..old(self)@ }),
    {
        self.stopping = true;
    }

    /// Ends the phase. Returns the notice of its end, addressed once to each
    /// member known at that moment; a phase that is over already gives no
    /// further notices.
    pub fn finish(&mut self) -> (notices: Vec<Outgoing>)
        ensures
            final(self)@ == (DiscoveryView { stopping: true, finished: true, ..old(self)@ }),
            outgoing_views(notices@) == if old(self)@.finished {
                Seq::<OutgoingView>::empty()
            } else {
                fan_out_spec(old(self)@.members, encoding(MessageView::Terminate))
            },
            old(self)@.members.no_duplicates(),
    {
        let addrs = self.members.addrs();
        if self.finished {
            let notices: Vec<Outgoing> = Vec::new();
            assert(outgoing_views(notices@) =~= Seq::<OutgoingView>::empty());
            self.stopping = true;
            notices
        } else {
            let notice = encode(&SyncMessage::Terminate);
            let notices = fan_out(addrs, notice.as_str());
            self.stopping = true;
            self.finished = true;
            notices
        }
    }

    /// The sequence id of the last probe.
    pub fn broadcast_id(&self) -> (id: u64)
        ensures
            id == self@.broadcast_id,
    {
        self.broadcast_id
    }

    /// Whether the operator has asked for the end of the phase.
    pub fn is_stopping(&self) -> (stopping: bool)
        ensures
            stopping == self@.stopping,
    {
        self.stopping
    }

    /// Whether the phase is over.
    pub fn is_finished(&self) -> (finished: bool)
        ensures
            finished == self@.finished,
    {
        self.finished
    }

    /// The members discovered so far.
    pub fn members(&self) -> (members: &MemberSet)
        ensures
            members@ == self@.members,
    {
        &self.members
    }

    /// Gives up the members at the end of the phase.
    pub fn into_members(self) -> (members: MemberSet)
        ensures
            members@ == self@.members,
    {
        self.members
    }
}

/// The names of the tracks, in their order.
pub open spec fn names_of(tracks: Seq<TrackView>) -> Seq<Seq<char>> {
    Seq::new(tracks.len(), |i: int| tracks[i].name)
}

/// The playlist as the leader announces it: one track list, with the names
/// of the tracks in playing order, addressed to each member.
pub fn announce_tracks(members: &MemberSet, tracks: &Vec<Track>) -> (datagrams: Vec<Outgoing>)
    ensures
        outgoing_views(datagrams@) == fan_out_spec(
            members@,
            encoding(MessageView::TrackList { names: names_of(track_views(tracks@)) }),
        ),
{
    let names = track_names(tracks);
    assert(name_views(names@) =~= names_of(track_views(tracks@)));
    let text = encode(&SyncMessage::TrackList { names });
    fan_out(members.addrs(), text.as_str())
}

/// What a datagram that reaches the leader after discovery asks for.
#[derive(Clone, Copy, Debug, PartialEq, Eq, Structural)]
pub enum Request {
    /// An echo of the leader's own probes: to be passed over in silence.
    Echo,
    /// A member's request for a command.
    Command(CommandCode),
    /// Anything else: to be reported and dropped.
    Unknown,
}

/// What a piece of text asks of the leader: text that begins with `PING` is
/// an echo, one of the keys `p`, `n`, `s`, `r` with any whitespace around it
/// is a request for its command, and all other text is unknown.
pub open spec fn request_of(text: Seq<char>) -> Request {
    if "PING"@.is_prefix_of(text) {
        Request::Echo
    } else {
        match CommandCode::from_key_text(text) {
            Some(code) => Request::Command(code),
            None => Request::Unknown,
        }
    }
}

/// Reads a datagram that reached the leader after discovery.
pub fn member_request(text: &str) -> (request: Request)
    ensures
        request == request_of(text@),
{
    if starts_with(&chars_of(text), &chars_of("PING")) {
        Request::Echo
    } else {
        match CommandCode::from_key(text) {
            Some(code) => Request::Command(code),
            None => Request::Unknown,
        }
    }
}

/// What the leader does with a command: the datagrams that carry it to the
/// members, and what becomes of it on the leader itself.
pub struct CommandPlan {
    pub datagrams: Vec<Outgoing>,
    pub dispatch: Dispatch,
}

/// Handles a command on the leader, whether its own operator or a member
/// asked for it. The command goes out to every member with the given target
/// time, and is then taken in by the leader's own playback state like a
/// command that came in over the wire. Once the session has ended nothing
/// goes out any more.
pub fn handle_command(
    command: CommandCode,
    global_start_time: u64,
    members: &MemberSet,
    playback: &mut PlaybackState,
) -> (plan: CommandPlan)
    ensures
        outgoing_views(plan.datagrams@) == if old(playback)@.phase == Phase::Stopped {
            Seq::<OutgoingView>::empty()
        } else {
            fan_out_spec(
                members@,
                encoding(
                    MessageView::Command { code: command, target_time_ms: global_start_time },
                ),
            )
        },
        plan.dispatch == old(playback)@.dispatch(command.wire_number()),
        final(playback)@ == old(playback)@.after_mode(command.wire_number()),
        final(playback)@.valid(),
{
    if playback.is_stopped() {
        let dispatch = playback.handle_mode(command.number());
        let datagrams: Vec<Outgoing> = Vec::new();
        assert(outgoing_views(datagrams@) =~= Seq::<OutgoingView>::empty());
        CommandPlan { datagrams, dispatch }
    } else {
        let text = encode(
            &SyncMessage::Command { code: command, target_time_ms: global_start_time },
        );
        let datagrams = fan_out(members.addrs(), text.as_str());
        let dispatch = playback.handle_mode(command.number());
        CommandPlan { datagrams, dispatch }
    }
}

} // verus!
