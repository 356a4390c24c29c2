//! The member's side: binding to a leader during discovery, requests to the
//! leader, and the messages that come in from it.

use crate::message::{
    command_numbers, decode, decode_command, decoding, CommandCode, DecodeError, MessageView,
    SyncMessage,
};
use crate::leader::{request_of, Request};
use crate::peer::{Outgoing, OutgoingView, PeerAddr};
use crate::player::{lemma_key_names_command, Dispatch, PlaybackState};
use crate::text::string_of;
use crate::track::{select_tracks, selected_views, track_views, Track, TrackView};
use vstd::prelude::*;

verus! {

/// What a member knows during discovery: the highest sequence id it has
/// accepted, and the leader it is bound to, if any.
#[derive(Clone, Copy, Debug, PartialEq, Eq, Structural)]
pub struct MemberDiscovery {
    pub last_received_id: u64,
    pub leader_addr: Option<PeerAddr>,
}

/// A discovery probe as a member sees it: its sequence id and the address
/// it came from.
pub struct Probe {
    pub sequence_id: u64,
    pub src: PeerAddr,
}

impl MemberDiscovery {
    /// Whether a probe with the given sequence id is answered: its id is
    /// above every id accepted so far, and no leader is bound yet.
    pub open spec fn acknowledges(self, sequence_id: u64) -> bool {
        sequence_id > self.last_received_id && self.leader_addr is None
    }

    /// The state after a probe: an id above those accepted so far is
    /// accepted, and its sender becomes the leader where there was none.
    pub open spec fn after_ping(self, sequence_id: u64, src: PeerAddr) -> MemberDiscovery {
        if sequence_id > self.last_received_id {
            MemberDiscovery {
                last_received_id: sequence_id,
                leader_addr: if self.leader_addr is None {
                    Some(src)
                } else {
                    self.leader_addr
                },
            }
        } else {
            self
        }
    }

    /// The state after a run of probes, one after another.
    pub open spec fn after_pings(self, probes: Seq<Probe>) -> MemberDiscovery
        decreases probes.len(),
    {
        if probes.len() == 0 {
            self
        } else {
            self.after_ping(probes.first().sequence_id, probes.first().src).after_pings(
                probes.drop_first(),
            )
        }
    }

    /// The number of probes of a run that are answered.
    pub open spec fn acknowledged(self, probes: Seq<Probe>) -> nat
        decreases probes.len(),
    {
        if probes.len() == 0 {
            0
        } else {
            let rest = self.after_ping(
                probes.first().sequence_id,
                probes.first().src,
            ).acknowledged(probes.drop_first());
            if self.acknowledges(probes.first().sequence_id) {
                1 + rest
            } else {
                rest
            }
        }
    }

    /// The position in a run of the first probe whose id is above the ids
    /// accepted so far, or the length of the run where there is none.
    pub open spec fn first_fresh(self, probes: Seq<Probe>) -> int
        decreases probes.len(),
    {
        if probes.len() == 0 || probes.first().sequence_id > self.last_received_id {
            0
        } else {
            1 + self.first_fresh(probes.drop_first())
        }
    }

    /// A member that has seen no probe and is bound to no leader.
    pub fn new() -> (state: Self)
        ensures
            state == (MemberDiscovery { last_received_id: 0, leader_addr: None }),
    {
        MemberDiscovery { last_received_id: 0, leader_addr: None }
    }

    /// Takes in a probe. Says whether it is to be answered with an `ACK` to
    /// its sender, who is then the leader.
    pub fn handle_ping_message(&mut self, sequence_id: u64, src: PeerAddr) -> (ack: bool)
        ensures
            ack == old(self).acknowledges(sequence_id),
            *final(self) == old(self).after_ping(sequence_id, src),
    {
        if sequence_id > self.last_received_id {
            self.last_received_id = sequence_id;
            if self.leader_addr.is_none() {
                self.leader_addr = Some(src);
                return true;
            }
        }
        false
    }
}

/// A member that is bound to a leader answers no probe and stays bound to
/// that leader, whatever the probe's id and sender.
pub proof fn lemma_bound_member_ignores_pings(
    state: MemberDiscovery,
    sequence_id: u64,
    src: PeerAddr,
)
    requires
        state.leader_addr is Some,
    ensures
        !state.acknowledges(sequence_id),
        state.after_ping(sequence_id, src).leader_addr == state.leader_addr,
{
}

/// A probe whose id is not above the highest id accepted so far changes
/// nothing and is not answered.
pub proof fn lemma_stale_ping_ignored(state: MemberDiscovery, sequence_id: u64, src: PeerAddr)
    requires
        sequence_id <= state.last_received_id,
    ensures
        !state.acknowledges(sequence_id),
        state.after_ping(sequence_id, src) == state,
{
}

/// The highest accepted id never goes down, and a leader once bound stays.
pub proof fn lemma_pings_monotonic(state: MemberDiscovery, probes: Seq<Probe>)
    ensures
        state.after_pings(probes).last_received_id >= state.last_received_id,
        state.leader_addr is Some ==> state.after_pings(probes).leader_addr
            == state.leader_addr,
        state.leader_addr is Some ==> state.acknowledged(probes) == 0,
    decreases probes.len(),
{
    if probes.len() > 0 {
        lemma_pings_monotonic(
            state.after_ping(probes.first().sequence_id, probes.first().src),
            probes.drop_first(),
        );
    }
}

/// Of a run of probes an unbound member answers exactly one: the first
/// whose id is above the ids it has accepted, whose sender is its leader
/// from then on. Where the run holds no such probe it answers none and
/// stays unbound. No run is answered twice.
pub proof fn lemma_first_fresh_ping_binds(state: MemberDiscovery, probes: Seq<Probe>)
    requires
        state.leader_addr is None,
    ensures
        0 <= state.first_fresh(probes) <= probes.len(),
        state.first_fresh(probes) < probes.len() ==> {
            &&& state.acknowledged(probes) == 1
            &&& state.after_pings(probes).leader_addr == Some(
                probes[state.first_fresh(probes)].src,
            )
        },
        state.first_fresh(probes) == probes.len() ==> {
            &&& state.acknowledged(probes) == 0
            &&& state.after_pings(probes) == state
        },
    decreases probes.len(),
{
    if probes.len() == 0 {
    } else if probes.first().sequence_id > state.last_received_id {
        lemma_pings_monotonic(
            state.after_ping(probes.first().sequence_id, probes.first().src),
            probes.drop_first(),
        );
    } else {
        let rest = probes.drop_first();
        lemma_first_fresh_ping_binds(state, rest);
        if state.first_fresh(rest) < rest.len() {
            assert(rest[state.first_fresh(rest)] == probes[state.first_fresh(probes)]);
        }
    }
}

/// Whatever the probes, a member answers at most one of them.
pub proof fn lemma_at_most_one_ack(state: MemberDiscovery, probes: Seq<Probe>)
    ensures
        state.acknowledged(probes) <= 1,
{
    if state.leader_addr is None {
        lemma_first_fresh_ping_binds(state, probes);
    } else {
        lemma_pings_monotonic(state, probes);
    }
}

/// What a member does with a datagram during discovery.
#[derive(Clone, Copy, Debug, PartialEq, Eq, Structural)]
pub enum DiscoveryStep {
    /// Answer the sender with an `ACK`: it is the leader now.
    Acknowledge,
    /// Do nothing.
    Ignore,
    /// Discovery is over.
    Finished,
}

/// What a member does with a piece of text that reaches it during
/// discovery: a probe is answered or not as its id and the binding say, the
/// notice of the end of discovery ends the phase, and anything else is
/// passed over.
pub open spec fn discovery_step(state: MemberDiscovery, text: Seq<char>) -> DiscoveryStep {
    match decoding(text) {
        Ok(MessageView::Ping { sequence_id }) => if state.acknowledges(sequence_id) {
            DiscoveryStep::Acknowledge
        } else {
            DiscoveryStep::Ignore
        },
        Ok(MessageView::Terminate) => DiscoveryStep::Finished,
        _ => DiscoveryStep::Ignore,
    }
}

/// The member's state after a piece of text has reached it during
/// discovery: only a probe changes it.
pub open spec fn after_discovery_message(
    state: MemberDiscovery,
    text: Seq<char>,
    src: PeerAddr,
) -> MemberDiscovery {
    match decoding(text) {
        Ok(MessageView::Ping { sequence_id }) => state.after_ping(sequence_id, src),
        _ => state,
    }
}

/// Takes in a datagram that reaches a member during discovery.
pub fn handle_discovery_message(state: &mut MemberDiscovery, text: &str, src: PeerAddr) -> (step:
    DiscoveryStep)
    ensures
        step == discovery_step(*old(state), text@),
        *final(state) == after_discovery_message(*old(state), text@, src),
{
    match decode(text) {
        Ok(SyncMessage::Ping { sequence_id }) => {
            if state.handle_ping_message(sequence_id, src) {
                DiscoveryStep::Acknowledge
            } else {
                DiscoveryStep::Ignore
            }
        },
        Ok(SyncMessage::Terminate) => DiscoveryStep::Finished,
        _ => DiscoveryStep::Ignore,
    }
}

/// Why a line of operator input leads to no request.
#[derive(Clone, Copy, Debug, PartialEq, Eq, Structural)]
pub enum InputError {
    /// The member is bound to no leader yet.
    LeaderUnknown,
    /// The line is none of the keys `p`, `n`, `s`, `r`.
    UnknownCommand,
}

/// What a member sends for a line of operator input: where a leader is
/// bound and the line is one of the keys, the bare key, to the leader and
/// to nobody else.
pub open spec fn member_request_of(leader_addr: Option<PeerAddr>, input: Seq<char>) -> Result<
    OutgoingView,
    InputError,
> {
    match leader_addr {
        None => Err(InputError::LeaderUnknown),
        Some(addr) => match CommandCode::from_key_text(input) {
            None => Err(InputError::UnknownCommand),
            Some(code) => Ok(OutgoingView { to: addr, payload: seq![code.key_char()] }),
        },
    }
}

/// Turns a line of operator input on a member into the request to send to
/// the leader.
pub fn member_input(leader_addr: Option<PeerAddr>, input: &str) -> (request: Result<
    Outgoing,
    InputError,
>)
    ensures
        match request {
            Ok(datagram) => member_request_of(leader_addr, input@) == Ok::<
                OutgoingView,
                InputError,
            >(datagram@),
            Err(error) => member_request_of(leader_addr, input@) == Err::<
                OutgoingView,
                InputError,
            >(error),
        },
{
    match leader_addr {
        None => Err(InputError::LeaderUnknown),
        Some(addr) => match CommandCode::from_key(input) {
            None => Err(InputError::UnknownCommand),
            Some(code) => {
                let mut key: Vec<char> = Vec::new();
                key.push(code.key());
                assert(key@ =~= seq![code.key_char()]);
                Ok(Outgoing { to: addr, payload: string_of(&key) })
            },
        },
    }
}

/// A request arrives as it was meant: what a member sends for a line of
/// operator input, the leader reads as a request for the command that the
/// line asked for.
pub proof fn lemma_request_round_trip(leader_addr: PeerAddr, input: Seq<char>)
    requires
        member_request_of(Some(leader_addr), input) is Ok,
    ensures
        CommandCode::from_key_text(input) is Some,
        request_of(member_request_of(Some(leader_addr), input)->Ok_0.payload)
            == Request::Command(CommandCode::from_key_text(input)->Some_0),
{
    reveal_strlit("PING");
    let code = CommandCode::from_key_text(input)->Some_0;
    lemma_key_names_command(code, true);
}

/// The playlist that a piece of text announces: the text has to be a track
/// list, and the playlist is made of those of the member's own tracks that
/// the list names, in the member's order.
pub open spec fn announced_playlist(text: Seq<char>, tracks: Seq<TrackView>) -> Option<
    Seq<TrackView>,
> {
    match decoding(text) {
        Ok(MessageView::TrackList { names }) => Some(selected_views(tracks, names)),
        _ => None,
    }
}

/// Takes in the leader's announcement of the playlist. Text that is no
/// track list gives no playlist.
pub fn receive_track_list(text: &str, tracks: &Vec<Track>) -> (playlist: Option<Vec<Track>>)
    ensures
        match playlist {
            Some(selected) => announced_playlist(text@, track_views(tracks@)) == Some(
                track_views(selected@),
            ),
            None => announced_playlist(text@, track_views(tracks@)) is None,
        },
{
    match decode(text) {
        Ok(SyncMessage::TrackList { names }) => Some(select_tracks(tracks, &names)),
        _ => None,
    }
}

/// A command that came in, and what is to be done with it.
#[derive(Clone, Copy, Debug, PartialEq, Eq, Structural)]
pub struct Scheduled {
    pub dispatch: Dispatch,
    pub target_time_ms: u64,
}

/// Takes in a datagram that reaches a member during playback. Text that
/// names a mode and a target time is handed to the playback state; other
/// text is reported with the reason and changes nothing.
pub fn handle_incoming_message(text: &str, playback: &mut PlaybackState) -> (result: Result<
    Scheduled,
    DecodeError,
>)
    ensures
        match command_numbers(text@) {
            Ok((mode, target_time_ms)) => {
                &&& result == Ok::<Scheduled, DecodeError>(
                    Scheduled { dispatch: old(playback)@.dispatch(mode), target_time_ms },
                )
                &&& final(playback)@ == old(playback)@.after_mode(mode)
                &&& final(playback)@.valid()
            },
            Err(error) => {
                &&& result == Err::<Scheduled, DecodeError>(error)
                &&& final(playback)@ == old(playback)@
            },
        },
{
    match decode_command(text) {
        Ok((mode, target_time_ms)) => {
            let dispatch = playback.handle_mode(mode);
            Ok(Scheduled { dispatch, target_time_ms })
        },
        Err(error) => Err(error),
    }
}

} // verus!
