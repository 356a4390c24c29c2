//! The playback state machine of a node: which track is current, whether
//! the progress display has to start over, and whether the session goes on.

use crate::message::CommandCode;
use crate::text::{
    all_whitespace, append_chars, chars_of, decimal, decimal_of, lemma_trim_padded, string_of,
};
use crate::track::{track_views, Track, TrackView};
use crate::utils::{
    duration_to_minutes_seconds, minutes_seconds, role_action, synchronized_action, SinkAction,
};
use vstd::prelude::*;

verus! {

/// Where the session of a node stands.
#[derive(Clone, Copy, Debug, PartialEq, Eq, Structural)]
pub enum Phase {
    /// Nothing has been played yet; the sink is held paused.
    AwaitingStart,
    /// The sink plays.
    Playing,
    /// The sink is paused.
    Paused,
    /// The session has ended, by a stop command or because the tracks ran
    /// out. Nothing leads out of this phase.
    Stopped,
}

/// What a node does with a command on its arrival.
#[derive(Clone, Copy, Debug, PartialEq, Eq, Structural)]
pub enum Dispatch {
    /// Wait until the target time, then fire the command.
    Schedule(CommandCode),
    /// There is no further track: say farewell and end the session at once.
    Exhausted,
    /// Do nothing: the mode stands for no command, or the session has ended.
    Ignore,
}

/// What the end-of-track watchdog finds.
#[derive(Clone, Copy, Debug, PartialEq, Eq, Structural)]
pub enum Watch {
    /// The current track still plays, or the session has ended.
    Idle,
    /// The current track has ended and the next one is current now.
    Advanced,
    /// The last track has ended: say farewell and end the session.
    Exhausted,
}

/// The action that a command asks for when it falls due: a toggle turns a
/// paused sink on and a playing one off, a skip skips, a stop ends the
/// session, and a restart starts the track again.
pub open spec fn command_action(code: CommandCode, paused: bool) -> SinkAction {
    match code {
        CommandCode::Toggle => if paused {
            SinkAction::Play
        } else {
            SinkAction::Pause
        },
        CommandCode::Next => SinkAction::SkipOne,
        CommandCode::Stop => SinkAction::Exit,
        CommandCode::Restart => SinkAction::SeekToStart,
    }
}

/// The key of a command alone reads as that command, and as a role it asks
/// for the action of that command.
pub proof fn lemma_key_names_command(code: CommandCode, paused: bool)
    ensures
        CommandCode::from_key_text(seq![code.key_char()]) == Some(code),
        role_action(seq![code.key_char()], paused) == command_action(code, paused),
{
    let key = seq![code.key_char()];
    let none = Seq::<char>::empty();
    assert(all_whitespace(none));
    lemma_trim_padded(none, key, none);
    assert(none + key + none =~= key);
}

/// The playback state of a node.
pub struct PlaybackState {
    tracks: Vec<Track>,
    current_track_index: usize,
    should_reset: bool,
    phase: Phase,
}

/// What the playback state is to the contracts.
pub struct PlaybackView {
    pub tracks: Seq<TrackView>,
    pub current_track_index: nat,
    pub should_reset: bool,
    pub phase: Phase,
}

impl PlaybackView {
    /// The index of the current track lies within the playlist as long as
    /// the session goes on.
    pub open spec fn valid(self) -> bool {
        &&& self.current_track_index <= self.tracks.len()
        &&& self.current_track_index == self.tracks.len() ==> self.phase == Phase::Stopped
    }

    /// The state in which a session over the given playlist begins. A
    /// session over no tracks has ended before it began.
    pub open spec fn initial(tracks: Seq<TrackView>) -> PlaybackView {
        PlaybackView {
            tracks,
            current_track_index: 0,
            should_reset: false,
            phase: if tracks.len() == 0 {
                Phase::Stopped
            } else {
                Phase::AwaitingStart
            },
        }
    }

    /// What to do with a command of the given mode on its arrival.
    pub open spec fn dispatch(self, mode: u64) -> Dispatch {
        if self.phase == Phase::Stopped {
            Dispatch::Ignore
        } else {
            match CommandCode::from_wire_number(mode) {
                None => Dispatch::Ignore,
                Some(CommandCode::Next) => if self.current_track_index + 1
                    >= self.tracks.len() {
                    Dispatch::Exhausted
                } else {
                    Dispatch::Schedule(CommandCode::Next)
                },
                Some(code) => Dispatch::Schedule(code),
            }
        }
    }

    /// The state after the arrival of a command of the given mode: a skip
    /// moves on to the next track at once, and ends the session where there
    /// is none.
    pub open spec fn after_mode(self, mode: u64) -> PlaybackView {
        match self.dispatch(mode) {
            Dispatch::Schedule(CommandCode::Next) => PlaybackView {
                current_track_index: self.current_track_index + 1,
                ..self
            },
            Dispatch::Exhausted => PlaybackView {
                current_track_index: self.current_track_index + 1,
                phase: Phase::Stopped,
                ..self
            },
            _ => self,
        }
    }

    /// What to do to the sink when a scheduled command falls due and the
    /// sink is found paused or not.
    pub open spec fn fired(self, code: CommandCode, paused: bool) -> SinkAction {
        if self.phase == Phase::Stopped {
            SinkAction::Nothing
        } else {
            command_action(code, paused)
        }
    }

    /// The state after a scheduled command has fallen due.
    pub open spec fn after_fire(self, code: CommandCode, paused: bool) -> PlaybackView {
        match self.fired(code, paused) {
            SinkAction::Play => PlaybackView { phase: Phase::Playing, ..self },
            SinkAction::Pause => PlaybackView { phase: Phase::Paused, ..self },
            SinkAction::SkipOne => PlaybackView { should_reset: true, ..self },
            SinkAction::Exit => PlaybackView { phase: Phase::Stopped, ..self },
            SinkAction::SeekToStart => self,
            SinkAction::Nothing => self,
        }
    }

    /// What the watchdog finds when the sink reports the given position in
    /// the current track.
    pub open spec fn watched(self, position_ms: u64) -> Watch {
        if self.phase == Phase::Stopped || self.current_track_index >= self.tracks.len() {
            Watch::Idle
        } else if position_ms < self.tracks[self.current_track_index as int].duration {
            Watch::Idle
        } else if self.current_track_index + 1 >= self.tracks.len() {
            Watch::Exhausted
        } else {
            Watch::Advanced
        }
    }

    /// The state after the watchdog has looked at the given position.
    pub open spec fn after_watch(self, position_ms: u64) -> PlaybackView {
        match self.watched(position_ms) {
            Watch::Idle => self,
            Watch::Advanced => PlaybackView {
                current_track_index: self.current_track_index + 1,
                should_reset: true,
                ..self
            },
            Watch::Exhausted => PlaybackView {
                current_track_index: self.current_track_index + 1,
                should_reset: true,
                phase: Phase::Stopped,
                ..self
            },
        }
    }
}

impl View for PlaybackState {
    type V = PlaybackView;

    closed spec fn view(&self) -> PlaybackView {
        PlaybackView {
            tracks: track_views(self.tracks@),
            current_track_index: self.current_track_index as nat,
            should_reset: self.should_reset,
            phase: self.phase,
        }
    }
}

impl PlaybackState {
    #[verifier::type_invariant]
    spec fn well_formed(&self) -> bool {
        self@.valid()
    }

    /// A session over the given playlist, at its first track, with the sink
    /// held paused.
    pub fn new(tracks: Vec<Track>) -> (state: Self)
        ensures
            state@ == PlaybackView::initial(track_views(tracks@)),
            state@.valid(),
    {
        let phase = if tracks.len() == 0 {
            Phase::Stopped
        } else {
            Phase::AwaitingStart
        };
        PlaybackState { tracks, current_track_index: 0, should_reset: false, phase }
    }

    /// The playlist.
    pub fn tracks(&self) -> (tracks: &Vec<Track>)
        ensures
            track_views(tracks@) == self@.tracks,
            self@.valid(),
    {
        proof {
            use_type_invariant(self);
        }
        &self.tracks
    }

    /// The index of the current track.
    pub fn current_track_index(&self) -> (index: usize)
        ensures
            index == self@.current_track_index,
            self@.valid(),
    {
        proof {
            use_type_invariant(self);
        }
        self.current_track_index
    }

    /// The current track, as long as there is one.
    pub fn current_track(&self) -> (track: Option<&Track>)
        ensures
            self@.valid(),
            match track {
                Some(track) => self@.current_track_index < self@.tracks.len() && track@
                    == self@.tracks[self@.current_track_index as int],
                None => self@.current_track_index == self@.tracks.len(),
            },
    {
        proof {
            use_type_invariant(self);
        }
        if self.current_track_index < self.tracks.len() {
            Some(&self.tracks[self.current_track_index])
        } else {
            None
        }
    }

    /// Whether the progress display has to start over.
    pub fn should_reset(&self) -> (flag: bool)
        ensures
            flag == self@.should_reset,
    {
        self.should_reset
    }

    /// The phase of the session.
    pub fn phase(&self) -> (phase: Phase)
        ensures
            phase == self@.phase,
    {
        self.phase
    }

    /// Whether the session has ended.
    pub fn is_stopped(&self) -> (stopped: bool)
        ensures
            stopped == (self@.phase == Phase::Stopped),
    {
        self.phase == Phase::Stopped
    }

    /// Takes in a command of the given mode on its arrival and says what to
    /// do with it. A skip moves on to the next track at once; where there is
    /// none, the session ends.
    pub fn handle_mode(&mut self, mode: u64) -> (dispatch: Dispatch)
        ensures
            dispatch == old(self)@.dispatch(mode),
            final(self)@ == old(self)@.after_mode(mode),
            final(self)@.valid(),
    {
        proof {
            use_type_invariant(&*self);
        }
        if self.phase == Phase::Stopped {
            return Dispatch::Ignore;
        }
        assert(self.current_track_index < self.tracks.len());
        match CommandCode::from_number(mode) {
            None => Dispatch::Ignore,
            Some(CommandCode::Next) => {
                if self.current_track_index + 1 >= self.tracks.len() {
                    self.phase = Phase::Stopped;
                    self.current_track_index = self.current_track_index + 1;
                    Dispatch::Exhausted
                } else {
                    self.current_track_index = self.current_track_index + 1;
                    Dispatch::Schedule(CommandCode::Next)
                }
            },
            Some(code) => Dispatch::Schedule(code),
        }
    }

    /// Fires a scheduled command whose target time has come: says what to do
    /// to the sink, which was found paused or not, and takes note of it.
    pub fn fire(&mut self, code: CommandCode, paused: bool) -> (action: SinkAction)
        ensures
            action == old(self)@.fired(code, paused),
            final(self)@ == old(self)@.after_fire(code, paused),
            final(self)@.valid(),
    {
        proof {
            use_type_invariant(&*self);
        }
        if self.phase == Phase::Stopped {
            return SinkAction::Nothing;
        }
        let action = match code {
            CommandCode::Toggle => synchronized_action("p", paused),
            CommandCode::Next => synchronized_action("n", paused),
            CommandCode::Stop => synchronized_action("s", paused),
            CommandCode::Restart => synchronized_action("r", paused),
        };
        proof {
            reveal_strlit("p");
            reveal_strlit("n");
            reveal_strlit("s");
            reveal_strlit("r");
            assert("p"@ =~= seq!['p']);
            assert("n"@ =~= seq!['n']);
            assert("s"@ =~= seq!['s']);
            assert("r"@ =~= seq!['r']);
            lemma_key_names_command(code, paused);
        }
        match action {
            SinkAction::Play => {
                self.phase = Phase::Playing;
            },
            SinkAction::Pause => {
                self.phase = Phase::Paused;
            },
            SinkAction::SkipOne => {
                self.should_reset = true;
            },
            SinkAction::Exit => {
                self.phase = Phase::Stopped;
            },
            SinkAction::SeekToStart => {},
            SinkAction::Nothing => {},
        }
        action
    }

    /// Looks at the position that the sink reports in the current track.
    /// Once the position has reached the length of the track, the next track
    /// becomes current and the progress display is to start over; where
    /// there is no next track, the session ends.
    pub fn check_position(&mut self, position_ms: u64) -> (watch: Watch)
        ensures
            watch == old(self)@.watched(position_ms),
            final(self)@ == old(self)@.after_watch(position_ms),
            final(self)@.valid(),
    {
        proof {
            use_type_invariant(&*self);
        }
        if self.phase == Phase::Stopped || self.current_track_index >= self.tracks.len() {
            return Watch::Idle;
        }
        if position_ms < self.tracks[self.current_track_index].duration {
            return Watch::Idle;
        }
        self.should_reset = true;
        if self.current_track_index + 1 >= self.tracks.len() {
            self.phase = Phase::Stopped;
            self.current_track_index = self.current_track_index + 1;
            Watch::Exhausted
        } else {
            self.current_track_index = self.current_track_index + 1;
            Watch::Advanced
        }
    }

    /// Reads the flag that tells the progress display to start over, and
    /// clears it.
    pub fn take_reset(&mut self) -> (flag: bool)
        ensures
            flag == old(self)@.should_reset,
            final(self)@ == (PlaybackView { should_reset: false, ..old(self)@ }),
            final(self)@.valid(),
    {
        proof {
            use_type_invariant(&*self);
        }
        let flag = self.should_reset;
        self.should_reset = false;
        flag
    }
}

/// The width of the progress bar, in characters.
pub const BAR_WIDTH: usize = 50;

/// How many characters of the progress bar are filled at the given position
/// in a track of the given length: the bar's width times the part of the
/// track that has been played, rounded to the nearest whole, halves up. The
/// bar is full from the end of the track on, and for a track of no length.
pub open spec fn bar_fill(position_ms: u64, duration_ms: u64) -> nat {
    if position_ms >= duration_ms {
        BAR_WIDTH as nat
    } else {
        ((2 * position_ms * BAR_WIDTH + duration_ms) / (2 * duration_ms)) as nat
    }
}

/// The bar is never filled beyond its width, and a track that has played
/// further is never shown with less of the bar filled.
pub proof fn lemma_bar_fill(position_ms: u64, later_ms: u64, duration_ms: u64)
    requires
        position_ms <= later_ms,
    ensures
        bar_fill(position_ms, duration_ms) <= BAR_WIDTH,
        bar_fill(position_ms, duration_ms) <= bar_fill(later_ms, duration_ms),
{
    let width = BAR_WIDTH as int;
    let d = duration_ms as int;
    if position_ms < duration_ms {
        let p = 2 * position_ms * width + d;
        assert(p < (width + 1) * (2 * d)) by (nonlinear_arith)
            requires
                p == 2 * position_ms * width + d,
                0 <= position_ms < d,
                width == 50,
        ;
        vstd::arithmetic::div_mod::lemma_div_by_multiple_is_strongly_ordered(
            p,
            (width + 1) * (2 * d),
            width + 1,
            2 * d,
        );
        vstd::arithmetic::div_mod::lemma_div_multiples_vanish(width + 1, 2 * d);
        if later_ms < duration_ms {
            let q = 2 * later_ms * width + d;
            assert(p <= q) by (nonlinear_arith)
                requires
                    p == 2 * position_ms * width + d,
                    q == 2 * later_ms * width + d,
                    position_ms <= later_ms,
                    width == 50,
            ;
            vstd::arithmetic::div_mod::lemma_div_is_ordered(p, q, 2 * d);
        }
    }
}

/// `count` times the character `c`.
pub open spec fn repeated(c: char, count: nat) -> Seq<char> {
    Seq::new(count, |i: int| c)
}

/// The line of the progress display: a carriage return, the state of the
/// sink and the name of the track, the bar between brackets, the position
/// and the length as minutes and seconds, and a tab.
pub open spec fn progress_line_spec(
    paused: bool,
    track_name: Seq<char>,
    position_ms: u64,
    duration_ms: u64,
) -> Seq<char> {
    let filled = bar_fill(position_ms, duration_ms);
    let status = if paused {
        "Paused"@
    } else {
        "Playing"@
    };
    seq!['\r'] + status + ": "@ + track_name + " ["@ + repeated('=', filled) + repeated(
        ' ',
        (BAR_WIDTH - filled) as nat,
    ) + "] "@ + minutes_seconds((position_ms / 1000) as nat) + " / "@ + minutes_seconds(
        (duration_ms / 1000) as nat,
    ) + seq!['\t']
}

/// How many characters of the progress bar are filled.
pub fn progress_fill(position_ms: u64, duration_ms: u64) -> (filled: usize)
    ensures
        filled == bar_fill(position_ms, duration_ms),
        filled <= BAR_WIDTH,
{
    proof {
        lemma_bar_fill(position_ms, position_ms, duration_ms);
    }
    if position_ms >= duration_ms {
        BAR_WIDTH
    } else {
        let part: u128 = 2 * (position_ms as u128) * (BAR_WIDTH as u128) + (duration_ms as u128);
        (part / (2 * (duration_ms as u128))) as usize
    }
}

fn push_repeated(out: &mut Vec<char>, c: char, count: usize)
    ensures
        final(out)@ == old(out)@ + repeated(c, count as nat),
{
    let mut i: usize = 0;
    assert(out@ =~= old(out)@ + repeated(c, 0));
    while i < count
        invariant
            i <= count,
            out@ == old(out)@ + repeated(c, i as nat),
        decreases count - i,
    {
        out.push(c);
        i += 1;
        assert(out@ =~= old(out)@ + repeated(c, i as nat));
    }
}

/// Renders the line of the progress display.
pub fn progress_line(paused: bool, track_name: &str, position_ms: u64, duration_ms: u64) -> (line:
    String)
    ensures
        line@ == progress_line_spec(paused, track_name@, position_ms, duration_ms),
{
    let filled = progress_fill(position_ms, duration_ms);
    let mut out: Vec<char> = Vec::new();
    out.push('\r');
    assert(out@ =~= seq!['\r']);
    if paused {
        append_chars(&mut out, &chars_of("Paused"));
    } else {
        append_chars(&mut out, &chars_of("Playing"));
    }
    append_chars(&mut out, &chars_of(": "));
    append_chars(&mut out, &chars_of(track_name));
    append_chars(&mut out, &chars_of(" ["));
    push_repeated(&mut out, '=', filled);
    push_repeated(&mut out, ' ', BAR_WIDTH - filled);
    append_chars(&mut out, &chars_of("] "));
    append_chars(&mut out, &chars_of(duration_to_minutes_seconds(position_ms / 1000).as_str()));
    append_chars(&mut out, &chars_of(" / "));
    append_chars(&mut out, &chars_of(duration_to_minutes_seconds(duration_ms / 1000).as_str()));
    let ghost before = out@;
    out.push('\t');
    assert(out@ =~= before + seq!['\t']);
    string_of(&out)
}

/// The line of the playlist for the track at the given position: a tab, the
/// number of the track, counted from one, its name, and its length as
/// minutes and seconds in brackets.
pub open spec fn playlist_line(index: nat, track: TrackView) -> Seq<char> {
    seq!['\t'] + decimal(index + 1) + ": "@ + track.name + " ("@ + minutes_seconds(
        (track.duration / 1000) as nat,
    ) + ")"@
}

/// The lines of the playlist, one for each track, in playing order.
pub fn playlist_lines(tracks: &Vec<Track>) -> (lines: Vec<String>)
    ensures
        lines@.len() == tracks@.len(),
        forall|i: int|
            0 <= i < tracks@.len() ==> #[trigger] lines@[i]@ == playlist_line(
                i as nat,
                tracks@[i]@,
            ),
{
    let mut lines: Vec<String> = Vec::new();
    let mut i: usize = 0;
    while i < tracks.len()
        invariant
            i <= tracks.len(),
            lines@.len() == i,
            forall|j: int|
                0 <= j < i ==> #[trigger] lines@[j]@ == playlist_line(j as nat, tracks@[j]@),
        decreases tracks.len() - i,
    {
        let track = &tracks[i];
        let mut out: Vec<char> = Vec::new();
        out.push('\t');
        assert(out@ =~= seq!['\t']);
        append_chars(&mut out, &decimal_of((i + 1) as u64));
        append_chars(&mut out, &chars_of(": "));
        append_chars(&mut out, &chars_of(track.name.as_str()));
        append_chars(&mut out, &chars_of(" ("));
        append_chars(
            &mut out,
            &chars_of(duration_to_minutes_seconds(track.duration / 1000).as_str()),
        );
        append_chars(&mut out, &chars_of(")"));
        lines.push(string_of(&out));
        i += 1;
    }
    lines
}

/// Something that happens to the playback state of a node.
pub enum Event {
    /// A command of the given mode arrives.
    Mode(u64),
    /// A scheduled command falls due, and the sink is found paused or not.
    Fire(CommandCode, bool),
    /// The watchdog looks at the position that the sink reports.
    Watch(u64),
    /// The progress display reads the reset flag and clears it.
    TakeReset,
}

impl PlaybackView {
    /// The state after an event.
    pub open spec fn after_event(self, event: Event) -> PlaybackView {
        match event {
            Event::Mode(mode) => self.after_mode(mode),
            Event::Fire(code, paused) => self.after_fire(code, paused),
            Event::Watch(position_ms) => self.after_watch(position_ms),
            Event::TakeReset => PlaybackView { should_reset: false, ..self },
        }
    }

    /// The state after a run of events, one after another.
    pub open spec fn after_events(self, events: Seq<Event>) -> PlaybackView
        decreases events.len(),
    {
        if events.len() == 0 {
            self
        } else {
            self.after_event(events.first()).after_events(events.drop_first())
        }
    }
}

/// Throughout a session, whatever happens and in whatever order: the
/// playlist stays as it is, the index of the current track never goes back
/// and never leaves the playlist while the session goes on, and a session
/// that has ended stays ended at the track at which it ended.
pub proof fn lemma_session(state: PlaybackView, events: Seq<Event>)
    requires
        state.valid(),
    ensures
        state.after_events(events).valid(),
        state.after_events(events).tracks == state.tracks,
        state.after_events(events).current_track_index >= state.current_track_index,
        state.phase == Phase::Stopped ==> {
            &&& state.after_events(events).phase == Phase::Stopped
            &&& state.after_events(events).current_track_index == state.current_track_index
        },
    decreases events.len(),
{
    if events.len() > 0 {
        lemma_session(state.after_event(events.first()), events.drop_first());
    }
}

/// Every step keeps the index of the current track within the playlist as
/// long as the session goes on.
pub proof fn lemma_steps_keep_valid(
    state: PlaybackView,
    mode: u64,
    code: CommandCode,
    paused: bool,
    position_ms: u64,
)
    requires
        state.valid(),
    ensures
        state.after_mode(mode).valid(),
        state.after_fire(code, paused).valid(),
        state.after_watch(position_ms).valid(),
{
}

/// No step moves the index of the current track back, and none changes the
/// playlist.
pub proof fn lemma_index_never_decreases(
    state: PlaybackView,
    mode: u64,
    code: CommandCode,
    paused: bool,
    position_ms: u64,
)
    ensures
        state.after_mode(mode).current_track_index >= state.current_track_index,
        state.after_fire(code, paused).current_track_index >= state.current_track_index,
        state.after_watch(position_ms).current_track_index >= state.current_track_index,
        state.after_mode(mode).tracks == state.tracks,
        state.after_fire(code, paused).tracks == state.tracks,
        state.after_watch(position_ms).tracks == state.tracks,
{
}

/// Nothing leads out of the end of a session: every command is ignored, no
/// command that falls due touches the sink, the watchdog finds nothing, and
/// the state stays as it is.
pub proof fn lemma_stopped_is_final(
    state: PlaybackView,
    mode: u64,
    code: CommandCode,
    paused: bool,
    position_ms: u64,
)
    requires
        state.phase == Phase::Stopped,
    ensures
        state.dispatch(mode) == Dispatch::Ignore,
        state.fired(code, paused) == SinkAction::Nothing,
        state.watched(position_ms) == Watch::Idle,
        state.after_mode(mode) == state,
        state.after_fire(code, paused) == state,
        state.after_watch(position_ms) == state,
{
}

/// A skip at the last track ends the session at once: nothing is scheduled,
/// and the state is at its end.
pub proof fn lemma_skip_at_last_track(state: PlaybackView)
    requires
        state.valid(),
        state.phase != Phase::Stopped,
        state.current_track_index + 1 == state.tracks.len(),
    ensures
        state.dispatch(CommandCode::Next.wire_number()) == Dispatch::Exhausted,
        state.after_mode(CommandCode::Next.wire_number()).phase == Phase::Stopped,
{
}

/// The end of the last track ends the session like a skip does.
pub proof fn lemma_end_of_last_track(state: PlaybackView, position_ms: u64)
    requires
        state.valid(),
        state.phase != Phase::Stopped,
        state.current_track_index + 1 == state.tracks.len(),
        position_ms >= state.tracks[state.current_track_index as int].duration,
    ensures
        state.watched(position_ms) == Watch::Exhausted,
        state.after_watch(position_ms).phase == Phase::Stopped,
        state.after_watch(position_ms).current_track_index == state.after_mode(
            CommandCode::Next.wire_number(),
        ).current_track_index,
{
}

} // verus!
