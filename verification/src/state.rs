use vstd::prelude::*;
use vstd::string::*;

verus! {

/// Battery report of one component (left bud, right bud or case).
#[derive(Clone, Copy, Debug, PartialEq, Eq, Structural)]
pub struct BatteryInfo {
    /// Percentage, absent when the component is not reporting.
    pub level: Option<u8>,
    pub charging: bool,
}

impl BatteryInfo {
    /// The report of a component that is not present.
    pub open spec fn absent() -> BatteryInfo {
        BatteryInfo { level: None, charging: false }
    }
}

/// Everything the bridge knows about the headset.
#[derive(Clone, Debug)]
pub struct AirPodsState {
    pub device_name: String,
    pub model_name: String,
    pub anc_mode: Option<String>,
    pub connected: bool,
    pub left: BatteryInfo,
    pub right: BatteryInfo,
    pub case: BatteryInfo,
    pub session_fd: Option<i32>,
    pub seq: u8,
    pub last_hash: String,
    pub debug_mode: bool,
}

/// Mathematical model of [`AirPodsState`]: the strings are taken by their
/// characters.
pub struct StateView {
    pub device_name: Seq<char>,
    pub model_name: Seq<char>,
    pub anc_mode: Option<Seq<char>>,
    pub connected: bool,
    pub left: BatteryInfo,
    pub right: BatteryInfo,
    pub case: BatteryInfo,
    pub session_fd: Option<i32>,
    pub seq: u8,
    pub last_hash: Seq<char>,
    pub debug_mode: bool,
}

pub open spec fn opt_string_view(o: Option<String>) -> Option<Seq<char>> {
    match o {
        Some(s) => Some(s@),
        None => None,
    }
}

impl View for AirPodsState {
    type V = StateView;

    open spec fn view(&self) -> StateView {
        StateView {
            device_name: self.device_name@,
            model_name: self.model_name@,
            anc_mode: opt_string_view(self.anc_mode),
            connected: self.connected,
            left: self.left,
            right: self.right,
            case: self.case,
            session_fd: self.session_fd,
            seq: self.seq,
            last_hash: self.last_hash@,
            debug_mode: self.debug_mode,
        }
    }
}

impl Default for AirPodsState {
    fn default() -> (s: Self)
        ensures
            s@.device_name == "AirPods"@,
            s@.model_name == "Unknown"@,
            s@.anc_mode is None,
            !s@.connected,
            s@.left == BatteryInfo::absent(),
            s@.right == BatteryInfo::absent(),
            s@.case == BatteryInfo::absent(),
            s@.session_fd is None,
            s@.seq == 1,
            s@.last_hash == Seq::<char>::empty(),
            !s@.debug_mode,
    {
        AirPodsState {
            device_name: String::from_str("AirPods"),
            model_name: String::from_str("Unknown"),
            anc_mode: None,
            connected: false,
            left: BatteryInfo { level: None, charging: false },
            right: BatteryInfo { level: None, charging: false },
            case: BatteryInfo { level: None, charging: false },
            session_fd: None,
            seq: 0x01,
            last_hash: String::new(),
            debug_mode: false,
        }
    }
}


/// What the heartbeat task does on a tick.
#[derive(Clone, Copy, Debug, PartialEq, Eq, Structural)]
pub enum Heartbeat {
    /// The headset is gone: the heartbeat ends.
    Stop,
    /// Connected, but no session to send on yet.
    Wait,
    /// Ask for notifications on this session.
    Send(i32),
}

impl AirPodsState {
    /// Keeps `current` as the last JSON shown and says whether it differs
    /// from the one before, that is, whether it is to be printed.
    pub fn record_json(&mut self, current: String) -> (fresh: bool)
        ensures
            fresh == json_is_fresh(old(self)@, current@),
            final(self)@ == json_recorded(old(self)@, current@),
    {
        let fresh = !<String as PartialEq>::eq(&self.last_hash, &current);
        self.last_hash = current;
        fresh
    }

    /// The headset opened a connection to the profile.
    pub fn mark_connected(&mut self)
        ensures
            final(self)@ == connected_state(old(self)@),
    {
        self.connected = true;
    }

    /// A protocol session runs on the socket `fd`.
    pub fn begin_session(&mut self, fd: i32)
        ensures
            final(self)@ == session_begun(old(self)@, fd),
    {
        self.session_fd = Some(fd);
    }

    /// The protocol session ended: the headset counts as disconnected.
    pub fn end_session(&mut self)
        ensures
            final(self)@ == session_ended(old(self)@),
    {
        self.connected = false;
        self.session_fd = None;
    }

    /// Takes the name and model of the headset that discovery found.
    pub fn set_identity(&mut self, device_name: String, model_name: String)
        ensures
            final(self)@ == (StateView {
                device_name: device_name@,
                model_name: model_name@,
                ..old(self)@
            }),
    {
        self.device_name = device_name;
        self.model_name = model_name;
    }

    /// What the heartbeat does now.
    pub fn heartbeat(&self) -> (h: Heartbeat)
        ensures
            h == heartbeat_of(self@),
    {
        if !self.connected {
            Heartbeat::Stop
        } else {
            match self.session_fd {
                Some(fd) => Heartbeat::Send(fd),
                None => Heartbeat::Wait,
            }
        }
    }
}

/// What the session does with the result of one read of the socket.
#[derive(Clone, Copy, Debug, PartialEq, Eq, Structural)]
pub enum ReadOutcome {
    /// That many bytes arrived: parse them.
    Received(usize),
    /// Nothing to read yet: wait for the socket again.
    Retry,
    /// The peer closed the socket or the read failed: the session ends.
    Finished,
}

/// Classifies the value `n` that a read returned; `would_block` says
/// whether a failed read failed only because no data was there yet.
pub fn read_outcome(n: isize, would_block: bool) -> (r: ReadOutcome)
    ensures
        n > 0 ==> r == ReadOutcome::Received(n as usize),
        n == 0 ==> r == ReadOutcome::Finished,
        n < 0 ==> r == (if would_block { ReadOutcome::Retry } else { ReadOutcome::Finished }),
{
    if n > 0 {
        ReadOutcome::Received(n as usize)
    } else if n == 0 {
        ReadOutcome::Finished
    } else if would_block {
        ReadOutcome::Retry
    } else {
        ReadOutcome::Finished
    }
}


/// Whether `json` differs from the last JSON shown in `v`.
pub open spec fn json_is_fresh(v: StateView, json: Seq<char>) -> bool {
    v.last_hash != json
}

/// `v` with `json` as the last JSON shown.
pub open spec fn json_recorded(v: StateView, json: Seq<char>) -> StateView {
    StateView { last_hash: json, ..v }
}

/// `v` once the headset connected to the profile.
pub open spec fn connected_state(v: StateView) -> StateView {
    StateView { connected: true, ..v }
}

/// `v` once a session runs on `fd`.
pub open spec fn session_begun(v: StateView, fd: i32) -> StateView {
    StateView { session_fd: Some(fd), ..v }
}

/// `v` once the session ended.
pub open spec fn session_ended(v: StateView) -> StateView {
    StateView { connected: false, session_fd: None, ..v }
}

/// What the heartbeat does in state `v`.
pub open spec fn heartbeat_of(v: StateView) -> Heartbeat {
    if !v.connected {
        Heartbeat::Stop
    } else {
        match v.session_fd {
            Some(fd) => Heartbeat::Send(fd),
            None => Heartbeat::Wait,
        }
    }
}

/// The same JSON is shown once: right after it was recorded, it is not
/// fresh any more.
pub proof fn law_json_shown_once(v: StateView, json: Seq<char>)
    ensures
        !json_is_fresh(json_recorded(v, json), json),
{
}

/// Once the session ended, the heartbeat stops.
pub proof fn law_heartbeat_stops_after_session(v: StateView)
    ensures
        heartbeat_of(session_ended(v)) == Heartbeat::Stop,
{
}

/// Once connected with a session on `fd`, the heartbeat asks for
/// notifications on that session.
pub proof fn law_heartbeat_uses_session(v: StateView, fd: i32)
    ensures
        heartbeat_of(session_begun(connected_state(v), fd)) == Heartbeat::Send(fd),
{
}

} // verus!
