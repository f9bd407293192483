use vstd::prelude::*;
use vstd::string::*;

use crate::protocol::{
    anc_payload, build_anc_payload, law_anc_payload_layout, law_command_echo, mode_name, parse_effect,
};
use crate::state::{AirPodsState, StateView};
use crate::text::str_eq;

verus! {

/// The mode that a cycle command asks for when the headset is in mode
/// `current`: Off, then Noise Cancellation, then Transparency, then Off
/// again; from any other mode, Noise Cancellation.
pub open spec fn cycle_target(current: Seq<char>) -> u8 {
    if current == "Off"@ {
        2
    } else if current == "Noise Cancellation"@ {
        3
    } else if current == "Transparency"@ {
        1
    } else {
        2
    }
}

/// The opcodes with which a cycle command is sent, in order.
pub open spec fn cycle_opcodes() -> Seq<u8> {
    seq![0x0du8, 0x01u8]
}

/// What a cycle command sends, and on which session.
pub struct CyclePlan {
    /// The session socket.
    pub fd: i32,
    /// The messages, in the order in which they are sent.
    pub payloads: Vec<Vec<u8>>,
    /// The sequence number once the messages are sent.
    pub next_seq: u8,
    /// Only one bud reports a level: the headset may refuse the change.
    pub single_earbud: bool,
}

/// The mode to ask for next.
pub fn next_anc_mode(current: &String) -> (t: u8)
    ensures
        t == cycle_target(current@),
{
    let c = current.as_str();
    if str_eq(c, "Off") {
        2
    } else if str_eq(c, "Noise Cancellation") {
        3
    } else if str_eq(c, "Transparency") {
        1
    } else {
        2
    }
}

/// The messages that move the headset in state `s` to its next
/// noise-control mode; none while there is no session or no known mode.
pub fn plan_cycle(s: &AirPodsState) -> (r: Option<CyclePlan>)
    ensures
        r is None <==> (s.session_fd is None || s.anc_mode is None),
        r matches Some(p) ==> {
            let target = cycle_target(s.anc_mode.unwrap()@);
            &&& s.session_fd == Some(p.fd)
            &&& p.payloads@.len() == cycle_opcodes().len()
            &&& forall|k: int|
                0 <= k < p.payloads@.len() ==> (#[trigger] p.payloads@[k])@ == anc_payload(
                    target,
                    s.seq,
                    cycle_opcodes()[k],
                )
            &&& p.next_seq == s.seq.wrapping_add(1)
            &&& p.single_earbud == !(s.left.level is Some && s.right.level is Some)
        },
{
    match (s.session_fd, &s.anc_mode) {
        (Some(fd), Some(mode)) => {
            let target = next_anc_mode(mode);
            let first = build_anc_payload(target, s.seq, 0x0d);
            let second = build_anc_payload(target, s.seq, 0x01);
            let payloads = vec![first, second];
            Some(
                CyclePlan {
                    fd,
                    payloads,
                    next_seq: s.seq.wrapping_add(1),
                    single_earbud: !(s.left.level.is_some() && s.right.level.is_some()),
                },
            )
        },
        _ => None,
    }
}

/// Answers a command received on the control socket (already trimmed):
/// `cycle` plans a change of noise-control mode; anything else is ignored.
pub fn handle_command(cmd: &str, s: &AirPodsState) -> (r: Option<CyclePlan>)
    ensures
        r is Some <==> (cmd@ == "cycle"@ && s.session_fd is Some && s.anc_mode is Some),
        r matches Some(p) ==> {
            let target = cycle_target(s.anc_mode.unwrap()@);
            &&& s.session_fd == Some(p.fd)
            &&& p.payloads@.len() == cycle_opcodes().len()
            &&& forall|k: int|
                0 <= k < p.payloads@.len() ==> (#[trigger] p.payloads@[k])@ == anc_payload(
                    target,
                    s.seq,
                    cycle_opcodes()[k],
                )
            &&& p.next_seq == s.seq.wrapping_add(1)
            &&& p.single_earbud == !(s.left.level is Some && s.right.level is Some)
        },
{
    if str_eq(cmd, "cycle") {
        plan_cycle(s)
    } else {
        None
    }
}

/// Name of the mode that a cycle command asks for from mode `current`.
pub open spec fn next_mode_name(current: Seq<char>) -> Option<Seq<char>> {
    mode_name(cycle_target(current))
}

/// The cycle runs Off, Noise Cancellation, Transparency and back to Off;
/// from any other mode (Adaptive) it goes to Noise Cancellation.
pub proof fn law_cycle_order(current: Seq<char>)
    ensures
        next_mode_name("Off"@) == Some("Noise Cancellation"@),
        next_mode_name("Noise Cancellation"@) == Some("Transparency"@),
        next_mode_name("Transparency"@) == Some("Off"@),
        current != "Off"@ && current != "Noise Cancellation"@ && current != "Transparency"@
            ==> next_mode_name(current) == Some("Noise Cancellation"@),
{
    reveal_strlit("Off");
    reveal_strlit("Noise Cancellation");
    reveal_strlit("Transparency");
}

/// When the headset sends back either message of a cycle command, with
/// both buds reporting a level, the state takes the next mode of the cycle
/// and the sequence number after the command's.
pub proof fn law_cycle_echo(v: StateView, current: Seq<char>, k: int)
    requires
        v.left.level is Some,
        v.right.level is Some,
        v.anc_mode == Some(current),
        0 <= k < cycle_opcodes().len(),
    ensures
        ({
            let w = parse_effect(
                v,
                anc_payload(cycle_target(current), v.seq, cycle_opcodes()[k]),
            ).0;
            &&& w.anc_mode == next_mode_name(current)
            &&& w.seq == v.seq.wrapping_add(1)
        }),
{
    law_command_echo(v, cycle_target(current), v.seq, cycle_opcodes()[k]);
}


/// A cycle sends two frames for the chosen mode and the current sequence
/// number: first one with opcode `0x0d`, then one with opcode `0x01`.
pub proof fn law_cycle_frames(target: u8, seq: u8)
    ensures
        cycle_opcodes().len() == 2,
        anc_payload(target, seq, cycle_opcodes()[0])[6] == 0x0d,
        anc_payload(target, seq, cycle_opcodes()[1])[6] == 0x01,
        anc_payload(target, seq, cycle_opcodes()[0])[7] == target,
        anc_payload(target, seq, cycle_opcodes()[1])[7] == target,
        anc_payload(target, seq, cycle_opcodes()[0])[8] == seq,
        anc_payload(target, seq, cycle_opcodes()[1])[8] == seq,
{
    law_anc_payload_layout(target, seq, cycle_opcodes()[0]);
    law_anc_payload_layout(target, seq, cycle_opcodes()[1]);
}

} // verus!
