use vstd::prelude::*;
use vstd::string::*;

use crate::state::{AirPodsState, BatteryInfo, StateView, opt_string_view};

verus! {

// ---------------------------------------------------------------------------
// Frames of the Apple Accessory Protocol (AAP)
// ---------------------------------------------------------------------------

/// Opening handshake sent once the L2CAP channel is up.
pub const HANDSHAKE: [u8; 16] = [
    0x00, 0x00, 0x04, 0x00, 0x01, 0x00, 0x02, 0x00, 0x00, 0x00, 0x00, 0x00, 0x00, 0x00, 0x00, 0x00,
];

/// Asks the headset to send its notifications (battery, noise control).
pub const REQUEST_NOTIF: [u8; 10] = [0x04, 0x00, 0x04, 0x00, 0x0f, 0x00, 0xff, 0xff, 0xff, 0xff];

/// The six bytes that open a battery report.
pub open spec fn batt_prefix() -> Seq<u8> {
    seq![0x04u8, 0x00u8, 0x04u8, 0x00u8, 0x04u8, 0x00u8]
}

/// The bytes of a noise-control command: `opcode` selects the message,
/// `next_mode` the wanted mode and `seq` the sequence number.
pub open spec fn anc_payload(next_mode: u8, seq: u8, opcode: u8) -> Seq<u8> {
    seq![
        0x04u8, 0x00u8, 0x04u8, 0x00u8, 0x0au8, 0x00u8, opcode, next_mode, seq, 0x01u8, 0x00u8,
        0x00u8, 0x00u8, 0x00u8, 0x00u8, 0x00u8,
    ]
}

pub fn build_anc_payload(next_mode: u8, seq: u8, opcode: u8) -> (p: Vec<u8>)
    ensures
        p@ == anc_payload(next_mode, seq, opcode),
{
    let p = vec![
        0x04, 0x00, 0x04, 0x00, 0x0a, 0x00, opcode, next_mode, seq, 0x01, 0x00, 0x00, 0x00, 0x00,
        0x00, 0x00,
    ];
    assert(p@ =~= anc_payload(next_mode, seq, opcode));
    p
}

// ---------------------------------------------------------------------------
// What a received chunk means
// ---------------------------------------------------------------------------

/// A battery report starts at `i`.
pub open spec fn prefix_at(data: Seq<u8>, i: int) -> bool {
    0 <= i && i + 6 <= data.len() && data.subrange(i, i + 6) == batt_prefix()
}

/// `i` is the first place where a battery report starts.
pub open spec fn first_report_at(data: Seq<u8>, i: int) -> bool {
    prefix_at(data, i) && forall|j: int| 0 <= j < i ==> !prefix_at(data, j)
}

/// Where the first battery report of `data` starts, if there is one.
pub open spec fn battery_report_start(data: Seq<u8>) -> Option<int> {
    if exists|i: int| first_report_at(data, i) {
        Some(choose|i: int| first_report_at(data, i))
    } else {
        None
    }
}

/// Number of battery records read from a report `sub` (which starts with
/// the prefix): the count that it announces, but no more than fit whole.
pub open spec fn records_read(sub: Seq<u8>) -> nat {
    if sub.len() < 7 {
        0
    } else {
        let announced = sub[6] as nat;
        let fit: nat = if sub.len() >= 12 { ((sub.len() - 12) / 5 + 1) as nat } else { 0 };
        if announced <= fit { announced } else { fit }
    }
}

/// The battery information that a record carries.
pub open spec fn battery_info(raw: u8, status: u8) -> BatteryInfo {
    BatteryInfo { level: if raw > 100 { None } else { Some(raw) }, charging: status % 2 == 1 }
}

/// Stores `info` in the component that `kind` names; reports whether it changed.
pub open spec fn apply_battery(v: StateView, kind: u8, info: BatteryInfo) -> (StateView, bool) {
    if kind == 0x01 || kind == 0x04 {
        if v.left != info { (StateView { left: info, ..v }, true) } else { (v, false) }
    } else if kind == 0x02 {
        if v.right != info { (StateView { right: info, ..v }, true) } else { (v, false) }
    } else if kind == 0x08 {
        if v.case != info { (StateView { case: info, ..v }, true) } else { (v, false) }
    } else {
        (v, false)
    }
}

/// The component that record `k` of the report `sub` is about.
pub open spec fn record_kind(sub: Seq<u8>, k: int) -> u8 {
    sub[7 + 5 * k]
}

/// The battery information that record `k` of the report `sub` carries.
pub open spec fn record_battery(sub: Seq<u8>, k: int) -> BatteryInfo {
    battery_info(sub[7 + 5 * k + 2], sub[7 + 5 * k + 3])
}

/// The effect of the first `n` records of the report `sub`.
pub open spec fn apply_records(v: StateView, sub: Seq<u8>, n: nat) -> (StateView, bool)
    decreases n,
{
    if n == 0 {
        (v, false)
    } else {
        let (v1, c1) = apply_records(v, sub, (n - 1) as nat);
        let (v2, c2) = apply_battery(v1, record_kind(sub, n - 1), record_battery(sub, n - 1));
        (v2, c1 || c2)
    }
}

/// The effect of the battery report of `data`, if any.
pub open spec fn apply_battery_report(v: StateView, data: Seq<u8>) -> (StateView, bool) {
    match battery_report_start(data) {
        Some(i) => {
            let sub = data.subrange(i, data.len() as int);
            apply_records(v, sub, records_read(sub))
        },
        None => (v, false),
    }
}

/// Name of a noise-control mode.
pub open spec fn mode_name(m: u8) -> Option<Seq<char>> {
    if m == 1 {
        Some("Off"@)
    } else if m == 2 {
        Some("Noise Cancellation"@)
    } else if m == 3 {
        Some("Transparency"@)
    } else if m == 4 {
        Some("Adaptive"@)
    } else {
        None
    }
}

pub open spec fn is_anc_opcode(op: u8) -> bool {
    op == 0x01 || op == 0x0d || op == 0x0e
}

/// A noise-control message starts at `i`.
pub open spec fn anc_message_at(data: Seq<u8>, i: int) -> bool {
    &&& data[i] == 0x04
    &&& data[i + 1] == 0x00
    &&& data[i + 2] == 0x04
    &&& data[i + 3] == 0x00
    &&& is_anc_opcode(data[i + 6])
}

/// The effect of the bytes at `i` on the noise-control state.
pub open spec fn apply_anc_at(v: StateView, data: Seq<u8>, i: int) -> (StateView, bool) {
    if anc_message_at(data, i) {
        let v1 = StateView { seq: data[i + 8].wrapping_add(1), ..v };
        match mode_name(data[i + 7]) {
            Some(name) => if v1.anc_mode != Some(name) {
                (StateView { anc_mode: Some(name), ..v1 }, true)
            } else {
                (v1, false)
            },
            None => (v1, false),
        }
    } else {
        (v, false)
    }
}

/// The effect of the positions before `n` on the noise-control state.
pub open spec fn apply_anc_scan(v: StateView, data: Seq<u8>, n: nat) -> (StateView, bool)
    decreases n,
{
    if n == 0 {
        (v, false)
    } else {
        let (v1, c1) = apply_anc_scan(v, data, (n - 1) as nat);
        let (v2, c2) = apply_anc_at(v1, data, n - 1);
        (v2, c1 || c2)
    }
}

/// Positions at which a noise-control message is looked for.
pub open spec fn anc_positions(data: Seq<u8>) -> nat {
    if data.len() > 9 { (data.len() - 9) as nat } else { 0 }
}

/// The new state after `data` was received in state `v`, and whether
/// anything that is shown to the user changed.
pub open spec fn parse_effect(v: StateView, data: Seq<u8>) -> (StateView, bool) {
    let (v1, c1) = apply_battery_report(v, data);
    if !(v1.left.level is Some && v1.right.level is Some) {
        if v1.anc_mode is Some {
            (StateView { anc_mode: None, ..v1 }, true)
        } else {
            (v1, c1)
        }
    } else {
        let (v2, c2) = apply_anc_scan(v1, data, anc_positions(data));
        (v2, c1 || c2)
    }
}

// ---------------------------------------------------------------------------
// Parsing
// ---------------------------------------------------------------------------

/// Whether the battery prefix stands at `i`.
fn prefix_matches(data: &[u8], i: usize) -> (r: bool)
    requires
        i + 6 <= data@.len(),
    ensures
        r == prefix_at(data@, i as int),
{
    let r = data[i] == 0x04 && data[i + 1] == 0x00 && data[i + 2] == 0x04 && data[i + 3] == 0x00
        && data[i + 4] == 0x04 && data[i + 5] == 0x00;
    if r {
        assert(data@.subrange(i as int, i + 6) =~= batt_prefix());
    } else {
        assert(data@.subrange(i as int, i + 6) != batt_prefix()) by {
            if data@.subrange(i as int, i + 6) == batt_prefix() {
                assert(data@.subrange(i as int, i + 6)[0] == data@[i as int]);
                assert(data@.subrange(i as int, i + 6)[1] == data@[i + 1]);
                assert(data@.subrange(i as int, i + 6)[2] == data@[i + 2]);
                assert(data@.subrange(i as int, i + 6)[3] == data@[i + 3]);
                assert(data@.subrange(i as int, i + 6)[4] == data@[i + 4]);
                assert(data@.subrange(i as int, i + 6)[5] == data@[i + 5]);
            }
        }
    }
    r
}

/// Finds the first battery report.
fn find_battery_report(data: &[u8]) -> (r: Option<usize>)
    ensures
        r matches Some(i) ==> battery_report_start(data@) == Some(i as int),
        r is None ==> battery_report_start(data@) is None,
{
    if data.len() < 6 {
        assert(!exists|i: int| first_report_at(data@, i));
        return None;
    }
    let last = data.len() - 6;
    let mut i: usize = 0;
    while i <= last
        invariant
            last + 6 == data.len(),
            i <= last + 1,
            forall|j: int| 0 <= j < i ==> !prefix_at(data@, j),
        decreases last + 1 - i,
    {
        if prefix_matches(data, i) {
            assert(first_report_at(data@, i as int));
            let ghost c = choose|k: int| first_report_at(data@, k);
            assert(c == i as int) by {
                assert(first_report_at(data@, c));
                if c < i {
                } else if c > i {
                    assert(!prefix_at(data@, i as int));
                }
            }
            return Some(i);
        }
        i += 1;
    }
    assert(!exists|k: int| first_report_at(data@, k));
    None
}

/// The battery information that a record carries.
fn record_info(raw: u8, status: u8) -> (info: BatteryInfo)
    ensures
        info == battery_info(raw, status),
{
    assert((status & 0x01) != 0 <==> status % 2 == 1) by (bit_vector);
    BatteryInfo { level: if raw > 100 { None } else { Some(raw) }, charging: (status & 0x01) != 0 }
}

/// Stores `info` in the component that `kind` names.
fn store_battery(s: &mut AirPodsState, kind: u8, info: BatteryInfo) -> (changed: bool)
    ensures
        (final(s)@, changed) == apply_battery(old(s)@, kind, info),
{
    match kind {
        0x01 | 0x04 => {
            if s.left.level != info.level || s.left.charging != info.charging {
                s.left = info;
                true
            } else {
                false
            }
        },
        0x02 => {
            if s.right.level != info.level || s.right.charging != info.charging {
                s.right = info;
                true
            } else {
                false
            }
        },
        0x08 => {
            if s.case.level != info.level || s.case.charging != info.charging {
                s.case = info;
                true
            } else {
                false
            }
        },
        _ => false,
    }
}


/// The name of a noise-control mode, as a `String`.
fn mode_string(m: u8) -> (r: Option<String>)
    ensures
        opt_string_view(r) == mode_name(m),
{
    match m {
        1 => Some(String::from_str("Off")),
        2 => Some(String::from_str("Noise Cancellation")),
        3 => Some(String::from_str("Transparency")),
        4 => Some(String::from_str("Adaptive")),
        _ => None,
    }
}

/// Whether the current mode `cur` differs from the mode named `name`.
fn mode_differs(cur: &Option<String>, name: &String) -> (r: bool)
    ensures
        r == (opt_string_view(*cur) != Some(name@)),
{
    match cur {
        Some(c) => !<String as PartialEq>::eq(c, name),
        None => true,
    }
}

/// Reads one chunk received from the headset and updates the state: battery
/// levels from the first battery report, then, while both buds report a
/// level, the noise-control mode and the sequence number from every
/// noise-control message (the mode is forgotten while a bud is missing).
/// Returns whether anything shown to the user changed.
pub fn parse_data(data: &[u8], s: &mut AirPodsState) -> (changed: bool)
    ensures
        (final(s)@, changed) == parse_effect(old(s)@, data@),
{
    let ghost v0 = s@;
    let mut changed = false;
    if let Some(idx) = find_battery_report(data) {
        let len = data.len() - idx;
        let ghost sub = data@.subrange(idx as int, data@.len() as int);
        assert(sub.len() == len);
        if len >= 7 {
            let count = data[idx + 6];
            assert(sub[6] == count);
            let mut pos: usize = 7;
            let mut k: u8 = 0;
            loop
                invariant_except_break
                    k <= count,
                invariant
                    idx + len == data.len(),
                    sub == data@.subrange(idx as int, data@.len() as int),
                    sub.len() == len,
                    len >= 7,
                    sub[6] == count,
                    pos == 7 + 5 * k,
                    k == 0 || 5 * (k - 1) + 12 <= len,
                    (s@, changed) == apply_records(v0, sub, k as nat),
                ensures
                    k as nat == records_read(sub),
                    (s@, changed) == apply_records(v0, sub, k as nat),
                decreases count - k,
            {
                if k >= count {
                    break;
                }
                if pos + 4 >= len {
                    break;
                }
                let (kind, raw, status) = (data[idx + pos], data[idx + pos + 2], data[idx + pos + 3]);
                assert(kind == sub[pos as int] && raw == sub[pos + 2] && status == sub[pos + 3]);
                let info = record_info(raw, status);
                let c = store_battery(s, kind, info);
                changed = changed || c;
                pos += 5;
                k += 1;
            }
        }
        assert(apply_battery_report(v0, data@) == (s@, changed));
    } else {
        assert(apply_battery_report(v0, data@) == (s@, changed));
    }
    let ghost v1 = s@;
    let ghost c1 = changed;
    let both_ears_connected = s.left.level.is_some() && s.right.level.is_some();
    if !both_ears_connected {
        if s.anc_mode.is_some() {
            s.anc_mode = None;
            changed = true;
        }
    } else {
        let n: usize = if data.len() > 9 { data.len() - 9 } else { 0 };
        let ghost mut c2 = false;
        let mut i: usize = 0;
        while i < n
            invariant
                n == anc_positions(data@),
                i <= n,
                n + 9 <= data.len() || n == 0,
                (s@, c2) == apply_anc_scan(v1, data@, i as nat),
                changed == (c1 || c2),
            decreases n - i,
        {
            if data[i] == 0x04 && data[i + 1] == 0x00 && data[i + 2] == 0x04 && data[i + 3] == 0x00 {
                let op = data[i + 6];
                if op == 0x01 || op == 0x0d || op == 0x0e {
                    let m = data[i + 7];
                    s.seq = data[i + 8].wrapping_add(1);
                    let mode = mode_string(m);
                    if let Some(name) = mode {
                        if mode_differs(&s.anc_mode, &name) {
                            s.anc_mode = Some(name);
                            changed = true;
                            proof {
                                c2 = true;
                            }
                        }
                    }
                }
            }
            i += 1;
        }
    }
    changed
}


// ---------------------------------------------------------------------------
// Laws of the parser
// ---------------------------------------------------------------------------

/// Every reported battery level is a percentage.
pub open spec fn levels_are_percentages(v: StateView) -> bool {
    &&& (v.left.level matches Some(l) ==> l <= 100)
    &&& (v.right.level matches Some(l) ==> l <= 100)
    &&& (v.case.level matches Some(l) ==> l <= 100)
}

/// `w` differs from `v` at most in the batteries, the noise-control mode
/// and the sequence number.
pub open spec fn same_identity(v: StateView, w: StateView) -> bool {
    &&& w.device_name == v.device_name
    &&& w.model_name == v.model_name
    &&& w.connected == v.connected
    &&& w.session_fd == v.session_fd
    &&& w.last_hash == v.last_hash
    &&& w.debug_mode == v.debug_mode
}

proof fn lemma_records_frame(v: StateView, sub: Seq<u8>, n: nat)
    ensures
        same_identity(v, apply_records(v, sub, n).0),
        apply_records(v, sub, n).0.anc_mode == v.anc_mode,
        apply_records(v, sub, n).0.seq == v.seq,
        levels_are_percentages(v) ==> levels_are_percentages(apply_records(v, sub, n).0),
        !apply_records(v, sub, n).1 ==> apply_records(v, sub, n).0 == v,
    decreases n,
{
    if n > 0 {
        lemma_records_frame(v, sub, (n - 1) as nat);
    }
}

proof fn lemma_scan_frame(v: StateView, data: Seq<u8>, n: nat)
    ensures
        same_identity(v, apply_anc_scan(v, data, n).0),
        apply_anc_scan(v, data, n).0.left == v.left,
        apply_anc_scan(v, data, n).0.right == v.right,
        apply_anc_scan(v, data, n).0.case == v.case,
        !apply_anc_scan(v, data, n).1 ==> apply_anc_scan(v, data, n).0 == (StateView {
            seq: apply_anc_scan(v, data, n).0.seq,
            ..v
        }),
    decreases n,
{
    if n > 0 {
        lemma_scan_frame(v, data, (n - 1) as nat);
    }
}

proof fn lemma_battery_report_frame(v: StateView, data: Seq<u8>)
    ensures
        same_identity(v, apply_battery_report(v, data).0),
        apply_battery_report(v, data).0.anc_mode == v.anc_mode,
        apply_battery_report(v, data).0.seq == v.seq,
        levels_are_percentages(v) ==> levels_are_percentages(apply_battery_report(v, data).0),
        !apply_battery_report(v, data).1 ==> apply_battery_report(v, data).0 == v,
{
    match battery_report_start(data) {
        Some(i) => {
            let sub = data.subrange(i, data.len() as int);
            lemma_records_frame(v, sub, records_read(sub));
        },
        None => {},
    }
}

/// Receiving data changes only what the headset reports: the batteries,
/// the noise-control mode and the sequence number. The name, model,
/// connection, session, last shown JSON and debug flag stay as they were.
pub proof fn law_parse_keeps_identity(v: StateView, data: Seq<u8>)
    ensures
        same_identity(v, parse_effect(v, data).0),
{
    lemma_battery_report_frame(v, data);
    let (v1, c1) = apply_battery_report(v, data);
    lemma_scan_frame(v1, data, anc_positions(data));
}

/// A battery level, once a percentage, stays one: a record with a level
/// above 100 makes the level unknown.
pub proof fn law_levels_stay_percentages(v: StateView, data: Seq<u8>)
    requires
        levels_are_percentages(v),
    ensures
        levels_are_percentages(parse_effect(v, data).0),
{
    lemma_battery_report_frame(v, data);
    let (v1, c1) = apply_battery_report(v, data);
    lemma_scan_frame(v1, data, anc_positions(data));
}

/// After any data, a noise-control mode is known only while both buds
/// report a battery level.
pub proof fn law_mode_needs_both_buds(v: StateView, data: Seq<u8>)
    ensures
        parse_effect(v, data).0.anc_mode is Some ==> (parse_effect(v, data).0.left.level is Some
            && parse_effect(v, data).0.right.level is Some),
{
    let (v1, c1) = apply_battery_report(v, data);
    lemma_scan_frame(v1, data, anc_positions(data));
}

/// Data for which the parser reports no change leaves every field of the
/// state as it was, except the sequence number.
pub proof fn law_quiet_data_changes_only_seq(v: StateView, data: Seq<u8>)
    ensures
        !parse_effect(v, data).1 ==> parse_effect(v, data).0 == (StateView {
            seq: parse_effect(v, data).0.seq,
            ..v
        }),
{
    lemma_battery_report_frame(v, data);
    let (v1, c1) = apply_battery_report(v, data);
    lemma_scan_frame(v1, data, anc_positions(data));
}

/// A noise-control command holds no battery report.
proof fn lemma_payload_has_no_battery_report(next_mode: u8, seq: u8, opcode: u8)
    ensures
        battery_report_start(anc_payload(next_mode, seq, opcode)) is None,
{
    let d = anc_payload(next_mode, seq, opcode);
    assert forall|i: int| !prefix_at(d, i) by {
        if prefix_at(d, i) {
            let w = d.subrange(i, i + 6);
            assert(w[0] == d[i] && w[1] == d[i + 1] && w[2] == d[i + 2] && w[3] == d[i + 3]
                && w[4] == d[i + 4]);
            assert(w[0] == 4 && w[1] == 0 && w[2] == 4 && w[3] == 0 && w[4] == 4);
        }
    }
}

/// The state after the echo of a noise-control command.
pub open spec fn echo_effect(v: StateView, next_mode: u8, seq: u8) -> StateView {
    StateView {
        seq: seq.wrapping_add(1),
        anc_mode: match mode_name(next_mode) {
            Some(name) => Some(name),
            None => v.anc_mode,
        },
        ..v
    }
}

/// What a write gives back: when the headset sends back a noise-control
/// command built by `build_anc_payload`, while both buds report a level,
/// the state takes the commanded mode (when it names one) and the sequence
/// number that follows the command's; a change is reported exactly when
/// the mode was a different one.
pub proof fn law_command_echo(v: StateView, next_mode: u8, seq: u8, opcode: u8)
    requires
        v.left.level is Some,
        v.right.level is Some,
        is_anc_opcode(opcode),
    ensures
        parse_effect(v, anc_payload(next_mode, seq, opcode)).0 == echo_effect(v, next_mode, seq),
        parse_effect(v, anc_payload(next_mode, seq, opcode)).1 == (mode_name(next_mode) is Some
            && v.anc_mode != mode_name(next_mode)),
{
    let d = anc_payload(next_mode, seq, opcode);
    lemma_payload_has_no_battery_report(next_mode, seq, opcode);
    assert(anc_positions(d) == 7);
    reveal_with_fuel(apply_anc_scan, 8);
    assert(anc_message_at(d, 0));
    assert(!anc_message_at(d, 1));
    assert(!anc_message_at(d, 2));
    assert(!anc_message_at(d, 3));
    assert(!anc_message_at(d, 4));
    assert(!anc_message_at(d, 5));
    assert(!anc_message_at(d, 6));
}


// ---------------------------------------------------------------------------
// Laws: the last record and the last message win; parsing is idempotent
// ---------------------------------------------------------------------------

/// The component (0 left, 1 right, 2 case) that a record kind names.
pub open spec fn slot_of(kind: u8) -> Option<int> {
    if kind == 0x01 || kind == 0x04 {
        Some(0)
    } else if kind == 0x02 {
        Some(1)
    } else if kind == 0x08 {
        Some(2)
    } else {
        None
    }
}

/// The battery information of component `c` (0 left, 1 right, 2 case).
pub open spec fn component(v: StateView, c: int) -> BatteryInfo {
    if c == 0 {
        v.left
    } else if c == 1 {
        v.right
    } else {
        v.case
    }
}

/// The battery report of `data` (empty when there is none).
pub open spec fn battery_report(data: Seq<u8>) -> Seq<u8> {
    match battery_report_start(data) {
        Some(i) => data.subrange(i, data.len() as int),
        None => Seq::empty(),
    }
}

/// How many records of the battery report of `data` are read.
pub open spec fn records_processed(data: Seq<u8>) -> nat {
    match battery_report_start(data) {
        Some(_) => records_read(battery_report(data)),
        None => 0,
    }
}

/// Among the first `n` records of `sub`, `k` is the last one about component `c`.
pub open spec fn last_record_in(sub: Seq<u8>, n: int, c: int, k: int) -> bool {
    &&& 0 <= k < n
    &&& slot_of(record_kind(sub, k)) == Some(c)
    &&& forall|j: int| k < j < n ==> slot_of(record_kind(sub, j)) != Some(c)
}

/// A noise-control message at `p` names a mode.
pub open spec fn names_mode_at(data: Seq<u8>, p: int) -> bool {
    anc_message_at(data, p) && mode_name(data[p + 7]) is Some
}

/// Among the positions before `n`, `p` holds the last noise-control message.
pub open spec fn last_message_in(data: Seq<u8>, n: int, p: int) -> bool {
    &&& 0 <= p < n
    &&& anc_message_at(data, p)
    &&& forall|q: int| p < q < n ==> !anc_message_at(data, q)
}

/// Among the positions before `n`, `p` holds the last message that names a mode.
pub open spec fn last_mode_message_in(data: Seq<u8>, n: int, p: int) -> bool {
    &&& 0 <= p < n
    &&& names_mode_at(data, p)
    &&& forall|q: int| p < q < n ==> !names_mode_at(data, q)
}

proof fn lemma_last_exists(pred: spec_fn(int) -> bool, n: int)
    requires
        exists|k: int| 0 <= k < n && #[trigger] pred(k),
    ensures
        exists|k: int| 0 <= k < n && #[trigger] pred(k) && forall|j: int| k < j < n ==> !#[trigger] pred(j),
    decreases n,
{
    let k0 = choose|k: int| 0 <= k < n && #[trigger] pred(k);
    if pred(n - 1) {
        assert(0 <= n - 1 < n && pred(n - 1) && forall|j: int| n - 1 < j < n ==> !#[trigger] pred(j));
    } else {
        assert(0 <= k0 < n - 1 && pred(k0));
        lemma_last_exists(pred, n - 1);
        let k = choose|k: int|
            0 <= k < n - 1 && #[trigger] pred(k) && forall|j: int| k < j < n - 1 ==> !#[trigger] pred(j);
        assert(0 <= k < n && pred(k) && forall|j: int| k < j < n ==> !#[trigger] pred(j));
    }
}

proof fn lemma_battery_component(u: StateView, kind: u8, info: BatteryInfo, c: int)
    requires
        0 <= c < 3,
    ensures
        component(apply_battery(u, kind, info).0, c) == (if slot_of(kind) == Some(c) {
            info
        } else {
            component(u, c)
        }),
{
}

proof fn lemma_records_last(v: StateView, sub: Seq<u8>, n: nat, c: int)
    requires
        0 <= c < 3,
    ensures
        (forall|k: int| 0 <= k < n ==> slot_of(record_kind(sub, k)) != Some(c)) ==> component(
            apply_records(v, sub, n).0,
            c,
        ) == component(v, c),
        forall|k: int|
            #[trigger] last_record_in(sub, n as int, c, k) ==> component(apply_records(v, sub, n).0, c)
                == record_battery(sub, k),
    decreases n,
{
    if n > 0 {
        let m = (n - 1) as nat;
        lemma_records_last(v, sub, m, c);
        let v1 = apply_records(v, sub, m).0;
        lemma_battery_component(v1, record_kind(sub, m as int), record_battery(sub, m as int), c);
        assert forall|k: int| #[trigger] last_record_in(sub, n as int, c, k) implies component(
            apply_records(v, sub, n).0,
            c,
        ) == record_battery(sub, k) by {
            if k < m {
                assert(slot_of(record_kind(sub, m as int)) != Some(c));
                assert(last_record_in(sub, m as int, c, k));
            }
        }
    }
}

proof fn lemma_anc_at_fields(u: StateView, data: Seq<u8>, i: int)
    ensures
        apply_anc_at(u, data, i).0.seq == (if anc_message_at(data, i) {
            data[i + 8].wrapping_add(1)
        } else {
            u.seq
        }),
        apply_anc_at(u, data, i).0.anc_mode == (if names_mode_at(data, i) {
            mode_name(data[i + 7])
        } else {
            u.anc_mode
        }),
{
}

proof fn lemma_scan_last(u: StateView, data: Seq<u8>, n: nat)
    ensures
        (forall|p: int| 0 <= p < n ==> !anc_message_at(data, p)) ==> apply_anc_scan(u, data, n).0.seq
            == u.seq,
        forall|p: int|
            #[trigger] last_message_in(data, n as int, p) ==> apply_anc_scan(u, data, n).0.seq
                == data[p + 8].wrapping_add(1),
        (forall|p: int| 0 <= p < n ==> !names_mode_at(data, p)) ==> apply_anc_scan(
            u,
            data,
            n,
        ).0.anc_mode == u.anc_mode,
        forall|p: int|
            #[trigger] last_mode_message_in(data, n as int, p) ==> apply_anc_scan(
                u,
                data,
                n,
            ).0.anc_mode == mode_name(data[p + 7]),
    decreases n,
{
    if n > 0 {
        let m = (n - 1) as nat;
        lemma_scan_last(u, data, m);
        let u1 = apply_anc_scan(u, data, m).0;
        lemma_anc_at_fields(u1, data, m as int);
        assert forall|p: int| #[trigger] last_message_in(data, n as int, p) implies apply_anc_scan(
            u,
            data,
            n,
        ).0.seq == data[p + 8].wrapping_add(1) by {
            if p < m {
                assert(!anc_message_at(data, m as int));
                assert(last_message_in(data, m as int, p));
            }
        }
        assert forall|p: int| #[trigger] last_mode_message_in(data, n as int, p) implies apply_anc_scan(
            u,
            data,
            n,
        ).0.anc_mode == mode_name(data[p + 7]) by {
            if p < m {
                assert(!names_mode_at(data, m as int));
                assert(last_mode_message_in(data, m as int, p));
            }
        }
    }
}

proof fn lemma_battery_report_is_records(v: StateView, data: Seq<u8>)
    ensures
        apply_battery_report(v, data) == apply_records(
            v,
            battery_report(data),
            records_processed(data),
        ),
{
}

/// The last battery record about a component decides it: after any data,
/// a component that no read record is about keeps its value, and one that
/// records are about holds what the last of them carries.
pub proof fn law_last_battery_record_wins(v: StateView, data: Seq<u8>, c: int)
    requires
        0 <= c < 3,
    ensures
        (forall|k: int|
            0 <= k < records_processed(data) ==> slot_of(record_kind(battery_report(data), k))
                != Some(c)) ==> component(parse_effect(v, data).0, c) == component(v, c),
        forall|k: int|
            #[trigger] last_record_in(battery_report(data), records_processed(data) as int, c, k)
                ==> component(parse_effect(v, data).0, c) == record_battery(battery_report(data), k),
{
    lemma_battery_report_is_records(v, data);
    lemma_records_last(v, battery_report(data), records_processed(data), c);
    let v1 = apply_battery_report(v, data).0;
    lemma_scan_frame(v1, data, anc_positions(data));
}

/// The last noise-control message decides: while both buds report a level,
/// the sequence number follows the last message (or stays when there is
/// none) and the mode is the one named by the last message that names one
/// (or stays when there is none). While a bud is missing, the mode is
/// unknown and the sequence number stays.
pub proof fn law_last_anc_message_wins(v: StateView, data: Seq<u8>)
    ensures
        ({
            let w = parse_effect(v, data).0;
            let n = anc_positions(data) as int;
            &&& !(w.left.level is Some && w.right.level is Some) ==> w.anc_mode is None && w.seq
                == v.seq
            &&& (w.left.level is Some && w.right.level is Some) ==> {
                &&& (forall|p: int| 0 <= p < n ==> !anc_message_at(data, p)) ==> w.seq == v.seq
                &&& forall|p: int|
                    #[trigger] last_message_in(data, n, p) ==> w.seq == data[p + 8].wrapping_add(1)
                &&& (forall|p: int| 0 <= p < n ==> !names_mode_at(data, p)) ==> w.anc_mode
                    == v.anc_mode
                &&& forall|p: int|
                    #[trigger] last_mode_message_in(data, n, p) ==> w.anc_mode == mode_name(
                        data[p + 7],
                    )
            }
        }),
{
    lemma_battery_report_frame(v, data);
    let v1 = apply_battery_report(v, data).0;
    lemma_scan_frame(v1, data, anc_positions(data));
    lemma_scan_last(v1, data, anc_positions(data));
}


proof fn lemma_records_fixed(u: StateView, sub: Seq<u8>, n: nat)
    requires
        forall|c: int, k: int|
            0 <= c < 3 && #[trigger] last_record_in(sub, n as int, c, k) ==> component(u, c)
                == record_battery(sub, k),
    ensures
        apply_records(u, sub, n).0 == u,
{
    lemma_records_frame(u, sub, n);
    let r = apply_records(u, sub, n).0;
    assert forall|c: int| 0 <= c < 3 implies component(r, c) == component(u, c) by {
        lemma_records_last(u, sub, n, c);
        let pred = |k: int| slot_of(record_kind(sub, k)) == Some(c);
        if exists|k: int| 0 <= k < n && slot_of(record_kind(sub, k)) == Some(c) {
            let k0 = choose|k: int| 0 <= k < n && slot_of(record_kind(sub, k)) == Some(c);
            assert(pred(k0));
            lemma_last_exists(pred, n as int);
            let k = choose|k: int|
                0 <= k < n && #[trigger] pred(k) && forall|j: int| k < j < n ==> !#[trigger] pred(j);
            assert forall|j: int| k < j < n implies slot_of(record_kind(sub, j)) != Some(c) by {
                assert(!pred(j));
            }
            assert(last_record_in(sub, n as int, c, k));
        }
    }
    assert(component(r, 0) == component(u, 0));
    assert(component(r, 1) == component(u, 1));
    assert(component(r, 2) == component(u, 2));
}

proof fn lemma_scan_fixed(u: StateView, data: Seq<u8>, n: nat)
    requires
        forall|p: int|
            #[trigger] last_message_in(data, n as int, p) ==> u.seq == data[p + 8].wrapping_add(1),
        forall|p: int|
            #[trigger] last_mode_message_in(data, n as int, p) ==> u.anc_mode == mode_name(
                data[p + 7],
            ),
    ensures
        apply_anc_scan(u, data, n).0 == u,
{
    lemma_scan_frame(u, data, n);
    lemma_scan_last(u, data, n);
    let r = apply_anc_scan(u, data, n).0;
    let msg = |p: int| anc_message_at(data, p);
    if exists|p: int| 0 <= p < n && anc_message_at(data, p) {
        let p0 = choose|p: int| 0 <= p < n && anc_message_at(data, p);
        assert(msg(p0));
        lemma_last_exists(msg, n as int);
        let p = choose|p: int|
            0 <= p < n && #[trigger] msg(p) && forall|q: int| p < q < n ==> !#[trigger] msg(q);
        assert forall|q: int| p < q < n implies !anc_message_at(data, q) by {
            assert(!msg(q));
        }
        assert(last_message_in(data, n as int, p));
    }
    let named = |p: int| names_mode_at(data, p);
    if exists|p: int| 0 <= p < n && names_mode_at(data, p) {
        let p0 = choose|p: int| 0 <= p < n && names_mode_at(data, p);
        assert(named(p0));
        lemma_last_exists(named, n as int);
        let p = choose|p: int|
            0 <= p < n && #[trigger] named(p) && forall|q: int| p < q < n ==> !#[trigger] named(q);
        assert forall|q: int| p < q < n implies !names_mode_at(data, q) by {
            assert(!named(q));
        }
        assert(last_mode_message_in(data, n as int, p));
    }
    assert(r.seq == u.seq);
    assert(r.anc_mode == u.anc_mode);
}

proof fn lemma_records_quiet(u: StateView, sub: Seq<u8>, n: nat)
    requires
        forall|k: int|
            0 <= k < n ==> (slot_of(#[trigger] record_kind(sub, k)) matches Some(c) ==> component(
                u,
                c,
            ) == record_battery(sub, k)),
    ensures
        apply_records(u, sub, n) == (u, false),
    decreases n,
{
    if n > 0 {
        let m = (n - 1) as nat;
        lemma_records_quiet(u, sub, m);
        let kind = record_kind(sub, m as int);
        assert(slot_of(kind) matches Some(c) ==> component(u, c) == record_battery(sub, m as int));
    }
}

proof fn lemma_scan_quiet(u: StateView, data: Seq<u8>, n: nat)
    requires
        forall|p: int|
            0 <= p < n && #[trigger] names_mode_at(data, p) ==> mode_name(data[p + 7]) == u.anc_mode,
    ensures
        !apply_anc_scan(u, data, n).1,
        apply_anc_scan(u, data, n).0.anc_mode == u.anc_mode,
    decreases n,
{
    if n > 0 {
        let m = (n - 1) as nat;
        lemma_scan_quiet(u, data, m);
        if anc_message_at(data, m as int) && mode_name(data[m as int + 7]) is Some {
            assert(names_mode_at(data, m as int));
        }
    }
}

/// Each read battery record is about a different component (records about
/// no component aside).
pub open spec fn records_name_distinct_components(data: Seq<u8>) -> bool {
    let sub = battery_report(data);
    let n = records_processed(data) as int;
    forall|k: int, j: int|
        #![trigger record_kind(sub, k), record_kind(sub, j)]
        0 <= k < n && 0 <= j < n && k != j && slot_of(record_kind(sub, k)) is Some
            ==> slot_of(record_kind(sub, k)) != slot_of(record_kind(sub, j))
}

/// All noise-control messages that name a mode name the same one.
pub open spec fn messages_name_one_mode(data: Seq<u8>) -> bool {
    let n = anc_positions(data) as int;
    forall|p: int, q: int|
        0 <= p < n && 0 <= q < n && #[trigger] names_mode_at(data, p) && #[trigger] names_mode_at(
            data,
            q,
        ) ==> mode_name(data[p + 7]) == mode_name(data[q + 7])
}

/// Receiving the same data twice is receiving it once: the second time
/// leaves the state as the first left it; it reports no change when each
/// read battery record is about a different component and all messages
/// that name a mode name the same one.
pub proof fn law_parse_idempotent(v: StateView, data: Seq<u8>)
    ensures
        parse_effect(parse_effect(v, data).0, data).0 == parse_effect(v, data).0,
        records_name_distinct_components(data) && messages_name_one_mode(data) ==> !parse_effect(
            parse_effect(v, data).0,
            data,
        ).1,
{
    let sub = battery_report(data);
    let n = records_processed(data);
    let m = anc_positions(data);
    lemma_battery_report_is_records(v, data);
    lemma_battery_report_frame(v, data);
    let b1 = apply_battery_report(v, data).0;
    lemma_scan_frame(b1, data, m);
    lemma_scan_last(b1, data, m);
    let w = parse_effect(v, data).0;
    assert(component(w, 0) == component(b1, 0) && component(w, 1) == component(b1, 1)
        && component(w, 2) == component(b1, 2));
    assert forall|c: int, k: int|
        0 <= c < 3 && #[trigger] last_record_in(sub, n as int, c, k) implies component(w, c)
        == record_battery(sub, k) by {
        lemma_records_last(v, sub, n, c);
    }
    lemma_battery_report_is_records(w, data);
    lemma_records_fixed(w, sub, n);
    let both = w.left.level is Some && w.right.level is Some;
    if both {
        lemma_scan_fixed(w, data, m);
    }
    if records_name_distinct_components(data) && messages_name_one_mode(data) {
        assert forall|k: int|
            0 <= k < n implies (slot_of(#[trigger] record_kind(sub, k)) matches Some(c)
            ==> component(w, c) == record_battery(sub, k)) by {
            if let Some(c) = slot_of(record_kind(sub, k)) {
                assert forall|j: int| k < j < n implies slot_of(record_kind(sub, j)) != Some(c) by {
                    assert(slot_of(record_kind(sub, k)) != slot_of(record_kind(sub, j)));
                }
                assert(last_record_in(sub, n as int, c, k));
            }
        }
        lemma_records_quiet(w, sub, n);
        if both {
            assert forall|p: int| 0 <= p < m && #[trigger] names_mode_at(data, p) implies mode_name(
                data[p + 7],
            ) == w.anc_mode by {
                let named = |q: int| names_mode_at(data, q);
                assert(named(p));
                lemma_last_exists(named, m as int);
                let l = choose|q: int|
                    0 <= q < m && #[trigger] named(q) && forall|r: int| q < r < m ==> !#[trigger] named(r);
                assert forall|r: int| l < r < m implies !names_mode_at(data, r) by {
                    assert(!named(r));
                }
                assert(last_mode_message_in(data, m as int, l));
                assert(mode_name(data[p + 7]) == mode_name(data[l + 7]));
            }
            lemma_scan_quiet(w, data, m);
        }
    }
}


// ---------------------------------------------------------------------------
// Laws: the frames as they are laid out on the wire
// ---------------------------------------------------------------------------

/// A record is read whenever its five bytes lie wholly in the report: of a
/// report of at least seven bytes, as many records are read as it announces,
/// but no more than the whole five-byte records after its seven-byte head.
pub proof fn law_whole_records_are_read(sub: Seq<u8>)
    requires
        sub.len() >= 7,
    ensures
        records_read(sub) == (if (sub[6] as int) <= (sub.len() - 7) / 5 {
            sub[6] as int
        } else {
            (sub.len() - 7) / 5
        }),
        records_read(sub) <= sub[6],
        7 + 5 * records_read(sub) <= sub.len(),
{
}

/// A chunk that opens with a battery report is that report: all of the
/// chunk counts as the report, and its whole announced records are read.
pub proof fn law_report_at_start(data: Seq<u8>)
    requires
        prefix_at(data, 0),
    ensures
        battery_report_start(data) == Some(0int),
        battery_report(data) == data,
        data.len() < 7 ==> records_processed(data) == 0,
        data.len() >= 7 ==> records_processed(data) == (if (data[6] as int) <= (data.len() - 7)
            / 5 {
            data[6] as int
        } else {
            (data.len() - 7) / 5
        }),
{
    assert(first_report_at(data, 0));
    let c = choose|i: int| first_report_at(data, i);
    assert(first_report_at(data, c));
    assert(c == 0) by {
        if c > 0 {
            assert(!prefix_at(data, 0));
        }
    }
    assert(battery_report_start(data) == Some(0int));
    assert(data.subrange(0, data.len() as int) =~= data);
    if data.len() >= 7 {
        law_whole_records_are_read(data);
    }
}

/// The layout of a noise-control command: the fixed head `04 00 04 00 0a 00`,
/// then the opcode, the mode and the sequence number, then `01` and six
/// zero bytes.
pub proof fn law_anc_payload_layout(next_mode: u8, seq: u8, opcode: u8)
    ensures
        anc_payload(next_mode, seq, opcode).len() == 16,
        anc_payload(next_mode, seq, opcode).subrange(0, 6) == seq![
            0x04u8,
            0x00u8,
            0x04u8,
            0x00u8,
            0x0au8,
            0x00u8,
        ],
        anc_payload(next_mode, seq, opcode)[6] == opcode,
        anc_payload(next_mode, seq, opcode)[7] == next_mode,
        anc_payload(next_mode, seq, opcode)[8] == seq,
        anc_payload(next_mode, seq, opcode)[9] == 0x01,
        forall|i: int| 10 <= i < 16 ==> anc_payload(next_mode, seq, opcode)[i] == 0,
{
    assert(anc_payload(next_mode, seq, opcode).subrange(0, 6) =~= seq![
        0x04u8,
        0x00u8,
        0x04u8,
        0x00u8,
        0x0au8,
        0x00u8,
    ]);
}

/// Two commands that differ only in their opcode are different frames, and
/// frames for different opcodes never coincide.
pub proof fn law_anc_payload_opcode_distinguishes(next_mode: u8, seq: u8, op1: u8, op2: u8)
    ensures
        (anc_payload(next_mode, seq, op1) == anc_payload(next_mode, seq, op2)) == (op1 == op2),
{
    if anc_payload(next_mode, seq, op1) == anc_payload(next_mode, seq, op2) {
        assert(anc_payload(next_mode, seq, op1)[6] == anc_payload(next_mode, seq, op2)[6]);
    }
}


/// What a battery record says: a raw level up to 100 is the level, above
/// 100 it means "not reporting"; the lowest bit of the status byte is the
/// charging flag.
pub proof fn law_record_fields(sub: Seq<u8>, k: int)
    ensures
        (sub[7 + 5 * k + 2] <= 100) ==> record_battery(sub, k).level == Some(sub[7 + 5 * k + 2]),
        (sub[7 + 5 * k + 2] > 100) ==> record_battery(sub, k).level is None,
        record_battery(sub, k).charging == (sub[7 + 5 * k + 3] % 2 == 1),
        record_kind(sub, k) == sub[7 + 5 * k],
{
}

/// Which component a record kind names: `01` and `04` the left bud, `02`
/// the right bud, `08` the case; other kinds change nothing. A change is
/// reported exactly when the component held something else.
pub proof fn law_record_kinds(u: StateView, kind: u8, info: BatteryInfo)
    ensures
        (kind == 0x01 || kind == 0x04) ==> apply_battery(u, kind, info).0 == (StateView {
            left: info,
            ..u
        }),
        kind == 0x02 ==> apply_battery(u, kind, info).0 == (StateView { right: info, ..u }),
        kind == 0x08 ==> apply_battery(u, kind, info).0 == (StateView { case: info, ..u }),
        !(kind == 0x01 || kind == 0x02 || kind == 0x04 || kind == 0x08) ==> apply_battery(
            u,
            kind,
            info,
        ) == (u, false),
        (kind == 0x01 || kind == 0x04) ==> apply_battery(u, kind, info).1 == (u.left != info),
        kind == 0x02 ==> apply_battery(u, kind, info).1 == (u.right != info),
        kind == 0x08 ==> apply_battery(u, kind, info).1 == (u.case != info),
{
}

/// The noise-control modes by number, and the opcodes that report a mode.
pub proof fn law_mode_numbers(m: u8, op: u8)
    ensures
        mode_name(1) == Some("Off"@),
        mode_name(2) == Some("Noise Cancellation"@),
        mode_name(3) == Some("Transparency"@),
        mode_name(4) == Some("Adaptive"@),
        (m == 0 || m > 4) ==> mode_name(m) is None,
        is_anc_opcode(op) == (op == 0x01 || op == 0x0d || op == 0x0e),
{
}

} // verus!
