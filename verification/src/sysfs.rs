use vstd::prelude::*;
use vstd::string::*;
use vstd::utf8::{decode_utf8, encode_utf8, encode_utf8_decode_utf8};

use crate::state::{AirPodsState, BatteryInfo, StateView};

verus! {

/// Decimal digits (ASCII) of `n`, without leading zeros.
pub open spec fn decimal(n: nat) -> Seq<u8>
    decreases n,
{
    if n < 10 {
        seq![(48 + n) as u8]
    } else {
        decimal(n / 10).push((48 + n % 10) as u8)
    }
}

/// Text of a boolean.
pub open spec fn bool_text(b: bool) -> Seq<u8> {
    if b { "true".spec_bytes() } else { "false".spec_bytes() }
}

/// Text of a battery level; `0` when the component does not report one.
pub open spec fn capacity_text(b: BatteryInfo) -> Seq<u8> {
    match b.level {
        Some(l) => decimal(l as nat),
        None => decimal(0),
    }
}

/// Text of a charging flag.
pub open spec fn status_text(b: BatteryInfo) -> Seq<u8> {
    if b.charging { "Charging".spec_bytes() } else { "Discharging".spec_bytes() }
}

/// Text of the noise-control mode; `N/A` when it is unknown.
pub open spec fn anc_text(m: Option<Seq<char>>) -> Seq<u8> {
    match m {
        Some(name) => encode_utf8(name),
        None => "N/A".spec_bytes(),
    }
}

/// The files that describe the state, by name and bytes, in the order in
/// which they are written.
pub open spec fn sysfs_entries(v: StateView) -> Seq<(Seq<char>, Seq<u8>)> {
    seq![
        ("connected"@, bool_text(v.connected)),
        ("model_name"@, encode_utf8(v.model_name)),
        ("device_name"@, encode_utf8(v.device_name)),
        ("anc_mode"@, anc_text(v.anc_mode)),
        ("left_capacity"@, capacity_text(v.left)),
        ("left_status"@, status_text(v.left)),
        ("right_capacity"@, capacity_text(v.right)),
        ("right_status"@, status_text(v.right)),
        ("case_capacity"@, capacity_text(v.case)),
    ]
}

/// One file of the status directory.
pub struct SysfsEntry {
    pub name: &'static str,
    pub content: Vec<u8>,
}

/// Decimal text of `n`.
fn decimal_bytes(n: u8) -> (r: Vec<u8>)
    ensures
        r@ == decimal(n as nat),
{
    reveal_with_fuel(decimal, 3);
    let r = if n < 10 {
        vec![48 + n]
    } else if n < 100 {
        vec![48 + n / 10, 48 + n % 10]
    } else {
        vec![48 + n / 100, 48 + (n / 10) % 10, 48 + n % 10]
    };
    proof {
        if n >= 100 {
            assert((n / 10) as nat / 10 == n / 100);
            assert(decimal((n / 10) as nat / 10) =~= seq![(48 + n / 100) as u8]);
        }
    }
    assert(r@ =~= decimal(n as nat));
    r
}

fn capacity_bytes(b: BatteryInfo) -> (r: Vec<u8>)
    ensures
        r@ == capacity_text(b),
{
    match b.level {
        Some(l) => decimal_bytes(l),
        None => decimal_bytes(0),
    }
}

fn status_bytes(b: BatteryInfo) -> (r: Vec<u8>)
    ensures
        r@ == status_text(b),
{
    if b.charging { "Charging".as_bytes_vec() } else { "Discharging".as_bytes_vec() }
}

fn entry(name: &'static str, content: Vec<u8>) -> (e: SysfsEntry)
    ensures
        e.name == name,
        e.content == content,
{
    SysfsEntry { name, content }
}

/// The status files for the state `s`.
pub fn sysfs_metrics(s: &AirPodsState) -> (r: Vec<SysfsEntry>)
    ensures
        r@.len() == sysfs_entries(s@).len(),
        forall|i: int|
            0 <= i < r@.len() ==> (#[trigger] r@[i].name@, r@[i].content@) == sysfs_entries(s@)[i],
{
    let connected = if s.connected { "true".as_bytes_vec() } else { "false".as_bytes_vec() };
    let anc = match &s.anc_mode {
        Some(m) => m.as_str().as_bytes_vec(),
        None => "N/A".as_bytes_vec(),
    };
    let r = vec![
        entry("connected", connected),
        entry("model_name", s.model_name.as_str().as_bytes_vec()),
        entry("device_name", s.device_name.as_str().as_bytes_vec()),
        entry("anc_mode", anc),
        entry("left_capacity", capacity_bytes(s.left)),
        entry("left_status", status_bytes(s.left)),
        entry("right_capacity", capacity_bytes(s.right)),
        entry("right_status", status_bytes(s.right)),
        entry("case_capacity", capacity_bytes(s.case)),
    ];
    r
}


/// The `anc_mode` file holds the name of the mode whenever one is known:
/// its bytes read back as that name. `N/A` stands there only when no mode
/// is known, or when the mode is itself called `N/A`.
pub proof fn law_anc_file_names_mode(v: StateView)
    ensures
        sysfs_entries(v)[3].0 == "anc_mode"@,
        v.anc_mode matches Some(name) ==> decode_utf8(sysfs_entries(v)[3].1) == name,
        v.anc_mode matches Some(name) ==> (sysfs_entries(v)[3].1 == "N/A".spec_bytes() ==> name
            == "N/A"@),
        v.anc_mode is None ==> sysfs_entries(v)[3].1 == "N/A".spec_bytes(),
{
    if let Some(name) = v.anc_mode {
        encode_utf8_decode_utf8(name);
        encode_utf8_decode_utf8("N/A"@);
    }
}

/// Two states with known modes write the same `anc_mode` file exactly when
/// their modes are the same.
pub proof fn law_anc_file_tells_modes_apart(v: StateView, w: StateView)
    requires
        v.anc_mode is Some,
        w.anc_mode is Some,
    ensures
        (sysfs_entries(v)[3] == sysfs_entries(w)[3]) == (v.anc_mode == w.anc_mode),
{
    encode_utf8_decode_utf8(v.anc_mode.unwrap());
    encode_utf8_decode_utf8(w.anc_mode.unwrap());
}

/// The capacity files hold the decimal level of a reporting component, and
/// `0` for one that does not report; the status files tell charging from
/// discharging.
pub proof fn law_capacity_files(v: StateView)
    ensures
        v.left.level matches Some(l) ==> sysfs_entries(v)[4].1 == decimal(l as nat),
        v.left.level is None ==> sysfs_entries(v)[4].1 == seq![0x30u8],
        v.right.level matches Some(l) ==> sysfs_entries(v)[6].1 == decimal(l as nat),
        v.case.level matches Some(l) ==> sysfs_entries(v)[8].1 == decimal(l as nat),
        sysfs_entries(v)[5].1 == (if v.left.charging { "Charging".spec_bytes() } else {
            "Discharging".spec_bytes()
        }),
{
    assert(decimal(0) =~= seq![0x30u8]);
}


/// A level is written as its plain decimal digits: one digit below 10, two
/// below 100, three otherwise.
pub proof fn law_decimal_digits(n: u8)
    ensures
        n < 10 ==> decimal(n as nat) == seq![(0x30 + n) as u8],
        10 <= n < 100 ==> decimal(n as nat) == seq![(0x30 + n / 10) as u8, (0x30 + n % 10) as u8],
        100 <= n ==> decimal(n as nat) == seq![
            (0x30 + n / 100) as u8,
            (0x30 + (n / 10) % 10) as u8,
            (0x30 + n % 10) as u8,
        ],
{
    reveal_with_fuel(decimal, 3);
    if n >= 100 {
        assert((n / 10) as nat / 10 == n / 100);
        assert(decimal((n / 10) as nat / 10) =~= seq![(48 + n / 100) as u8]);
    }
    if n >= 10 {
        assert(decimal(n as nat) =~= decimal((n / 10) as nat).push((48 + n % 10) as u8));
    }
}

/// The files name the connection and carry the names of the device and of
/// its model, which read back as those names.
pub proof fn law_identity_files(v: StateView)
    ensures
        sysfs_entries(v).len() == 9,
        sysfs_entries(v)[0] == ("connected"@, if v.connected { "true".spec_bytes() } else {
            "false".spec_bytes()
        }),
        sysfs_entries(v)[1].0 == "model_name"@,
        decode_utf8(sysfs_entries(v)[1].1) == v.model_name,
        sysfs_entries(v)[2].0 == "device_name"@,
        decode_utf8(sysfs_entries(v)[2].1) == v.device_name,
{
    encode_utf8_decode_utf8(v.model_name);
    encode_utf8_decode_utf8(v.device_name);
}

} // verus!
