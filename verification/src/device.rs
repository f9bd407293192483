use vstd::prelude::*;
use vstd::string::*;
use vstd::utf8::encode_utf8;

use crate::text::{bytes_contain, lowercase, occurs_in, str_eq, to_lowercase};

verus! {

/// The model that a device with this alias and this Bluetooth `modalias`
/// (taken by its bytes) is shown as: Apple's vendor id `v004C` with a known
/// product id names the model, anything else keeps the alias.
pub open spec fn model_of(alias: Seq<char>, modalias: Seq<u8>) -> Seq<char> {
    if occurs_in(modalias, "v004Cp".spec_bytes()) {
        if occurs_in(modalias, "p200E".spec_bytes()) {
            "AirPods Pro (Gen 1)"@
        } else if occurs_in(modalias, "p2014".spec_bytes()) {
            "AirPods Pro (Gen 2)"@
        } else if occurs_in(modalias, "p200F".spec_bytes()) {
            "AirPods Max"@
        } else if occurs_in(modalias, "p2013".spec_bytes()) {
            "AirPods (Gen 3)"@
        } else {
            alias
        }
    } else {
        alias
    }
}

/// Names the model of a device from its alias and its `modalias`.
pub fn identify_model(alias: &str, modalias: &str) -> (m: String)
    ensures
        m@ == model_of(alias@, modalias.spec_bytes()),
{
    let bytes = modalias.as_bytes();
    if bytes_contain(bytes, "v004Cp".as_bytes()) {
        if bytes_contain(bytes, "p200E".as_bytes()) {
            return String::from_str("AirPods Pro (Gen 1)");
        }
        if bytes_contain(bytes, "p2014".as_bytes()) {
            return String::from_str("AirPods Pro (Gen 2)");
        }
        if bytes_contain(bytes, "p200F".as_bytes()) {
            return String::from_str("AirPods Max");
        }
        if bytes_contain(bytes, "p2013".as_bytes()) {
            return String::from_str("AirPods (Gen 3)");
        }
    }
    alias.to_owned()
}

/// An alias names AirPods: its lowercase form contains `airpods`.
pub open spec fn names_airpods(alias: Seq<char>) -> bool {
    occurs_in(encode_utf8(lowercase(alias)), "airpods".spec_bytes())
}

/// Whether discovery takes a device with this alias for AirPods: its
/// lowercase form contains `airpods`.
pub fn is_airpods_alias(alias: &str) -> (r: bool)
    ensures
        r == names_airpods(alias@),
{
    let low = to_lowercase(alias);
    bytes_contain(low.as_str().as_bytes(), "airpods".as_bytes())
}

/// Whether the alias is the generic name that a freshly connected headset
/// shows before its own name is known.
pub fn is_placeholder_alias(alias: &str) -> (r: bool)
    ensures
        r == (alias@ == "AirPods"@),
{
    str_eq(alias, "AirPods")
}


/// The BlueZ interface that marks a Bluetooth device.
pub open spec fn device_interface() -> Seq<char> {
    "org.bluez.Device1"@
}

/// Whether a D-Bus interface name is the BlueZ device interface.
pub fn is_device_interface(name: &str) -> (r: bool)
    ensures
        r == (name@ == device_interface()),
{
    str_eq(name, "org.bluez.Device1")
}

/// ASCII letters folded to lower case; other bytes unchanged.
pub open spec fn ascii_lower(b: u8) -> u8 {
    if 0x41 <= b <= 0x5a { (b + 0x20) as u8 } else { b }
}

/// Two Bluetooth addresses (as bytes) are the same, ignoring the case of
/// the hexadecimal letters.
pub open spec fn same_address(a: Seq<u8>, b: Seq<u8>) -> bool {
    a.len() == b.len() && forall|i: int| 0 <= i < a.len() ==> ascii_lower(a[i]) == ascii_lower(b[i])
}

fn lower_byte(b: u8) -> (r: u8)
    ensures
        r == ascii_lower(b),
{
    if 0x41 <= b && b <= 0x5a { b + 0x20 } else { b }
}

/// Whether two Bluetooth addresses are the same, ignoring case.
pub fn addresses_match(a: &str, b: &str) -> (r: bool)
    ensures
        r == same_address(a.spec_bytes(), b.spec_bytes()),
{
    let x = a.as_bytes();
    let y = b.as_bytes();
    if x.len() != y.len() {
        return false;
    }
    let mut i: usize = 0;
    while i < x.len()
        invariant
            x@ == a.spec_bytes(),
            y@ == b.spec_bytes(),
            x.len() == y.len(),
            i <= x.len(),
            forall|k: int| 0 <= k < i ==> ascii_lower(x@[k]) == ascii_lower(y@[k]),
        decreases x.len() - i,
    {
        if lower_byte(x[i]) != lower_byte(y[i]) {
            return false;
        }
        i += 1;
    }
    true
}

/// The device that discovery takes: the one with the wanted address when
/// an address is given; otherwise a paired device whose alias names
/// AirPods.
pub open spec fn wanted_device(
    alias: Seq<char>,
    paired: bool,
    address: Seq<u8>,
    wanted: Option<Seq<u8>>,
) -> bool {
    match wanted {
        Some(w) => same_address(address, w),
        None => paired && occurs_in(encode_utf8(lowercase(alias)), "airpods".spec_bytes()),
    }
}

/// Whether discovery takes this device.
pub fn is_wanted_device(alias: &str, paired: bool, address: &str, wanted: Option<&str>) -> (r: bool)
    ensures
        r == wanted_device(
            alias@,
            paired,
            address.spec_bytes(),
            match wanted {
                Some(w) => Some(w.spec_bytes()),
                None => None,
            },
        ),
{
    match wanted {
        Some(w) => addresses_match(address, w),
        None => paired && is_airpods_alias(alias),
    }
}

/// What discovery does with a device, once its properties are read.
#[derive(Clone, Copy, Debug, PartialEq, Eq, Structural)]
pub enum DiscoveryStep {
    /// Not the device looked for.
    Skip,
    /// The alias is still the generic one: wait, read it again, decide again.
    RereadAlias,
    /// The device looked for.
    Take,
}

/// The decision for a device with these properties; `reread` says whether
/// the alias was already read a second time.
pub open spec fn discovery_step_of(
    alias: Seq<char>,
    connected: bool,
    reread: bool,
    paired: bool,
    address: Seq<u8>,
    wanted: Option<Seq<u8>>,
) -> DiscoveryStep {
    if !reread && alias == "AirPods"@ && connected {
        DiscoveryStep::RereadAlias
    } else if wanted_device(alias, paired, address, wanted) {
        DiscoveryStep::Take
    } else {
        DiscoveryStep::Skip
    }
}

/// Decides what discovery does with a device.
pub fn discovery_step(
    alias: &str,
    connected: bool,
    reread: bool,
    paired: bool,
    address: &str,
    wanted: Option<&str>,
) -> (r: DiscoveryStep)
    ensures
        r == discovery_step_of(
            alias@,
            connected,
            reread,
            paired,
            address.spec_bytes(),
            match wanted {
                Some(w) => Some(w.spec_bytes()),
                None => None,
            },
        ),
{
    if !reread && is_placeholder_alias(alias) && connected {
        DiscoveryStep::RereadAlias
    } else if is_wanted_device(alias, paired, address, wanted) {
        DiscoveryStep::Take
    } else {
        DiscoveryStep::Skip
    }
}

/// A device is asked for its alias at most twice: after a second reading
/// the decision is final.
pub proof fn law_alias_reread_once(
    alias: Seq<char>,
    connected: bool,
    paired: bool,
    address: Seq<u8>,
    wanted: Option<Seq<u8>>,
)
    ensures
        discovery_step_of(alias, connected, true, paired, address, wanted)
            != DiscoveryStep::RereadAlias,
{
}


// ---------------------------------------------------------------------------
// Laws of discovery
// ---------------------------------------------------------------------------

proof fn lemma_encode_concat(a: Seq<char>, b: Seq<char>)
    ensures
        encode_utf8(a + b) == encode_utf8(a) + encode_utf8(b),
    decreases a.len(),
{
    if a.len() > 0 {
        assert((a + b).drop_first() =~= a.drop_first() + b);
        assert((a + b)[0] == a[0]);
        lemma_encode_concat(a.drop_first(), b);
        assert(encode_utf8(a + b) =~= encode_utf8(a) + encode_utf8(b));
    } else {
        assert(a + b =~= b);
        assert(encode_utf8(a) =~= Seq::<u8>::empty());
        assert(encode_utf8(a) + encode_utf8(b) =~= encode_utf8(b));
    }
}

/// An alias names AirPods wherever `airpods` stands in its lowercase form:
/// at the start, in the middle or at the end.
pub proof fn law_airpods_anywhere_in_alias(alias: Seq<char>, before: Seq<char>, after: Seq<char>)
    requires
        lowercase(alias) == before + "airpods"@ + after,
    ensures
        names_airpods(alias),
{
    lemma_encode_concat(before + "airpods"@, after);
    lemma_encode_concat(before, "airpods"@);
    let e = encode_utf8(lowercase(alias));
    let pat = "airpods".spec_bytes();
    assert(pat == encode_utf8("airpods"@));
    let i = encode_utf8(before).len() as int;
    assert(e == encode_utf8(before) + pat + encode_utf8(after));
    assert(e.subrange(i, i + pat.len()) =~= pat);
}

/// Without an address to look for, discovery takes exactly the paired
/// devices whose alias names AirPods, as `is_airpods_alias` decides.
pub proof fn law_wanted_without_address(alias: Seq<char>, paired: bool, address: Seq<u8>)
    ensures
        wanted_device(alias, paired, address, None) == (paired && names_airpods(alias)),
        !paired ==> !wanted_device(alias, paired, address, None),
{
}

/// With an address to look for, discovery takes the device with that
/// address (in any case of its letters), whatever its alias and pairing,
/// and no device with another address.
pub proof fn law_wanted_by_address(
    alias1: Seq<char>,
    alias2: Seq<char>,
    paired1: bool,
    paired2: bool,
    address: Seq<u8>,
    wanted: Seq<u8>,
)
    ensures
        wanted_device(alias1, paired1, address, Some(address)),
        wanted_device(alias1, paired1, address, Some(wanted)) == wanted_device(
            alias2,
            paired2,
            address,
            Some(wanted),
        ),
        address.len() != wanted.len() ==> !wanted_device(alias1, paired1, address, Some(wanted)),
        wanted_device(alias1, paired1, address, Some(wanted)) == wanted_device(
            alias1,
            paired1,
            wanted,
            Some(address),
        ),
{
}

/// Once the alias needs no second reading, discovery takes a device exactly
/// when it is the one looked for.
pub proof fn law_discovery_takes_wanted(
    alias: Seq<char>,
    connected: bool,
    reread: bool,
    paired: bool,
    address: Seq<u8>,
    wanted: Option<Seq<u8>>,
)
    requires
        reread || alias != "AirPods"@ || !connected,
    ensures
        (discovery_step_of(alias, connected, reread, paired, address, wanted)
            == DiscoveryStep::Take) == wanted_device(alias, paired, address, wanted),
        wanted is None ==> ((discovery_step_of(alias, connected, reread, paired, address, wanted)
            == DiscoveryStep::Take) == (paired && names_airpods(alias))),
{
}

/// The known Apple product ids, as the model they name; the alias plays no
/// part when the `modalias` carries Apple's vendor id and one of them.
pub proof fn law_model_from_product_id(alias: Seq<char>, other: Seq<char>, modalias: Seq<u8>)
    ensures
        occurs_in(modalias, "v004Cp".spec_bytes()) && occurs_in(modalias, "p200E".spec_bytes())
            ==> model_of(alias, modalias) == "AirPods Pro (Gen 1)"@,
        occurs_in(modalias, "v004Cp".spec_bytes()) && !occurs_in(modalias, "p200E".spec_bytes())
            && occurs_in(modalias, "p2014".spec_bytes()) ==> model_of(alias, modalias)
            == "AirPods Pro (Gen 2)"@,
        occurs_in(modalias, "v004Cp".spec_bytes()) && !occurs_in(modalias, "p200E".spec_bytes())
            && !occurs_in(modalias, "p2014".spec_bytes()) && occurs_in(
            modalias,
            "p200F".spec_bytes(),
        ) ==> model_of(alias, modalias) == "AirPods Max"@,
        occurs_in(modalias, "v004Cp".spec_bytes()) && !occurs_in(modalias, "p200E".spec_bytes())
            && !occurs_in(modalias, "p2014".spec_bytes()) && !occurs_in(
            modalias,
            "p200F".spec_bytes(),
        ) && occurs_in(modalias, "p2013".spec_bytes()) ==> model_of(alias, modalias)
            == "AirPods (Gen 3)"@,
        occurs_in(modalias, "v004Cp".spec_bytes()) && (occurs_in(modalias, "p200E".spec_bytes())
            || occurs_in(modalias, "p2014".spec_bytes()) || occurs_in(
            modalias,
            "p200F".spec_bytes(),
        ) || occurs_in(modalias, "p2013".spec_bytes())) ==> model_of(alias, modalias) == model_of(
            other,
            modalias,
        ),
{
}

/// Without Apple's vendor id, or with an unknown product id, the model
/// shown is the alias itself.
pub proof fn law_model_defaults_to_alias(alias: Seq<char>, modalias: Seq<u8>)
    ensures
        !occurs_in(modalias, "v004Cp".spec_bytes()) ==> model_of(alias, modalias) == alias,
        !occurs_in(modalias, "p200E".spec_bytes()) && !occurs_in(modalias, "p2014".spec_bytes())
            && !occurs_in(modalias, "p200F".spec_bytes()) && !occurs_in(
            modalias,
            "p2013".spec_bytes(),
        ) ==> model_of(alias, modalias) == alias,
{
}

} // verus!
