//! Physical iOS devices as listed by Apple's CoreDevice framework
//! (`xcrun devicectl list devices --json-output`): which listed devices are
//! kept, and what is made of each.
//!
//! Running `devicectl` and reading its JSON into [`RawDevice`] values is left
//! to the caller.

use vstd::prelude::*;
use crate::text::{
    chars_eq, chars_of, ends_with, ends_with_chars, push_chars, push_str, split_chars, split_on, string_of,
    sub_chars,
};

verus! {

/// Errors that can occur when discovering devices via CoreDevice.
#[derive(Debug)]
pub enum CoreDeviceError {
    /// `xcrun devicectl` is not available (e.g. an older Xcode).
    NotAvailable(String),
    /// Failed to parse the JSON output from devicectl.
    ParseError(String),
    /// The devicectl command exited with an error.
    CommandFailed(String),
}

/// The text of a CoreDevice error.
pub open spec fn core_device_error_message(e: CoreDeviceError) -> Seq<char> {
    match e {
        CoreDeviceError::NotAvailable(m) => "devicectl not available: "@ + m@,
        CoreDeviceError::ParseError(m) => "failed to parse devicectl output: "@ + m@,
        CoreDeviceError::CommandFailed(m) => "devicectl command failed: "@ + m@,
    }
}

impl CoreDeviceError {
    /// The human-readable description of the error.
    pub fn message(&self) -> (r: String)
        ensures
            r@ == core_device_error_message(*self),
    {
        match self {
            CoreDeviceError::NotAvailable(m) => {
                let mut s = String::from_str("devicectl not available: ");
                push_str(&mut s, m.as_str());
                s
            },
            CoreDeviceError::ParseError(m) => {
                let mut s = String::from_str("failed to parse devicectl output: ");
                push_str(&mut s, m.as_str());
                s
            },
            CoreDeviceError::CommandFailed(m) => {
                let mut s = String::from_str("devicectl command failed: ");
                push_str(&mut s, m.as_str());
                s
            },
        }
    }
}

/// A physical device discovered via CoreDevice.
#[derive(Debug, Clone)]
pub struct CoreDeviceInfo {
    /// CoreDevice identifier (UUID format).
    pub identifier: String,
    /// The device's traditional UDID, if one is among its host names.
    pub udid: Option<String>,
    /// Human-readable name.
    pub name: String,
    /// Device model description (a marketing name, or type and product).
    pub model: String,
    /// OS version string.
    pub os_version: String,
    /// Connection transport type (e.g. "localNetwork", "wired").
    pub transport_type: String,
    /// Whether the device is paired with this Mac.
    pub is_paired: bool,
    /// Whether developer mode is enabled on the device.
    pub developer_mode: bool,
    /// mDNS host name for a direct TCP connection (`<name>.local`).
    pub hostname: Option<String>,
}

/// One device as devicectl lists it, with the properties the library reads.
#[derive(Debug, Clone)]
pub struct RawDevice {
    /// `identifier`.
    pub identifier: String,
    /// `connectionProperties.pairingState`.
    pub pairing_state: Option<String>,
    /// `connectionProperties.transportType`.
    pub transport_type: Option<String>,
    /// `connectionProperties.potentialHostnames` (empty when absent).
    pub potential_hostnames: Vec<String>,
    /// `deviceProperties.developerModeStatus`.
    pub developer_mode_status: Option<String>,
    /// `deviceProperties.name`.
    pub name: Option<String>,
    /// `deviceProperties.osVersionNumber`.
    pub os_version_number: Option<String>,
    /// `hardwareProperties.productType`.
    pub product_type: Option<String>,
    /// `hardwareProperties.deviceType`.
    pub device_type: Option<String>,
    /// `hardwareProperties.marketingName`.
    pub marketing_name: Option<String>,
}

/// The mathematical form of a [`CoreDeviceInfo`].
pub struct CoreDeviceInfoView {
    pub identifier: Seq<char>,
    pub udid: Option<Seq<char>>,
    pub name: Seq<char>,
    pub model: Seq<char>,
    pub os_version: Seq<char>,
    pub transport_type: Seq<char>,
    pub is_paired: bool,
    pub developer_mode: bool,
    pub hostname: Option<Seq<char>>,
}

/// The characters of an optional string.
pub open spec fn opt_text(o: Option<String>) -> Option<Seq<char>> {
    match o {
        Some(s) => Some(s@),
        None => None,
    }
}

impl View for CoreDeviceInfo {
    type V = CoreDeviceInfoView;

    open spec fn view(&self) -> CoreDeviceInfoView {
        CoreDeviceInfoView {
            identifier: self.identifier@,
            udid: opt_text(self.udid),
            name: self.name@,
            model: self.model@,
            os_version: self.os_version@,
            transport_type: self.transport_type@,
            is_paired: self.is_paired,
            developer_mode: self.developer_mode,
            hostname: opt_text(self.hostname),
        }
    }
}

// ---------------------------------------------------------------------------
// UUIDs and host names
// ---------------------------------------------------------------------------

/// An ASCII hexadecimal digit.
pub open spec fn is_hex_digit(c: char) -> bool {
    ('0' <= c <= '9') || ('a' <= c <= 'f') || ('A' <= c <= 'F')
}

/// Every character of `s` is a hexadecimal digit.
pub open spec fn all_hex(s: Seq<char>) -> bool {
    forall|i: int| 0 <= i < s.len() ==> is_hex_digit(#[trigger] s[i])
}

/// `s` has the UUID shape: five `-`-separated groups of 8, 4, 4, 4 and 12
/// hexadecimal digits.
pub open spec fn uuid_format(s: Seq<char>) -> bool {
    let p = split_on(s, '-');
    &&& p.len() == 5
    &&& p[0].len() == 8 && p[1].len() == 4 && p[2].len() == 4 && p[3].len() == 4 && p[4].len()
        == 12
    &&& forall|k: int| 0 <= k < 5 ==> all_hex(#[trigger] p[k])
}

fn is_hex_digit_exec(c: char) -> (r: bool)
    ensures
        r == is_hex_digit(c),
{
    ('0' <= c && c <= '9') || ('a' <= c && c <= 'f') || ('A' <= c && c <= 'F')
}

fn all_hex_exec(s: &[char]) -> (r: bool)
    ensures
        r == all_hex(s@),
{
    let mut i: usize = 0;
    while i < s.len()
        invariant
            i <= s@.len(),
            forall|k: int| 0 <= k < i ==> is_hex_digit(#[trigger] s@[k]),
        decreases s@.len() - i,
    {
        if !is_hex_digit_exec(s[i]) {
            return false;
        }
        i = i + 1;
    }
    true
}

/// Whether the string has the UUID shape (8-4-4-4-12 hexadecimal digits).
pub fn is_uuid_format(s: &str) -> (r: bool)
    ensures
        r == uuid_format(s@),
{
    let cs = chars_of(s);
    let parts = split_chars(cs.as_slice(), '-');
    if parts.len() != 5 {
        return false;
    }
    let lens_ok = parts[0].len() == 8 && parts[1].len() == 4 && parts[2].len() == 4
        && parts[3].len() == 4 && parts[4].len() == 12;
    if !lens_ok {
        return false;
    }
    let mut k: usize = 0;
    while k < 5
        invariant
            k <= 5,
            cs@ == s@,
            split_on(cs@, '-').len() == 5,
            parts@.len() == 5,
            forall|j: int| 0 <= j < 5 ==> (#[trigger] parts@[j])@ == split_on(cs@, '-')[j],
            forall|j: int| 0 <= j < k ==> all_hex(#[trigger] split_on(cs@, '-')[j]),
        decreases 5 - k,
    {
        if !all_hex_exec(parts[k].as_slice()) {
            assert(!all_hex(split_on(cs@, '-')[k as int]));
            return false;
        }
        k = k + 1;
    }
    true
}

/// Two characters are equal ignoring ASCII case.
pub open spec fn char_eq_ignore_ascii_case(a: char, b: char) -> bool {
    ||| a == b
    ||| 'A' <= a <= 'Z' && b as u32 == a as u32 + 32
    ||| 'A' <= b <= 'Z' && a as u32 == b as u32 + 32
}

/// Two strings are equal ignoring ASCII case (`str::eq_ignore_ascii_case`).
pub open spec fn eq_ignore_ascii_case(a: Seq<char>, b: Seq<char>) -> bool {
    a.len() == b.len() && forall|i: int| 0 <= i < a.len() ==> char_eq_ignore_ascii_case(
        #[trigger] a[i],
        b[i],
    )
}

fn eq_ignore_ascii_case_exec(a: &[char], b: &[char]) -> (r: bool)
    ensures
        r == eq_ignore_ascii_case(a@, b@),
{
    if a.len() != b.len() {
        return false;
    }
    let mut i: usize = 0;
    while i < a.len()
        invariant
            i <= a@.len(),
            a@.len() == b@.len(),
            forall|k: int| 0 <= k < i ==> char_eq_ignore_ascii_case(#[trigger] a@[k], b@[k]),
        decreases a@.len() - i,
    {
        let x = a[i];
        let y = b[i];
        let same = x == y || ('A' <= x && x <= 'Z' && (y as u32) == (x as u32) + 32) || ('A' <= y
            && y <= 'Z' && (x as u32) == (y as u32) + 32);
        if !same {
            return false;
        }
        i = i + 1;
    }
    true
}

/// The suffix of CoreDevice host names.
pub open spec fn coredevice_suffix() -> Seq<char> {
    ".coredevice.local"@
}

/// A host name without its `.coredevice.local` suffix, when it has one.
pub open spec fn strip_coredevice_suffix(h: Seq<char>) -> Seq<char> {
    if ends_with(h, coredevice_suffix()) {
        h.subrange(0, h.len() - coredevice_suffix().len())
    } else {
        h
    }
}

/// A stripped host name is the traditional UDID: it is neither the
/// CoreDevice identifier nor the device name (ignoring ASCII case), nor
/// UUID-shaped.
pub open spec fn udid_candidate(h: Seq<char>, id: Seq<char>, name: Seq<char>) -> bool {
    let s = strip_coredevice_suffix(h);
    !eq_ignore_ascii_case(s, id) && !eq_ignore_ascii_case(s, name) && !uuid_format(s)
}

/// The first host name that is the traditional UDID, stripped.
pub open spec fn first_udid(hs: Seq<Seq<char>>, id: Seq<char>, name: Seq<char>) -> Option<
    Seq<char>,
>
    decreases hs.len(),
{
    if hs.len() == 0 {
        None
    } else if udid_candidate(hs[0], id, name) {
        Some(strip_coredevice_suffix(hs[0]))
    } else {
        first_udid(hs.drop_first(), id, name)
    }
}

/// Stripping the suffix from `<u>.coredevice.local` gives `u`; a host name
/// without the suffix is left as it is.
pub proof fn lemma_strip_coredevice_suffix(u: Seq<char>, h: Seq<char>)
    ensures
        strip_coredevice_suffix(u + coredevice_suffix()) == u,
        !ends_with(h, coredevice_suffix()) ==> strip_coredevice_suffix(h) == h,
{
    let w = u + coredevice_suffix();
    assert(w.subrange(w.len() - coredevice_suffix().len(), w.len() as int) =~= coredevice_suffix());
    assert(w.subrange(0, w.len() - coredevice_suffix().len()) =~= u);
}

/// The traditional UDID found is a host name of the list, stripped of its
/// suffix, that equals neither the CoreDevice identifier nor the device
/// name (ignoring ASCII case) and is not UUID-shaped, and every host name
/// before it fails that; none is found only when every host name fails it.
pub proof fn lemma_first_udid(hs: Seq<Seq<char>>, id: Seq<char>, name: Seq<char>)
    ensures
        match first_udid(hs, id, name) {
            Some(u) => exists|i: int|
                0 <= i < hs.len() && u == strip_coredevice_suffix(hs[i]) && !eq_ignore_ascii_case(
                    u,
                    id,
                ) && !eq_ignore_ascii_case(u, name) && !uuid_format(u) && forall|j: int|
                    #![trigger hs[j]]
                    0 <= j < i ==> (eq_ignore_ascii_case(strip_coredevice_suffix(hs[j]), id)
                        || eq_ignore_ascii_case(strip_coredevice_suffix(hs[j]), name) || uuid_format(
                        strip_coredevice_suffix(hs[j]),
                    )),
            None => forall|j: int|
                #![trigger hs[j]]
                0 <= j < hs.len() ==> (eq_ignore_ascii_case(strip_coredevice_suffix(hs[j]), id)
                    || eq_ignore_ascii_case(strip_coredevice_suffix(hs[j]), name) || uuid_format(
                    strip_coredevice_suffix(hs[j]),
                )),
        },
    decreases hs.len(),
{
    if hs.len() > 0 {
        let t = hs.drop_first();
        lemma_first_udid(t, id, name);
        assert forall|j: int| 0 <= j < t.len() implies #[trigger] t[j] == hs[j + 1] by {}
        if !udid_candidate(hs[0], id, name) {
            match first_udid(t, id, name) {
                Some(u) => {
                    let i = choose|i: int|
                        0 <= i < t.len() && u == strip_coredevice_suffix(t[i])
                            && !eq_ignore_ascii_case(u, id) && !eq_ignore_ascii_case(u, name)
                            && !uuid_format(u) && forall|j: int|
                            #![trigger t[j]]
                            0 <= j < i ==> (eq_ignore_ascii_case(strip_coredevice_suffix(t[j]), id)
                                || eq_ignore_ascii_case(strip_coredevice_suffix(t[j]), name)
                                || uuid_format(strip_coredevice_suffix(t[j])));
                    assert(hs[i + 1] == t[i]);
                    assert forall|j: int| #![trigger hs[j]] 0 <= j < i + 1 implies (
                    eq_ignore_ascii_case(strip_coredevice_suffix(hs[j]), id) || eq_ignore_ascii_case(
                        strip_coredevice_suffix(hs[j]),
                        name,
                    ) || uuid_format(strip_coredevice_suffix(hs[j]))) by {
                        if j > 0 {
                            assert(hs[j] == t[j - 1]);
                        }
                    }
                },
                None => {
                    assert forall|j: int| #![trigger hs[j]] 0 <= j < hs.len() implies (
                    eq_ignore_ascii_case(strip_coredevice_suffix(hs[j]), id) || eq_ignore_ascii_case(
                        strip_coredevice_suffix(hs[j]),
                        name,
                    ) || uuid_format(strip_coredevice_suffix(hs[j]))) by {
                        if j > 0 {
                            assert(hs[j] == t[j - 1]);
                        }
                    }
                },
            }
        }
    }
}

/// The views of a list of strings.
pub open spec fn texts(v: Seq<String>) -> Seq<Seq<char>> {
    v.map_values(|s: String| s@)
}

fn strip_exec(h: &str) -> (r: Vec<char>)
    ensures
        r@ == strip_coredevice_suffix(h@),
{
    let cs = chars_of(h);
    let suffix = chars_of(".coredevice.local");
    if ends_with_chars(cs.as_slice(), suffix.as_slice()) {
        sub_chars(cs.as_slice(), 0, cs.len() - suffix.len())
    } else {
        cs
    }
}

proof fn lemma_first_udid_skip(hs: Seq<Seq<char>>, i: int, id: Seq<char>, name: Seq<char>)
    requires
        0 <= i < hs.len(),
    ensures
        first_udid(hs.subrange(i, hs.len() as int), id, name) == if udid_candidate(hs[i], id, name) {
            Some(strip_coredevice_suffix(hs[i]))
        } else {
            first_udid(hs.subrange(i + 1, hs.len() as int), id, name)
        },
{
    let s = hs.subrange(i, hs.len() as int);
    assert(s[0] == hs[i]);
    assert(s.drop_first() =~= hs.subrange(i + 1, hs.len() as int));
}

/// Extracts the traditional UDID from a device's potential host names: each
/// has the form `<value>.coredevice.local`; the first value that is not the
/// CoreDevice identifier, not the device name and not UUID-shaped is it.
pub fn extract_traditional_udid(hostnames: &[String], coredevice_id: &str, device_name: &str) -> (r:
    Option<String>)
    ensures
        opt_text(r) == first_udid(texts(hostnames@), coredevice_id@, device_name@),
{
    let ghost hs = texts(hostnames@);
    let id = chars_of(coredevice_id);
    let name = chars_of(device_name);
    let mut i: usize = 0;
    assert(hs.subrange(0, hs.len() as int) =~= hs);
    while i < hostnames.len()
        invariant
            i <= hostnames@.len(),
            hs == texts(hostnames@),
            hs.len() == hostnames@.len(),
            id@ == coredevice_id@,
            name@ == device_name@,
            first_udid(hs, coredevice_id@, device_name@) == first_udid(
                hs.subrange(i as int, hs.len() as int),
                coredevice_id@,
                device_name@,
            ),
        decreases hostnames@.len() - i,
    {
        proof {
            lemma_first_udid_skip(hs, i as int, coredevice_id@, device_name@);
        }
        assert(hs[i as int] == hostnames@[i as int]@);
        let stripped = strip_exec(hostnames[i].as_str());
        let skip = eq_ignore_ascii_case_exec(stripped.as_slice(), id.as_slice())
            || eq_ignore_ascii_case_exec(stripped.as_slice(), name.as_slice()) || {
            let s = string_of(stripped.as_slice());
            is_uuid_format(s.as_str())
        };
        if !skip {
            return Some(string_of(stripped.as_slice()));
        }
        i = i + 1;
    }
    assert(hs.subrange(i as int, hs.len() as int) =~= Seq::<Seq<char>>::empty());
    None
}

// ---------------------------------------------------------------------------
// Devices
// ---------------------------------------------------------------------------

/// The optional string equals the given text.
pub open spec fn opt_is(o: Option<String>, t: Seq<char>) -> bool {
    o matches Some(s) && s@ == t
}

/// The model description: the marketing name, else `<type> (<product>)`,
/// the product alone, the type alone, or `Unknown`.
pub open spec fn model_of(r: RawDevice) -> Seq<char> {
    match r.marketing_name {
        Some(m) => m@,
        None => match (r.device_type, r.product_type) {
            (Some(dt), Some(pt)) => dt@ + " ("@ + pt@ + ")"@,
            (None, Some(pt)) => pt@,
            (Some(dt), None) => dt@,
            (None, None) => "Unknown"@,
        },
    }
}

/// The text of an optional string, or the default when absent.
pub open spec fn text_or(o: Option<String>, d: Seq<char>) -> Seq<char> {
    match o {
        Some(s) => s@,
        None => d,
    }
}

/// What is made of a paired device.
pub open spec fn info_of(r: RawDevice) -> CoreDeviceInfoView {
    let name = text_or(r.name, Seq::empty());
    CoreDeviceInfoView {
        identifier: r.identifier@,
        udid: first_udid(texts(r.potential_hostnames@), r.identifier@, name),
        name,
        model: model_of(r),
        os_version: text_or(r.os_version_number, Seq::empty()),
        transport_type: text_or(r.transport_type, "unknown"@),
        is_paired: true,
        developer_mode: opt_is(r.developer_mode_status, "enabled"@),
        hostname: Some(name + ".local"@),
    }
}

/// Whether the device is paired with this Mac.
pub open spec fn is_paired(r: RawDevice) -> bool {
    opt_is(r.pairing_state, "paired"@)
}

/// The paired devices of a listing, in order, as device information.
pub open spec fn paired_infos(rs: Seq<RawDevice>) -> Seq<CoreDeviceInfoView>
    decreases rs.len(),
{
    if rs.len() == 0 {
        Seq::empty()
    } else if is_paired(rs.last()) {
        paired_infos(rs.drop_last()).push(info_of(rs.last()))
    } else {
        paired_infos(rs.drop_last())
    }
}

fn text_is(o: &Option<String>, t: &str) -> (r: bool)
    ensures
        r == opt_is(*o, t@),
{
    match o {
        Some(s) => {
            let a = chars_of(s.as_str());
            let b = chars_of(t);
            chars_eq(a.as_slice(), b.as_slice())
        },
        None => false,
    }
}

fn text_or_exec(o: &Option<String>, d: &str) -> (r: String)
    ensures
        r@ == text_or(*o, d@),
{
    match o {
        Some(s) => s.clone(),
        None => d.to_string(),
    }
}

/// The model description of a device (see [`model_of`]).
pub fn model_description(raw: &RawDevice) -> (r: String)
    ensures
        r@ == model_of(*raw),
{
    match &raw.marketing_name {
        Some(m) => m.clone(),
        None => match (&raw.device_type, &raw.product_type) {
            (Some(dt), Some(pt)) => {
                let mut s = dt.clone();
                push_str(&mut s, " (");
                push_str(&mut s, pt.as_str());
                push_str(&mut s, ")");
                s
            },
            (None, Some(pt)) => pt.clone(),
            (Some(dt), None) => dt.clone(),
            (None, None) => String::from_str("Unknown"),
        },
    }
}

/// The device information of one listed device, if it is paired (unpaired
/// devices are left out).
pub fn device_info(raw: &RawDevice) -> (r: Option<CoreDeviceInfo>)
    ensures
        is_paired(*raw) ==> (r matches Some(i) && i@ == info_of(*raw)),
        !is_paired(*raw) ==> r is None,
{
    if !text_is(&raw.pairing_state, "paired") {
        return None;
    }
    proof {
        reveal_strlit("");
        assert(""@ =~= Seq::<char>::empty());
    }
    let name = text_or_exec(&raw.name, "");
    let udid = extract_traditional_udid(
        raw.potential_hostnames.as_slice(),
        raw.identifier.as_str(),
        name.as_str(),
    );
    let mut hostname = name.clone();
    push_str(&mut hostname, ".local");
    Some(
        CoreDeviceInfo {
            identifier: raw.identifier.clone(),
            udid,
            name,
            model: model_description(raw),
            os_version: text_or_exec(&raw.os_version_number, ""),
            transport_type: text_or_exec(&raw.transport_type, "unknown"),
            is_paired: true,
            developer_mode: text_is(&raw.developer_mode_status, "enabled"),
            hostname: Some(hostname),
        },
    )
}

/// The paired devices of a devicectl listing, in listing order.
pub fn paired_devices(raws: &[RawDevice]) -> (r: Vec<CoreDeviceInfo>)
    ensures
        r@.map_values(|i: CoreDeviceInfo| i@) == paired_infos(raws@),
{
    let mut out: Vec<CoreDeviceInfo> = Vec::new();
    let mut i: usize = 0;
    while i < raws.len()
        invariant
            i <= raws@.len(),
            out@.map_values(|d: CoreDeviceInfo| d@) == paired_infos(raws@.subrange(0, i as int)),
        decreases raws@.len() - i,
    {
        let ghost pre = raws@.subrange(0, i as int);
        assert(raws@.subrange(0, i + 1).drop_last() =~= pre);
        assert(raws@.subrange(0, i + 1).last() == raws@[i as int]);
        let ghost before = out@;
        match device_info(&raws[i]) {
            Some(d) => {
                out.push(d);
                assert(out@.map_values(|x: CoreDeviceInfo| x@) =~= before.map_values(
                    |x: CoreDeviceInfo| x@,
                ).push(info_of(raws@[i as int])));
            },
            None => {},
        }
        i = i + 1;
    }
    assert(raws@.subrange(0, raws@.len() as int) =~= raws@);
    out
}

/// A device listing entry yields information exactly when its pairing state
/// is the text "paired"; the information then says the device is paired,
/// reports developer mode as on exactly when the status is the text
/// "enabled" (any other status, or none, is off), keeps the identifier, takes
/// the name (empty when absent) and the OS version (empty when absent), takes
/// the transport (`unknown` when absent), and gives `<name>.local` as the
/// host name.
pub proof fn lemma_device_info_fields(r: RawDevice)
    ensures
        is_paired(r) <==> (r.pairing_state matches Some(p) && p@ == "paired"@),
        info_of(r).is_paired,
        info_of(r).developer_mode <==> (r.developer_mode_status matches Some(m) && m@
            == "enabled"@),
        info_of(r).identifier == r.identifier@,
        r.name matches Some(n) ==> info_of(r).name == n@,
        r.name is None ==> info_of(r).name.len() == 0,
        r.os_version_number matches Some(v) ==> info_of(r).os_version == v@,
        r.os_version_number is None ==> info_of(r).os_version.len() == 0,
        r.transport_type matches Some(t) ==> info_of(r).transport_type == t@,
        r.transport_type is None ==> info_of(r).transport_type == "unknown"@,
        info_of(r).hostname == Some(info_of(r).name + ".local"@),
{
}

/// Listing two runs of devices one after the other lists the paired devices
/// of the first run, then those of the second; a single device is listed
/// exactly when it is paired.
pub proof fn lemma_paired_infos_split(a: Seq<RawDevice>, b: Seq<RawDevice>)
    ensures
        paired_infos(a + b) == paired_infos(a) + paired_infos(b),
        forall|r: RawDevice|
            #[trigger] paired_infos(seq![r]) == if is_paired(r) {
                seq![info_of(r)]
            } else {
                Seq::<CoreDeviceInfoView>::empty()
            },
    decreases b.len(),
{
    assert forall|r: RawDevice|
        #[trigger] paired_infos(seq![r]) == if is_paired(r) {
            seq![info_of(r)]
        } else {
            Seq::<CoreDeviceInfoView>::empty()
        } by {
        assert(seq![r].drop_last() =~= Seq::<RawDevice>::empty());
        assert(paired_infos(Seq::<RawDevice>::empty()) =~= Seq::<CoreDeviceInfoView>::empty());
        if is_paired(r) {
            assert(Seq::<CoreDeviceInfoView>::empty().push(info_of(r)) =~= seq![info_of(r)]);
        }
    }
    if b.len() == 0 {
        assert(a + b =~= a);
        assert(paired_infos(a) + paired_infos(b) =~= paired_infos(a));
    } else {
        lemma_paired_infos_split(a, b.drop_last());
        assert((a + b).drop_last() =~= a + b.drop_last());
        assert((a + b).last() == b.last());
        if is_paired(b.last()) {
            assert(paired_infos(a) + paired_infos(b.drop_last()).push(info_of(b.last())) =~= (
            paired_infos(a) + paired_infos(b.drop_last())).push(info_of(b.last())));
        }
    }
}

} // verus!
