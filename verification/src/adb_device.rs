//! Android devices as `adb` reports them: parsing of `adb devices -l` and
//! `emulator -list-avds` output, classification of serials, and the decisions
//! taken on the output of the `adb` commands.

use vstd::prelude::*;
use crate::text::{
    all_ascii_digits, all_digits, chars_eq, chars_of, contains, contains_chars, push_chars,
    rsplit_once, rsplit_once_chars, split_chars, split_on, split_once, split_once_chars,
    starts_with, starts_with_chars, string_of, trim, trim_chars, words, words_of,
};

verus! {

/// Errors that can occur when interacting with `adb`.
#[derive(Debug)]
pub enum AdbError {
    /// An adb command failed to execute successfully (non-zero exit code).
    CommandFailed(String),
    /// No device matching the requested serial was found.
    DeviceNotFound(String),
    /// The device did not reach the requested state before the timeout elapsed.
    BootTimeout(String),
    /// An I/O error occurred while executing the command.
    Io(std::io::Error),
}

impl AdbError {
    /// The human-readable description of the error; for an I/O error, the
    /// prefix before the platform's own text.
    pub fn message(&self) -> (r: String)
        ensures
            match self {
                AdbError::CommandFailed(m) => r@ == "Command execution failed: "@ + m@,
                AdbError::DeviceNotFound(m) => r@ == "Device not found: "@ + m@,
                AdbError::BootTimeout(m) => r@ == "Timed out waiting for device to be ready: "@
                    + m@,
                AdbError::Io(_) => starts_with(r@, "IO error: "@),
            },
    {
        match self {
            AdbError::CommandFailed(m) => {
                let mut s = String::from_str("Command execution failed: ");
                s.append(m.as_str());
                s
            },
            AdbError::DeviceNotFound(m) => {
                let mut s = String::from_str("Device not found: ");
                s.append(m.as_str());
                s
            },
            AdbError::BootTimeout(m) => {
                let mut s = String::from_str("Timed out waiting for device to be ready: ");
                s.append(m.as_str());
                s
            },
            AdbError::Io(e) => {
                let mut s = String::from_str("IO error: ");
                let ghost pre = s@;
                let t = crate::io_error::io_error_text(e);
                s.append(t.as_str());
                assert(s@.subrange(0, pre.len() as int) =~= pre);
                s
            },
        }
    }
}

/// The transport kind of a device, inferred from the shape of its serial.
#[derive(Debug, Clone, Copy, PartialEq, Eq, Structural)]
pub enum DeviceKind {
    /// A running emulator (serial like `emulator-5554`).
    Emulator,
    /// A device reachable over the network (serial like `192.168.1.10:5555`).
    Network,
    /// A USB-connected physical device (any other serial form).
    Physical,
}

/// An Android device as reported by `adb devices -l`.
#[derive(Debug, Clone)]
pub struct AndroidDevice {
    /// The adb serial that identifies and addresses this device.
    pub serial: String,
    /// The adb connection state (`device`, `offline`, `unauthorized`, ...).
    pub state: String,
    /// The inferred transport kind.
    pub kind: DeviceKind,
    /// The `model:` attribute, if present.
    pub model: Option<String>,
    /// The `product:` attribute, if present.
    pub product: Option<String>,
    /// The `device:` attribute, if present.
    pub device: Option<String>,
    /// The `transport_id:` attribute, if present.
    pub transport_id: Option<String>,
}

/// The mathematical form of an [`AndroidDevice`].
pub struct DeviceView {
    pub serial: Seq<char>,
    pub state: Seq<char>,
    pub kind: DeviceKind,
    pub model: Option<Seq<char>>,
    pub product: Option<Seq<char>>,
    pub device: Option<Seq<char>>,
    pub transport_id: Option<Seq<char>>,
}

pub open spec fn opt_chars(o: Option<String>) -> Option<Seq<char>> {
    match o {
        Some(s) => Some(s@),
        None => None,
    }
}

impl View for AndroidDevice {
    type V = DeviceView;

    open spec fn view(&self) -> DeviceView {
        DeviceView {
            serial: self.serial@,
            state: self.state@,
            kind: self.kind,
            model: opt_chars(self.model),
            product: opt_chars(self.product),
            device: opt_chars(self.device),
            transport_id: opt_chars(self.transport_id),
        }
    }
}

impl AndroidDevice {
    /// The device is in the usable `device` state.
    pub fn is_ready(&self) -> (r: bool)
        ensures
            r == (self.state@ == "device"@),
    {
        let a = chars_of(self.state.as_str());
        let b = chars_of("device");
        chars_eq(a.as_slice(), b.as_slice())
    }
}

/// An Android Virtual Device (a bootable emulator configuration).
#[derive(Debug, Clone)]
pub struct Avd {
    /// The AVD name, used to boot it via `emulator -avd <name>`.
    pub name: String,
}

/// Namespace for the `adb` parsing and decision helpers.
pub struct Adb;

// ---------------------------------------------------------------------------
// Specification
// ---------------------------------------------------------------------------

/// The serial has the shape `<host>:<port>`: a non-empty host, then after the
/// last `:` a non-empty all-digit port.
pub open spec fn is_host_port(s: Seq<char>) -> bool {
    match rsplit_once(s, ':') {
        Some((host, port)) => host.len() > 0 && port.len() > 0 && all_digits(port),
        None => false,
    }
}

/// The kind a serial indicates.
pub open spec fn serial_kind(s: Seq<char>) -> DeviceKind {
    if starts_with(s, "emulator-"@) {
        DeviceKind::Emulator
    } else if is_host_port(s) {
        DeviceKind::Network
    } else {
        DeviceKind::Physical
    }
}

/// The value of the last `key:value` attribute with the given key.
pub open spec fn attr_value(attrs: Seq<Seq<char>>, key: Seq<char>) -> Option<Seq<char>>
    decreases attrs.len(),
{
    if attrs.len() == 0 {
        None
    } else {
        match split_once(attrs.last(), ':') {
            Some((k, v)) => if k == key {
                Some(v)
            } else {
                attr_value(attrs.drop_last(), key)
            },
            None => attr_value(attrs.drop_last(), key),
        }
    }
}

/// The device that one `adb devices -l` line describes:
/// `<serial> <state> [key:value ...]`.
pub open spec fn device_line(line: Seq<char>) -> Option<DeviceView> {
    let w = words(line);
    if w.len() < 2 {
        None
    } else {
        let attrs = w.subrange(2, w.len() as int);
        Some(
            DeviceView {
                serial: w[0],
                state: w[1],
                kind: serial_kind(w[0]),
                model: attr_value(attrs, "model"@),
                product: attr_value(attrs, "product"@),
                device: attr_value(attrs, "device"@),
                transport_id: attr_value(attrs, "transport_id"@),
            },
        )
    }
}

/// A trimmed line of `adb devices -l` output that can describe a device:
/// not blank, not the header, not a daemon message.
pub open spec fn is_device_line(t: Seq<char>) -> bool {
    t.len() > 0 && !starts_with(t, "List of devices"@) && !starts_with(t, "*"@)
}

/// The devices that a run of output lines describes, in order.
pub open spec fn devices_of_lines(lines: Seq<Seq<char>>) -> Seq<DeviceView>
    decreases lines.len(),
{
    if lines.len() == 0 {
        Seq::empty()
    } else {
        let rest = devices_of_lines(lines.drop_last());
        let t = trim(lines.last());
        if is_device_line(t) {
            match device_line(t) {
                Some(d) => rest.push(d),
                None => rest,
            }
        } else {
            rest
        }
    }
}

/// The devices that `adb devices -l` output describes.
pub open spec fn devices_of(output: Seq<char>) -> Seq<DeviceView> {
    devices_of_lines(split_on(output, '\n'))
}

/// A trimmed line of `emulator -list-avds` output that names an AVD.
pub open spec fn is_avd_line(t: Seq<char>) -> bool {
    t.len() > 0 && !starts_with(t, "INFO"@) && !starts_with(t, "WARNING"@) && !starts_with(
        t,
        "ERROR"@,
    )
}

/// The AVD names a run of output lines lists, in order.
pub open spec fn avds_of_lines(lines: Seq<Seq<char>>) -> Seq<Seq<char>>
    decreases lines.len(),
{
    if lines.len() == 0 {
        Seq::empty()
    } else {
        let rest = avds_of_lines(lines.drop_last());
        let t = trim(lines.last());
        if is_avd_line(t) {
            rest.push(t)
        } else {
            rest
        }
    }
}

/// The AVD names that `emulator -list-avds` output lists.
pub open spec fn avds_of(output: Seq<char>) -> Seq<Seq<char>> {
    avds_of_lines(split_on(output, '\n'))
}

/// `adb connect` reported success in its output.
pub open spec fn connect_ok(stdout: Seq<char>) -> bool {
    contains(stdout, "connected to"@) || contains(stdout, "already connected"@)
}

// ---------------------------------------------------------------------------
// Execution
// ---------------------------------------------------------------------------

fn opt_string(o: &Option<Vec<char>>) -> (r: Option<String>)
    ensures
        opt_chars(r) == match o {
            Some(v) => Some(v@),
            None => None::<Seq<char>>,
        },
{
    match o {
        Some(v) => Some(string_of(v.as_slice())),
        None => None,
    }
}

proof fn lemma_attr_step(w: Seq<Seq<char>>, k: int, key: Seq<char>)
    requires
        2 <= k < w.len(),
    ensures
        attr_value(w.subrange(2, k + 1), key) == match split_once(w[k], ':') {
            Some((a, v)) => if a == key {
                Some(v)
            } else {
                attr_value(w.subrange(2, k), key)
            },
            None => attr_value(w.subrange(2, k), key),
        },
{
    let s = w.subrange(2, k + 1);
    assert(s.drop_last() =~= w.subrange(2, k));
    assert(s.last() == w[k]);
}

impl Adb {
    /// Parses a single `adb devices -l` line into an [`AndroidDevice`].
    fn parse_device_line(line: &[char]) -> (r: Option<AndroidDevice>)
        ensures
            match device_line(line@) {
                Some(d) => r matches Some(x) && x@ == d,
                None => r is None,
            },
    {
        let w = words_of(line);
        if w.len() < 2 {
            return None;
        }
        let ghost ws = words(line@);
        let ghost wv = w@.map_values(|v: Vec<char>| v@);
        assert(wv =~= ws);
        let key_model = chars_of("model");
        let key_product = chars_of("product");
        let key_device = chars_of("device");
        let key_transport = chars_of("transport_id");
        let mut model: Option<Vec<char>> = None;
        let mut product: Option<Vec<char>> = None;
        let mut device: Option<Vec<char>> = None;
        let mut transport_id: Option<Vec<char>> = None;
        assert(ws.subrange(2, 2) =~= Seq::<Seq<char>>::empty());
        let mut k: usize = 2;
        while k < w.len()
            invariant
                2 <= k <= w@.len(),
                ws == words(line@),
                ws.len() == w@.len(),
                forall|j: int| 0 <= j < w@.len() ==> (#[trigger] w@[j])@ == ws[j],
                key_model@ == "model"@,
                key_product@ == "product"@,
                key_device@ == "device"@,
                key_transport@ == "transport_id"@,
                (match model {
                    Some(v) => Some(v@),
                    None => None::<Seq<char>>,
                }) == attr_value(ws.subrange(2, k as int), "model"@),
                (match product {
                    Some(v) => Some(v@),
                    None => None::<Seq<char>>,
                }) == attr_value(ws.subrange(2, k as int), "product"@),
                (match device {
                    Some(v) => Some(v@),
                    None => None::<Seq<char>>,
                }) == attr_value(ws.subrange(2, k as int), "device"@),
                (match transport_id {
                    Some(v) => Some(v@),
                    None => None::<Seq<char>>,
                }) == attr_value(ws.subrange(2, k as int), "transport_id"@),
            decreases w@.len() - k,
        {
            proof {
                lemma_attr_step(ws, k as int, "model"@);
                lemma_attr_step(ws, k as int, "product"@);
                lemma_attr_step(ws, k as int, "device"@);
                lemma_attr_step(ws, k as int, "transport_id"@);
            }
            match split_once_chars(w[k].as_slice(), ':') {
                Some((key, value)) => {
                    if chars_eq(key.as_slice(), key_model.as_slice()) {
                        model = Some(sub_copy(&value));
                    }
                    if chars_eq(key.as_slice(), key_product.as_slice()) {
                        product = Some(sub_copy(&value));
                    }
                    if chars_eq(key.as_slice(), key_device.as_slice()) {
                        device = Some(sub_copy(&value));
                    }
                    if chars_eq(key.as_slice(), key_transport.as_slice()) {
                        transport_id = Some(sub_copy(&value));
                    }
                },
                None => {},
            }
            k = k + 1;
        }
        let serial = string_of(w[0].as_slice());
        let state = string_of(w[1].as_slice());
        let kind = Self::classify_serial(serial.as_str());
        Some(
            AndroidDevice {
                kind,
                serial,
                state,
                model: opt_string(&model),
                product: opt_string(&product),
                device: opt_string(&device),
                transport_id: opt_string(&transport_id),
            },
        )
    }

    /// Classifies a device by the shape of its adb serial.
    pub fn classify_serial(serial: &str) -> (r: DeviceKind)
        ensures
            r == serial_kind(serial@),
    {
        let s = chars_of(serial);
        let prefix = chars_of("emulator-");
        if starts_with_chars(s.as_slice(), prefix.as_slice()) {
            DeviceKind::Emulator
        } else if Self::looks_like_host_port(s.as_slice()) {
            DeviceKind::Network
        } else {
            DeviceKind::Physical
        }
    }

    /// Whether the serial looks like a `host:port` network endpoint.
    fn looks_like_host_port(serial: &[char]) -> (r: bool)
        ensures
            r == is_host_port(serial@),
    {
        match rsplit_once_chars(serial, ':') {
            Some((host, port)) => host.len() > 0 && port.len() > 0 && all_ascii_digits(
                port.as_slice(),
            ),
            None => false,
        }
    }

    /// Whether `adb connect` stdout indicates a successful connection.
    pub fn connect_succeeded(stdout: &str) -> (r: bool)
        ensures
            r == connect_ok(stdout@),
    {
        let s = chars_of(stdout);
        let a = chars_of("connected to");
        let b = chars_of("already connected");
        contains_chars(s.as_slice(), a.as_slice()) || contains_chars(s.as_slice(), b.as_slice())
    }

    /// Parses the output of `adb devices -l` into a list of devices.
    ///
    /// The header (`List of devices attached`), blank lines and `*`-prefixed
    /// daemon lines are ignored; every other line is
    /// `"<serial> <state> [key:value ...]"`.
    pub fn parse_devices(output: &str) -> (r: Vec<AndroidDevice>)
        ensures
            r@.map_values(|d: AndroidDevice| d@) == devices_of(output@),
    {
        let chars = chars_of(output);
        let lines = split_chars(chars.as_slice(), '\n');
        let ghost ls = split_on(output@, '\n');
        let header = chars_of("List of devices");
        let star = chars_of("*");
        let mut out: Vec<AndroidDevice> = Vec::new();
        assert(ls.subrange(0, 0) =~= Seq::<Seq<char>>::empty());
        let mut i: usize = 0;
        while i < lines.len()
            invariant
                i <= lines@.len(),
                ls == split_on(output@, '\n'),
                lines@.len() == ls.len(),
                forall|k: int| 0 <= k < lines@.len() ==> (#[trigger] lines@[k])@ == ls[k],
                header@ == "List of devices"@,
                star@ == "*"@,
                out@.map_values(|d: AndroidDevice| d@) == devices_of_lines(
                    ls.subrange(0, i as int),
                ),
            decreases lines@.len() - i,
        {
            let ghost pre = ls.subrange(0, i as int);
            let ghost post = ls.subrange(0, i + 1);
            assert(post.drop_last() =~= pre);
            assert(post.last() == ls[i as int]);
            let t = trim_chars(lines[i].as_slice());
            if t.len() > 0 && !starts_with_chars(t.as_slice(), header.as_slice())
                && !starts_with_chars(t.as_slice(), star.as_slice()) {
                match Self::parse_device_line(t.as_slice()) {
                    Some(d) => {
                        let ghost before = out@;
                        out.push(d);
                        assert(out@.map_values(|d: AndroidDevice| d@) =~= before.map_values(
                            |d: AndroidDevice| d@,
                        ).push(d@));
                    },
                    None => {},
                }
            }
            i = i + 1;
        }
        assert(ls.subrange(0, ls.len() as int) =~= ls);
        out
    }

    /// Parses the output of `emulator -list-avds` into a list of AVDs: one
    /// name per non-blank line, skipping `INFO`/`WARNING`/`ERROR` lines.
    pub fn parse_avds(output: &str) -> (r: Vec<Avd>)
        ensures
            r@.map_values(|a: Avd| a.name@) == avds_of(output@),
    {
        let chars = chars_of(output);
        let lines = split_chars(chars.as_slice(), '\n');
        let ghost ls = split_on(output@, '\n');
        let info = chars_of("INFO");
        let warning = chars_of("WARNING");
        let error = chars_of("ERROR");
        let mut out: Vec<Avd> = Vec::new();
        assert(ls.subrange(0, 0) =~= Seq::<Seq<char>>::empty());
        let mut i: usize = 0;
        while i < lines.len()
            invariant
                i <= lines@.len(),
                ls == split_on(output@, '\n'),
                lines@.len() == ls.len(),
                forall|k: int| 0 <= k < lines@.len() ==> (#[trigger] lines@[k])@ == ls[k],
                info@ == "INFO"@,
                warning@ == "WARNING"@,
                error@ == "ERROR"@,
                out@.map_values(|a: Avd| a.name@) == avds_of_lines(ls.subrange(0, i as int)),
            decreases lines@.len() - i,
        {
            let ghost pre = ls.subrange(0, i as int);
            let ghost post = ls.subrange(0, i + 1);
            assert(post.drop_last() =~= pre);
            assert(post.last() == ls[i as int]);
            let t = trim_chars(lines[i].as_slice());
            if t.len() > 0 && !starts_with_chars(t.as_slice(), info.as_slice())
                && !starts_with_chars(t.as_slice(), warning.as_slice()) && !starts_with_chars(
                t.as_slice(),
                error.as_slice(),
            ) {
                let ghost before = out@;
                out.push(Avd { name: string_of(t.as_slice()) });
                assert(out@.map_values(|a: Avd| a.name@) =~= before.map_values(|a: Avd| a.name@).push(
                    t@,
                ));
            }
            i = i + 1;
        }
        assert(ls.subrange(0, ls.len() as int) =~= ls);
        out
    }
}

/// A copy of a character run.
fn sub_copy(v: &Vec<char>) -> (r: Vec<char>)
    ensures
        r@ == v@,
{
    let mut r: Vec<char> = Vec::new();
    let mut i: usize = 0;
    while i < v.len()
        invariant
            i <= v@.len(),
            r@ == v@.subrange(0, i as int),
        decreases v@.len() - i,
    {
        r.push(v[i]);
        i = i + 1;
        assert(r@ =~= v@.subrange(0, i as int));
    }
    assert(v@.subrange(0, v@.len() as int) =~= v@);
    r
}

// ---------------------------------------------------------------------------
// Outcomes of adb commands
// ---------------------------------------------------------------------------

/// Whether two texts are equal by characters.
fn same_text(a: &str, b: &str) -> (r: bool)
    ensures
        r == (a@ == b@),
{
    let x = chars_of(a);
    let y = chars_of(b);
    chars_eq(x.as_slice(), y.as_slice())
}

/// The trimmed standard output followed by the trimmed error output.
fn joined_output(stdout: &str, stderr: &str) -> (r: String)
    ensures
        r@ == trim(stdout@) + trim(stderr@),
{
    let o = chars_of(stdout);
    let e = chars_of(stderr);
    let mut m = String::new();
    let ot = trim_chars(o.as_slice());
    let et = trim_chars(e.as_slice());
    push_chars(&mut m, ot.as_slice());
    push_chars(&mut m, et.as_slice());
    m
}

/// The device is a ready emulator that was not there before.
pub open spec fn new_ready_emulator(before: Seq<Seq<char>>, d: DeviceView) -> bool {
    d.kind == DeviceKind::Emulator && d.state == "device"@ && !before.contains(d.serial)
}

/// The serial of the first device (in listing order) that is a new ready
/// emulator.
pub open spec fn first_new_emulator(before: Seq<Seq<char>>, ds: Seq<DeviceView>) -> Option<Seq<char>>
    decreases ds.len(),
{
    if ds.len() == 0 {
        None
    } else if new_ready_emulator(before, ds[0]) {
        Some(ds[0].serial)
    } else {
        first_new_emulator(before, ds.drop_first())
    }
}

/// The views of a list of strings.
pub open spec fn texts(v: Seq<String>) -> Seq<Seq<char>> {
    v.map_values(|s: String| s@)
}

/// The views of a list of devices.
pub open spec fn device_views(v: Seq<AndroidDevice>) -> Seq<DeviceView> {
    v.map_values(|d: AndroidDevice| d@)
}

/// The serials of the emulators among the devices, in order.
pub open spec fn emulator_serials_of(ds: Seq<DeviceView>) -> Seq<Seq<char>>
    decreases ds.len(),
{
    if ds.len() == 0 {
        Seq::empty()
    } else if ds.last().kind == DeviceKind::Emulator {
        emulator_serials_of(ds.drop_last()).push(ds.last().serial)
    } else {
        emulator_serials_of(ds.drop_last())
    }
}

/// The emulator chosen after a boot is a device of the listing that is an
/// emulator, in the `device` state and absent from the serials seen before
/// the boot, and no device listed before it is one; none is chosen only when
/// no listed device is one.
pub proof fn lemma_new_emulator_is_first_fresh(before: Seq<Seq<char>>, ds: Seq<DeviceView>)
    ensures
        match first_new_emulator(before, ds) {
            Some(s) => exists|i: int|
                0 <= i < ds.len() && ds[i].serial == s && ds[i].kind == DeviceKind::Emulator
                    && ds[i].state == "device"@ && !before.contains(ds[i].serial) && forall|j: int|
                    #![trigger ds[j]]
                    0 <= j < i ==> !(ds[j].kind == DeviceKind::Emulator && ds[j].state == "device"@
                        && !before.contains(ds[j].serial)),
            None => forall|j: int|
                #![trigger ds[j]]
                0 <= j < ds.len() ==> !(ds[j].kind == DeviceKind::Emulator && ds[j].state
                    == "device"@ && !before.contains(ds[j].serial)),
        },
    decreases ds.len(),
{
    if ds.len() > 0 {
        lemma_new_emulator_is_first_fresh(before, ds.drop_first());
        let t = ds.drop_first();
        assert forall|j: int| 0 <= j < t.len() implies t[j] == ds[j + 1] by {}
        if !new_ready_emulator(before, ds[0]) {
            match first_new_emulator(before, t) {
                Some(s) => {
                    let i = choose|i: int|
                        0 <= i < t.len() && t[i].serial == s && t[i].kind == DeviceKind::Emulator
                            && t[i].state == "device"@ && !before.contains(t[i].serial) && forall|
                            j: int,
                        |
                            #![trigger t[j]]
                            0 <= j < i ==> !(t[j].kind == DeviceKind::Emulator && t[j].state
                                == "device"@ && !before.contains(t[j].serial));
                    assert(ds[i + 1] == t[i]);
                    assert forall|j: int| #![trigger ds[j]] 0 <= j < i + 1 implies !(ds[j].kind
                        == DeviceKind::Emulator && ds[j].state == "device"@ && !before.contains(
                        ds[j].serial,
                    )) by {
                        if j > 0 {
                            assert(ds[j] == t[j - 1]);
                        }
                    }
                },
                None => {
                    assert forall|j: int| #![trigger ds[j]] 0 <= j < ds.len() implies !(ds[j].kind
                        == DeviceKind::Emulator && ds[j].state == "device"@ && !before.contains(
                        ds[j].serial,
                    )) by {
                        if j > 0 {
                            assert(ds[j] == t[j - 1]);
                        }
                    }
                },
            }
        }
    }
}

/// A device line names the device by its first word and gives its state as
/// the second; a line of fewer than two words names no device.
pub proof fn lemma_device_line_fields(line: Seq<char>)
    ensures
        words(line).len() < 2 <==> device_line(line) is None,
        device_line(line) matches Some(d) ==> d.serial == words(line)[0] && d.state
            == words(line)[1] && d.kind == serial_kind(d.serial),
{
}

/// A serial beginning `emulator-` is an emulator; otherwise one shaped
/// `host:port` is a network device, and any other is a physical device.
pub proof fn lemma_serial_kinds(serial: Seq<char>)
    ensures
        starts_with(serial, "emulator-"@) ==> serial_kind(serial) == DeviceKind::Emulator,
        !starts_with(serial, "emulator-"@) && is_host_port(serial) ==> serial_kind(serial)
            == DeviceKind::Network,
        !starts_with(serial, "emulator-"@) && !is_host_port(serial) ==> serial_kind(serial)
            == DeviceKind::Physical,
{
}

impl Adb {
    /// The outcome of `adb connect`: it exits 0 even when the host is
    /// unreachable, so success also needs a success report on standard
    /// output; a failure carries both outputs, trimmed.
    pub fn connect_outcome(success: bool, stdout: &str, stderr: &str) -> (r: Result<(), AdbError>)
        ensures
            (success && connect_ok(stdout@)) ==> r is Ok,
            !(success && connect_ok(stdout@)) ==> (r matches Err(AdbError::CommandFailed(m)) && m@
                == trim(stdout@) + trim(stderr@)),
    {
        if success && Self::connect_succeeded(stdout) {
            Ok(())
        } else {
            Err(AdbError::CommandFailed(joined_output(stdout, stderr)))
        }
    }

    /// The outcome of `adb install`: a non-zero exit or a `Failure` report in
    /// either output fails, carrying both outputs, trimmed.
    pub fn install_outcome(success: bool, stdout: &str, stderr: &str) -> (r: Result<(), AdbError>)
        ensures
            (success && !contains(stdout@, "Failure"@) && !contains(stderr@, "Failure"@)) ==> r is Ok,
            !(success && !contains(stdout@, "Failure"@) && !contains(stderr@, "Failure"@)) ==> (r matches Err(
                AdbError::CommandFailed(m),
            ) && m@ == trim(stdout@) + trim(stderr@)),
    {
        let o = chars_of(stdout);
        let e = chars_of(stderr);
        let needle = chars_of("Failure");
        if success && !contains_chars(o.as_slice(), needle.as_slice()) && !contains_chars(
            e.as_slice(),
            needle.as_slice(),
        ) {
            Ok(())
        } else {
            Err(AdbError::CommandFailed(joined_output(stdout, stderr)))
        }
    }

    /// The outcome of an adb command judged by its exit status alone.
    pub fn command_outcome(success: bool, stderr: String) -> (r: Result<(), AdbError>)
        ensures
            success ==> r is Ok,
            !success ==> (r matches Err(AdbError::CommandFailed(m)) && m == stderr),
    {
        if success {
            Ok(())
        } else {
            Err(AdbError::CommandFailed(stderr))
        }
    }

    /// The outcome of `adb exec-out screencap -p`: the image, unless the
    /// command failed or produced nothing.
    pub fn screencap_outcome(success: bool, stdout: Vec<u8>, stderr: String) -> (r: Result<
        Vec<u8>,
        AdbError,
    >)
        ensures
            (success && stdout@.len() > 0) ==> r == Ok::<Vec<u8>, AdbError>(stdout),
            !(success && stdout@.len() > 0) ==> (r matches Err(AdbError::CommandFailed(m)) && m
                == stderr),
    {
        if success && stdout.len() > 0 {
            Ok(stdout)
        } else {
            Err(AdbError::CommandFailed(stderr))
        }
    }

    /// Whether `getprop sys.boot_completed` reports a finished boot: the
    /// command succeeded and printed `1`.
    pub fn boot_completed(success: bool, stdout: &str) -> (r: bool)
        ensures
            r == (success && trim(stdout@) == "1"@),
    {
        if !success {
            return false;
        }
        let o = chars_of(stdout);
        let t = trim_chars(o.as_slice());
        let one = chars_of("1");
        chars_eq(t.as_slice(), one.as_slice())
    }

    /// The serials of the emulators among the devices.
    pub fn emulator_serials(devices: &[AndroidDevice]) -> (r: Vec<String>)
        ensures
            texts(r@) == emulator_serials_of(device_views(devices@)),
    {
        let mut out: Vec<String> = Vec::new();
        let mut i: usize = 0;
        while i < devices.len()
            invariant
                i <= devices@.len(),
                texts(out@) == emulator_serials_of(device_views(devices@.subrange(0, i as int))),
            decreases devices@.len() - i,
        {
            let ghost pre = device_views(devices@.subrange(0, i as int));
            let ghost post = device_views(devices@.subrange(0, i + 1));
            assert(post.drop_last() =~= pre);
            assert(post.last() == devices@[i as int]@);
            let ghost before = out@;
            if devices[i].kind == DeviceKind::Emulator {
                out.push(devices[i].serial.clone());
                assert(texts(out@) =~= texts(before).push(devices@[i as int].serial@));
            }
            i = i + 1;
        }
        assert(devices@.subrange(0, devices@.len() as int) =~= devices@);
        out
    }

    /// The serial of the first listed device that is a ready emulator not
    /// among the serials seen before the boot.
    pub fn new_emulator(before: &[String], devices: &[AndroidDevice]) -> (r: Option<String>)
        ensures
            match first_new_emulator(texts(before@), device_views(devices@)) {
                Some(s) => r matches Some(x) && x@ == s,
                None => r is None,
            },
    {
        let ghost ds = device_views(devices@);
        let ghost bs = texts(before@);
        let mut i: usize = 0;
        assert(ds.subrange(0, ds.len() as int) =~= ds);
        while i < devices.len()
            invariant
                i <= devices@.len(),
                ds == device_views(devices@),
                bs == texts(before@),
                first_new_emulator(bs, ds) == first_new_emulator(bs, ds.subrange(i as int, ds.len() as int)),
            decreases devices@.len() - i,
        {
            let ghost rest = ds.subrange(i as int, ds.len() as int);
            assert(rest[0] == devices@[i as int]@);
            assert(rest.drop_first() =~= ds.subrange(i + 1, ds.len() as int));
            let d = &devices[i];
            if d.kind == DeviceKind::Emulator && d.is_ready() {
                let mut seen = false;
                let mut j: usize = 0;
                while j < before.len()
                    invariant
                        j <= before@.len(),
                        bs == texts(before@),
                        bs.len() == before@.len(),
                        seen == exists|k: int| 0 <= k < j && bs[k] == d.serial@,
                    decreases before@.len() - j,
                {
                    assert(bs[j as int] == before@[j as int]@);
                    if same_text(before[j].as_str(), d.serial.as_str()) {
                        seen = true;
                    }
                    proof {
                        if !seen {
                            assert forall|k: int| 0 <= k < j + 1 implies bs[k] != d.serial@ by {
                                if k < j {
                                    assert(!(0 <= k < j && bs[k] == d.serial@));
                                }
                            }
                        }
                    }
                    j = j + 1;
                }
                proof {
                    if seen {
                        let k = choose|k: int| 0 <= k < before@.len() && bs[k] == d.serial@;
                        assert(bs.contains(d.serial@));
                    } else {
                        assert forall|k: int| 0 <= k < bs.len() implies bs[k] != d.serial@ by {}
                        assert(!bs.contains(d.serial@));
                    }
                }
                if !seen {
                    return Some(d.serial.clone());
                }
            }
            i = i + 1;
        }
        assert(ds.subrange(i as int, ds.len() as int) =~= Seq::<DeviceView>::empty());
        None
    }

    /// The error for an emulator that did not boot in time; `timeout` is the
    /// waited duration as text.
    pub fn boot_timeout_error(avd_name: &str, timeout: &str) -> (r: AdbError)
        ensures
            r matches AdbError::BootTimeout(m) && m@ == "emulator '"@ + avd_name@
                + "' did not appear/boot within "@ + timeout@,
    {
        let mut m = String::from_str("emulator '");
        m.append(avd_name);
        m.append("' did not appear/boot within ");
        m.append(timeout);
        AdbError::BootTimeout(m)
    }

    /// The error for a device that did not finish booting in time; `timeout`
    /// is the waited duration as text.
    pub fn wait_timeout_error(serial: &str, timeout: &str) -> (r: AdbError)
        ensures
            r matches AdbError::BootTimeout(m) && m@ == "device '"@ + serial@
                + "' did not report sys.boot_completed=1 within "@ + timeout@,
    {
        let mut m = String::from_str("device '");
        m.append(serial);
        m.append("' did not report sys.boot_completed=1 within ");
        m.append(timeout);
        AdbError::BootTimeout(m)
    }
}

} // verus!
