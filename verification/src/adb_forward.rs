//! The `adb forward` TCP tunnel to the on-device agent: the commands that set
//! it up and tear it down, the decisions taken on their output, and the
//! parsing of `adb forward` output.
//!
//! Running `adb` is left to the caller; this module says which arguments to
//! run it with and what each outcome means.

use vstd::prelude::*;
use crate::text::{
    chars_of, dec, parse_unsigned, parse_unsigned_chars, push_dec, push_str, split_chars,
    split_on, string_of, trim, trim_chars, words, words_of,
};

verus! {

/// Errors that can occur during `adb forward` tunnel operations.
#[derive(Debug, PartialEq, Eq)]
pub enum AdbForwardError {
    /// The `adb` command could not be executed.
    AdbUnavailable(String),
    /// `adb forward` returned a non-zero exit status.
    ForwardFailed(String),
    /// adb did not report a usable local port for a `tcp:0` request.
    NoLocalPort,
    /// Removing the forward rule failed.
    RemoveFailed(String),
}

/// The text that describes an `adb forward` error.
pub open spec fn adb_forward_error_message(e: AdbForwardError) -> Seq<char> {
    match e {
        AdbForwardError::AdbUnavailable(m) => "failed to execute adb: "@ + m@,
        AdbForwardError::ForwardFailed(m) => "failed to establish adb forward: "@ + m@,
        AdbForwardError::NoLocalPort => "adb forward returned no local port"@,
        AdbForwardError::RemoveFailed(m) => "failed to remove adb forward: "@ + m@,
    }
}

impl AdbForwardError {
    /// The human-readable description of the error.
    pub fn message(&self) -> (r: String)
        ensures
            r@ == adb_forward_error_message(*self),
    {
        match self {
            AdbForwardError::AdbUnavailable(m) => {
                let mut s = String::from_str("failed to execute adb: ");
                push_str(&mut s, m.as_str());
                s
            },
            AdbForwardError::ForwardFailed(m) => {
                let mut s = String::from_str("failed to establish adb forward: ");
                push_str(&mut s, m.as_str());
                s
            },
            AdbForwardError::NoLocalPort => String::from_str("adb forward returned no local port"),
            AdbForwardError::RemoveFailed(m) => {
                let mut s = String::from_str("failed to remove adb forward: ");
                push_str(&mut s, m.as_str());
                s
            },
        }
    }
}

/// An established `adb forward` tunnel from a host loopback port to the
/// agent's device-side TCP port.
#[derive(Debug)]
pub struct AdbForward {
    /// The adb serial of the target device.
    serial: String,
    /// The host-side loopback port adb bound for this forward.
    local_port: u16,
    /// The agent's TCP port inside the device.
    device_port: u16,
    /// Set once the rule has been released.
    removed: bool,
}

/// The mathematical form of an [`AdbForward`].
pub struct ForwardView {
    pub serial: Seq<char>,
    pub local_port: u16,
    pub device_port: u16,
    pub removed: bool,
}

impl View for AdbForward {
    type V = ForwardView;

    closed spec fn view(&self) -> ForwardView {
        ForwardView {
            serial: self.serial@,
            local_port: self.local_port,
            device_port: self.device_port,
            removed: self.removed,
        }
    }
}

// ---------------------------------------------------------------------------
// Specification
// ---------------------------------------------------------------------------

/// `u16::from_str`: an optional `+`, then one or more ASCII digits whose value
/// fits in a `u16`.
pub open spec fn parse_u16(t: Seq<char>) -> Option<u16> {
    match parse_unsigned(t, u16::MAX as nat) {
        Some(v) => Some(v as u16),
        None => None,
    }
}

/// The first word that parses as a `u16`.
pub open spec fn first_port(ws: Seq<Seq<char>>) -> Option<u16>
    decreases ws.len(),
{
    if ws.len() == 0 {
        None
    } else {
        match parse_u16(ws[0]) {
            Some(p) => Some(p),
            None => first_port(ws.drop_first()),
        }
    }
}

/// The local port adb printed after a `tcp:0` request.
pub open spec fn assigned_port(stdout: Seq<char>) -> Option<u16> {
    first_port(words(stdout))
}

/// The `(serial, local, remote)` rules that `adb forward --list` output lists.
pub open spec fn rules_of_lines(lines: Seq<Seq<char>>) -> Seq<(Seq<char>, Seq<char>, Seq<char>)>
    decreases lines.len(),
{
    if lines.len() == 0 {
        Seq::empty()
    } else {
        let rest = rules_of_lines(lines.drop_last());
        let w = words(trim(lines.last()));
        if w.len() >= 3 {
            rest.push((w[0], w[1], w[2]))
        } else {
            rest
        }
    }
}

/// The arguments of `adb -s <serial> forward tcp:<local> tcp:<device>`.
pub open spec fn forward_args(serial: Seq<char>, local: u16, device: u16) -> Seq<Seq<char>> {
    seq!["-s"@, serial, "forward"@, "tcp:"@ + dec(local as nat), "tcp:"@ + dec(device as nat)]
}

/// The arguments of `adb -s <serial> forward --remove tcp:<local>`.
pub open spec fn remove_args(serial: Seq<char>, local: u16) -> Seq<Seq<char>> {
    seq!["-s"@, serial, "forward"@, "--remove"@, "tcp:"@ + dec(local as nat)]
}

/// The characters of a run of strings.
pub open spec fn strings_view(v: Seq<String>) -> Seq<Seq<char>> {
    v.map_values(|s: String| s@)
}

// ---------------------------------------------------------------------------
// Execution
// ---------------------------------------------------------------------------

/// `tcp:<port>` as a string.
fn tcp_spec(port: u16) -> (r: String)
    ensures
        r@ == "tcp:"@ + dec(port as nat),
{
    let mut s = String::from_str("tcp:");
    push_dec(&mut s, port as u64);
    s
}

/// Parses one word as a `u16` (`str::parse::<u16>`).
fn parse_u16_chars(t: &[char]) -> (r: Option<u16>)
    ensures
        r == parse_u16(t@),
{
    match parse_unsigned_chars(t, 65535) {
        Some(v) => Some(v as u16),
        None => None,
    }
}

impl AdbForward {
    /// The arguments to run `adb` with to establish the forward:
    /// `-s <serial> forward tcp:<local_port or 0> tcp:<device_port>`.
    pub fn establish_args(serial: &str, local_port: Option<u16>, device_port: u16) -> (r: Vec<
        String,
    >)
        ensures
            strings_view(r@) == forward_args(
                serial@,
                match local_port {
                    Some(p) => p,
                    None => 0,
                },
                device_port,
            ),
    {
        let requested = match local_port {
            Some(p) => p,
            None => 0,
        };
        let mut v: Vec<String> = Vec::new();
        v.push(String::from_str("-s"));
        v.push(serial.to_owned());
        v.push(String::from_str("forward"));
        v.push(tcp_spec(requested));
        v.push(tcp_spec(device_port));
        assert(strings_view(v@) =~= forward_args(serial@, requested, device_port));
        v
    }

    /// What running `adb forward` for [`establish_args`](Self::establish_args)
    /// yields, given whether it exited successfully and what it printed.
    ///
    /// A failure is `ForwardFailed` with the trimmed stderr. For a fixed
    /// local port the forward is bound to it; for an automatic one (`None` or
    /// `Some(0)`) the port is the first word of stdout that parses as a `u16`,
    /// and `NoLocalPort` when there is none.
    pub fn establish_outcome(
        serial: &str,
        local_port: Option<u16>,
        device_port: u16,
        success: bool,
        stdout: &str,
        stderr: &str,
    ) -> (r: Result<AdbForward, AdbForwardError>)
        ensures
            ({
                let requested: u16 = match local_port {
                    Some(p) => p,
                    None => 0,
                };
                if !success {
                    r matches Err(AdbForwardError::ForwardFailed(m)) && m@ == trim(stderr@)
                } else if requested != 0 {
                    r matches Ok(f) && f@ == (ForwardView { serial: serial@, local_port: requested, device_port, removed: false })
                } else {
                    match assigned_port(stdout@) {
                        Some(p) => r matches Ok(f) && f@ == (ForwardView { serial: serial@, local_port: p, device_port, removed: false }),
                        None => r matches Err(AdbForwardError::NoLocalPort),
                    }
                }
            }),
    {
        let requested = match local_port {
            Some(p) => p,
            None => 0,
        };
        if !success {
            let e = chars_of(stderr);
            let t = trim_chars(e.as_slice());
            return Err(AdbForwardError::ForwardFailed(string_of(t.as_slice())));
        }
        let bound_port = if requested == 0 {
            match Self::parse_assigned_port(stdout) {
                Some(p) => p,
                None => return Err(AdbForwardError::NoLocalPort),
            }
        } else {
            requested
        };
        Ok(AdbForward { serial: serial.to_owned(), local_port: bound_port, device_port, removed: false })
    }


    /// The arguments to run `adb` with to re-issue the same forward rule.
    pub fn ensure_args(&self) -> (r: Vec<String>)
        ensures
            strings_view(r@) == forward_args(self@.serial, self@.local_port, self@.device_port),
    {
        let mut v: Vec<String> = Vec::new();
        v.push(String::from_str("-s"));
        v.push(self.serial.clone());
        v.push(String::from_str("forward"));
        v.push(tcp_spec(self.local_port));
        v.push(tcp_spec(self.device_port));
        assert(strings_view(v@) =~= forward_args(self.serial@, self.local_port, self.device_port));
        v
    }

    /// Records the outcome of re-issuing the rule: on success the forward is
    /// live again (no longer released) and the ports are kept; on failure it is
    /// unchanged and the error carries the trimmed stderr.
    pub fn ensure_outcome(&mut self, success: bool, stderr: &str) -> (r: Result<(), AdbForwardError>)
        ensures
            final(self)@.serial == old(self)@.serial,
            final(self)@.local_port == old(self)@.local_port,
            final(self)@.device_port == old(self)@.device_port,
            success ==> r is Ok && !final(self)@.removed,
            !success ==> final(self)@.removed == old(self)@.removed,
            !success ==> (r matches Err(AdbForwardError::ForwardFailed(m)) && m@ == trim(stderr@)),
    {
        if !success {
            let e = chars_of(stderr);
            let t = trim_chars(e.as_slice());
            return Err(AdbForwardError::ForwardFailed(string_of(t.as_slice())));
        }
        self.removed = false;
        Ok(())
    }

    /// The arguments to run `adb` with to release the rule, or `None` when it
    /// has already been released (removal is then a no-op that succeeds).
    pub fn remove_args(&self) -> (r: Option<Vec<String>>)
        ensures
            self@.removed ==> r is None,
            !self@.removed ==> (r matches Some(v) && strings_view(v@) == remove_args(
                self@.serial,
                self@.local_port,
            )),
    {
        if self.removed {
            return None;
        }
        let mut v: Vec<String> = Vec::new();
        v.push(String::from_str("-s"));
        v.push(self.serial.clone());
        v.push(String::from_str("forward"));
        v.push(String::from_str("--remove"));
        v.push(tcp_spec(self.local_port));
        assert(strings_view(v@) =~= remove_args(self.serial@, self.local_port));
        Some(v)
    }

    /// Records the outcome of running the removal: on success the rule is
    /// released; on failure nothing changes and the error carries the trimmed
    /// stderr.
    pub fn remove_outcome(&mut self, success: bool, stderr: &str) -> (r: Result<(), AdbForwardError>)
        ensures
            final(self)@.serial == old(self)@.serial,
            final(self)@.local_port == old(self)@.local_port,
            final(self)@.device_port == old(self)@.device_port,
            success ==> r is Ok && final(self)@.removed,
            !success ==> final(self)@.removed == old(self)@.removed,
            !success ==> (r matches Err(AdbForwardError::RemoveFailed(m)) && m@ == trim(stderr@)),
    {
        if !success {
            let e = chars_of(stderr);
            let t = trim_chars(e.as_slice());
            return Err(AdbForwardError::RemoveFailed(string_of(t.as_slice())));
        }
        self.removed = true;
        Ok(())
    }

    /// Whether the rule has been released.
    pub fn is_removed(&self) -> (r: bool)
        ensures
            r == self@.removed,
    {
        self.removed
    }

    /// The host loopback port adb bound for this forward.
    pub fn local_port(&self) -> (r: u16)
        ensures
            r == self@.local_port,
    {
        self.local_port
    }

    /// The agent's device-side TCP port this forward bridges to.
    pub fn device_port(&self) -> (r: u16)
        ensures
            r == self@.device_port,
    {
        self.device_port
    }

    /// The adb serial of the device this forward targets.
    pub fn serial(&self) -> (r: &str)
        ensures
            r@ == self@.serial,
    {
        self.serial.as_str()
    }

    /// The `127.0.0.1:<local_port>` address the driver connects to.
    pub fn local_addr(&self) -> (r: String)
        ensures
            r@ == "127.0.0.1:"@ + dec(self@.local_port as nat),
    {
        let mut s = String::from_str("127.0.0.1:");
        push_dec(&mut s, self.local_port as u64);
        s
    }

    /// The local port adb prints after a `tcp:0` forward request: the first
    /// whitespace-separated word that parses as a `u16`.
    pub fn parse_assigned_port(stdout: &str) -> (r: Option<u16>)
        ensures
            r == assigned_port(stdout@),
    {
        let cs = chars_of(stdout);
        let ws = words_of(cs.as_slice());
        let ghost wv = words(stdout@);
        let mut i: usize = 0;
        assert(wv.subrange(0, wv.len() as int) =~= wv);
        while i < ws.len()
            invariant
                i <= ws@.len(),
                wv == words(stdout@),
                ws@.len() == wv.len(),
                forall|k: int| 0 <= k < ws@.len() ==> (#[trigger] ws@[k])@ == wv[k],
                first_port(wv) == first_port(wv.subrange(i as int, wv.len() as int)),
            decreases ws@.len() - i,
        {
            let ghost rest = wv.subrange(i as int, wv.len() as int);
            assert(rest[0] == wv[i as int]);
            assert(rest.drop_first() =~= wv.subrange(i + 1, wv.len() as int));
            match parse_u16_chars(ws[i].as_slice()) {
                Some(p) => return Some(p),
                None => {},
            }
            i = i + 1;
        }
        None
    }

    /// Parses `adb forward --list` output into `(serial, local, remote)`
    /// triples, one per line of at least three words.
    pub fn parse_forward_list(output: &str) -> (r: Vec<(String, String, String)>)
        ensures
            r@.map_values(|t: (String, String, String)| (t.0@, t.1@, t.2@)) == rules_of_lines(
                split_on(output@, '\n'),
            ),
    {
        let chars = chars_of(output);
        let lines = split_chars(chars.as_slice(), '\n');
        let ghost ls = split_on(output@, '\n');
        let mut out: Vec<(String, String, String)> = Vec::new();
        assert(ls.subrange(0, 0) =~= Seq::<Seq<char>>::empty());
        let mut i: usize = 0;
        while i < lines.len()
            invariant
                i <= lines@.len(),
                ls == split_on(output@, '\n'),
                lines@.len() == ls.len(),
                forall|k: int| 0 <= k < lines@.len() ==> (#[trigger] lines@[k])@ == ls[k],
                out@.map_values(|t: (String, String, String)| (t.0@, t.1@, t.2@))
                    == rules_of_lines(ls.subrange(0, i as int)),
            decreases lines@.len() - i,
        {
            let ghost pre = ls.subrange(0, i as int);
            let ghost post = ls.subrange(0, i + 1);
            assert(post.drop_last() =~= pre);
            assert(post.last() == ls[i as int]);
            let t = trim_chars(lines[i].as_slice());
            let w = words_of(t.as_slice());
            if w.len() >= 3 {
                let ghost before = out@;
                let triple = (string_of(w[0].as_slice()), string_of(w[1].as_slice()), string_of(w[2].as_slice()));
                out.push(triple);
                assert(out@.map_values(|t: (String, String, String)| (t.0@, t.1@, t.2@))
                    =~= before.map_values(|t: (String, String, String)| (t.0@, t.1@, t.2@)).push(
                    (w@[0]@, w@[1]@, w@[2]@),
                ));
            }
            i = i + 1;
        }
        assert(ls.subrange(0, ls.len() as int) =~= ls);
        out
    }
}

} // verus!
