//! The embedded Tor engine's state and decisions: the engine status with its
//! failure reason, the "new identity" epoch, the per-slot loopback SOCKS
//! ports, the bootstrap time limit, and the SOCKS5 handshake each per-slot
//! relay speaks.
//!
//! The network work itself (the Tor client, the listeners, the byte relay)
//! runs outside this module; it hands the bytes and events it sees to the
//! functions here and performs the actions they return.

use vstd::prelude::*;
use crate::slots::MAX_SLOTS;
use vstd::utf8::{decode_utf8, valid_utf8};
use crate::text::{chars_of, decimal, parse_unsigned, parse_unsigned_chars, push_decimal, push_str, trim, trimmed};

verus! {

broadcast use vstd::string::group_string_axioms;

/// Engine status: never started.
pub const STATUS_IDLE: u8 = 0;
/// Engine status: bootstrapping.
pub const STATUS_BOOTSTRAPPING: u8 = 1;
/// Engine status: ready to relay.
pub const STATUS_READY: u8 = 2;
/// Engine status: failed (see the failure reason).
pub const STATUS_FAILED: u8 = 3;

/// The base loopback SOCKS port; slot id `i` listens on `SOCKS_BASE_PORT + i`.
pub const SOCKS_BASE_PORT: u16 = 9250;

/// The bootstrap time limit when none is configured, in seconds.
pub const DEFAULT_BOOTSTRAP_SECS: u64 = 90;

/// The loopback port of slot `id`'s relay; ids past the last slot share
/// the last slot's port.
pub open spec fn port_of(id: int) -> int {
    SOCKS_BASE_PORT + (if id < MAX_SLOTS { id } else { MAX_SLOTS - 1 })
}

/// Each window has its own relay port, so two Tor windows never share a
/// circuit family.
pub proof fn law_socks_ports_are_per_window(i: int, j: int)
    requires
        0 <= i < MAX_SLOTS,
        0 <= j < MAX_SLOTS,
        i != j,
    ensures
        port_of(i) != port_of(j),
{
}

/// The loopback SOCKS5 port a Tor context for slot `id` proxies through;
/// ids past the last slot share the last slot's port.
pub fn socks_port(id: usize) -> (p: u16)
    ensures
        p == port_of(id as int),
{
    let i: usize = if id < MAX_SLOTS - 1 {
        id
    } else {
        MAX_SLOTS - 1
    };
    SOCKS_BASE_PORT + i as u16
}

/// The bootstrap time limit set by the configuration text `var` (the
/// environment's value, when set): a positive whole number of seconds,
/// surrounding white space allowed; anything else gives the default.
pub open spec fn bootstrap_secs(var: Option<Seq<char>>) -> nat {
    match var {
        Some(t) => match parse_unsigned(trim(t), u64::MAX as nat) {
            Some(n) => if n > 0 {
                n
            } else {
                DEFAULT_BOOTSTRAP_SECS as nat
            },
            None => DEFAULT_BOOTSTRAP_SECS as nat,
        },
        None => DEFAULT_BOOTSTRAP_SECS as nat,
    }
}

/// The bootstrap time limit, in seconds, for the configuration text `var`.
pub fn bootstrap_timeout(var: Option<&str>) -> (secs: u64)
    ensures
        secs as nat == bootstrap_secs(
            match var {
                Some(t) => Some(t@),
                None => None,
            },
        ),
{
    match var {
        Some(t) => {
            let cs = chars_of(t);
            let tt = trimmed(cs.as_slice());
            match parse_unsigned_chars(tt.as_slice(), u64::MAX) {
                Some(n) => if n > 0 {
                    n
                } else {
                    DEFAULT_BOOTSTRAP_SECS
                },
                None => DEFAULT_BOOTSTRAP_SECS,
            }
        },
        None => DEFAULT_BOOTSTRAP_SECS,
    }
}

/// The engine's shared state: its status, the reason for a failure, and the
/// "new identity" epoch the per-slot relays compare against.
pub struct TorState {
    status: u8,
    reason: String,
    epoch: u64,
}

impl TorState {
    /// The current status code.
    pub closed spec fn status_code(&self) -> u8 {
        self.status
    }

    /// The failure reason (empty unless failed).
    pub closed spec fn reason(&self) -> Seq<char> {
        self.reason@
    }

    /// The "new identity" epoch.
    pub closed spec fn epoch(&self) -> u64 {
        self.epoch
    }

    /// The invariant: the status is one of the four codes, and a reason is
    /// recorded only for a failure.
    pub closed spec fn wf(&self) -> bool {
        &&& self.status <= STATUS_FAILED
        &&& self.status != STATUS_FAILED ==> self.reason@.len() == 0
    }

    /// An engine that was never started.
    pub fn new() -> (t: TorState)
        ensures
            t.wf(),
            t.status_code() == STATUS_IDLE,
            t.reason() == Seq::<char>::empty(),
            t.epoch() == 0,
    {
        TorState { status: STATUS_IDLE, reason: String::new(), epoch: 0 }
    }
}

impl TorState {
    /// Well-formedness depends only on the status and the failure reason.
    pub proof fn lemma_wf_same_status(a: TorState, b: TorState)
        requires
            a.wf(),
            b.status_code() == a.status_code(),
            b.reason() == a.reason(),
        ensures
            b.wf(),
    {
    }
}

/// Request fresh circuits for subsequent connections: advance the epoch
/// (wrapping, as the shared counter does). Returns the new epoch.
pub fn new_identity(t: &mut TorState) -> (e: u64)
    ensures
        e == (old(t).epoch() + 1) % 0x1_0000_0000_0000_0000,
        final(t).epoch() == e,
        final(t).status_code() == old(t).status_code(),
        final(t).reason() == old(t).reason(),
        old(t).wf() ==> final(t).wf(),
{
    t.epoch = t.epoch.wrapping_add(1);
    t.epoch
}

/// Record a failure: the status becomes failed and `reason` is kept.
pub fn set_failed(t: &mut TorState, reason: &str)
    ensures
        final(t).status_code() == STATUS_FAILED,
        final(t).reason() == reason@,
        final(t).epoch() == old(t).epoch(),
        final(t).wf(),
{
    t.reason = String::from_str(reason);
    t.status = STATUS_FAILED;
}

/// The current failure reason (empty unless the status is failed).
pub fn fail_reason(t: &TorState) -> (r: String)
    requires
        t.wf(),
    ensures
        r@ == t.reason(),
        t.status_code() != STATUS_FAILED ==> r@.len() == 0,
{
    t.reason.clone()
}

/// The current status code.
pub fn status(t: &TorState) -> (s: u8)
    requires
        t.wf(),
    ensures
        s == t.status_code(),
        s <= STATUS_FAILED,
{
    t.status
}

/// The status after a start request: a never-started engine begins
/// bootstrapping; any other status is kept.
pub open spec fn after_init(status: u8) -> u8 {
    if status == STATUS_IDLE {
        STATUS_BOOTSTRAPPING
    } else {
        status
    }
}

/// Starting is idempotent: a second start request changes nothing.
pub proof fn law_init_idempotent(status: u8)
    ensures
        after_init(after_init(status)) == after_init(status),
{
}

/// Start the engine once: only a never-started engine moves to
/// bootstrapping, and only then is `true` returned (the caller spawns the
/// engine); any later call changes nothing.
pub fn init(t: &mut TorState) -> (start: bool)
    ensures
        start == (old(t).status_code() == STATUS_IDLE),
        final(t).status_code() == after_init(old(t).status_code()),
        final(t).reason() == old(t).reason(),
        final(t).epoch() == old(t).epoch(),
        old(t).wf() ==> final(t).wf(),
{
    if t.status == STATUS_IDLE {
        t.status = STATUS_BOOTSTRAPPING;
        true
    } else {
        false
    }
}

/// How a bootstrap attempt ended.
pub enum BootResult {
    /// The client bootstrapped.
    Ready,
    /// The client reported an error.
    Error(String),
    /// The time limit of this many seconds passed first.
    TimedOut(u64),
}

/// Record how the bootstrap of a started engine ended: ready, or failed
/// with a reason that says why.
pub fn bootstrap_finished(t: &mut TorState, result: BootResult)
    requires
        old(t).wf(),
        old(t).status_code() == STATUS_BOOTSTRAPPING,
    ensures
        final(t).wf(),
        final(t).epoch() == old(t).epoch(),
        match result {
            BootResult::Ready => final(t).status_code() == STATUS_READY && final(t).reason().len()
                == 0,
            BootResult::Error(e) => final(t).status_code() == STATUS_FAILED && final(t).reason()
                == "bootstrap error: "@ + e@,
            BootResult::TimedOut(s) => final(t).status_code() == STATUS_FAILED
                && final(t).reason() == "bootstrap timed out after "@ + decimal(s as nat)
                + "s (network blocking Tor?)"@,
        },
{
    match result {
        BootResult::Ready => {
            t.status = STATUS_READY;
        },
        BootResult::Error(e) => {
            let mut r = String::from_str("bootstrap error: ");
            push_str(&mut r, e.as_str());
            set_failed(t, r.as_str());
        },
        BootResult::TimedOut(s) => {
            let mut r = String::from_str("bootstrap timed out after ");
            push_decimal(&mut r, s);
            push_str(&mut r, "s (network blocking Tor?)");
            set_failed(t, r.as_str());
        },
    }
}

/// Does a per-slot relay need a fresh isolated client before relaying: it
/// has none yet, or the "new identity" epoch moved since it made its own?
pub fn needs_fresh_client(has_client: bool, client_epoch: u64, epoch: u64) -> (b: bool)
    ensures
        b == (!has_client || client_epoch != epoch),
{
    !has_client || client_epoch != epoch
}

// --- The SOCKS5 handshake ---------------------------------------------------------

/// `String::from_utf8`: the text the bytes encode when they are valid
/// UTF-8 (as its documentation states), and `None` when they are not.
#[verifier::external_body]
fn utf8_text(bytes: Vec<u8>) -> (r: Option<String>)
    ensures
        match r {
            Some(t) => valid_utf8(bytes@) && t@ == decode_utf8(bytes@),
            None => !valid_utf8(bytes@),
        },
{
    String::from_utf8(bytes).ok()
}

/// Where a relay's client asked to be connected.
pub enum SocksTarget {
    /// A host name, handed to Tor unresolved (remote DNS).
    Host(String),
    /// An IPv4 (4 bytes) or IPv6 (16 bytes) address, as sent.
    Addr(Vec<u8>),
}

/// What the relay reads next from its client.
pub enum SocksStage {
    /// The greeting: version and method count.
    Greeting,
    /// The offered authentication methods (this many bytes).
    Methods(u8),
    /// The request header: version, command, reserved, address type.
    Request,
    /// An IPv4 address.
    Ipv4,
    /// An IPv6 address.
    Ipv6,
    /// The length of a host name.
    NameLength,
    /// A host name of this many bytes.
    Name(u8),
    /// The big-endian port of the given target.
    Port(SocksTarget),
}

/// What the relay does next.
pub enum SocksAction {
    /// Write `reply` to the client (when non-empty), then read exactly `need`
    /// bytes and hand them to [`socks_step`] with `stage`.
    Read { stage: SocksStage, need: usize, reply: Vec<u8> },
    /// Write `reply` to the client (when non-empty) and close: the request
    /// is refused for `reason`.
    Refuse { reply: Vec<u8>, reason: &'static str },
    /// Open a Tor stream to `target` on `port`.
    Connect { target: SocksTarget, port: u16 },
}

/// How many bytes a stage reads.
pub open spec fn stage_need(st: SocksStage) -> nat {
    match st {
        SocksStage::Greeting => 2,
        SocksStage::Methods(n) => n as nat,
        SocksStage::Request => 4,
        SocksStage::Ipv4 => 4,
        SocksStage::Ipv6 => 16,
        SocksStage::NameLength => 1,
        SocksStage::Name(n) => n as nat,
        SocksStage::Port(_) => 2,
    }
}

/// A SOCKS5 reply with status byte `status` and a zeroed IPv4 bound address.
pub open spec fn reply_bytes(status: u8) -> Seq<u8> {
    seq![5u8, status, 0u8, 1u8, 0u8, 0u8, 0u8, 0u8, 0u8, 0u8]
}

/// `a` reads stage `st` after writing `reply`.
pub open spec fn reads(a: SocksAction, st: SocksStage, reply: Seq<u8>) -> bool {
    a matches SocksAction::Read { stage, need, reply: r } && stage == st && need == stage_need(st)
        && r@ == reply
}

/// `a` refuses for `reason` after writing `reply`.
pub open spec fn refuses(a: SocksAction, reply: Seq<u8>, reason: Seq<char>) -> bool {
    a matches SocksAction::Refuse { reply: r, reason: why } && r@ == reply && why@ == reason
}

/// `a` reads the port of an address target holding `addr`.
pub open spec fn reads_port_of_addr(a: SocksAction, addr: Seq<u8>) -> bool {
    a matches SocksAction::Read { stage: SocksStage::Port(SocksTarget::Addr(v)), need, reply }
        && v@ == addr && need == 2 && reply@.len() == 0
}

/// `a` reads the port of a host-name target named `host`.
pub open spec fn reads_port_of_host(a: SocksAction, host: Seq<char>) -> bool {
    a matches SocksAction::Read { stage: SocksStage::Port(SocksTarget::Host(h)), need, reply }
        && h@ == host && need == 2 && reply@.len() == 0
}

/// The handshake: what follows reading `b` at stage `st`.
pub open spec fn socks_next(st: SocksStage, b: Seq<u8>, a: SocksAction) -> bool {
    match st {
        SocksStage::Greeting => if b[0] != 5 {
            refuses(a, Seq::empty(), "not SOCKS5"@)
        } else {
            reads(a, SocksStage::Methods(b[1]), Seq::empty())
        },
        SocksStage::Methods(_) => reads(a, SocksStage::Request, seq![5u8, 0u8]),
        SocksStage::Request => if b[0] != 5 || b[1] != 1 {
            refuses(a, reply_bytes(7), "unsupported SOCKS command"@)
        } else if b[3] == 1 {
            reads(a, SocksStage::Ipv4, Seq::empty())
        } else if b[3] == 4 {
            reads(a, SocksStage::Ipv6, Seq::empty())
        } else if b[3] == 3 {
            reads(a, SocksStage::NameLength, Seq::empty())
        } else {
            refuses(a, reply_bytes(8), "bad ATYP"@)
        },
        SocksStage::Ipv4 => reads_port_of_addr(a, b),
        SocksStage::Ipv6 => reads_port_of_addr(a, b),
        SocksStage::NameLength => reads(a, SocksStage::Name(b[0]), Seq::empty()),
        SocksStage::Name(_) => if valid_utf8(b) {
            reads_port_of_host(a, decode_utf8(b))
        } else {
            refuses(a, Seq::empty(), "bad host"@)
        },
        SocksStage::Port(t) => a matches SocksAction::Connect { target, port } && target == t
            && port == b[0] as int * 256 + b[1] as int,
    }
}

fn read_next(stage: SocksStage, need: usize, reply: Vec<u8>) -> (a: SocksAction)
    requires
        need == stage_need(stage),
    ensures
        reads(a, stage, reply@),
{
    SocksAction::Read { stage, need, reply }
}

/// The reply bytes for status byte `status`.
pub fn socks_reply(status: u8) -> (r: Vec<u8>)
    ensures
        r@ == reply_bytes(status),
{
    let r = vec![5u8, status, 0u8, 1u8, 0u8, 0u8, 0u8, 0u8, 0u8, 0u8];
    assert(r@ =~= reply_bytes(status));
    r
}

/// The first step of a relay's handshake: read the greeting.
pub fn socks_start() -> (a: SocksAction)
    ensures
        reads(a, SocksStage::Greeting, Seq::empty()),
{
    let v: Vec<u8> = Vec::new();
    assert(v@ =~= Seq::<u8>::empty());
    read_next(SocksStage::Greeting, 2, v)
}

/// One step of the handshake: the `bytes` read at `stage` decide what the
/// relay does next. Only CONNECT is served; a host name is kept as text and
/// handed to Tor unresolved.
pub fn socks_step(stage: SocksStage, bytes: &[u8]) -> (a: SocksAction)
    requires
        bytes@.len() == stage_need(stage),
    ensures
        socks_next(stage, bytes@, a),
{
    let none: Vec<u8> = Vec::new();
    assert(none@ =~= Seq::<u8>::empty());
    match stage {
        SocksStage::Greeting => {
            if bytes[0] != 5 {
                SocksAction::Refuse { reply: none, reason: "not SOCKS5" }
            } else {
                read_next(SocksStage::Methods(bytes[1]), bytes[1] as usize, none)
            }
        },
        SocksStage::Methods(_) => {
            let ok = vec![5u8, 0u8];
            assert(ok@ =~= seq![5u8, 0u8]);
            read_next(SocksStage::Request, 4, ok)
        },
        SocksStage::Request => {
            if bytes[0] != 5 || bytes[1] != 1 {
                SocksAction::Refuse { reply: socks_reply(7), reason: "unsupported SOCKS command" }
            } else if bytes[3] == 1 {
                read_next(SocksStage::Ipv4, 4, none)
            } else if bytes[3] == 4 {
                read_next(SocksStage::Ipv6, 16, none)
            } else if bytes[3] == 3 {
                read_next(SocksStage::NameLength, 1, none)
            } else {
                SocksAction::Refuse { reply: socks_reply(8), reason: "bad ATYP" }
            }
        },
        SocksStage::Ipv4 | SocksStage::Ipv6 => {
            let addr = vstd::slice::slice_to_vec(bytes);
            SocksAction::Read { stage: SocksStage::Port(SocksTarget::Addr(addr)), need: 2, reply: none }
        },
        SocksStage::NameLength => read_next(SocksStage::Name(bytes[0]), bytes[0] as usize, none),
        SocksStage::Name(_) => {
            match utf8_text(vstd::slice::slice_to_vec(bytes)) {
                Some(h) => SocksAction::Read {
                    stage: SocksStage::Port(SocksTarget::Host(h)),
                    need: 2,
                    reply: none,
                },
                None => SocksAction::Refuse { reply: none, reason: "bad host" },
            }
        },
        SocksStage::Port(t) => {
            let port: u16 = (bytes[0] as u16) * 256 + bytes[1] as u16;
            SocksAction::Connect { target: t, port }
        },
    }
}

/// How opening the Tor stream went.
pub enum ConnectResult {
    /// The stream is open.
    Opened,
    /// The address could not be made a Tor address.
    BadAddress,
    /// Tor could not open the stream.
    Failed,
}

/// The reply a relay sends once the stream attempt ended: success, address
/// type not supported, or connection refused.
pub fn connect_reply(result: ConnectResult) -> (r: Vec<u8>)
    ensures
        r@ == reply_bytes(
            match result {
                ConnectResult::Opened => 0u8,
                ConnectResult::BadAddress => 8u8,
                ConnectResult::Failed => 5u8,
            },
        ),
{
    match result {
        ConnectResult::Opened => socks_reply(0),
        ConnectResult::BadAddress => socks_reply(8),
        ConnectResult::Failed => socks_reply(5),
    }
}

} // verus!
