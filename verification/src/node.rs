//! Decisions of the nodes: what the relay does with one tick's worth of
//! controller traffic, when the control node has what it needs to issue a
//! servo command, whether a node runs with a simulated sensor, and where
//! the servo board listens.

use vstd::prelude::*;
use crate::keys::{latched_after, KeyLatch};
use crate::link::{control_of, ControlMessage};

verus! {

/// The latest sensor reading and the latest controller state that the
/// control node has received.
pub struct ControlInputs<I, C> {
    imu: Option<I>,
    controller: Option<C>,
}

/// Both latest values: the pair that a command is computed from, once both
/// have arrived.
pub open spec fn ready_of<I, C>(s: (Option<I>, Option<C>)) -> Option<(I, C)> {
    match s {
        (Some(i), Some(c)) => Some((i, c)),
        _ => None,
    }
}

/// The inputs after a new sensor reading.
pub open spec fn with_imu<I, C>(s: (Option<I>, Option<C>), imu: I) -> (Option<I>, Option<C>) {
    (Some(imu), s.1)
}

/// The inputs after a new controller state.
pub open spec fn with_controller<I, C>(s: (Option<I>, Option<C>), controller: C) -> (
    Option<I>,
    Option<C>,
) {
    (s.0, Some(controller))
}

impl<I, C> View for ControlInputs<I, C> {
    type V = (Option<I>, Option<C>);

    closed spec fn view(&self) -> (Option<I>, Option<C>) {
        (self.imu, self.controller)
    }
}

impl<I, C> ControlInputs<I, C> {
    /// Nothing received yet.
    pub fn new() -> (s: ControlInputs<I, C>)
        ensures
            s@ == (None::<I>, None::<C>),
    {
        ControlInputs { imu: None, controller: None }
    }

    /// A new sensor reading replaces the previous one.
    pub fn update_imu(&mut self, imu: I)
        ensures
            final(self)@ == with_imu(old(self)@, imu),
    {
        self.imu = Some(imu);
    }

    /// A new controller state replaces the previous one.
    pub fn update_controller(&mut self, controller: C)
        ensures
            final(self)@ == with_controller(old(self)@, controller),
    {
        self.controller = Some(controller);
    }

    /// The latest reading and controller state, once both have arrived.
    pub fn ready(&self) -> (r: Option<(&I, &C)>)
        ensures
            match (r, ready_of(self@)) {
                (Some((i, c)), Some((i2, c2))) => *i == i2 && *c == c2,
                (None, None) => true,
                _ => false,
            },
    {
        match (&self.imu, &self.controller) {
            (Some(i), Some(c)) => Some((i, c)),
            _ => None,
        }
    }
}

/// No command before both kinds of input have arrived; once both have, a
/// command is computed from the latest of each, whatever order they came in,
/// and a newer value of either kind replaces the older one.
pub proof fn lemma_ready_uses_latest<I, C>(s: (Option<I>, Option<C>), i: I, c: C, i2: I, c2: C)
    ensures
        ready_of((None::<I>, None::<C>)) is None,
        s.0 is None ==> ready_of(with_controller(s, c)) is None,
        s.1 is None ==> ready_of(with_imu(s, i)) is None,
        ready_of(with_controller(with_imu(s, i), c)) == Some((i, c)),
        ready_of(with_imu(with_controller(s, c), i)) == Some((i, c)),
        ready_of(with_imu(with_controller(with_imu(s, i), c), i2)) == Some((i2, c)),
        ready_of(with_controller(with_imu(with_controller(s, c), i), c2)) == Some((i, c2)),
{
}

/// The characters of the word `true`.
pub open spec fn true_text() -> Seq<char> {
    seq!['t', 'r', 'u', 'e']
}

/// The characters of the word `false`.
pub open spec fn false_text() -> Seq<char> {
    seq!['f', 'a', 'l', 's', 'e']
}

#[verifier::external_type_specification]
#[verifier::external_body]
pub struct ExParseBoolError(std::str::ParseBoolError);

/// Calls `str::parse::<bool>`, which std documents as giving `true` for the
/// text `true`, `false` for `false`, and an error for any other text.
#[verifier::external_body]
fn parse_bool(s: &str) -> (r: Result<bool, std::str::ParseBoolError>)
    ensures
        r is Ok <==> (s@ == true_text() || s@ == false_text()),
        r matches Ok(b) ==> (b <==> s@ == true_text()),
{
    s.parse::<bool>()
}

/// Whether a node runs with a simulated sensor, from the value of its
/// `DEBUG` setting: only the text `true` turns it on; an absent or
/// unreadable value reads as `false`.
pub fn debug_flag(value: Option<&str>) -> (on: bool)
    ensures
        on <==> (value matches Some(s) && s@ == true_text()),
{
    let text: &str = match value {
        Some(s) => s,
        None => "false",
    };
    proof {
        reveal_strlit("false");
    }
    match parse_bool(text) {
        Ok(b) => b,
        Err(_) => false,
    }
}

/// The `host:port` form of an address.
fn join_host_port(host: &str, port: &str) -> (s: String)
    ensures
        s@ == host@ + seq![':'] + port@,
{
    let mut s = String::from_str(host);
    proof {
        reveal_strlit(":");
    }
    s.append(":");
    s.append(port);
    s
}

/// The address of the servo board's access point when none is configured.
pub open spec fn default_board_ip() -> Seq<char> {
    "192.168.4.1"@
}

/// The port of the servo board when none is configured.
pub open spec fn default_board_port() -> Seq<char> {
    "5001"@
}

/// The `host:port` address of the servo board, from the configured address
/// and port, each falling back to its default when absent.
pub fn board_address(ip: Option<&str>, port: Option<&str>) -> (addr: String)
    ensures
        addr@ == (match ip {
            Some(s) => s@,
            None => default_board_ip(),
        }) + seq![':'] + (match port {
            Some(s) => s@,
            None => default_board_port(),
        }),
{
    let host: &str = match ip {
        Some(s) => s,
        None => "192.168.4.1",
    };
    let p: &str = match port {
        Some(s) => s,
        None => "5001",
    };
    join_host_port(host, p)
}


/// What the relay does at the end of a tick.
#[derive(Debug, Clone, Copy, PartialEq, Eq, Structural)]
pub enum TickAction {
    /// The controller asked for a shutdown: send nothing more and stop.
    Stop,
    /// Send this key mask, the latest one received.
    Send(u16),
    /// No key mask arrived: send nothing.
    Idle,
}

/// The result of one tick: how many start messages came before any
/// shutdown, and the action.
#[derive(Debug, Clone, Copy, PartialEq, Eq, Structural)]
pub struct TickOutcome {
    pub starts: usize,
    pub action: TickAction,
}

/// Whether no byte of `control` asks for a shutdown.
pub open spec fn shutdown_free(control: Seq<u8>) -> bool {
    forall|i: int| 0 <= i < control.len() ==> control_of(#[trigger] control[i]) != Some(
        ControlMessage::Shutdown,
    )
}

/// How many bytes of `control` are start messages.
pub open spec fn count_starts(control: Seq<u8>) -> nat
    decreases control.len(),
{
    if control.len() == 0 {
        0
    } else {
        count_starts(control.drop_last()) + if control_of(control.last()) == Some(
            ControlMessage::Start,
        ) {
            1nat
        } else {
            0nat
        }
    }
}

/// The byte contents of the packets.
pub open spec fn packet_bytes(packets: Seq<Vec<u8>>) -> Seq<Seq<u8>> {
    packets.map_values(|p: Vec<u8>| p@)
}

/// One tick of the relay between the controller and the dataflow. The
/// control bytes that arrived are read first: the first shutdown ends the
/// tick with `Stop`, leaving the latch as it was; start messages before it
/// are counted. Without a shutdown the key packets are taken in, in order,
/// and the latest two-byte packet's mask is sent, if there is one; the
/// latch ends empty.
pub fn relay_tick(latch: &mut KeyLatch, control: &[u8], packets: &[Vec<u8>]) -> (out: TickOutcome)
    ensures
        match out.action {
            TickAction::Stop => {
                &&& exists|k: int|
                    0 <= k < control@.len() && control_of(#[trigger] control@[k]) == Some(
                        ControlMessage::Shutdown,
                    ) && shutdown_free(control@.take(k)) && out.starts == count_starts(
                        control@.take(k),
                    )
                &&& final(latch)@ == old(latch)@
            },
            _ => {
                &&& shutdown_free(control@)
                &&& out.starts == count_starts(control@)
                &&& final(latch)@ == None::<u16>
                &&& out.action == match latched_after(old(latch)@, packet_bytes(packets@)) {
                    Some(k) => TickAction::Send(k),
                    None => TickAction::Idle,
                }
            },
        },
{
    let ghost start = latch@;
    let mut starts: usize = 0;
    let n = control.len();
    for i in 0..n
        invariant
            n == control@.len(),
            shutdown_free(control@.take(i as int)),
            starts == count_starts(control@.take(i as int)),
            starts <= i,
            latch@ == start,
    {
        let ghost before = control@.take(i as int);
        assert(control@.take(i + 1).drop_last() =~= before);
        match ControlMessage::from_byte(control[i]) {
            Some(ControlMessage::Shutdown) => {
                return TickOutcome { starts, action: TickAction::Stop };
            },
            Some(ControlMessage::Start) => {
                starts += 1;
            },
            _ => {},
        }
        assert(shutdown_free(control@.take(i + 1))) by {
            assert forall|j: int| 0 <= j < i + 1 implies control_of(
                #[trigger] control@.take(i + 1)[j],
            ) != Some(ControlMessage::Shutdown) by {
                if j < i {
                    assert(control@.take(i + 1)[j] == before[j]);
                }
            }
        }
    }
    assert(control@.take(n as int) =~= control@);
    let m = packets.len();
    for j in 0..m
        invariant
            m == packets@.len(),
            latch@ == latched_after(start, packet_bytes(packets@).take(j as int)),
    {
        latch.receive(packets[j].as_slice());
        assert(packet_bytes(packets@).take(j + 1).drop_last() =~= packet_bytes(packets@).take(
            j as int,
        ));
    }
    assert(packet_bytes(packets@).take(m as int) =~= packet_bytes(packets@));
    let action = match latch.take() {
        Some(k) => TickAction::Send(k),
        None => TickAction::Idle,
    };
    TickOutcome { starts, action }
}

} // verus!
