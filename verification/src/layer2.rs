//! The link layer: which interfaces to capture on, which frames to relay,
//! and which interfaces a relayed frame leaves on.

use crate::common::{
    check_wol_payload, is_magic_packet, target_mac, wol_payload_get_target_mac, MacAddr,
};
use crate::cooldown::CooldownCache;
use crate::error::ConfigError;
use crate::iface::InterfaceDescriptor;
use crate::stage::Received;
use pnet::packet::ethernet::EthernetPacket;
use vstd::prelude::*;
use vstd::slice::{slice_subrange, slice_to_vec};

verus! {

/// The ethertype of Wake-on-LAN frames.
pub const ETHERTYPE_WOL: u16 = 0x0842;

/// Length of an Ethernet II header: destination, source and ethertype. The
/// payload of a frame is what follows it.
pub const ETHERNET_HEADER_LEN: usize = 14;

/// Configuration of the link layer.
#[derive(Debug)]
pub struct Layer2Config {
    /// Names of the interfaces to capture on and relay to.
    pub interfaces: Vec<String>,
}

impl Default for Layer2Config {
    fn default() -> (cfg: Layer2Config)
        ensures
            cfg.interfaces@.len() == 0,
    {
        Layer2Config { interfaces: Vec::new() }
    }
}

/// The header fields of an Ethernet II frame.
#[derive(Clone, Copy, Debug, PartialEq, Eq, Structural)]
pub struct EthernetHeader {
    pub destination: MacAddr,
    pub source: MacAddr,
    pub ethertype: u16,
}

/// The header of a frame: bytes 0 to 5 are the destination, bytes 6 to 11
/// the source, and bytes 12 and 13 the ethertype, high byte first. A buffer
/// of fewer than 14 bytes has no header.
pub open spec fn ethernet_header(frame: Seq<u8>) -> Option<EthernetHeader> {
    if frame.len() >= 14 {
        Some(
            EthernetHeader {
                destination: MacAddr(frame[0], frame[1], frame[2], frame[3], frame[4], frame[5]),
                source: MacAddr(frame[6], frame[7], frame[8], frame[9], frame[10], frame[11]),
                ethertype: (frame[12] as u16 * 256 + frame[13] as u16) as u16,
            },
        )
    } else {
        None
    }
}

/// Reads the header of a frame with `EthernetPacket::new`,
/// `get_destination`, `get_source` and `get_ethertype` of `pnet`.
///
/// Claimed: `new` refuses exactly the buffers shorter than the 14-byte
/// header, and the three getters read the fields at the offsets that
/// [`ethernet_header`] names.
#[verifier::external_body]
fn parse_ethernet_header(frame: &[u8]) -> (header: Option<EthernetHeader>)
    ensures
        header == ethernet_header(frame@),
{
    match EthernetPacket::new(frame) {
        Some(packet) => {
            let d = packet.get_destination();
            let s = packet.get_source();
            Some(
                EthernetHeader {
                    destination: MacAddr(d.0, d.1, d.2, d.3, d.4, d.5),
                    source: MacAddr(s.0, s.1, s.2, s.3, s.4, s.5),
                    ethertype: packet.get_ethertype().0,
                },
            )
        },
        None => None,
    }
}

/// A frame is relayed when it carries the Wake-on-LAN ethertype, is sent to
/// the broadcast address, and its payload is a magic packet.
pub open spec fn is_wol_frame(frame: Seq<u8>) -> bool {
    match ethernet_header(frame) {
        Some(header) => {
            &&& header.ethertype == ETHERTYPE_WOL
            &&& header.destination.is_broadcast()
            &&& is_magic_packet(frame.skip(14))
        },
        None => false,
    }
}

/// Decides whether a captured frame is a Wake-on-LAN frame.
pub fn l2_wol_check(frame: &[u8]) -> (relay: bool)
    ensures
        relay == is_wol_frame(frame@),
{
    match parse_ethernet_header(frame) {
        Some(header) => {
            header.ethertype == ETHERTYPE_WOL && header.destination.is_broadcast()
                && check_wol_payload(slice_subrange(frame, ETHERNET_HEADER_LEN, frame.len()))
        },
        None => false,
    }
}

/// A Wake-on-LAN frame on its way from a capture thread to the relay stage.
#[derive(Debug)]
pub struct WolMessage {
    /// Index of the interface the frame was captured on.
    pub iface: u32,
    /// The hardware address the packet is meant to wake.
    pub target: MacAddr,
    /// The whole frame as it was captured, header included.
    pub frame: Vec<u8>,
}

/// `message` carries `frame`, captured on interface `iface`, and names its
/// target.
pub open spec fn is_capture_of(message: WolMessage, iface: u32, frame: Seq<u8>) -> bool {
    &&& message.iface == iface
    &&& message.target == target_mac(frame.skip(14))
    &&& message.frame@ == frame
}

/// Turns a captured frame into a message for the relay stage, or drops it
/// when it is no Wake-on-LAN frame.
pub fn capture_frame(iface: u32, frame: &[u8]) -> (message: Option<WolMessage>)
    ensures
        match message {
            Some(m) => is_wol_frame(frame@) && is_capture_of(m, iface, frame@),
            None => !is_wol_frame(frame@),
        },
{
    if l2_wol_check(frame) {
        let payload: &[u8] = slice_subrange(frame, ETHERNET_HEADER_LEN, frame.len());
        let target: MacAddr = wol_payload_get_target_mac(payload);
        Some(WolMessage { iface, target, frame: slice_to_vec(frame) })
    } else {
        None
    }
}

/// What the relay stage sends for one message.
#[derive(Debug)]
pub struct RelayPlan {
    /// The frame to inject, the same on every interface.
    pub frame: Vec<u8>,
    /// Indices of the interfaces to inject it on.
    pub interfaces: Vec<u32>,
}

/// `name` is one of the configured interface names.
pub open spec fn is_configured(names: Seq<String>, name: Seq<char>) -> bool {
    exists|i: int| 0 <= i < names.len() && (#[trigger] names[i])@ == name
}

/// An interface is captured on and relayed to when it is configured by
/// name, is up, and is not a loopback.
pub open spec fn is_eligible(names: Seq<String>, iface: InterfaceDescriptor) -> bool {
    is_configured(names, iface.name@) && iface.up && !iface.loopback
}

/// The indices of the eligible interfaces, in the order of `available`.
pub open spec fn eligible_indices(names: Seq<String>, available: Seq<InterfaceDescriptor>) -> Seq<
    u32,
> {
    available.filter(eligible_by(names)).map_values(index_of())
}

/// The test that [`eligible_indices`] filters by.
pub open spec fn eligible_by(names: Seq<String>) -> spec_fn(InterfaceDescriptor) -> bool {
    |d: InterfaceDescriptor| is_eligible(names, d)
}

/// The index of an interface.
pub open spec fn index_of() -> spec_fn(InterfaceDescriptor) -> u32 {
    |d: InterfaceDescriptor| d.index
}

/// Whether `name` is one of `names`.
pub fn contains_name(names: &Vec<String>, name: &String) -> (found: bool)
    ensures
        found == is_configured(names@, name@),
{
    let mut i: usize = 0;
    while i < names.len()
        invariant
            i <= names.len(),
            forall|j: int| 0 <= j < i ==> (#[trigger] names@[j])@ != name@,
        decreases names.len() - i,
    {
        if names[i] == *name {
            return true;
        }
        i += 1;
    }
    false
}

/// Picks the interfaces the link layer works on and gives their indices.
/// Fails when not one configured name belongs to an interface that is up
/// and is not a loopback.
pub fn select_interfaces(cfg: &Layer2Config, available: &Vec<InterfaceDescriptor>) -> (result:
    Result<Vec<u32>, ConfigError>)
    ensures
        match result {
            Ok(indices) => indices@.len() > 0 && indices@ == eligible_indices(
                cfg.interfaces@,
                available@,
            ),
            Err(e) => e == ConfigError::NoInterface && eligible_indices(
                cfg.interfaces@,
                available@,
            ).len() == 0,
        },
{
    let ghost pred = eligible_by(cfg.interfaces@);
    let ghost index = index_of();
    let mut indices: Vec<u32> = Vec::new();
    let mut i: usize = 0;
    assert(available@.take(0).filter(pred) =~= Seq::<InterfaceDescriptor>::empty()) by {
        available@.take(0).lemma_filter_len(pred);
    }
    while i < available.len()
        invariant
            i <= available.len(),
            pred == eligible_by(cfg.interfaces@),
            index == index_of(),
            indices@ == available@.take(i as int).filter(pred).map_values(index),
        decreases available.len() - i,
    {
        let iface: &InterfaceDescriptor = &available[i];
        let keep: bool = iface.up && !iface.loopback && contains_name(&cfg.interfaces, &iface.name);
        proof {
            let seen = available@.take(i as int);
            assert(available@.take(i + 1) =~= seen.push(available@[i as int]));
            seen.lemma_filter_push(available@[i as int], pred);
            if keep {
                assert(seen.filter(pred).push(available@[i as int]).map_values(index)
                    =~= seen.filter(pred).map_values(index).push(available@[i as int].index));
            }
        }
        if keep {
            indices.push(iface.index);
        }
        i += 1;
    }
    assert(available@.take(i as int) =~= available@);
    if indices.len() == 0 {
        Err(ConfigError::NoInterface)
    } else {
        Ok(indices)
    }
}

/// The interfaces a frame leaves on: every eligible one but that on which
/// it came in, in the order of `eligible`.
pub open spec fn egress_of(eligible: Seq<u32>, ingress: u32) -> Seq<u32> {
    eligible.filter(other_than(ingress))
}

/// The test that [`egress_of`] filters by.
pub open spec fn other_than(ingress: u32) -> spec_fn(u32) -> bool {
    |index: u32| index != ingress
}

/// Computes the interfaces a frame captured on `ingress` is relayed to.
pub fn egress_interfaces(eligible: &Vec<u32>, ingress: u32) -> (egress: Vec<u32>)
    ensures
        egress@ == egress_of(eligible@, ingress),
{
    let ghost pred = other_than(ingress);
    let mut egress: Vec<u32> = Vec::new();
    let mut i: usize = 0;
    assert(eligible@.take(0).filter(pred) =~= Seq::<u32>::empty()) by {
        eligible@.take(0).lemma_filter_len(pred);
    }
    while i < eligible.len()
        invariant
            i <= eligible.len(),
            pred == other_than(ingress),
            egress@ == eligible@.take(i as int).filter(pred),
        decreases eligible.len() - i,
    {
        let index: u32 = eligible[i];
        proof {
            let seen = eligible@.take(i as int);
            assert(eligible@.take(i + 1) =~= seen.push(index));
            seen.lemma_filter_push(index, pred);
        }
        if index != ingress {
            egress.push(index);
        }
        i += 1;
    }
    assert(eligible@.take(i as int) =~= eligible@);
    egress
}

/// A relayed frame never goes back to the segment it came from, and it
/// reaches every other eligible interface.
pub proof fn lemma_egress_excludes_ingress(eligible: Seq<u32>, ingress: u32)
    ensures
        !egress_of(eligible, ingress).contains(ingress),
        forall|i: int|
            0 <= i < eligible.len() && eligible[i] != ingress ==> egress_of(
                eligible,
                ingress,
            ).contains(#[trigger] eligible[i]),
        forall|index: u32|
            egress_of(eligible, ingress).contains(index) ==> eligible.contains(index),
{
    let pred = other_than(ingress);
    let egress = eligible.filter(pred);
    if egress.contains(ingress) {
        let j = choose|j: int| 0 <= j < egress.len() && egress[j] == ingress;
        eligible.lemma_filter_pred(pred, j);
    }
    assert forall|i: int| 0 <= i < eligible.len() && eligible[i] != ingress implies egress.contains(
        #[trigger] eligible[i],
    ) by {
        eligible.lemma_filter_contains(pred, i);
    }
    assert forall|index: u32| egress.contains(index) implies eligible.contains(index) by {
        eligible.lemma_filter_contains_rev(pred, index);
    }
}

/// `plan` injects the frame of `message`, unchanged, on every eligible
/// interface but the one it was captured on.
pub open spec fn is_plan_for(plan: RelayPlan, message: WolMessage, eligible: Seq<u32>) -> bool {
    &&& plan.frame@ == message.frame@
    &&& plan.interfaces@ == egress_of(eligible, message.iface)
}

/// Decides what the relay stage does with one message at time `now`.
///
/// The cooldown cache is asked once, for the target of the message. A
/// suppressed message yields no plan and leaves the cache alone. Any other
/// is recorded in the cache and yields a plan that injects its frame on
/// every eligible interface except the one it came in on.
pub fn plan_relay(
    cache: &mut CooldownCache,
    message: WolMessage,
    now: u64,
    eligible: &Vec<u32>,
) -> (plan: Option<RelayPlan>)
    ensures
        final(cache)@ == old(cache)@.after(message.target, now),
        match plan {
            Some(p) => old(cache)@.should_relay(message.target, now) && is_plan_for(
                p,
                message,
                eligible@,
            ),
            None => !old(cache)@.should_relay(message.target, now),
        },
{
    if cache.should_relay(message.target, now) {
        let interfaces: Vec<u32> = egress_interfaces(eligible, message.iface);
        Some(RelayPlan { frame: message.frame, interfaces })
    } else {
        None
    }
}

/// A Wake-on-LAN frame is relayed unmodified: the plan made from its message
/// injects exactly the captured bytes, on each eligible interface other
/// than the ingress one and on no other.
pub proof fn lemma_frame_relayed_unchanged(
    frame: Seq<u8>,
    iface: u32,
    message: WolMessage,
    plan: RelayPlan,
    eligible: Seq<u32>,
)
    requires
        is_capture_of(message, iface, frame),
        is_plan_for(plan, message, eligible),
    ensures
        plan.frame@ == frame,
        !plan.interfaces@.contains(iface),
        forall|i: int|
            0 <= i < eligible.len() && eligible[i] != iface ==> plan.interfaces@.contains(
                #[trigger] eligible[i],
            ),
        forall|index: u32| plan.interfaces@.contains(index) ==> eligible.contains(index),
{
    lemma_egress_excludes_ingress(eligible, iface);
}

/// A second frame for the same target is not relayed while the first one
/// cools down: whatever interface it arrives on, a frame that comes fewer
/// ticks than the window after a relayed one yields no plan and leaves the
/// cache as it is.
pub proof fn lemma_second_frame_suppressed(
    state: crate::cooldown::CooldownState,
    first: WolMessage,
    second: WolMessage,
    t0: u64,
    t: u64,
)
    requires
        first.target == second.target,
        state.should_relay(first.target, t0),
        t0 <= t,
        t - t0 < state.window,
    ensures
        !state.after(first.target, t0).should_relay(second.target, t),
        state.after(first.target, t0).after(second.target, t) == state.after(first.target, t0),
{
    crate::cooldown::lemma_cooldown_window(state, first.target, t0, t);
}

/// Outcome of one timed read on a capture channel.
#[derive(Debug)]
pub enum FrameRead<'a> {
    /// A frame was read.
    Frame(&'a [u8]),
    /// Nothing arrived within the read timeout.
    TimedOut,
    /// The read failed for another reason.
    Failed,
}

/// What a capture thread does after one timed read.
#[derive(Debug)]
pub enum CaptureAction {
    /// Leave the loop.
    Stop,
    /// Read again.
    Skip,
    /// Hand the message to the relay stage, then read again.
    Enqueue(WolMessage),
}

/// What the relay stage does after one bounded wait on its channel.
#[derive(Debug)]
pub enum RelayAction {
    /// Leave the loop.
    Stop,
    /// Wait again.
    Idle,
    /// Drop the message: its target is cooling down.
    Suppress,
    /// Inject the frame on every interface of the plan, then wait again.
    Send(RelayPlan),
}

/// One turn of the capture thread of interface `iface`. `cancelled` is the
/// shutdown signal as read after the read.
///
/// A set signal or a failed read stops the thread; a timeout lets it read
/// again. A Wake-on-LAN frame is enqueued and any other frame is skipped.
pub fn capture_step(cancelled: bool, iface: u32, read: FrameRead) -> (action: CaptureAction)
    ensures
        cancelled ==> action is Stop,
        !cancelled ==> match read {
            FrameRead::Failed => action is Stop,
            FrameRead::TimedOut => action is Skip,
            FrameRead::Frame(frame) => if is_wol_frame(frame@) {
                action matches CaptureAction::Enqueue(m) && is_capture_of(m, iface, frame@)
            } else {
                action is Skip
            },
        },
{
    if cancelled {
        return CaptureAction::Stop;
    }
    match read {
        FrameRead::Failed => CaptureAction::Stop,
        FrameRead::TimedOut => CaptureAction::Skip,
        FrameRead::Frame(frame) => match capture_frame(iface, frame) {
            Some(m) => CaptureAction::Enqueue(m),
            None => CaptureAction::Skip,
        },
    }
}

/// One turn of the relay stage. `cancelled` is the shutdown signal as read
/// after the wait, `received` the outcome of the wait and `now` the time.
///
/// A set signal or a closed channel stops the stage and a timeout lets it
/// wait again, all without touching the cache. A message is put to the
/// cooldown cache and either suppressed or relayed.
pub fn relay_step(
    cache: &mut CooldownCache,
    cancelled: bool,
    received: Received<WolMessage>,
    now: u64,
    eligible: &Vec<u32>,
) -> (action: RelayAction)
    ensures
        cancelled ==> action is Stop && final(cache)@ == old(cache)@,
        !cancelled ==> match received {
            Received::Closed => action is Stop && final(cache)@ == old(cache)@,
            Received::Timeout => action is Idle && final(cache)@ == old(cache)@,
            Received::Message(m) => {
                &&& final(cache)@ == old(cache)@.after(m.target, now)
                &&& if old(cache)@.should_relay(m.target, now) {
                    action matches RelayAction::Send(p) && is_plan_for(p, m, eligible@)
                } else {
                    action is Suppress
                }
            },
        },
{
    if cancelled {
        return RelayAction::Stop;
    }
    match received {
        Received::Closed => RelayAction::Stop,
        Received::Timeout => RelayAction::Idle,
        Received::Message(m) => match plan_relay(cache, m, now, eligible) {
            Some(p) => RelayAction::Send(p),
            None => RelayAction::Suppress,
        },
    }
}

} // verus!
