use vstd::prelude::*;

verus! {

// The engine and the presentation loop never share memory: everything moves
// through four bounded channels. The channel endpoints come from the
// crossbeam_channel crate and are opaque here; what a received value means is
// checked by the verified code that consumes it.

#[verifier::external_type_specification]
#[verifier::external_body]
#[verifier::reject_recursive_types(T)]
pub struct ExSender<T>(crossbeam_channel::Sender<T>);

#[verifier::external_type_specification]
#[verifier::external_body]
#[verifier::reject_recursive_types(T)]
pub struct ExReceiver<T>(crossbeam_channel::Receiver<T>);

// The capacity a bounded channel was created with, named per endpoint: a
// fixed property of the endpoint value that the constructors below
// establish. A capacity fixes the channel's delivery policy; nothing else
// about a channel's inner state can be stated here.

pub uninterp spec fn bits_sender_capacity(s: crossbeam_channel::Sender<Vec<bool>>) -> usize;

pub uninterp spec fn bits_receiver_capacity(r: crossbeam_channel::Receiver<Vec<bool>>) -> usize;

pub uninterp spec fn key_sender_capacity(s: crossbeam_channel::Sender<char>) -> usize;

pub uninterp spec fn key_receiver_capacity(r: crossbeam_channel::Receiver<char>) -> usize;

pub uninterp spec fn sound_sender_capacity(s: crossbeam_channel::Sender<bool>) -> usize;

pub uninterp spec fn sound_receiver_capacity(r: crossbeam_channel::Receiver<bool>) -> usize;

/// Relies on crossbeam_channel::bounded: a channel of the given capacity for
/// bit-grid payloads (a keyboard level-state of 16 flags, or a 64x32 frame);
/// both endpoints carry the requested capacity.
#[verifier::external_body]
fn bounded_bits(cap: usize) -> (r: (crossbeam_channel::Sender<Vec<bool>>, crossbeam_channel::Receiver<Vec<bool>>))
    ensures
        bits_sender_capacity(r.0) == cap,
        bits_receiver_capacity(r.1) == cap,
{
    crossbeam_channel::bounded(cap)
}

/// Relies on crossbeam_channel::bounded: a channel of the given capacity for
/// single key symbols; capacity 0 makes it a rendezvous channel. Both
/// endpoints carry the requested capacity.
#[verifier::external_body]
fn bounded_keys(cap: usize) -> (r: (crossbeam_channel::Sender<char>, crossbeam_channel::Receiver<char>))
    ensures
        key_sender_capacity(r.0) == cap,
        key_receiver_capacity(r.1) == cap,
{
    crossbeam_channel::bounded(cap)
}

/// Relies on crossbeam_channel::bounded: a channel of the given capacity for
/// sound notifications; both endpoints carry the requested capacity.
#[verifier::external_body]
fn bounded_sound(cap: usize) -> (r: (crossbeam_channel::Sender<bool>, crossbeam_channel::Receiver<bool>))
    ensures
        sound_sender_capacity(r.0) == cap,
        sound_receiver_capacity(r.1) == cap,
{
    crossbeam_channel::bounded(cap)
}

/// Relies on crossbeam_channel::Receiver::try_recv: returns a pending message
/// without blocking, or nothing when the channel is empty or disconnected.
#[verifier::external_body]
pub(crate) fn try_recv_bits(r: &crossbeam_channel::Receiver<Vec<bool>>) -> Option<Vec<bool>> {
    match r.try_recv() {
        Ok(v) => Some(v),
        Err(_) => None,
    }
}

/// Relies on crossbeam_channel::Receiver::recv: blocks until a message
/// arrives; returns nothing only when the channel is disconnected and empty.
#[verifier::external_body]
pub(crate) fn recv_key(r: &crossbeam_channel::Receiver<char>) -> Option<char> {
    match r.recv() {
        Ok(c) => Some(c),
        Err(_) => None,
    }
}

/// Relies on crossbeam_channel::Sender::send: delivers the frame once the
/// receiver has room; reports failure (a disconnected receiver) instead of
/// propagating it, since a gone display must not stop emulation.
#[verifier::external_body]
pub(crate) fn send_frame(s: &crossbeam_channel::Sender<Vec<bool>>, frame: Vec<bool>) -> bool {
    s.send(frame).is_ok()
}

/// Relies on crossbeam_channel::Sender::try_send: delivers without blocking,
/// reporting failure when the channel is full or disconnected.
#[verifier::external_body]
pub(crate) fn try_send_sound(s: &crossbeam_channel::Sender<bool>, on: bool) -> bool {
    s.try_send(on).is_ok()
}

/// The presentation loop's endpoints: it sends keyboard state and single key
/// releases, and receives sound notifications and frames.
pub struct PlatformContext {
    pub keyboard: crossbeam_channel::Sender<Vec<bool>>,
    pub single_key: crossbeam_channel::Sender<char>,
    pub sound: crossbeam_channel::Receiver<bool>,
    pub display: crossbeam_channel::Receiver<Vec<bool>>,
}

/// The engine's endpoints, one per channel, each the complement of the
/// presentation side's.
pub struct CpuContext {
    pub keyboard: crossbeam_channel::Receiver<Vec<bool>>,
    pub single_key: crossbeam_channel::Receiver<char>,
    pub sound: crossbeam_channel::Sender<bool>,
    pub display: crossbeam_channel::Sender<Vec<bool>>,
}

/// Builds the four channels that connect the engine to the presentation loop,
/// with the capacity that fixes each one's delivery policy: latest-value
/// keyboard state (1), rendezvous single-key handshake (0), best-effort sound
/// notification (1), and a frame buffer allowing one frame of lag (2).
pub fn create_contexts() -> (r: (PlatformContext, CpuContext))
    ensures
        bits_sender_capacity(r.0.keyboard) == 1,
        bits_receiver_capacity(r.1.keyboard) == 1,
        key_sender_capacity(r.0.single_key) == 0,
        key_receiver_capacity(r.1.single_key) == 0,
        sound_sender_capacity(r.1.sound) == 1,
        sound_receiver_capacity(r.0.sound) == 1,
        bits_sender_capacity(r.1.display) == 2,
        bits_receiver_capacity(r.0.display) == 2,
{
    let (ks, kr) = bounded_bits(1);
    let (sks, skr) = bounded_keys(0);
    let (ss, sr) = bounded_sound(1);
    let (ds, dr) = bounded_bits(2);

    (
        PlatformContext { keyboard: ks, single_key: sks, sound: sr, display: dr },
        CpuContext { keyboard: kr, single_key: skr, sound: ss, display: ds },
    )
}

} // verus!
