//! The tokio channels that carry payload chunks from a source to the outputs
//! routed from it, and routing changes to each output. The library keeps the
//! routing table itself as plain values; these channels move the data, and
//! their contracts say what the crosspoint needs: the route each output's
//! channel holds.

use bytes::Bytes;
use tokio::sync::{broadcast, watch};
use vstd::prelude::*;

verus! {

#[verifier::external_type_specification]
#[verifier::external_body]
pub struct ExBytes(Bytes);

#[verifier::external_type_specification]
#[verifier::external_body]
#[verifier::reject_recursive_types(T)]
pub struct ExBroadcastSender<T>(broadcast::Sender<T>);

#[verifier::external_type_specification]
#[verifier::external_body]
#[verifier::reject_recursive_types(T)]
pub struct ExBroadcastReceiver<T>(broadcast::Receiver<T>);

#[verifier::external_type_specification]
#[verifier::external_body]
#[verifier::reject_recursive_types(T)]
pub struct ExWatchSender<T>(watch::Sender<T>);

#[verifier::external_type_specification]
#[verifier::external_body]
#[verifier::reject_recursive_types(T)]
pub struct ExWatchReceiver<T>(watch::Receiver<T>);

/// `tokio::sync::broadcast::channel`: a fresh payload channel buffering up to
/// `capacity` chunks per lagging receiver; only its sending half is kept.
/// tokio panics on a zero capacity or one above `usize::MAX / 2`, which
/// `requires` rules out. Nothing is stated of the sender: it is a handle.
#[verifier::external_body]
pub(crate) fn payload_channel(capacity: usize) -> (tx: broadcast::Sender<Bytes>)
    requires
        0 < capacity <= usize::MAX / 2,
{
    let (tx, _rx) = broadcast::channel(capacity);
    tx
}

/// `Clone::clone` on a broadcast sender: another handle on the same channel.
/// A sender is nothing but its shared reference to the channel, which the
/// clone copies, so the clone is the same handle value.
#[verifier::external_body]
pub(crate) fn clone_payload_sender(tx: &broadcast::Sender<Bytes>) -> (r: broadcast::Sender<
    Bytes,
>)
    ensures
        r == *tx,
{
    tx.clone()
}

/// `broadcast::Sender::subscribe`: a new receiver of every chunk sent from
/// now on.
#[verifier::external_body]
pub(crate) fn subscribe_payload(tx: &broadcast::Sender<Bytes>) -> (rx: broadcast::Receiver<Bytes>) {
    tx.subscribe()
}

/// `rx` is a receiver that subscribing to the channel of sender `tx` gave:
/// it gets the chunks sent on that channel from then on.
pub closed spec fn receiver_of(rx: broadcast::Receiver<Bytes>, tx: broadcast::Sender<Bytes>) -> bool {
    call_ensures(subscribe_payload, (&tx,), rx)
}

/// What `subscribe_payload` gave is a receiver of that sender.
pub(crate) proof fn lemma_receiver_of(rx: broadcast::Receiver<Bytes>, tx: broadcast::Sender<Bytes>)
    requires
        call_ensures(subscribe_payload, (&tx,), rx),
    ensures
        receiver_of(rx, tx),
{
}

/// The route a watch channel holds: the value its receivers read. The
/// crosspoint keeps each route sender in one slot and never clones it, so the
/// two calls below are the only ones that set it.
pub uninterp spec fn route_value(tx: watch::Sender<String>) -> Seq<char>;

/// `tokio::sync::watch::channel`: a route channel whose value starts as
/// `init`.
#[verifier::external_body]
pub(crate) fn route_channel(init: String) -> (r: (watch::Sender<String>, watch::Receiver<String>))
    ensures
        route_value(r.0) == init@,
{
    watch::channel(init)
}

/// `watch::Sender::send_replace`: stores `value` whether or not a receiver is
/// left, so the channel then holds it, and notifies the receivers. The old
/// value it hands back is dropped.
#[verifier::external_body]
pub(crate) fn replace_route(tx: &mut watch::Sender<String>, value: String)
    ensures
        route_value(*final(tx)) == value@,
{
    tx.send_replace(value);
}

} // verus!
