//! QUIC connections as streams of bytes.
//!
//! A context takes packets from the network and gives packets for it. Connections are opened
//! through an endpoint or accepted from a listener, and each of them carries one stream that
//! is read and written like any other.
//!
//! The library decides; it does not wait. Wherever a connection has to wait for a packet, for
//! data, for room in a channel or for a timer, a step of the library ends with what is to be
//! waited for, and the next step starts from the answer.

pub mod buffer;
pub mod error;
pub mod event;
pub mod handshake;
pub mod key;
pub mod opening;
pub mod registry;
pub mod run;
pub mod stream;
pub mod task;
pub mod trace;
pub mod transport;

pub use error::{ErrorKind, QuicError, StreamError};
pub use event::{Alarm, Event, Wake};
pub use handshake::{wait_established, Arrival, HandshakeStep};
pub use key::{ConnectionId, PacketPath, QuicKey, SocketAddr, MAX_CONN_ID_LEN};
pub use opening::{open_step, OpenStep};
pub use registry::Registry;
pub use run::{quic_run, Exit, Offer, RunStep, Source};
pub use stream::{QuicStream, QuicStreamRead, QuicStreamWrite};
pub use task::{
    new_context, Dispatch, QuicEndpoint, QuicIO, QuicListener, QuicPacketReceiver, QuicPacketSender,
};
