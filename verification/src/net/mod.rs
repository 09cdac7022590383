//! A simulated TCP network: listeners, streams and the table that connects them.

pub mod addr;
pub mod channel;
pub mod listener;
pub mod stream;
pub mod table;
pub mod waiters;

pub use addr::{IpAddr, SocketAddr};
pub use listener::TcpListener;
pub use stream::{
    BufferFull, Inner, OwnedReadHalf, OwnedWriteHalf, ReadAction, TcpStream, WriteAction, WriteError,
    SEND_BUFFER_BYTES,
};
pub use table::{reset_connect_table, NetState};
pub use waiters::{accept_outcome, Waiters, WaitersView};
