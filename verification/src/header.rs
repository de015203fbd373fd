//! The packet header.
//!
//! In memory the header is the packed C struct
//!
//! ```C
//!     le64 src_cid;
//!     le64 dst_cid;
//!     le32 src_port;
//!     le32 dst_port;
//!     le32 len;
//!     le16 type;
//!     le16 op;
//!     le32 flags;
//!     le32 buf_alloc;
//!     le32 fwd_cnt;
//! ```

use crate::endian::{le_bytes, le_value};
use vstd::prelude::*;

verus! {

/// The size of the packet header in bytes.
pub const VSOCK_PKT_HDR_SIZE: usize = 44;

/// What a packet header says.
pub struct HeaderView {
    /// Source context id.
    pub src_cid: u64,
    /// Destination context id.
    pub dst_cid: u64,
    /// Source port.
    pub src_port: u32,
    /// Destination port.
    pub dst_port: u32,
    /// Length of the packet data in bytes; 0 where there is none.
    pub len: u32,
    /// Socket type.
    pub type_: u16,
    /// Operation.
    pub op: u16,
    /// Options of the operation.
    pub flags: u32,
    /// Size of the sender's receive buffer for this connection.
    pub buf_alloc: u32,
    /// Number of bytes that the sender has received and consumed on this connection.
    pub fwd_cnt: u32,
}

impl HeaderView {
    /// The header of a packet in which nothing has been set.
    pub open spec fn zero() -> HeaderView {
        HeaderView {
            src_cid: 0,
            dst_cid: 0,
            src_port: 0,
            dst_port: 0,
            len: 0,
            type_: 0,
            op: 0,
            flags: 0,
            buf_alloc: 0,
            fwd_cnt: 0,
        }
    }

    /// The header with `flag` set among its flags.
    pub open spec fn with_flag(self, flag: u32) -> HeaderView {
        HeaderView { flags: self.flags | flag, ..self }
    }

    /// The header's bytes in memory.
    pub open spec fn to_wire(self) -> Seq<u8> {
        le_bytes(self.src_cid as nat, 8) + le_bytes(self.dst_cid as nat, 8) + le_bytes(
            self.src_port as nat,
            4,
        ) + le_bytes(self.dst_port as nat, 4) + le_bytes(self.len as nat, 4) + le_bytes(
            self.type_ as nat,
            2,
        ) + le_bytes(self.op as nat, 2) + le_bytes(self.flags as nat, 4) + le_bytes(
            self.buf_alloc as nat,
            4,
        ) + le_bytes(self.fwd_cnt as nat, 4)
    }

    /// The header whose bytes in memory are `bytes`.
    pub open spec fn from_wire(bytes: Seq<u8>) -> HeaderView {
        HeaderView {
            src_cid: le_value(bytes.subrange(0, 8)) as u64,
            dst_cid: le_value(bytes.subrange(8, 16)) as u64,
            src_port: le_value(bytes.subrange(16, 20)) as u32,
            dst_port: le_value(bytes.subrange(20, 24)) as u32,
            len: le_value(bytes.subrange(24, 28)) as u32,
            type_: le_value(bytes.subrange(28, 30)) as u16,
            op: le_value(bytes.subrange(30, 32)) as u16,
            flags: le_value(bytes.subrange(32, 36)) as u32,
            buf_alloc: le_value(bytes.subrange(36, 40)) as u32,
            fwd_cnt: le_value(bytes.subrange(40, 44)) as u32,
        }
    }
}

} // verus!
