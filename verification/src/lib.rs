//! Device side of the Generic USB Display (GUD) protocol: the wire encoding of
//! the descriptors a gadget sends to the host, the decoding of the host's
//! requests, the dispatch of control requests, the application of received
//! frame rectangles to a framebuffer and the conversion of pixel formats to
//! ARGB.
use vstd::prelude::*;

pub mod backends;
pub mod colors;
pub mod descriptors;
pub mod flags;
pub mod formats;
pub mod frame;
pub mod protocol;
pub mod video_mode;
pub mod wire;

verus! {

/// USB vendor id of the GUD gadget (Openmoko).
pub const OPENMOKO_GUD_VENDOR: u16 = 0x1d50;

/// USB product id of the GUD gadget.
pub const OPENMOKO_GUD_PRODUCT: u16 = 0x614d;

} // verus!
