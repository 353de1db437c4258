//! Bit-flag words of the GUD protocol. Every bit pattern is a valid value:
//! bits unknown to this side are kept, never dropped.
use vstd::prelude::*;

verus! {

/// Status of a connector, as answered to a connector status request.
#[derive(Debug, Clone, Copy, PartialEq, Eq, Structural)]
pub struct ConnectorStatus(pub u8);

impl ConnectorStatus {
    /// Bit value: The connector is disconnected (no bit set).
    pub const DISCONNECTED: u8 = 0x00;
    /// Bit value: The connector is connected.
    pub const CONNECTED: u8 = 0x01;
    /// Bit value: The connection state is unknown.
    pub const UNKNOWN: u8 = 0x02;
    /// Bit value: The status changed since the last query.
    pub const CHANGED: u8 = 0x80;

    /// The flag word with no bit set.
    pub fn empty() -> (r: Self)
        ensures
            r.0 == 0,
    {
        ConnectorStatus(0)
    }

    /// The raw bits.
    pub fn bits(&self) -> (r: u8)
        ensures
            r == self.0,
    {
        self.0
    }

    /// The flag word holding exactly `bits`, unknown bits included.
    pub fn from_bits_retain(bits: u8) -> (r: Self)
        ensures
            r.0 == bits,
    {
        ConnectorStatus(bits)
    }

    /// Whether no bit is set.
    pub fn is_empty(&self) -> (r: bool)
        ensures
            r == (self.0 == 0),
    {
        self.0 == 0
    }

    /// Whether every bit of `other` is set in `self`.
    pub fn contains(&self, other: Self) -> (r: bool)
        ensures
            r == (self.0 & other.0 == other.0),
    {
        self.0 & other.0 == other.0
    }

    /// The flag word with every bit set (unknown bits count as flags).
    pub fn all() -> (r: Self)
        ensures
            r.0 == 0xff,
    {
        ConnectorStatus(0xff)
    }

    /// Whether every bit is set.
    pub fn is_all(&self) -> (r: bool)
        ensures
            r == (self.0 == 0xff),
    {
        self.0 == 0xff
    }

    /// The flag word holding `bits`; every bit is known, so this never fails.
    pub fn from_bits(bits: u8) -> (r: Option<Self>)
        ensures
            r == Some(ConnectorStatus(bits)),
    {
        Some(ConnectorStatus(bits))
    }

    /// The flag word holding `bits`; every bit is known, so none is dropped.
    pub fn from_bits_truncate(bits: u8) -> (r: Self)
        ensures
            r.0 == bits,
    {
        ConnectorStatus(bits)
    }

    /// Whether `self` and `other` share a bit.
    pub fn intersects(&self, other: Self) -> (r: bool)
        ensures
            r == (self.0 & other.0 != 0),
    {
        self.0 & other.0 != 0
    }

    /// Sets the bits of `other`.
    pub fn insert(&mut self, other: Self)
        ensures
            final(self).0 == old(self).0 | other.0,
    {
        self.0 = self.0 | other.0;
    }

    /// Clears the bits of `other`.
    pub fn remove(&mut self, other: Self)
        ensures
            final(self).0 == old(self).0 & !other.0,
    {
        self.0 = self.0 & !other.0;
    }

    /// Flips the bits of `other`.
    pub fn toggle(&mut self, other: Self)
        ensures
            final(self).0 == old(self).0 ^ other.0,
    {
        self.0 = self.0 ^ other.0;
    }

    /// Sets the bits of `other` when `value` holds, clears them otherwise.
    pub fn set(&mut self, other: Self, value: bool)
        ensures
            final(self).0 == if value {
                old(self).0 | other.0
            } else {
                old(self).0 & !other.0
            },
    {
        if value {
            self.insert(other);
        } else {
            self.remove(other);
        }
    }

    /// The bits set in both.
    pub fn intersection(self, other: Self) -> (r: Self)
        ensures
            r.0 == self.0 & other.0,
    {
        ConnectorStatus(self.0 & other.0)
    }

    /// The bits set in either.
    pub fn union(self, other: Self) -> (r: Self)
        ensures
            r.0 == self.0 | other.0,
    {
        ConnectorStatus(self.0 | other.0)
    }

    /// The bits of `self` not set in `other`.
    pub fn difference(self, other: Self) -> (r: Self)
        ensures
            r.0 == self.0 & !other.0,
    {
        ConnectorStatus(self.0 & !other.0)
    }

    /// The bits set in exactly one of the two.
    pub fn symmetric_difference(self, other: Self) -> (r: Self)
        ensures
            r.0 == self.0 ^ other.0,
    {
        ConnectorStatus(self.0 ^ other.0)
    }

    /// The bits not set in `self`.
    pub fn complement(self) -> (r: Self)
        ensures
            r.0 == !self.0,
    {
        ConnectorStatus(!self.0)
    }
}

/// Compression methods of a frame transfer.
#[derive(Debug, Clone, Copy, PartialEq, Eq, Structural)]
pub struct Compression(pub u8);

impl Compression {
    /// Bit value: LZ4 lossless compression.
    pub const LZ4: u8 = 0x01;

    /// The flag word with no bit set.
    pub fn empty() -> (r: Self)
        ensures
            r.0 == 0,
    {
        Compression(0)
    }

    /// The raw bits.
    pub fn bits(&self) -> (r: u8)
        ensures
            r == self.0,
    {
        self.0
    }

    /// The flag word holding exactly `bits`, unknown bits included.
    pub fn from_bits_retain(bits: u8) -> (r: Self)
        ensures
            r.0 == bits,
    {
        Compression(bits)
    }

    /// Whether no bit is set.
    pub fn is_empty(&self) -> (r: bool)
        ensures
            r == (self.0 == 0),
    {
        self.0 == 0
    }

    /// Whether every bit of `other` is set in `self`.
    pub fn contains(&self, other: Self) -> (r: bool)
        ensures
            r == (self.0 & other.0 == other.0),
    {
        self.0 & other.0 == other.0
    }

    /// The flag word with every bit set (unknown bits count as flags).
    pub fn all() -> (r: Self)
        ensures
            r.0 == 0xff,
    {
        Compression(0xff)
    }

    /// Whether every bit is set.
    pub fn is_all(&self) -> (r: bool)
        ensures
            r == (self.0 == 0xff),
    {
        self.0 == 0xff
    }

    /// The flag word holding `bits`; every bit is known, so this never fails.
    pub fn from_bits(bits: u8) -> (r: Option<Self>)
        ensures
            r == Some(Compression(bits)),
    {
        Some(Compression(bits))
    }

    /// The flag word holding `bits`; every bit is known, so none is dropped.
    pub fn from_bits_truncate(bits: u8) -> (r: Self)
        ensures
            r.0 == bits,
    {
        Compression(bits)
    }

    /// Whether `self` and `other` share a bit.
    pub fn intersects(&self, other: Self) -> (r: bool)
        ensures
            r == (self.0 & other.0 != 0),
    {
        self.0 & other.0 != 0
    }

    /// Sets the bits of `other`.
    pub fn insert(&mut self, other: Self)
        ensures
            final(self).0 == old(self).0 | other.0,
    {
        self.0 = self.0 | other.0;
    }

    /// Clears the bits of `other`.
    pub fn remove(&mut self, other: Self)
        ensures
            final(self).0 == old(self).0 & !other.0,
    {
        self.0 = self.0 & !other.0;
    }

    /// Flips the bits of `other`.
    pub fn toggle(&mut self, other: Self)
        ensures
            final(self).0 == old(self).0 ^ other.0,
    {
        self.0 = self.0 ^ other.0;
    }

    /// Sets the bits of `other` when `value` holds, clears them otherwise.
    pub fn set(&mut self, other: Self, value: bool)
        ensures
            final(self).0 == if value {
                old(self).0 | other.0
            } else {
                old(self).0 & !other.0
            },
    {
        if value {
            self.insert(other);
        } else {
            self.remove(other);
        }
    }

    /// The bits set in both.
    pub fn intersection(self, other: Self) -> (r: Self)
        ensures
            r.0 == self.0 & other.0,
    {
        Compression(self.0 & other.0)
    }

    /// The bits set in either.
    pub fn union(self, other: Self) -> (r: Self)
        ensures
            r.0 == self.0 | other.0,
    {
        Compression(self.0 | other.0)
    }

    /// The bits of `self` not set in `other`.
    pub fn difference(self, other: Self) -> (r: Self)
        ensures
            r.0 == self.0 & !other.0,
    {
        Compression(self.0 & !other.0)
    }

    /// The bits set in exactly one of the two.
    pub fn symmetric_difference(self, other: Self) -> (r: Self)
        ensures
            r.0 == self.0 ^ other.0,
    {
        Compression(self.0 ^ other.0)
    }

    /// The bits not set in `self`.
    pub fn complement(self) -> (r: Self)
        ensures
            r.0 == !self.0,
    {
        Compression(!self.0)
    }
}

/// Capabilities of a connector.
#[derive(Debug, Clone, Copy, PartialEq, Eq, Structural)]
pub struct ConnectorDescriptorFlags(pub u32);

impl ConnectorDescriptorFlags {
    /// Bit value: Connector status can change (polled every 10 seconds).
    pub const POLL_STATUS: u32 = 0x01;
    /// Bit value: Interlaced modes are supported.
    pub const INTERLACE: u32 = 0x02;
    /// Bit value: Doublescan modes are supported.
    pub const DOUBLESCAN: u32 = 0x04;

    /// The flag word with no bit set.
    pub fn empty() -> (r: Self)
        ensures
            r.0 == 0,
    {
        ConnectorDescriptorFlags(0)
    }

    /// The raw bits.
    pub fn bits(&self) -> (r: u32)
        ensures
            r == self.0,
    {
        self.0
    }

    /// The flag word holding exactly `bits`, unknown bits included.
    pub fn from_bits_retain(bits: u32) -> (r: Self)
        ensures
            r.0 == bits,
    {
        ConnectorDescriptorFlags(bits)
    }

    /// Whether no bit is set.
    pub fn is_empty(&self) -> (r: bool)
        ensures
            r == (self.0 == 0),
    {
        self.0 == 0
    }

    /// Whether every bit of `other` is set in `self`.
    pub fn contains(&self, other: Self) -> (r: bool)
        ensures
            r == (self.0 & other.0 == other.0),
    {
        self.0 & other.0 == other.0
    }

    /// The flag word with every bit set (unknown bits count as flags).
    pub fn all() -> (r: Self)
        ensures
            r.0 == 0xffff_ffff,
    {
        ConnectorDescriptorFlags(0xffff_ffff)
    }

    /// Whether every bit is set.
    pub fn is_all(&self) -> (r: bool)
        ensures
            r == (self.0 == 0xffff_ffff),
    {
        self.0 == 0xffff_ffff
    }

    /// The flag word holding `bits`; every bit is known, so this never fails.
    pub fn from_bits(bits: u32) -> (r: Option<Self>)
        ensures
            r == Some(ConnectorDescriptorFlags(bits)),
    {
        Some(ConnectorDescriptorFlags(bits))
    }

    /// The flag word holding `bits`; every bit is known, so none is dropped.
    pub fn from_bits_truncate(bits: u32) -> (r: Self)
        ensures
            r.0 == bits,
    {
        ConnectorDescriptorFlags(bits)
    }

    /// Whether `self` and `other` share a bit.
    pub fn intersects(&self, other: Self) -> (r: bool)
        ensures
            r == (self.0 & other.0 != 0),
    {
        self.0 & other.0 != 0
    }

    /// Sets the bits of `other`.
    pub fn insert(&mut self, other: Self)
        ensures
            final(self).0 == old(self).0 | other.0,
    {
        self.0 = self.0 | other.0;
    }

    /// Clears the bits of `other`.
    pub fn remove(&mut self, other: Self)
        ensures
            final(self).0 == old(self).0 & !other.0,
    {
        self.0 = self.0 & !other.0;
    }

    /// Flips the bits of `other`.
    pub fn toggle(&mut self, other: Self)
        ensures
            final(self).0 == old(self).0 ^ other.0,
    {
        self.0 = self.0 ^ other.0;
    }

    /// Sets the bits of `other` when `value` holds, clears them otherwise.
    pub fn set(&mut self, other: Self, value: bool)
        ensures
            final(self).0 == if value {
                old(self).0 | other.0
            } else {
                old(self).0 & !other.0
            },
    {
        if value {
            self.insert(other);
        } else {
            self.remove(other);
        }
    }

    /// The bits set in both.
    pub fn intersection(self, other: Self) -> (r: Self)
        ensures
            r.0 == self.0 & other.0,
    {
        ConnectorDescriptorFlags(self.0 & other.0)
    }

    /// The bits set in either.
    pub fn union(self, other: Self) -> (r: Self)
        ensures
            r.0 == self.0 | other.0,
    {
        ConnectorDescriptorFlags(self.0 | other.0)
    }

    /// The bits of `self` not set in `other`.
    pub fn difference(self, other: Self) -> (r: Self)
        ensures
            r.0 == self.0 & !other.0,
    {
        ConnectorDescriptorFlags(self.0 & !other.0)
    }

    /// The bits set in exactly one of the two.
    pub fn symmetric_difference(self, other: Self) -> (r: Self)
        ensures
            r.0 == self.0 ^ other.0,
    {
        ConnectorDescriptorFlags(self.0 ^ other.0)
    }

    /// The bits not set in `self`.
    pub fn complement(self) -> (r: Self)
        ensures
            r.0 == !self.0,
    {
        ConnectorDescriptorFlags(!self.0)
    }
}

/// Flags of a display mode: the DRM mode flags, and one of GUD's own.
#[derive(Debug, Clone, Copy, PartialEq, Eq, Structural)]
pub struct DisplayModeFlags(pub u32);

impl DisplayModeFlags {
    /// Bit value: Positive horizontal sync.
    pub const PHSYNC: u32 = 0x0001;
    /// Bit value: Negative horizontal sync.
    pub const NHSYNC: u32 = 0x0002;
    /// Bit value: Positive vertical sync.
    pub const PVSYNC: u32 = 0x0004;
    /// Bit value: Negative vertical sync.
    pub const NVSYNC: u32 = 0x0008;
    /// Bit value: Interlaced mode.
    pub const INTERLACE: u32 = 0x0010;
    /// Bit value: Doublescan mode.
    pub const DBLSCAN: u32 = 0x0020;
    /// Bit value: Composite sync.
    pub const CSYNC: u32 = 0x0040;
    /// Bit value: Positive composite sync.
    pub const PCSYNC: u32 = 0x0080;
    /// Bit value: Negative composite sync.
    pub const NCSYNC: u32 = 0x0100;
    /// Bit value: Horizontal skew is given.
    pub const HSKEW: u32 = 0x0200;
    /// Bit value: The preferred mode (GUD only).
    pub const PREFERRED: u32 = 0x0400;
    /// Bit value: Double clock mode.
    pub const DBLCLK: u32 = 0x1000;

    /// The flag word with no bit set.
    pub fn empty() -> (r: Self)
        ensures
            r.0 == 0,
    {
        DisplayModeFlags(0)
    }

    /// The raw bits.
    pub fn bits(&self) -> (r: u32)
        ensures
            r == self.0,
    {
        self.0
    }

    /// The flag word holding exactly `bits`, unknown bits included.
    pub fn from_bits_retain(bits: u32) -> (r: Self)
        ensures
            r.0 == bits,
    {
        DisplayModeFlags(bits)
    }

    /// Whether no bit is set.
    pub fn is_empty(&self) -> (r: bool)
        ensures
            r == (self.0 == 0),
    {
        self.0 == 0
    }

    /// Whether every bit of `other` is set in `self`.
    pub fn contains(&self, other: Self) -> (r: bool)
        ensures
            r == (self.0 & other.0 == other.0),
    {
        self.0 & other.0 == other.0
    }

    /// The flag word with every bit set (unknown bits count as flags).
    pub fn all() -> (r: Self)
        ensures
            r.0 == 0xffff_ffff,
    {
        DisplayModeFlags(0xffff_ffff)
    }

    /// Whether every bit is set.
    pub fn is_all(&self) -> (r: bool)
        ensures
            r == (self.0 == 0xffff_ffff),
    {
        self.0 == 0xffff_ffff
    }

    /// The flag word holding `bits`; every bit is known, so this never fails.
    pub fn from_bits(bits: u32) -> (r: Option<Self>)
        ensures
            r == Some(DisplayModeFlags(bits)),
    {
        Some(DisplayModeFlags(bits))
    }

    /// The flag word holding `bits`; every bit is known, so none is dropped.
    pub fn from_bits_truncate(bits: u32) -> (r: Self)
        ensures
            r.0 == bits,
    {
        DisplayModeFlags(bits)
    }

    /// Whether `self` and `other` share a bit.
    pub fn intersects(&self, other: Self) -> (r: bool)
        ensures
            r == (self.0 & other.0 != 0),
    {
        self.0 & other.0 != 0
    }

    /// Sets the bits of `other`.
    pub fn insert(&mut self, other: Self)
        ensures
            final(self).0 == old(self).0 | other.0,
    {
        self.0 = self.0 | other.0;
    }

    /// Clears the bits of `other`.
    pub fn remove(&mut self, other: Self)
        ensures
            final(self).0 == old(self).0 & !other.0,
    {
        self.0 = self.0 & !other.0;
    }

    /// Flips the bits of `other`.
    pub fn toggle(&mut self, other: Self)
        ensures
            final(self).0 == old(self).0 ^ other.0,
    {
        self.0 = self.0 ^ other.0;
    }

    /// Sets the bits of `other` when `value` holds, clears them otherwise.
    pub fn set(&mut self, other: Self, value: bool)
        ensures
            final(self).0 == if value {
                old(self).0 | other.0
            } else {
                old(self).0 & !other.0
            },
    {
        if value {
            self.insert(other);
        } else {
            self.remove(other);
        }
    }

    /// The bits set in both.
    pub fn intersection(self, other: Self) -> (r: Self)
        ensures
            r.0 == self.0 & other.0,
    {
        DisplayModeFlags(self.0 & other.0)
    }

    /// The bits set in either.
    pub fn union(self, other: Self) -> (r: Self)
        ensures
            r.0 == self.0 | other.0,
    {
        DisplayModeFlags(self.0 | other.0)
    }

    /// The bits of `self` not set in `other`.
    pub fn difference(self, other: Self) -> (r: Self)
        ensures
            r.0 == self.0 & !other.0,
    {
        DisplayModeFlags(self.0 & !other.0)
    }

    /// The bits set in exactly one of the two.
    pub fn symmetric_difference(self, other: Self) -> (r: Self)
        ensures
            r.0 == self.0 ^ other.0,
    {
        DisplayModeFlags(self.0 ^ other.0)
    }

    /// The bits not set in `self`.
    pub fn complement(self) -> (r: Self)
        ensures
            r.0 == !self.0,
    {
        DisplayModeFlags(!self.0)
    }
}

/// Flags of the display descriptor.
#[derive(Debug, Clone, Copy, PartialEq, Eq, Structural)]
pub struct DisplayDescriptorFlags(pub u32);

impl DisplayDescriptorFlags {
    /// Bit value: Always do a status request after a SET request; used by the Linux gadget driver, which cannot control the status stage of a control OUT request that has a payload.
    pub const STATUS_ON_SET: u32 = 0x01;
    /// Bit value: Always send the entire framebuffer when flushing changes; the set-buffer request is then only sent after a failed bulk transfer. Cannot be combined with compression.
    pub const FULL_UPDATE: u32 = 0x02;

    /// The flag word with no bit set.
    pub fn empty() -> (r: Self)
        ensures
            r.0 == 0,
    {
        DisplayDescriptorFlags(0)
    }

    /// The raw bits.
    pub fn bits(&self) -> (r: u32)
        ensures
            r == self.0,
    {
        self.0
    }

    /// The flag word holding exactly `bits`, unknown bits included.
    pub fn from_bits_retain(bits: u32) -> (r: Self)
        ensures
            r.0 == bits,
    {
        DisplayDescriptorFlags(bits)
    }

    /// Whether no bit is set.
    pub fn is_empty(&self) -> (r: bool)
        ensures
            r == (self.0 == 0),
    {
        self.0 == 0
    }

    /// Whether every bit of `other` is set in `self`.
    pub fn contains(&self, other: Self) -> (r: bool)
        ensures
            r == (self.0 & other.0 == other.0),
    {
        self.0 & other.0 == other.0
    }

    /// The flag word with every bit set (unknown bits count as flags).
    pub fn all() -> (r: Self)
        ensures
            r.0 == 0xffff_ffff,
    {
        DisplayDescriptorFlags(0xffff_ffff)
    }

    /// Whether every bit is set.
    pub fn is_all(&self) -> (r: bool)
        ensures
            r == (self.0 == 0xffff_ffff),
    {
        self.0 == 0xffff_ffff
    }

    /// The flag word holding `bits`; every bit is known, so this never fails.
    pub fn from_bits(bits: u32) -> (r: Option<Self>)
        ensures
            r == Some(DisplayDescriptorFlags(bits)),
    {
        Some(DisplayDescriptorFlags(bits))
    }

    /// The flag word holding `bits`; every bit is known, so none is dropped.
    pub fn from_bits_truncate(bits: u32) -> (r: Self)
        ensures
            r.0 == bits,
    {
        DisplayDescriptorFlags(bits)
    }

    /// Whether `self` and `other` share a bit.
    pub fn intersects(&self, other: Self) -> (r: bool)
        ensures
            r == (self.0 & other.0 != 0),
    {
        self.0 & other.0 != 0
    }

    /// Sets the bits of `other`.
    pub fn insert(&mut self, other: Self)
        ensures
            final(self).0 == old(self).0 | other.0,
    {
        self.0 = self.0 | other.0;
    }

    /// Clears the bits of `other`.
    pub fn remove(&mut self, other: Self)
        ensures
            final(self).0 == old(self).0 & !other.0,
    {
        self.0 = self.0 & !other.0;
    }

    /// Flips the bits of `other`.
    pub fn toggle(&mut self, other: Self)
        ensures
            final(self).0 == old(self).0 ^ other.0,
    {
        self.0 = self.0 ^ other.0;
    }

    /// Sets the bits of `other` when `value` holds, clears them otherwise.
    pub fn set(&mut self, other: Self, value: bool)
        ensures
            final(self).0 == if value {
                old(self).0 | other.0
            } else {
                old(self).0 & !other.0
            },
    {
        if value {
            self.insert(other);
        } else {
            self.remove(other);
        }
    }

    /// The bits set in both.
    pub fn intersection(self, other: Self) -> (r: Self)
        ensures
            r.0 == self.0 & other.0,
    {
        DisplayDescriptorFlags(self.0 & other.0)
    }

    /// The bits set in either.
    pub fn union(self, other: Self) -> (r: Self)
        ensures
            r.0 == self.0 | other.0,
    {
        DisplayDescriptorFlags(self.0 | other.0)
    }

    /// The bits of `self` not set in `other`.
    pub fn difference(self, other: Self) -> (r: Self)
        ensures
            r.0 == self.0 & !other.0,
    {
        DisplayDescriptorFlags(self.0 & !other.0)
    }

    /// The bits set in exactly one of the two.
    pub fn symmetric_difference(self, other: Self) -> (r: Self)
        ensures
            r.0 == self.0 ^ other.0,
    {
        DisplayDescriptorFlags(self.0 ^ other.0)
    }

    /// The bits not set in `self`.
    pub fn complement(self) -> (r: Self)
        ensures
            r.0 == !self.0,
    {
        DisplayDescriptorFlags(!self.0)
    }
}

/// Inserting flags and then checking for them finds them, and removing
/// them leaves none of them set.
pub proof fn lemma_insert_contains_remove(word: u32, other: u32)
    ensures
        (word | other) & other == other,
        (word & !other) & other == 0,
{
    assert((word | other) & other == other) by (bit_vector);
    assert((word & !other) & other == 0) by (bit_vector);
}

} // verus!
