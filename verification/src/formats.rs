//! Enumerations of the GUD protocol with their wire codes.
use vstd::prelude::*;

verus! {

/// Status codes a device answers to `GUD_REQ_GET_STATUS`.
#[derive(Debug, Clone, Copy, PartialEq, Eq, Structural)]
pub enum Status {
    Success,
    Busy,
    RequestNotSupported,
    ProtocolError,
    InvalidParameter,
    Error,
}

impl Status {
    pub open spec fn spec_code(&self) -> u8 {
        match self {
            Status::Success => 0x00,
            Status::Busy => 0x01,
            Status::RequestNotSupported => 0x02,
            Status::ProtocolError => 0x03,
            Status::InvalidParameter => 0x04,
            Status::Error => 0x05,
        }
    }

    /// The status byte sent on the wire.
    #[verifier::when_used_as_spec(spec_code)]
    pub fn code(&self) -> (r: u8)
        ensures
            r == self.spec_code(),
    {
        match self {
            Status::Success => 0x00,
            Status::Busy => 0x01,
            Status::RequestNotSupported => 0x02,
            Status::ProtocolError => 0x03,
            Status::InvalidParameter => 0x04,
            Status::Error => 0x05,
        }
    }
}

/// Pixel formats a GUD display can accept.
#[derive(Debug, Clone, Copy, PartialEq, Eq, PartialOrd, Ord, Structural)]
pub enum PixelFormat {
    /// 1-bit monochrome
    R1,
    /// 8-bit greyscale
    R8,
    XRGB1111,
    RGB332,
    RGB565,
    RGB888,
    XRGB8888,
    ARGB8888,
}

impl PixelFormat {
    pub open spec fn spec_code(&self) -> u8 {
        match self {
            PixelFormat::R1 => 0x01,
            PixelFormat::R8 => 0x08,
            PixelFormat::XRGB1111 => 0x20,
            PixelFormat::RGB332 => 0x30,
            PixelFormat::RGB565 => 0x40,
            PixelFormat::RGB888 => 0x50,
            PixelFormat::XRGB8888 => 0x80,
            PixelFormat::ARGB8888 => 0x81,
        }
    }

    /// The format's code in the GUD protocol (`GUD_PIXEL_FORMAT_*`).
    #[verifier::when_used_as_spec(spec_code)]
    pub fn code(&self) -> (r: u8)
        ensures
            r == self.spec_code(),
    {
        match self {
            PixelFormat::R1 => 0x01,
            PixelFormat::R8 => 0x08,
            PixelFormat::XRGB1111 => 0x20,
            PixelFormat::RGB332 => 0x30,
            PixelFormat::RGB565 => 0x40,
            PixelFormat::RGB888 => 0x50,
            PixelFormat::XRGB8888 => 0x80,
            PixelFormat::ARGB8888 => 0x81,
        }
    }

    pub open spec fn spec_bpp(&self) -> u32 {
        match self {
            PixelFormat::R1 => 1,
            PixelFormat::R8 => 8,
            PixelFormat::XRGB1111 => 4,
            PixelFormat::RGB332 => 8,
            PixelFormat::RGB565 => 16,
            PixelFormat::RGB888 => 24,
            PixelFormat::XRGB8888 => 32,
            PixelFormat::ARGB8888 => 32,
        }
    }

    /// Bits per pixel.
    #[verifier::when_used_as_spec(spec_bpp)]
    pub fn bpp(&self) -> (r: u32)
        ensures
            r == self.spec_bpp(),
    {
        match self {
            PixelFormat::R1 => 1,
            PixelFormat::R8 => 8,
            PixelFormat::XRGB1111 => 4,
            PixelFormat::RGB332 => 8,
            PixelFormat::RGB565 => 16,
            PixelFormat::RGB888 => 24,
            PixelFormat::XRGB8888 => 32,
            PixelFormat::ARGB8888 => 32,
        }
    }
}

/// Kinds of display connectors.
#[derive(Debug, Clone, Copy, PartialEq, Eq, PartialOrd, Ord, Structural)]
pub enum ConnectorType {
    Panel,
    VGA,
    Composite,
    SVideo,
    Component,
    DVI,
    DisplayPort,
    HDMI,
}

impl ConnectorType {
    pub open spec fn spec_code(&self) -> u8 {
        match self {
            ConnectorType::Panel => 0,
            ConnectorType::VGA => 1,
            ConnectorType::Composite => 2,
            ConnectorType::SVideo => 3,
            ConnectorType::Component => 4,
            ConnectorType::DVI => 5,
            ConnectorType::DisplayPort => 6,
            ConnectorType::HDMI => 7,
        }
    }

    /// The connector type's code in the GUD protocol.
    #[verifier::when_used_as_spec(spec_code)]
    pub fn code(&self) -> (r: u8)
        ensures
            r == self.spec_code(),
    {
        match self {
            ConnectorType::Panel => 0,
            ConnectorType::VGA => 1,
            ConnectorType::Composite => 2,
            ConnectorType::SVideo => 3,
            ConnectorType::Component => 4,
            ConnectorType::DVI => 5,
            ConnectorType::DisplayPort => 6,
            ConnectorType::HDMI => 7,
        }
    }
}

/// Each pixel format's code is the GUD protocol's constant for it
/// (`GUD_PIXEL_FORMAT_*`), and its size the bits one pixel takes.
pub proof fn lemma_pixel_format_codes()
    ensures
        PixelFormat::R1.spec_code() == 0x01 && PixelFormat::R1.spec_bpp() == 1,
        PixelFormat::R8.spec_code() == 0x08 && PixelFormat::R8.spec_bpp() == 8,
        PixelFormat::XRGB1111.spec_code() == 0x20 && PixelFormat::XRGB1111.spec_bpp() == 4,
        PixelFormat::RGB332.spec_code() == 0x30 && PixelFormat::RGB332.spec_bpp() == 8,
        PixelFormat::RGB565.spec_code() == 0x40 && PixelFormat::RGB565.spec_bpp() == 16,
        PixelFormat::RGB888.spec_code() == 0x50 && PixelFormat::RGB888.spec_bpp() == 24,
        PixelFormat::XRGB8888.spec_code() == 0x80 && PixelFormat::XRGB8888.spec_bpp() == 32,
        PixelFormat::ARGB8888.spec_code() == 0x81 && PixelFormat::ARGB8888.spec_bpp() == 32,
{
}

/// Each connector type's code is the GUD protocol's constant for it
/// (`GUD_CONNECTOR_TYPE_*`).
pub proof fn lemma_connector_type_codes()
    ensures
        ConnectorType::Panel.spec_code() == 0,
        ConnectorType::VGA.spec_code() == 1,
        ConnectorType::Composite.spec_code() == 2,
        ConnectorType::SVideo.spec_code() == 3,
        ConnectorType::Component.spec_code() == 4,
        ConnectorType::DVI.spec_code() == 5,
        ConnectorType::DisplayPort.spec_code() == 6,
        ConnectorType::HDMI.spec_code() == 7,
{
}

/// Each status's code is the GUD protocol's constant for it
/// (`GUD_STATUS_*`).
pub proof fn lemma_status_codes()
    ensures
        Status::Success.spec_code() == 0,
        Status::Busy.spec_code() == 1,
        Status::RequestNotSupported.spec_code() == 2,
        Status::ProtocolError.spec_code() == 3,
        Status::InvalidParameter.spec_code() == 4,
        Status::Error.spec_code() == 5,
{
}

/// Distinct pixel formats have distinct codes.
pub proof fn lemma_pixel_format_code_injective(a: PixelFormat, b: PixelFormat)
    ensures
        a.code() == b.code() <==> a == b,
{
}

} // verus!
