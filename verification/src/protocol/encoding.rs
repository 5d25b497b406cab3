use vstd::prelude::*;
use crate::error::VncError;

verus! {

/// The encodings and pseudo-encodings that the client understands.
#[derive(Debug, Clone, Copy, PartialEq, Eq, Structural)]
pub enum VncEncoding {
    Raw,
    CopyRect,
    Tight,
    Trle,
    Zrle,
    CursorPseudo,
    DesktopSizePseudo,
    LastRectPseudo,
}

impl VncEncoding {
    /// The signed number that stands for the encoding on the wire.
    pub open spec fn spec_code(self) -> int {
        match self {
            VncEncoding::Raw => 0,
            VncEncoding::CopyRect => 1,
            VncEncoding::Tight => 7,
            VncEncoding::Trle => 15,
            VncEncoding::Zrle => 16,
            VncEncoding::CursorPseudo => -239,
            VncEncoding::DesktopSizePseudo => -223,
            VncEncoding::LastRectPseudo => -224,
        }
    }

    /// The encoding that a wire number stands for, if it is a known one.
    pub open spec fn spec_from_code(code: int) -> Option<VncEncoding> {
        if code == 0 {
            Some(VncEncoding::Raw)
        } else if code == 1 {
            Some(VncEncoding::CopyRect)
        } else if code == 7 {
            Some(VncEncoding::Tight)
        } else if code == 15 {
            Some(VncEncoding::Trle)
        } else if code == 16 {
            Some(VncEncoding::Zrle)
        } else if code == -239 {
            Some(VncEncoding::CursorPseudo)
        } else if code == -223 {
            Some(VncEncoding::DesktopSizePseudo)
        } else if code == -224 {
            Some(VncEncoding::LastRectPseudo)
        } else {
            None
        }
    }

    /// Whether the encoding carries no pixels of the framebuffer itself.
    pub open spec fn is_pseudo(self) -> bool {
        self.spec_code() < 0
    }

    /// The signed number that stands for the encoding on the wire.
    pub fn code(self) -> (code: i32)
        ensures
            code == self.spec_code(),
    {
        match self {
            VncEncoding::Raw => 0,
            VncEncoding::CopyRect => 1,
            VncEncoding::Tight => 7,
            VncEncoding::Trle => 15,
            VncEncoding::Zrle => 16,
            VncEncoding::CursorPseudo => -239,
            VncEncoding::DesktopSizePseudo => -223,
            VncEncoding::LastRectPseudo => -224,
        }
    }

    /// The encoding that a wire number stands for; `None` for an unknown number.
    pub fn from_code(code: i32) -> (encoding: Option<VncEncoding>)
        ensures
            encoding == VncEncoding::spec_from_code(code as int),
    {
        match code {
            0 => Some(VncEncoding::Raw),
            1 => Some(VncEncoding::CopyRect),
            7 => Some(VncEncoding::Tight),
            15 => Some(VncEncoding::Trle),
            16 => Some(VncEncoding::Zrle),
            -239 => Some(VncEncoding::CursorPseudo),
            -223 => Some(VncEncoding::DesktopSizePseudo),
            -224 => Some(VncEncoding::LastRectPseudo),
            _ => None,
        }
    }
}

impl TryFrom<u32> for VncEncoding {
    type Error = VncError;

    fn try_from(num: u32) -> (res: Result<Self, VncError>)
    {
        match VncEncoding::from_code(crate::wire::to_signed(num)) {
            Some(encoding) => Ok(encoding),
            None => Err(VncError::Protocol),
        }
    }
}

impl vstd::std_specs::convert::TryFromSpecImpl<u32> for VncEncoding {
    open spec fn obeys_try_from_spec() -> bool {
        true
    }

    open spec fn try_from_spec(num: u32) -> Result<Self, VncError> {
        match VncEncoding::spec_from_code(crate::wire::as_signed(num as int)) {
            Some(encoding) => Ok(encoding),
            None => Err(VncError::Protocol),
        }
    }
}

impl From<VncEncoding> for u32 {
    fn from(e: VncEncoding) -> (bits: u32)
    {
        crate::wire::to_unsigned(e.code())
    }
}

impl vstd::std_specs::convert::FromSpecImpl<VncEncoding> for u32 {
    open spec fn obeys_from_spec() -> bool {
        true
    }

    open spec fn from_spec(e: VncEncoding) -> u32 {
        crate::wire::as_unsigned(e.spec_code()) as u32
    }
}

/// Every encoding is read back from its own wire number, and a number that
/// is read as an encoding is that encoding's number.
pub proof fn lemma_encoding_code_round_trip(encoding: VncEncoding, code: int)
    ensures
        VncEncoding::spec_from_code(encoding.spec_code()) == Some(encoding),
        VncEncoding::spec_from_code(code) matches Some(e) ==> e.spec_code() == code,
{
}

} // verus!
