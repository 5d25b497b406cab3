use vstd::prelude::*;
use crate::error::VncError;

verus! {

/// The protocol versions that the client can speak, oldest first.
#[derive(Debug, Clone, Copy, PartialEq, Eq, Structural, PartialOrd, Ord)]
pub enum VncVersion {
    RFB33,
    RFB37,
    RFB38,
}

/// The twelve bytes `RFB 003.00d\n`, where `d` is the given ASCII digit.
pub open spec fn banner_with_minor(digit: u8) -> Seq<u8> {
    seq![0x52u8, 0x46, 0x42, 0x20, 0x30, 0x30, 0x33, 0x2e, 0x30, 0x30, digit, 0x0a]
}

impl VncVersion {
    /// The position of the version in the order RFB33 < RFB37 < RFB38.
    pub open spec fn rank(self) -> int {
        match self {
            VncVersion::RFB33 => 0,
            VncVersion::RFB37 => 1,
            VncVersion::RFB38 => 2,
        }
    }

    /// The twelve bytes that announce this version.
    pub open spec fn spec_banner(self) -> Seq<u8> {
        match self {
            VncVersion::RFB33 => banner_with_minor(0x33),
            VncVersion::RFB37 => banner_with_minor(0x37),
            VncVersion::RFB38 => banner_with_minor(0x38),
        }
    }

    /// Whether the bytes are one of the three known banners.
    pub open spec fn is_known_banner(banner: Seq<u8>) -> bool {
        ||| banner == VncVersion::RFB33.spec_banner()
        ||| banner == VncVersion::RFB37.spec_banner()
        ||| banner == VncVersion::RFB38.spec_banner()
    }

    /// The version that a banner stands for: the one it spells, and RFB33
    /// for every other sequence of bytes.
    pub open spec fn of_banner(banner: Seq<u8>) -> VncVersion {
        if banner == VncVersion::RFB38.spec_banner() {
            VncVersion::RFB38
        } else if banner == VncVersion::RFB37.spec_banner() {
            VncVersion::RFB37
        } else {
            VncVersion::RFB33
        }
    }

    /// The older of two versions.
    pub open spec fn spec_min(self, other: VncVersion) -> VncVersion {
        if self.rank() < other.rank() {
            self
        } else {
            other
        }
    }

    /// The banner of this version, as sent on the wire.
    pub fn banner(self) -> (bytes: [u8; 12])
        ensures
            bytes@ == self.spec_banner(),
    {
        let digit: u8 = match self {
            VncVersion::RFB33 => 0x33,
            VncVersion::RFB37 => 0x37,
            VncVersion::RFB38 => 0x38,
        };
        let bytes: [u8; 12] =
            [0x52, 0x46, 0x42, 0x20, 0x30, 0x30, 0x33, 0x2e, 0x30, 0x30, digit, 0x0a];
        assert(bytes@ =~= self.spec_banner());
        bytes
    }

    /// Whether `banner` is exactly one of the three known banners.
    fn matches_banner(banner: &[u8], digit: u8) -> (same: bool)
        ensures
            same == (banner@ == banner_with_minor(digit)),
    {
        if banner.len() != 12 {
            return false;
        }
        let same = banner[0] == 0x52 && banner[1] == 0x46 && banner[2] == 0x42 && banner[3] == 0x20
            && banner[4] == 0x30 && banner[5] == 0x30 && banner[6] == 0x33 && banner[7] == 0x2e
            && banner[8] == 0x30 && banner[9] == 0x30 && banner[10] == digit && banner[11] == 0x0a;
        if same {
            assert(banner@ =~= banner_with_minor(digit));
        }
        same
    }

    /// Reads the server's banner. Any twelve bytes are accepted: an unknown
    /// banner stands for RFB33. Fewer or more than twelve bytes fail with `Io`.
    pub fn read(input: &[u8]) -> (res: Result<VncVersion, VncError>)
        ensures
            input@.len() == 12 ==> res == Ok::<VncVersion, VncError>(
                VncVersion::of_banner(input@),
            ),
            input@.len() != 12 ==> res == Err::<VncVersion, VncError>(VncError::Io),
    {
        if input.len() != 12 {
            return Err(VncError::Io);
        }
        if VncVersion::matches_banner(input, 0x38) {
            Ok(VncVersion::RFB38)
        } else if VncVersion::matches_banner(input, 0x37) {
            Ok(VncVersion::RFB37)
        } else {
            Ok(VncVersion::RFB33)
        }
    }

    /// Reads the server's banner and refuses an unknown one with
    /// `UnsupportedVersion`. Fewer or more than twelve bytes fail with `Io`.
    pub fn read_strict(input: &[u8]) -> (res: Result<VncVersion, VncError>)
        ensures
            input@.len() != 12 ==> res == Err::<VncVersion, VncError>(VncError::Io),
            input@.len() == 12 && VncVersion::is_known_banner(input@) ==> res == Ok::<
                VncVersion,
                VncError,
            >(VncVersion::of_banner(input@)),
            input@.len() == 12 && !VncVersion::is_known_banner(input@) ==> res == Err::<
                VncVersion,
                VncError,
            >(VncError::UnsupportedVersion),
    {
        if input.len() != 12 {
            return Err(VncError::Io);
        }
        if VncVersion::matches_banner(input, 0x38) {
            Ok(VncVersion::RFB38)
        } else if VncVersion::matches_banner(input, 0x37) {
            Ok(VncVersion::RFB37)
        } else if VncVersion::matches_banner(input, 0x33) {
            Ok(VncVersion::RFB33)
        } else {
            Err(VncError::UnsupportedVersion)
        }
    }

    /// Appends the banner of this version to `out`.
    pub fn write(self, out: &mut Vec<u8>)
        ensures
            final(out)@ == old(out)@ + self.spec_banner(),
    {
        let bytes = self.banner();
        crate::wire::write_bytes(out, bytes.as_slice());
    }

    /// The version that both sides can speak: the older of the client's
    /// newest and the one that the server announced.
    pub fn negotiate(self, server: VncVersion) -> (agreed: VncVersion)
        ensures
            agreed == self.spec_min(server),
    {
        let ours: u8 = self.index();
        let theirs: u8 = server.index();
        if ours < theirs {
            self
        } else {
            server
        }
    }

    /// The position of the version in the order RFB33 < RFB37 < RFB38.
    pub fn index(self) -> (i: u8)
        ensures
            i as int == self.rank(),
    {
        match self {
            VncVersion::RFB33 => 0,
            VncVersion::RFB37 => 1,
            VncVersion::RFB38 => 2,
        }
    }
}

impl From<[u8; 12]> for VncVersion {
    fn from(version: [u8; 12]) -> (v: Self)
    {
        if VncVersion::matches_banner(version.as_slice(), 0x38) {
            VncVersion::RFB38
        } else if VncVersion::matches_banner(version.as_slice(), 0x37) {
            VncVersion::RFB37
        } else {
            VncVersion::RFB33
        }
    }
}

impl vstd::std_specs::convert::FromSpecImpl<[u8; 12]> for VncVersion {
    open spec fn obeys_from_spec() -> bool {
        true
    }

    open spec fn from_spec(version: [u8; 12]) -> Self {
        VncVersion::of_banner(version@)
    }
}

/// Every version is read back from its own banner.
pub proof fn lemma_banner_round_trip(version: VncVersion)
    ensures
        version.spec_banner().len() == 12,
        VncVersion::is_known_banner(version.spec_banner()),
        VncVersion::of_banner(version.spec_banner()) == version,
{
    assert(VncVersion::RFB33.spec_banner()[10] == 0x33);
    assert(VncVersion::RFB37.spec_banner()[10] == 0x37);
    assert(VncVersion::RFB38.spec_banner()[10] == 0x38);
}

/// The agreed version is never newer than either side's.
pub proof fn lemma_negotiated_is_minimum(client: VncVersion, server: VncVersion)
    ensures
        client.spec_min(server).rank() <= client.rank(),
        client.spec_min(server).rank() <= server.rank(),
        client.spec_min(server) == client || client.spec_min(server) == server,
{
}

} // verus!
