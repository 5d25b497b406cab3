use vstd::prelude::*;
use crate::error::{plain_result, view_result, VncError, VncErrorView};
use crate::protocol::version::VncVersion;

verus! {

/// The security types that a server may offer, named by their wire byte.
#[allow(non_camel_case_types)]
#[derive(Debug, Clone, Copy, PartialEq, Eq, Structural)]
pub enum SecurityType {
    Invalid,
    /// No authentication: the wire's security type "None".
    NoAuth,
    VncAuth,
    RA2,
    RA2ne,
    Tight,
    Ultra,
    Tls,
    VeNCrypt,
    GtkVncSasl,
    Md5Hash,
    ColinDeanXvp,
    RA2_256,
}

impl SecurityType {
    /// The byte that stands for the security type on the wire.
    pub open spec fn spec_code(self) -> u8 {
        match self {
            SecurityType::Invalid => 0,
            SecurityType::NoAuth => 1,
            SecurityType::VncAuth => 2,
            SecurityType::RA2 => 5,
            SecurityType::RA2ne => 6,
            SecurityType::Tight => 16,
            SecurityType::Ultra => 17,
            SecurityType::Tls => 18,
            SecurityType::VeNCrypt => 19,
            SecurityType::GtkVncSasl => 20,
            SecurityType::Md5Hash => 21,
            SecurityType::ColinDeanXvp => 22,
            SecurityType::RA2_256 => 129,
        }
    }

    /// The security type that a byte stands for, if it is a known one.
    pub open spec fn spec_from_code(code: u8) -> Option<SecurityType> {
        if code == 0 {
            Some(SecurityType::Invalid)
        } else if code == 1 {
            Some(SecurityType::NoAuth)
        } else if code == 2 {
            Some(SecurityType::VncAuth)
        } else if code == 5 {
            Some(SecurityType::RA2)
        } else if code == 6 {
            Some(SecurityType::RA2ne)
        } else if code == 16 {
            Some(SecurityType::Tight)
        } else if code == 17 {
            Some(SecurityType::Ultra)
        } else if code == 18 {
            Some(SecurityType::Tls)
        } else if code == 19 {
            Some(SecurityType::VeNCrypt)
        } else if code == 20 {
            Some(SecurityType::GtkVncSasl)
        } else if code == 21 {
            Some(SecurityType::Md5Hash)
        } else if code == 22 {
            Some(SecurityType::ColinDeanXvp)
        } else if code == 129 {
            Some(SecurityType::RA2_256)
        } else {
            None
        }
    }

    /// The position of the first byte of `codes` that names no security
    /// type, or the length of `codes` if every byte names one.
    pub open spec fn first_unknown(codes: Seq<u8>) -> int
        decreases codes.len(),
    {
        if codes.len() == 0 {
            0
        } else if SecurityType::spec_from_code(codes[0]) is None {
            0
        } else {
            1 + SecurityType::first_unknown(codes.subrange(1, codes.len() as int))
        }
    }

    /// The list that a sequence of wire bytes offers: each byte's security
    /// type in order, or `InvalidSecurityType` with the first unknown byte.
    /// A server that offers nothing refuses the client, so that no bytes at
    /// all make no list: they fail with `UnsupportedSecurity`.
    pub open spec fn spec_list(codes: Seq<u8>) -> Result<Seq<SecurityType>, VncErrorView> {
        let stop = SecurityType::first_unknown(codes);
        if codes.len() == 0 {
            Err(VncErrorView::UnsupportedSecurity)
        } else if stop < codes.len() {
            Err(VncErrorView::InvalidSecurityType(codes[stop]))
        } else {
            Ok(Seq::new(codes.len(), |i: int| SecurityType::spec_from_code(codes[i])->0))
        }
    }

    /// What the single word that an RFB 3.3 server sends stands for. The
    /// server picks for the client, and it may pick no authentication (1)
    /// or the password authentication (2), or refuse (0, which reads as
    /// `Invalid`). A word that does not fit a byte is a protocol error, a
    /// byte that names no security type fails with `InvalidSecurityType`,
    /// and any other security type with `UnsupportedSecurity`.
    pub open spec fn spec_of_word(word: int) -> Result<SecurityType, VncErrorView> {
        if word < 0 || word > 255 {
            Err(VncErrorView::Protocol)
        } else {
            match SecurityType::spec_from_code(word as u8) {
                None => Err(VncErrorView::InvalidSecurityType(word as u8)),
                Some(t) => if t == SecurityType::Invalid || t == SecurityType::NoAuth || t
                    == SecurityType::VncAuth {
                    Ok(t)
                } else {
                    Err(VncErrorView::UnsupportedSecurity)
                },
            }
        }
    }

    /// What the server's offer of security types stands for. Under RFB 3.3
    /// the offer is one four-byte word, which names a single type. Under the
    /// later versions it is one byte for each offered type, and at least one.
    pub open spec fn spec_read(input: Seq<u8>, version: VncVersion) -> Result<
        Seq<SecurityType>,
        VncErrorView,
    > {
        if version == VncVersion::RFB33 {
            if input.len() != 4 {
                Err(VncErrorView::Io)
            } else {
                match SecurityType::spec_of_word(crate::wire::u32_at(input, 0)) {
                    Ok(t) => Ok(seq![t]),
                    Err(e) => Err(e),
                }
            }
        } else {
            SecurityType::spec_list(input)
        }
    }

    /// The byte that stands for the security type on the wire.
    pub fn code(self) -> (code: u8)
        ensures
            code == self.spec_code(),
    {
        match self {
            SecurityType::Invalid => 0,
            SecurityType::NoAuth => 1,
            SecurityType::VncAuth => 2,
            SecurityType::RA2 => 5,
            SecurityType::RA2ne => 6,
            SecurityType::Tight => 16,
            SecurityType::Ultra => 17,
            SecurityType::Tls => 18,
            SecurityType::VeNCrypt => 19,
            SecurityType::GtkVncSasl => 20,
            SecurityType::Md5Hash => 21,
            SecurityType::ColinDeanXvp => 22,
            SecurityType::RA2_256 => 129,
        }
    }

    /// The security type that the single word of an RFB 3.3 server names.
    pub fn of_word(word: u32) -> (res: Result<SecurityType, VncError>)
        ensures
            plain_result(res) == SecurityType::spec_of_word(word as int),
    {
        if word > 255 {
            return Err(VncError::Protocol);
        }
        match SecurityType::try_from(word as u8) {
            Err(e) => Err(e),
            Ok(SecurityType::Invalid) => Ok(SecurityType::Invalid),
            Ok(SecurityType::NoAuth) => Ok(SecurityType::NoAuth),
            Ok(SecurityType::VncAuth) => Ok(SecurityType::VncAuth),
            Ok(_) => Err(VncError::UnsupportedSecurity),
        }
    }

    /// Reads the security types that a server offers with the list form of
    /// RFB 3.7 and 3.8: `input` holds one byte for each offered type. The
    /// first byte that names no security type fails the whole list with
    /// `InvalidSecurityType`, and no bytes at all fail with
    /// `UnsupportedSecurity`. Under RFB 3.3 the server names a single type
    /// in a four-byte word, and `input` holds that word: 0, 1 or 2.
    pub fn read(input: &[u8], version: &VncVersion) -> (res: Result<Vec<Self>, VncError>)
        ensures
            view_result(res) == SecurityType::spec_read(input@, *version),
    {
        match version {
            VncVersion::RFB33 => {
                if input.len() != 4 {
                    return Err(VncError::Io);
                }
                let word = match crate::wire::read_u32(input, 0) {
                    Ok(w) => w,
                    Err(e) => {
                        return Err(VncError::Io);
                    },
                };
                match SecurityType::of_word(word) {
                    Ok(t) => {
                        let mut types: Vec<SecurityType> = Vec::new();
                        types.push(t);
                        assert(types@ =~= seq![t]);
                        Ok(types)
                    },
                    Err(e) => Err(e),
                }
            },
            _ => SecurityType::read_list(input),
        }
    }

    /// Reads one security type for each byte of `input`.
    fn read_list(input: &[u8]) -> (res: Result<Vec<Self>, VncError>)
        ensures
            view_result(res) == SecurityType::spec_list(input@),
    {
        if input.len() == 0 {
            return Err(VncError::UnsupportedSecurity);
        }
        let mut types: Vec<SecurityType> = Vec::new();
        let mut i: usize = 0;
        assert(input@.subrange(0, input@.len() as int) =~= input@);
        while i < input.len()
            invariant
                i <= input@.len(),
                types@.len() == i,
                forall|j: int|
                    0 <= j < i ==> SecurityType::spec_from_code(#[trigger] input@[j]) == Some(
                        types@[j],
                    ),
                SecurityType::first_unknown(input@) == i + SecurityType::first_unknown(
                    input@.subrange(i as int, input@.len() as int),
                ),
            decreases input@.len() - i,
        {
            let ghost rest = input@.subrange(i as int, input@.len() as int);
            assert(rest[0] == input@[i as int]);
            assert(rest.subrange(1, rest.len() as int) =~= input@.subrange(
                i + 1,
                input@.len() as int,
            ));
            match SecurityType::try_from(input[i]) {
                Ok(t) => {
                    types.push(t);
                },
                Err(e) => {
                    return Err(e);
                },
            }
            i += 1;
        }
        assert(input@.subrange(i as int, input@.len() as int).len() == 0);
        assert(types@ =~= SecurityType::spec_list(input@)->Ok_0);
        Ok(types)
    }

    /// Appends the byte of this security type to `out`.
    pub fn write(&self, out: &mut Vec<u8>)
        ensures
            final(out)@ == old(out)@.push(self.spec_code()),
    {
        out.push(self.code());
    }
}

impl TryFrom<u8> for SecurityType {
    type Error = VncError;

    fn try_from(num: u8) -> (res: Result<Self, VncError>)
    {
        match num {
            0 => Ok(SecurityType::Invalid),
            1 => Ok(SecurityType::NoAuth),
            2 => Ok(SecurityType::VncAuth),
            5 => Ok(SecurityType::RA2),
            6 => Ok(SecurityType::RA2ne),
            16 => Ok(SecurityType::Tight),
            17 => Ok(SecurityType::Ultra),
            18 => Ok(SecurityType::Tls),
            19 => Ok(SecurityType::VeNCrypt),
            20 => Ok(SecurityType::GtkVncSasl),
            21 => Ok(SecurityType::Md5Hash),
            22 => Ok(SecurityType::ColinDeanXvp),
            129 => Ok(SecurityType::RA2_256),
            invalid => Err(VncError::InvalidSecurityType(invalid)),
        }
    }
}

impl vstd::std_specs::convert::TryFromSpecImpl<u8> for SecurityType {
    open spec fn obeys_try_from_spec() -> bool {
        true
    }

    open spec fn try_from_spec(num: u8) -> Result<Self, VncError> {
        match SecurityType::spec_from_code(num) {
            Some(t) => Ok(t),
            None => Err(VncError::InvalidSecurityType(num)),
        }
    }
}

impl From<SecurityType> for u8 {
    fn from(e: SecurityType) -> (code: u8)
    {
        e.code()
    }
}

impl vstd::std_specs::convert::FromSpecImpl<SecurityType> for u8 {
    open spec fn obeys_from_spec() -> bool {
        true
    }

    open spec fn from_spec(e: SecurityType) -> u8 {
        e.spec_code()
    }
}

/// The outcome that a server reports in its SecurityResult word.
#[derive(Debug, Clone, Copy, PartialEq, Eq, Structural)]
pub enum AuthResult {
    /// The server accepted the client: the wire's result "OK".
    Success,
    Failed,
}

impl AuthResult {
    /// What a SecurityResult word stands for: 0 is success, 1 is failure,
    /// and no other word is allowed.
    pub open spec fn spec_of_word(word: int) -> Result<AuthResult, VncErrorView> {
        if word == 0 {
            Ok(AuthResult::Success)
        } else if word == 1 {
            Ok(AuthResult::Failed)
        } else {
            Err(VncErrorView::Protocol)
        }
    }

    /// Reads a SecurityResult word.
    pub fn of_word(word: u32) -> (res: Result<AuthResult, VncError>)
        ensures
            plain_result(res) == AuthResult::spec_of_word(word as int),
    {
        AuthResult::try_from(word)
    }

    /// The word that stands for the outcome on the wire.
    pub open spec fn spec_word(self) -> u32 {
        match self {
            AuthResult::Success => 0,
            AuthResult::Failed => 1,
        }
    }
}

impl TryFrom<u32> for AuthResult {
    type Error = VncError;

    fn try_from(num: u32) -> (res: Result<Self, VncError>)
    {
        match num {
            0 => Ok(AuthResult::Success),
            1 => Ok(AuthResult::Failed),
            _ => Err(VncError::Protocol),
        }
    }
}

impl vstd::std_specs::convert::TryFromSpecImpl<u32> for AuthResult {
    open spec fn obeys_try_from_spec() -> bool {
        true
    }

    open spec fn try_from_spec(num: u32) -> Result<Self, VncError> {
        if num == 0 {
            Ok(AuthResult::Success)
        } else if num == 1 {
            Ok(AuthResult::Failed)
        } else {
            Err(VncError::Protocol)
        }
    }
}

impl From<AuthResult> for u32 {
    fn from(e: AuthResult) -> (word: u32)
    {
        match e {
            AuthResult::Success => 0,
            AuthResult::Failed => 1,
        }
    }
}

impl vstd::std_specs::convert::FromSpecImpl<AuthResult> for u32 {
    open spec fn obeys_from_spec() -> bool {
        true
    }

    open spec fn from_spec(e: AuthResult) -> u32 {
        e.spec_word()
    }
}

/// Under RFB 3.3 the server's word is taken only if it is 0, 1 or 2: the
/// refusal, no authentication, or the password authentication.
pub proof fn lemma_word_is_zero_one_or_two(word: int)
    ensures
        SecurityType::spec_of_word(0) == Ok::<SecurityType, VncErrorView>(SecurityType::Invalid),
        SecurityType::spec_of_word(1) == Ok::<SecurityType, VncErrorView>(SecurityType::NoAuth),
        SecurityType::spec_of_word(2) == Ok::<SecurityType, VncErrorView>(SecurityType::VncAuth),
        SecurityType::spec_of_word(word) is Ok ==> 0 <= word <= 2,
        word > 255 ==> SecurityType::spec_of_word(word) == Err::<SecurityType, VncErrorView>(
            VncErrorView::Protocol,
        ),
{
}

/// Every security type is read back from its own wire byte, and a byte that
/// is read as a security type is that type's byte.
pub proof fn lemma_security_code_round_trip(t: SecurityType, code: u8)
    ensures
        SecurityType::spec_from_code(t.spec_code()) == Some(t),
        SecurityType::spec_from_code(code) matches Some(s) ==> s.spec_code() == code,
{
}

} // verus!
