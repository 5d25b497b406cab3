//! The VeNCrypt security type: a sub-handshake that agrees on a subtype,
//! may move the connection into a TLS session, and may send a user name and
//! a password in the clear inside it.

use vstd::prelude::*;
use vstd::utf8::encode_utf8;
use crate::client::auth::view_text;
use crate::client::driver::{Demand, DemandView};
use crate::error::{plain_result, view_result, VncError, VncErrorView};
use crate::wire::{u32_at, u32_bytes};

verus! {

/// The subtypes of VeNCrypt, named by their wire numbers 256 to 264.
#[derive(Debug, Clone, Copy, PartialEq, Eq, Structural)]
pub enum VeNCryptSubtype {
    Plain,
    TlsNone,
    TlsVnc,
    TlsPlain,
    X509None,
    X509Vnc,
    X509Plain,
    TlsSasl,
    X509Sasl,
}

impl VeNCryptSubtype {
    /// The number that stands for the subtype on the wire.
    pub open spec fn spec_code(self) -> int {
        match self {
            VeNCryptSubtype::Plain => 256,
            VeNCryptSubtype::TlsNone => 257,
            VeNCryptSubtype::TlsVnc => 258,
            VeNCryptSubtype::TlsPlain => 259,
            VeNCryptSubtype::X509None => 260,
            VeNCryptSubtype::X509Vnc => 261,
            VeNCryptSubtype::X509Plain => 262,
            VeNCryptSubtype::TlsSasl => 263,
            VeNCryptSubtype::X509Sasl => 264,
        }
    }

    /// The subtype that a wire number stands for, if it is a known one.
    pub open spec fn spec_from_code(code: int) -> Option<VeNCryptSubtype> {
        if code == 256 {
            Some(VeNCryptSubtype::Plain)
        } else if code == 257 {
            Some(VeNCryptSubtype::TlsNone)
        } else if code == 258 {
            Some(VeNCryptSubtype::TlsVnc)
        } else if code == 259 {
            Some(VeNCryptSubtype::TlsPlain)
        } else if code == 260 {
            Some(VeNCryptSubtype::X509None)
        } else if code == 261 {
            Some(VeNCryptSubtype::X509Vnc)
        } else if code == 262 {
            Some(VeNCryptSubtype::X509Plain)
        } else if code == 263 {
            Some(VeNCryptSubtype::TlsSasl)
        } else if code == 264 {
            Some(VeNCryptSubtype::X509Sasl)
        } else {
            None
        }
    }

    /// Whether the subtype moves the connection into a TLS session: all but `Plain`.
    pub open spec fn spec_requires_tls(self) -> bool {
        257 <= self.spec_code() <= 264
    }

    /// Whether the subtype sends a user name and a password in the clear.
    pub open spec fn spec_requires_plain_auth(self) -> bool {
        self.spec_code() == 256 || self.spec_code() == 259 || self.spec_code() == 262
    }

    /// The number that stands for the subtype on the wire.
    pub fn code(self) -> (code: u32)
        ensures
            code == self.spec_code(),
    {
        match self {
            VeNCryptSubtype::Plain => 256,
            VeNCryptSubtype::TlsNone => 257,
            VeNCryptSubtype::TlsVnc => 258,
            VeNCryptSubtype::TlsPlain => 259,
            VeNCryptSubtype::X509None => 260,
            VeNCryptSubtype::X509Vnc => 261,
            VeNCryptSubtype::X509Plain => 262,
            VeNCryptSubtype::TlsSasl => 263,
            VeNCryptSubtype::X509Sasl => 264,
        }
    }

    /// Whether the subtype moves the connection into a TLS session.
    pub fn requires_tls(&self) -> (tls: bool)
        ensures
            tls == self.spec_requires_tls(),
    {
        match self {
            VeNCryptSubtype::Plain => false,
            _ => true,
        }
    }

    /// Whether the subtype sends a user name and a password in the clear.
    pub fn requires_plain_auth(&self) -> (plain: bool)
        ensures
            plain == self.spec_requires_plain_auth(),
    {
        match self {
            VeNCryptSubtype::Plain | VeNCryptSubtype::TlsPlain | VeNCryptSubtype::X509Plain => true,
            _ => false,
        }
    }
}

impl TryFrom<u32> for VeNCryptSubtype {
    type Error = VncError;

    fn try_from(value: u32) -> (res: Result<Self, VncError>)
    {
        match value {
            256 => Ok(VeNCryptSubtype::Plain),
            257 => Ok(VeNCryptSubtype::TlsNone),
            258 => Ok(VeNCryptSubtype::TlsVnc),
            259 => Ok(VeNCryptSubtype::TlsPlain),
            260 => Ok(VeNCryptSubtype::X509None),
            261 => Ok(VeNCryptSubtype::X509Vnc),
            262 => Ok(VeNCryptSubtype::X509Plain),
            263 => Ok(VeNCryptSubtype::TlsSasl),
            264 => Ok(VeNCryptSubtype::X509Sasl),
            _ => Err(VncError::UnsupportedVencrypt),
        }
    }
}

impl vstd::std_specs::convert::TryFromSpecImpl<u32> for VeNCryptSubtype {
    open spec fn obeys_try_from_spec() -> bool {
        true
    }

    open spec fn try_from_spec(value: u32) -> Result<Self, VncError> {
        match VeNCryptSubtype::spec_from_code(value as int) {
            Some(subtype) => Ok(subtype),
            None => Err(VncError::UnsupportedVencrypt),
        }
    }
}

impl From<VeNCryptSubtype> for u32 {
    fn from(subtype: VeNCryptSubtype) -> (code: u32)
    {
        subtype.code()
    }
}

impl vstd::std_specs::convert::FromSpecImpl<VeNCryptSubtype> for u32 {
    open spec fn obeys_from_spec() -> bool {
        true
    }

    open spec fn from_spec(subtype: VeNCryptSubtype) -> u32 {
        subtype.spec_code() as u32
    }
}

/// Every subtype is read back from its own wire number, and a number that
/// is read as a subtype is that subtype's number.
pub proof fn lemma_subtype_code_round_trip(subtype: VeNCryptSubtype, code: int)
    ensures
        VeNCryptSubtype::spec_from_code(subtype.spec_code()) == Some(subtype),
        VeNCryptSubtype::spec_from_code(code) matches Some(s) ==> s.spec_code() == code,
{
}

/// Whether a list of four-byte subtype numbers names the given subtype.
pub open spec fn offers(list: Seq<u8>, subtype: VeNCryptSubtype) -> bool {
    exists|i: int| 0 <= i < list.len() / 4 && #[trigger] u32_at(list, 4 * i) == subtype.spec_code()
}

/// The subtype that the client picks from a server's list: the first that
/// the list names of `X509Plain`, `TlsPlain`, `Plain`, `X509None`,
/// `TlsNone`. Numbers that name no subtype, or one of the others, count for
/// nothing.
pub open spec fn select_subtype(list: Seq<u8>) -> Option<VeNCryptSubtype> {
    if offers(list, VeNCryptSubtype::X509Plain) {
        Some(VeNCryptSubtype::X509Plain)
    } else if offers(list, VeNCryptSubtype::TlsPlain) {
        Some(VeNCryptSubtype::TlsPlain)
    } else if offers(list, VeNCryptSubtype::Plain) {
        Some(VeNCryptSubtype::Plain)
    } else if offers(list, VeNCryptSubtype::X509None) {
        Some(VeNCryptSubtype::X509None)
    } else if offers(list, VeNCryptSubtype::TlsNone) {
        Some(VeNCryptSubtype::TlsNone)
    } else {
        None
    }
}

/// The client's answer to the server's version: `0.2`, if the server
/// announces major version 0 and a minor version of at least 2.
pub open spec fn spec_negotiate_version(input: Seq<u8>) -> Result<Seq<u8>, VncErrorView> {
    if input.len() != 2 {
        Err(VncErrorView::Io)
    } else if input[0] != 0 || input[1] < 2 {
        Err(VncErrorView::UnsupportedVencrypt)
    } else {
        Ok(seq![0u8, 2u8])
    }
}

/// The client's pick from the server's list of subtypes.
pub open spec fn spec_negotiate_subtype(input: Seq<u8>) -> Result<VeNCryptSubtype, VncErrorView> {
    if input.len() % 4 != 0 {
        Err(VncErrorView::Io)
    } else {
        match select_subtype(input) {
            Some(subtype) => Ok(subtype),
            None => Err(VncErrorView::UnsupportedVencrypt),
        }
    }
}

/// The bytes that carry a user name and a password: both lengths as
/// four-byte numbers, then the user name, then the password.
pub open spec fn spec_plain(username: Seq<u8>, password: Seq<u8>) -> Result<Seq<u8>, VncErrorView> {
    if username.len() > u32::MAX || password.len() > u32::MAX {
        Err(VncErrorView::Protocol)
    } else {
        Ok(
            u32_bytes(username.len() as int) + u32_bytes(password.len() as int) + username
                + password,
        )
    }
}

/// Whether the TLS library takes the text as the name of a server: as a DNS
/// name or as an IP address.
pub uninterp spec fn server_name_accepted(name: Seq<char>) -> bool;

/// Asks the TLS library whether it takes `name` as the name of a server.
/// This is `rustls::ServerName::try_from` on a string: it accepts what it
/// can read as a DNS name or, failing that, as an IP address, and looks at
/// nothing but the text.
#[verifier::external_body]
pub(crate) fn check_server_name(name: &str) -> (accepted: bool)
    ensures
        accepted == server_name_accepted(name@),
{
    rustls::ServerName::try_from(name).is_ok()
}

/// Where a VeNCrypt sub-handshake stands.
#[derive(Debug, Clone, Copy, PartialEq, Eq, Structural)]
pub enum VeNCryptStage {
    /// Waiting for the server's version, two bytes.
    Version,
    /// Waiting for the server's verdict on the client's version, one byte.
    VersionAck,
    /// Waiting for the number of subtypes that the server offers, one byte.
    SubtypeCount,
    /// Waiting for that many subtypes, four bytes each.
    SubtypeList { count: u8 },
    /// Waiting for the server's verdict on the client's pick, one byte.
    SubtypeAck { subtype: VeNCryptSubtype },
    /// Waiting for the driver to move the connection into a TLS session.
    Upgrade { subtype: VeNCryptSubtype },
    /// The sub-handshake is over; the server's SecurityResult comes next.
    Done,
}

/// A VeNCrypt sub-handshake in progress.
#[derive(Debug, Clone)]
pub struct VeNCryptAuth {
    pub stage: VeNCryptStage,
    pub server_name: String,
    pub username: Option<String>,
    pub password: Option<String>,
}

/// The mathematical value of a [`VeNCryptAuth`].
pub struct VeNCryptAuthView {
    pub stage: VeNCryptStage,
    pub server_name: Seq<char>,
    pub username: Option<Seq<char>>,
    pub password: Option<Seq<char>>,
}

impl View for VeNCryptAuth {
    type V = VeNCryptAuthView;

    open spec fn view(&self) -> VeNCryptAuthView {
        VeNCryptAuthView {
            stage: self.stage,
            server_name: self.server_name@,
            username: view_text(self.username),
            password: view_text(self.password),
        }
    }
}

impl VeNCryptAuthView {
    /// The same sub-handshake at another stage.
    pub open spec fn at(self, stage: VeNCryptStage) -> VeNCryptAuthView {
        VeNCryptAuthView { stage, ..self }
    }

    /// What the driver has to do next.
    pub open spec fn demand(self) -> DemandView {
        match self.stage {
            VeNCryptStage::Version => DemandView::Read(2),
            VeNCryptStage::VersionAck => DemandView::Read(1),
            VeNCryptStage::SubtypeCount => DemandView::Read(1),
            VeNCryptStage::SubtypeList { count } => DemandView::Read(4 * count),
            VeNCryptStage::SubtypeAck { .. } => DemandView::Read(1),
            VeNCryptStage::Upgrade { .. } => DemandView::StartTls(self.server_name),
            VeNCryptStage::Done => DemandView::Finished,
        }
    }

    /// The bytes of the user name; an absent user name is an empty one.
    pub open spec fn username_bytes(self) -> Seq<u8> {
        match self.username {
            Some(name) => encode_utf8(name),
            None => Seq::empty(),
        }
    }

    /// The last step, once the channel is settled: a subtype with plain
    /// authentication sends the user name and the password, any other
    /// sends nothing.
    pub open spec fn conclude(self, subtype: VeNCryptSubtype) -> Result<
        (VeNCryptAuthView, Seq<u8>),
        VncErrorView,
    > {
        if subtype.spec_requires_plain_auth() {
            match self.password {
                None => Err(VncErrorView::MissingPassword),
                Some(password) => match spec_plain(self.username_bytes(), encode_utf8(password)) {
                    Ok(bytes) => Ok((self.at(VeNCryptStage::Done), bytes)),
                    Err(e) => Err(e),
                },
            }
        } else {
            Ok((self.at(VeNCryptStage::Done), Seq::empty()))
        }
    }

    /// One step of the sub-handshake: from the bytes that the demand asked
    /// for to the next state and the bytes to send. `name_ok` says whether
    /// the TLS library takes the server name.
    pub open spec fn advance(self, input: Seq<u8>, name_ok: bool) -> Result<
        (VeNCryptAuthView, Seq<u8>),
        VncErrorView,
    > {
        if input.len() != self.demand().input_len() {
            Err(VncErrorView::Io)
        } else {
            match self.stage {
                VeNCryptStage::Version => match spec_negotiate_version(input) {
                    Ok(answer) => Ok((self.at(VeNCryptStage::VersionAck), answer)),
                    Err(e) => Err(e),
                },
                VeNCryptStage::VersionAck => if input[0] == 0 {
                    Ok((self.at(VeNCryptStage::SubtypeCount), Seq::empty()))
                } else {
                    Err(VncErrorView::UnsupportedVencrypt)
                },
                VeNCryptStage::SubtypeCount => if input[0] == 0 {
                    Err(VncErrorView::UnsupportedVencrypt)
                } else {
                    Ok((self.at(VeNCryptStage::SubtypeList { count: input[0] }), Seq::empty()))
                },
                VeNCryptStage::SubtypeList { count } => match spec_negotiate_subtype(input) {
                    Err(e) => Err(e),
                    Ok(subtype) => if subtype.spec_requires_plain_auth() && self.password is None {
                        Err(VncErrorView::MissingPassword)
                    } else {
                        Ok(
                            (
                                self.at(VeNCryptStage::SubtypeAck { subtype }),
                                u32_bytes(subtype.spec_code()),
                            ),
                        )
                    },
                },
                VeNCryptStage::SubtypeAck { subtype } => if input[0] != 1 {
                    Err(VncErrorView::UnsupportedVencrypt)
                } else if subtype.spec_requires_tls() {
                    if name_ok {
                        Ok((self.at(VeNCryptStage::Upgrade { subtype }), Seq::empty()))
                    } else {
                        Err(VncErrorView::UnsupportedVencrypt)
                    }
                } else {
                    self.conclude(subtype)
                },
                VeNCryptStage::Upgrade { subtype } => self.conclude(subtype),
                VeNCryptStage::Done => Ok((self, Seq::empty())),
            }
        }
    }
}

/// The run of a sub-handshake in which the server offers the one subtype
/// `TlsPlain`. In the clear the client sends its version and its pick, and
/// nothing else: the user name and the password leave only in the step
/// after the one that asks for the TLS session, and that step ends the
/// sub-handshake. A server name that TLS does not take ends the run
/// before any credential is sent.
pub proof fn lemma_tls_plain_run(
    auth: VeNCryptAuthView,
    minor: u8,
    password: Seq<char>,
    name_ok: bool,
)
    requires
        auth.stage == VeNCryptStage::Version,
        auth.password == Some(password),
        minor >= 2,
        auth.username_bytes().len() <= u32::MAX,
        encode_utf8(password).len() <= u32::MAX,
    ensures
        ({
            let tls_plain = VeNCryptSubtype::TlsPlain;
            let ack = auth.at(VeNCryptStage::VersionAck);
            let count = auth.at(VeNCryptStage::SubtypeCount);
            let list = auth.at(VeNCryptStage::SubtypeList { count: 1 });
            let picked = auth.at(VeNCryptStage::SubtypeAck { subtype: tls_plain });
            let upgrade = auth.at(VeNCryptStage::Upgrade { subtype: tls_plain });
            let done = auth.at(VeNCryptStage::Done);
            &&& auth.advance(seq![0u8, minor], name_ok) == Ok::<
                (VeNCryptAuthView, Seq<u8>),
                VncErrorView,
            >((ack, seq![0u8, 2u8]))
            &&& ack.advance(seq![0u8], name_ok) == Ok::<(VeNCryptAuthView, Seq<u8>), VncErrorView>(
                (count, Seq::empty()),
            )
            &&& count.advance(seq![1u8], name_ok) == Ok::<
                (VeNCryptAuthView, Seq<u8>),
                VncErrorView,
            >((list, Seq::empty()))
            &&& list.advance(seq![0u8, 0u8, 1u8, 3u8], name_ok) == Ok::<
                (VeNCryptAuthView, Seq<u8>),
                VncErrorView,
            >((picked, seq![0u8, 0u8, 1u8, 3u8]))
            &&& name_ok ==> picked.advance(seq![1u8], name_ok) == Ok::<
                (VeNCryptAuthView, Seq<u8>),
                VncErrorView,
            >((upgrade, Seq::empty()))
            &&& !name_ok ==> picked.advance(seq![1u8], name_ok) == Err::<
                (VeNCryptAuthView, Seq<u8>),
                VncErrorView,
            >(VncErrorView::UnsupportedVencrypt)
            &&& upgrade.advance(Seq::empty(), name_ok) == Ok::<
                (VeNCryptAuthView, Seq<u8>),
                VncErrorView,
            >(
                (
                    done,
                    u32_bytes(auth.username_bytes().len() as int) + u32_bytes(
                        encode_utf8(password).len() as int,
                    ) + auth.username_bytes() + encode_utf8(password),
                ),
            )
            &&& upgrade.demand() == DemandView::StartTls(auth.server_name)
            &&& done.demand() == DemandView::Finished
        }),
{
    let offer = seq![0u8, 0u8, 1u8, 3u8];
    assert(u32_at(offer, 4 * 0int) == 259);
    assert(offers(offer, VeNCryptSubtype::TlsPlain));
    assert(!offers(offer, VeNCryptSubtype::X509Plain)) by {
        assert forall|i: int| 0 <= i < offer.len() / 4 implies #[trigger] u32_at(offer, 4 * i)
            != VeNCryptSubtype::X509Plain.spec_code() by {
            assert(i == 0);
        }
    }
    assert(select_subtype(offer) == Some(VeNCryptSubtype::TlsPlain));
    assert(u32_bytes(259) =~= offer);
}

/// The mathematical value of the outcome of a step.
pub open spec fn view_step(res: Result<(VeNCryptAuth, Vec<u8>), VncError>) -> Result<
    (VeNCryptAuthView, Seq<u8>),
    VncErrorView,
> {
    match res {
        Ok((next, output)) => Ok((next@, output@)),
        Err(e) => Err(e@),
    }
}

impl VeNCryptAuth {
    /// A sub-handshake at its start, for the server of the given name.
    pub fn new(server_name: String, username: Option<String>, password: Option<String>) -> (auth:
        Self)
        ensures
            auth.stage == VeNCryptStage::Version,
            auth.server_name == server_name,
            auth.username == username,
            auth.password == password,
    {
        VeNCryptAuth { stage: VeNCryptStage::Version, server_name, username, password }
    }

    /// What the driver has to do next.
    pub fn demand(&self) -> (demand: Demand)
        ensures
            demand@ == self@.demand(),
    {
        match self.stage {
            VeNCryptStage::Version => Demand::Read(2),
            VeNCryptStage::VersionAck => Demand::Read(1),
            VeNCryptStage::SubtypeCount => Demand::Read(1),
            VeNCryptStage::SubtypeList { count } => Demand::Read(4 * (count as usize)),
            VeNCryptStage::SubtypeAck { .. } => Demand::Read(1),
            VeNCryptStage::Upgrade { .. } => Demand::StartTls(self.server_name.clone()),
            VeNCryptStage::Done => Demand::Finished,
        }
    }

    /// How many bytes of input the next step takes.
    pub fn input_len(&self) -> (len: usize)
        ensures
            len == self@.demand().input_len(),
    {
        match self.stage {
            VeNCryptStage::Version => 2,
            VeNCryptStage::VersionAck => 1,
            VeNCryptStage::SubtypeCount => 1,
            VeNCryptStage::SubtypeList { count } => 4 * (count as usize),
            VeNCryptStage::SubtypeAck { .. } => 1,
            VeNCryptStage::Upgrade { .. } => 0,
            VeNCryptStage::Done => 0,
        }
    }

    /// Whether the sub-handshake is over.
    pub fn is_done(&self) -> (done: bool)
        ensures
            done == (self.stage == VeNCryptStage::Done),
    {
        match self.stage {
            VeNCryptStage::Done => true,
            _ => false,
        }
    }

    /// Answers the server's version, which `input` holds as two bytes,
    /// major then minor.
    pub fn negotiate_version(input: &[u8]) -> (res: Result<Vec<u8>, VncError>)
        ensures
            view_result(res) == spec_negotiate_version(input@),
    {
        if input.len() != 2 {
            return Err(VncError::Io);
        }
        if input[0] != 0 || input[1] < 2 {
            return Err(VncError::UnsupportedVencrypt);
        }
        let mut answer: Vec<u8> = Vec::new();
        answer.push(0);
        answer.push(2);
        assert(answer@ =~= seq![0u8, 2u8]);
        Ok(answer)
    }

    /// Whether the list of four-byte numbers names the subtype.
    fn offered(list: &[u8], subtype: VeNCryptSubtype) -> (found: bool)
        ensures
            found == offers(list@, subtype),
    {
        let wanted = subtype.code();
        let len = list.len();
        let count = len / 4;
        let mut i: usize = 0;
        while i < count
            invariant
                i <= count,
                len == list@.len(),
                count == list@.len() / 4,
                wanted == subtype.spec_code(),
                forall|j: int| 0 <= j < i ==> #[trigger] u32_at(list@, 4 * j) != wanted,
            decreases count - i,
        {
            match crate::wire::read_u32(list, 4 * i) {
                Ok(code) => {
                    if code == wanted {
                        return true;
                    }
                },
                Err(e) => {},
            }
            i += 1;
        }
        false
    }

    /// Picks a subtype from the server's list, which `input` holds as
    /// four-byte numbers.
    pub fn negotiate_subtype(input: &[u8]) -> (res: Result<VeNCryptSubtype, VncError>)
        ensures
            plain_result(res) == spec_negotiate_subtype(input@),
    {
        if input.len() % 4 != 0 {
            return Err(VncError::Io);
        }
        if VeNCryptAuth::offered(input, VeNCryptSubtype::X509Plain) {
            Ok(VeNCryptSubtype::X509Plain)
        } else if VeNCryptAuth::offered(input, VeNCryptSubtype::TlsPlain) {
            Ok(VeNCryptSubtype::TlsPlain)
        } else if VeNCryptAuth::offered(input, VeNCryptSubtype::Plain) {
            Ok(VeNCryptSubtype::Plain)
        } else if VeNCryptAuth::offered(input, VeNCryptSubtype::X509None) {
            Ok(VeNCryptSubtype::X509None)
        } else if VeNCryptAuth::offered(input, VeNCryptSubtype::TlsNone) {
            Ok(VeNCryptSubtype::TlsNone)
        } else {
            Err(VncError::UnsupportedVencrypt)
        }
    }

    /// Decides whether the connection moves into a TLS session: it does
    /// where the subtype asks for one, and then the server name has to be
    /// one that the TLS library takes.
    pub fn setup_tls(subtype: VeNCryptSubtype, name_ok: bool) -> (res: Result<bool, VncError>)
        ensures
            !subtype.spec_requires_tls() ==> res == Ok::<bool, VncError>(false),
            subtype.spec_requires_tls() && name_ok ==> res == Ok::<bool, VncError>(true),
            subtype.spec_requires_tls() && !name_ok ==> res == Err::<bool, VncError>(
                VncError::UnsupportedVencrypt,
            ),
    {
        if !subtype.requires_tls() {
            Ok(false)
        } else if name_ok {
            Ok(true)
        } else {
            Err(VncError::UnsupportedVencrypt)
        }
    }

    /// The bytes that carry a user name and a password.
    pub fn authenticate_plain(username: &str, password: &str) -> (res: Result<Vec<u8>, VncError>)
        ensures
            view_result(res) == spec_plain(encode_utf8(username@), encode_utf8(password@)),
    {
        let username_bytes = username.as_bytes();
        let password_bytes = password.as_bytes();
        if username_bytes.len() > 0xffff_ffff || password_bytes.len() > 0xffff_ffff {
            return Err(VncError::Protocol);
        }
        let mut out: Vec<u8> = Vec::new();
        crate::wire::write_u32(&mut out, username_bytes.len() as u32);
        crate::wire::write_u32(&mut out, password_bytes.len() as u32);
        crate::wire::write_bytes(&mut out, username_bytes);
        crate::wire::write_bytes(&mut out, password_bytes);
        assert(out@ =~= u32_bytes(username_bytes@.len() as int) + u32_bytes(
            password_bytes@.len() as int,
        ) + username_bytes@ + password_bytes@);
        Ok(out)
    }

    /// The last step, once the channel is settled.
    fn conclude(self, subtype: VeNCryptSubtype) -> (res: Result<(VeNCryptAuth, Vec<u8>), VncError>)
        ensures
            view_step(res) == self@.conclude(subtype),
    {
        if subtype.requires_plain_auth() {
            let bytes = match &self.password {
                None => {
                    return Err(VncError::MissingPassword);
                },
                Some(password) => {
                    let sent = match &self.username {
                        Some(name) => VeNCryptAuth::authenticate_plain(
                            name.as_str(),
                            password.as_str(),
                        ),
                        None => VeNCryptAuth::authenticate_plain("", password.as_str()),
                    };
                    proof {
                        reveal_strlit("");
                        assert(""@ =~= Seq::<char>::empty());
                        assert(encode_utf8(Seq::<char>::empty()) =~= Seq::<u8>::empty());
                    }
                    match sent {
                        Ok(bytes) => bytes,
                        Err(e) => {
                            return Err(e);
                        },
                    }
                },
            };
            Ok((self.at(VeNCryptStage::Done), bytes))
        } else {
            Ok((self.at(VeNCryptStage::Done), Vec::new()))
        }
    }

    /// The same sub-handshake at another stage.
    fn at(self, stage: VeNCryptStage) -> (next: VeNCryptAuth)
        ensures
            next@ == self@.at(stage),
    {
        VeNCryptAuth {
            stage,
            server_name: self.server_name,
            username: self.username,
            password: self.password,
        }
    }

    /// One step of the sub-handshake, given whether the TLS library takes
    /// the server name. `input` holds the bytes that `demand` asked for;
    /// any other number of bytes fails with `Io`.
    pub fn advance(self, input: &[u8], name_ok: bool) -> (res: Result<
        (VeNCryptAuth, Vec<u8>),
        VncError,
    >)
        ensures
            view_step(res) == self@.advance(input@, name_ok),
    {
        if input.len() != self.input_len() {
            return Err(VncError::Io);
        }
        match self.stage {
            VeNCryptStage::Version => match VeNCryptAuth::negotiate_version(input) {
                Ok(answer) => Ok((self.at(VeNCryptStage::VersionAck), answer)),
                Err(e) => Err(e),
            },
            VeNCryptStage::VersionAck => {
                if input[0] == 0 {
                    Ok((self.at(VeNCryptStage::SubtypeCount), Vec::new()))
                } else {
                    Err(VncError::UnsupportedVencrypt)
                }
            },
            VeNCryptStage::SubtypeCount => {
                if input[0] == 0 {
                    Err(VncError::UnsupportedVencrypt)
                } else {
                    Ok((self.at(VeNCryptStage::SubtypeList { count: input[0] }), Vec::new()))
                }
            },
            VeNCryptStage::SubtypeList { count } => match VeNCryptAuth::negotiate_subtype(input) {
                Err(e) => Err(e),
                Ok(subtype) => {
                    if subtype.requires_plain_auth() && self.password.is_none() {
                        Err(VncError::MissingPassword)
                    } else {
                        let mut pick: Vec<u8> = Vec::new();
                        crate::wire::write_u32(&mut pick, subtype.code());
                        assert(pick@ =~= u32_bytes(subtype.spec_code()));
                        Ok((self.at(VeNCryptStage::SubtypeAck { subtype }), pick))
                    }
                },
            },
            VeNCryptStage::SubtypeAck { subtype } => {
                if input[0] != 1 {
                    Err(VncError::UnsupportedVencrypt)
                } else {
                    match VeNCryptAuth::setup_tls(subtype, name_ok) {
                        Err(e) => Err(e),
                        Ok(true) => Ok((self.at(VeNCryptStage::Upgrade { subtype }), Vec::new())),
                        Ok(false) => self.conclude(subtype),
                    }
                }
            },
            VeNCryptStage::Upgrade { subtype } => self.conclude(subtype),
            VeNCryptStage::Done => Ok((self, Vec::new())),
        }
    }

    /// One step of the sub-handshake. `input` holds the bytes that `demand`
    /// asked for; any other number of bytes fails with `Io`. The server name
    /// is put to the TLS library, and the step is the one that `advance`
    /// takes with its answer.
    pub fn authenticate(self, input: &[u8]) -> (res: Result<(VeNCryptAuth, Vec<u8>), VncError>)
        ensures
            view_step(res) == self@.advance(input@, server_name_accepted(self@.server_name)),
    {
        let name_ok = check_server_name(self.server_name.as_str());
        self.advance(input, name_ok)
    }
}

} // verus!
