//! The way into a connection: the settings of a client, and the state
//! machine that takes a fresh stream through the handshake, the
//! authentication and the first exchange of messages.

use vstd::prelude::*;
use vstd::utf8::encode_utf8;
use crate::client::auth::{challenge_response, view_text, AuthHelper, Credentials};
use crate::client::connection::{ClientView, VncClient};
use crate::client::driver::{Demand, DemandView};
use crate::client::security::vencrypt::{
    check_server_name, server_name_accepted, VeNCryptAuth, VeNCryptAuthView, VeNCryptStage,
};
use crate::error::{VncError, VncErrorView};
use crate::protocol::encoding::VncEncoding;
use crate::protocol::messages::ServerInitHead;
use crate::protocol::pixel_format::PixelFormat;
use crate::protocol::security::types::{AuthResult, SecurityType};
use crate::protocol::version::VncVersion;
use crate::wire::{spec_text, u32_at};

verus! {

/// The settings of a client that is yet to connect.
#[derive(Debug, Clone)]
pub struct VncConnector {
    pub credentials: Credentials,
    /// The newest version that the client speaks; once the server has
    /// announced its own, the version that both speak.
    pub rfb_version: VncVersion,
    pub allow_shared: bool,
    pub pixel_format: Option<PixelFormat>,
    pub encodings: Vec<VncEncoding>,
    /// The name under which a TLS session knows the server.
    pub server_name: Option<String>,
    /// Whether a banner that spells none of the known versions ends the
    /// connection, instead of standing for RFB 3.3.
    pub strict_version: bool,
}

/// The mathematical value of a [`VncConnector`].
pub struct ConnectorView {
    pub username: Option<Seq<char>>,
    pub password: Option<Seq<char>>,
    pub rfb_version: VncVersion,
    pub allow_shared: bool,
    pub pixel_format: Option<PixelFormat>,
    pub encodings: Seq<VncEncoding>,
    pub server_name: Option<Seq<char>>,
    pub strict_version: bool,
}

impl View for VncConnector {
    type V = ConnectorView;

    open spec fn view(&self) -> ConnectorView {
        ConnectorView {
            username: view_text(self.credentials.username),
            password: view_text(self.credentials.password),
            rfb_version: self.rfb_version,
            allow_shared: self.allow_shared,
            pixel_format: self.pixel_format,
            encodings: self.encodings@,
            server_name: view_text(self.server_name),
            strict_version: self.strict_version,
        }
    }
}

/// Where the authentication of a connection stands. Each stage waits for
/// one piece of what the server sends.
#[derive(Debug, Clone, Copy, PartialEq, Eq, Structural)]
pub enum AuthStage {
    /// The server's offer of security types: under RFB 3.3 one word of four
    /// bytes, under the later versions the number of types as one byte.
    SecurityTypes,
    /// The offered types, one byte each.
    SecurityList { count: u8 },
    /// The length of the reason for which the server refuses, four bytes.
    FailureReasonLength,
    /// The reason for which the server refuses.
    FailureReason { length: u32 },
    /// The challenge of the password authentication, sixteen bytes.
    Challenge,
    /// A step of the VeNCrypt sub-handshake.
    VeNCrypt(VeNCryptStage),
    /// The SecurityResult, four bytes: after an authentication, and under
    /// RFB 3.8 after the pick of no authentication too.
    SecurityResult,
    /// The fixed part of the ServerInit, 24 bytes.
    ServerInit,
    /// The name of the desktop, which ends the ServerInit.
    DesktopName { head: ServerInitHead },
}

/// A connection on its way: shaking hands, authenticating, or connected.
#[derive(Debug)]
pub enum VncState {
    Handshake(VncConnector),
    Authenticate(VncConnector, AuthStage),
    Connected(VncClient),
}

/// The mathematical value of a [`VncState`].
pub enum StateView {
    Handshake(ConnectorView),
    Authenticate(ConnectorView, AuthStage),
    Connected(ClientView),
}

impl View for VncState {
    type V = StateView;

    open spec fn view(&self) -> StateView {
        match *self {
            VncState::Handshake(connector) => StateView::Handshake(connector@),
            VncState::Authenticate(connector, stage) => StateView::Authenticate(connector@, stage),
            VncState::Connected(client) => StateView::Connected(client@),
        }
    }
}

/// The name that stands for the server where the caller gave none.
pub open spec fn default_server_name() -> Seq<char> {
    "localhost"@
}

/// The byte that tells the server whether it may leave other clients connected.
pub open spec fn shared_flag(allow_shared: bool) -> Seq<u8> {
    if allow_shared {
        seq![1u8]
    } else {
        seq![0u8]
    }
}

/// The byte with which the client names the security type that it picked.
/// Under RFB 3.3 the server picks, and the client names nothing.
pub open spec fn selection(version: VncVersion, picked: SecurityType) -> Seq<u8> {
    if version == VncVersion::RFB33 {
        Seq::empty()
    } else {
        seq![picked.spec_code()]
    }
}

/// The outcome of a step: the next state and the bytes to send, or the
/// error that ends the connection.
pub type StepView = Result<(StateView, Seq<u8>), VncErrorView>;

impl ConnectorView {
    /// The name under which a TLS session knows the server.
    pub open spec fn tls_name(self) -> Seq<char> {
        match self.server_name {
            Some(name) => name,
            None => default_server_name(),
        }
    }

    /// The VeNCrypt sub-handshake of this connection at the given stage.
    pub open spec fn vencrypt(self, stage: VeNCryptStage) -> VeNCryptAuthView {
        VeNCryptAuthView {
            stage,
            server_name: self.tls_name(),
            username: self.username,
            password: self.password,
        }
    }

    /// The step that ends the authentication: the client says whether the
    /// desktop may be shared and waits for the ServerInit.
    pub open spec fn enter(self, output: Seq<u8>) -> StepView {
        Ok(
            (
                StateView::Authenticate(self, AuthStage::ServerInit),
                output + shared_flag(self.allow_shared),
            ),
        )
    }

    /// The step on the server's banner: both sides go on with the older of
    /// the client's newest version and the server's, which the client
    /// announces in turn. A banner that spells none of the known versions
    /// stands for RFB 3.3, unless the client is strict about versions:
    /// then it ends the connection with `UnsupportedVersion`.
    pub open spec fn on_banner(self, input: Seq<u8>) -> StepView {
        let agreed = self.rfb_version.spec_min(VncVersion::of_banner(input));
        if self.strict_version && !VncVersion::is_known_banner(input) {
            Err(VncErrorView::UnsupportedVersion)
        } else {
            Ok(
                (
                    StateView::Authenticate(
                        ConnectorView { rfb_version: agreed, ..self },
                        AuthStage::SecurityTypes,
                    ),
                    agreed.spec_banner(),
                ),
            )
        }
    }

    /// The step on the offered security types: the client picks VeNCrypt
    /// where it is offered, else the password authentication, else none at
    /// all, and names its pick. Without any of the three the connection
    /// fails with `UnsupportedSecurity`; where the password authentication
    /// is picked and there is no password, with `MissingPassword`. After
    /// the pick of no authentication the ServerInit is due, but under RFB
    /// 3.8, where the server's SecurityResult comes first.
    pub open spec fn pick(self, offered: Seq<SecurityType>) -> StepView {
        if offered.contains(SecurityType::VeNCrypt) {
            Ok(
                (
                    StateView::Authenticate(self, AuthStage::VeNCrypt(VeNCryptStage::Version)),
                    selection(self.rfb_version, SecurityType::VeNCrypt),
                ),
            )
        } else if offered.contains(SecurityType::VncAuth) {
            if self.password is None {
                Err(VncErrorView::MissingPassword)
            } else {
                Ok(
                    (
                        StateView::Authenticate(self, AuthStage::Challenge),
                        selection(self.rfb_version, SecurityType::VncAuth),
                    ),
                )
            }
        } else if offered.contains(SecurityType::NoAuth) {
            if self.rfb_version == VncVersion::RFB38 {
                Ok(
                    (
                        StateView::Authenticate(self, AuthStage::SecurityResult),
                        selection(self.rfb_version, SecurityType::NoAuth),
                    ),
                )
            } else {
                self.enter(selection(self.rfb_version, SecurityType::NoAuth))
            }
        } else {
            Err(VncErrorView::UnsupportedSecurity)
        }
    }

    /// The step on the first piece of the server's offer. Under RFB 3.3 it
    /// is the one security type that the server has picked: no
    /// authentication or the password authentication, and no other; type 0
    /// says that the server refuses, with a reason to follow. Under the
    /// later versions it is the number of offered types, and 0 says the same.
    pub open spec fn on_security_types(self, input: Seq<u8>) -> StepView {
        if self.rfb_version == VncVersion::RFB33 {
            match SecurityType::spec_of_word(u32_at(input, 0)) {
                Err(e) => Err(e),
                Ok(picked) => if picked == SecurityType::Invalid {
                    Ok(
                        (
                            StateView::Authenticate(self, AuthStage::FailureReasonLength),
                            Seq::empty(),
                        ),
                    )
                } else {
                    self.pick(seq![picked])
                },
            }
        } else if input[0] == 0 {
            Ok((StateView::Authenticate(self, AuthStage::FailureReasonLength), Seq::empty()))
        } else {
            Ok(
                (
                    StateView::Authenticate(self, AuthStage::SecurityList { count: input[0] }),
                    Seq::empty(),
                ),
            )
        }
    }

    /// The step on the list of offered security types.
    pub open spec fn on_security_list(self, input: Seq<u8>) -> StepView {
        match SecurityType::spec_list(input) {
            Err(e) => Err(e),
            Ok(offered) => self.pick(offered),
        }
    }

    /// The step on the reason for which the server refuses: the connection
    /// fails with it.
    pub open spec fn on_failure_reason(self, input: Seq<u8>) -> StepView {
        match spec_text(input) {
            Ok(reason) => Err(VncErrorView::ServerError(reason)),
            Err(e) => Err(e),
        }
    }

    /// The step on the challenge: the client answers with the challenge
    /// encrypted under the key of its password.
    pub open spec fn on_challenge(self, input: Seq<u8>) -> StepView {
        match self.password {
            None => Err(VncErrorView::MissingPassword),
            Some(password) => Ok(
                (
                    StateView::Authenticate(self, AuthStage::SecurityResult),
                    challenge_response(input, encode_utf8(password)),
                ),
            ),
        }
    }

    /// The step of the VeNCrypt sub-handshake. When the sub-handshake is
    /// over, the server's SecurityResult comes next.
    pub open spec fn on_vencrypt(self, stage: VeNCryptStage, input: Seq<u8>, name_ok: bool)
        -> StepView {
        match self.vencrypt(stage).advance(input, name_ok) {
            Err(e) => Err(e),
            Ok((next, output)) => if next.stage == VeNCryptStage::Done {
                Ok((StateView::Authenticate(self, AuthStage::SecurityResult), output))
            } else {
                Ok((StateView::Authenticate(self, AuthStage::VeNCrypt(next.stage)), output))
            },
        }
    }

    /// The step on the SecurityResult. A result of 0 lets the client in.
    /// After a result of 1 RFB 3.8 gives a reason; under the older versions
    /// the connection fails with `WrongPassword`. Any other result is a
    /// protocol error.
    pub open spec fn on_security_result(self, input: Seq<u8>) -> StepView {
        match AuthResult::spec_of_word(u32_at(input, 0)) {
            Err(e) => Err(e),
            Ok(AuthResult::Success) => self.enter(Seq::empty()),
            Ok(AuthResult::Failed) => if self.rfb_version == VncVersion::RFB38 {
                Ok((StateView::Authenticate(self, AuthStage::FailureReasonLength), Seq::empty()))
            } else {
                Err(VncErrorView::WrongPassword)
            },
        }
    }

    /// The step on the fixed part of the ServerInit.
    pub open spec fn on_server_init(self, input: Seq<u8>) -> StepView {
        match ServerInitHead::spec_read(input) {
            Err(e) => Err(e),
            Ok(head) => Ok(
                (StateView::Authenticate(self, AuthStage::DesktopName { head }), Seq::empty()),
            ),
        }
    }

    /// The step on the name of the desktop: the client comes to life and
    /// sends its first messages.
    pub open spec fn on_desktop_name(self, head: ServerInitHead, input: Seq<u8>) -> StepView {
        match head.spec_complete(input) {
            Err(e) => Err(e),
            Ok(init) => if self.encodings.len() > 0xffff {
                Err(VncErrorView::Protocol)
            } else {
                Ok(
                    (
                        StateView::Connected(
                            ClientView::start(init, self.pixel_format, self.encodings),
                        ),
                        ClientView::greeting(init, self.pixel_format, self.encodings),
                    ),
                )
            },
        }
    }

    /// What the driver has to do next at the given stage.
    pub open spec fn demand(self, stage: AuthStage) -> DemandView {
        match stage {
            AuthStage::SecurityTypes => if self.rfb_version == VncVersion::RFB33 {
                DemandView::Read(4)
            } else {
                DemandView::Read(1)
            },
            AuthStage::SecurityList { count } => DemandView::Read(count as int),
            AuthStage::FailureReasonLength => DemandView::Read(4),
            AuthStage::FailureReason { length } => DemandView::Read(length as int),
            AuthStage::Challenge => DemandView::Read(16),
            AuthStage::VeNCrypt(stage) => self.vencrypt(stage).demand(),
            AuthStage::SecurityResult => DemandView::Read(4),
            AuthStage::ServerInit => DemandView::Read(24),
            AuthStage::DesktopName { head } => DemandView::Read(head.name_length as int),
        }
    }

    /// One step of the authentication at the given stage.
    pub open spec fn advance(self, stage: AuthStage, input: Seq<u8>, name_ok: bool) -> StepView {
        match stage {
            AuthStage::SecurityTypes => self.on_security_types(input),
            AuthStage::SecurityList { count } => self.on_security_list(input),
            AuthStage::FailureReasonLength => Ok(
                (
                    StateView::Authenticate(
                        self,
                        AuthStage::FailureReason { length: u32_at(input, 0) as u32 },
                    ),
                    Seq::empty(),
                ),
            ),
            AuthStage::FailureReason { length } => self.on_failure_reason(input),
            AuthStage::Challenge => self.on_challenge(input),
            AuthStage::VeNCrypt(stage) => self.on_vencrypt(stage, input, name_ok),
            AuthStage::SecurityResult => self.on_security_result(input),
            AuthStage::ServerInit => self.on_server_init(input),
            AuthStage::DesktopName { head } => self.on_desktop_name(head, input),
        }
    }
}

impl StateView {
    /// What the driver has to do next.
    pub open spec fn demand(self) -> DemandView {
        match self {
            StateView::Handshake(_) => DemandView::Read(12),
            StateView::Authenticate(connector, stage) => connector.demand(stage),
            StateView::Connected(_) => DemandView::Finished,
        }
    }

    /// One step of the connection: from the bytes that the demand asked
    /// for to the next state and the bytes to send. Any other number of
    /// bytes fails with `Io`. `name_ok` says whether the TLS library takes
    /// the server name.
    pub open spec fn advance(self, input: Seq<u8>, name_ok: bool) -> StepView {
        if input.len() != self.demand().input_len() {
            Err(VncErrorView::Io)
        } else {
            match self {
                StateView::Handshake(connector) => connector.on_banner(input),
                StateView::Authenticate(connector, stage) => connector.advance(
                    stage,
                    input,
                    name_ok,
                ),
                StateView::Connected(_) => Ok((self, Seq::empty())),
            }
        }
    }

    /// The name under which a TLS session knows the server. A connected
    /// client has no more use for one.
    pub open spec fn tls_name(self) -> Seq<char> {
        match self {
            StateView::Handshake(connector) => connector.tls_name(),
            StateView::Authenticate(connector, _) => connector.tls_name(),
            StateView::Connected(_) => default_server_name(),
        }
    }
}

/// Where the pick is no authentication, only RFB 3.8 has a SecurityResult:
/// under the older versions the ServerInit is due at once, and under 3.8
/// the four bytes of the result are read first. They let the client in
/// only if they are all zero; a result of 1 is a refusal, whose reason
/// follows, and any other result is a protocol error.
pub proof fn lemma_no_auth_result(
    connector: ConnectorView,
    offered: Seq<SecurityType>,
    result: Seq<u8>,
    name_ok: bool,
)
    requires
        offered.contains(SecurityType::NoAuth),
        !offered.contains(SecurityType::VeNCrypt),
        !offered.contains(SecurityType::VncAuth),
        result.len() == 4,
    ensures
        connector.rfb_version != VncVersion::RFB38 ==> connector.pick(offered) == Ok::<
            (StateView, Seq<u8>),
            VncErrorView,
        >(
            (
                StateView::Authenticate(connector, AuthStage::ServerInit),
                selection(connector.rfb_version, SecurityType::NoAuth) + shared_flag(
                    connector.allow_shared,
                ),
            ),
        ),
        connector.rfb_version == VncVersion::RFB38 ==> connector.pick(offered) == Ok::<
            (StateView, Seq<u8>),
            VncErrorView,
        >(
            (
                StateView::Authenticate(connector, AuthStage::SecurityResult),
                seq![SecurityType::NoAuth.spec_code()],
            ),
        ),
        StateView::Authenticate(connector, AuthStage::SecurityResult).demand() == DemandView::Read(
            4,
        ),
        StateView::Authenticate(connector, AuthStage::ServerInit).demand() == DemandView::Read(
            24,
        ),
        ({
            let step = StateView::Authenticate(connector, AuthStage::SecurityResult).advance(
                result,
                name_ok,
            );
            &&& result == seq![0u8, 0u8, 0u8, 0u8] ==> step == Ok::<
                (StateView, Seq<u8>),
                VncErrorView,
            >(
                (
                    StateView::Authenticate(connector, AuthStage::ServerInit),
                    shared_flag(connector.allow_shared),
                ),
            )
            &&& result == seq![0u8, 0u8, 0u8, 1u8] && connector.rfb_version == VncVersion::RFB38
                ==> step == Ok::<(StateView, Seq<u8>), VncErrorView>(
                (
                    StateView::Authenticate(connector, AuthStage::FailureReasonLength),
                    Seq::empty(),
                ),
            )
            &&& result != seq![0u8, 0u8, 0u8, 0u8] ==> !(step matches Ok(
                (StateView::Authenticate(_, AuthStage::ServerInit), _),
            ))
            &&& u32_at(result, 0) > 1 ==> step == Err::<(StateView, Seq<u8>), VncErrorView>(
                VncErrorView::Protocol,
            )
        }),
{
    assert(Seq::<u8>::empty() + shared_flag(connector.allow_shared) =~= shared_flag(
        connector.allow_shared,
    ));
    if u32_at(result, 0) == 0 {
        assert(result =~= seq![0u8, 0u8, 0u8, 0u8]);
    }
}

/// When a step ends the VeNCrypt sub-handshake, what it sends is what the
/// connection sends, and the server's SecurityResult is still to be read:
/// its four bytes are the next that are asked for.
pub proof fn lemma_vencrypt_leaves_the_result(
    connector: ConnectorView,
    stage: VeNCryptStage,
    input: Seq<u8>,
    name_ok: bool,
)
    requires
        connector.vencrypt(stage).advance(input, name_ok) matches Ok((next, _)) && next.stage
            == VeNCryptStage::Done,
    ensures
        ({
            let (_, output) = connector.vencrypt(stage).advance(input, name_ok)->Ok_0;
            connector.on_vencrypt(stage, input, name_ok) == Ok::<
                (StateView, Seq<u8>),
                VncErrorView,
            >((StateView::Authenticate(connector, AuthStage::SecurityResult), output))
        }),
        StateView::Authenticate(connector, AuthStage::SecurityResult).demand() == DemandView::Read(
            4,
        ),
{
}

/// A server that refuses under RFB 3.3, by naming the security type 0,
/// ends the connection with the reason that it gives.
pub proof fn lemma_refusal_carries_its_reason(
    connector: ConnectorView,
    word: Seq<u8>,
    length: Seq<u8>,
    reason: Seq<char>,
    name_ok: bool,
)
    requires
        connector.rfb_version == VncVersion::RFB33,
        word == seq![0u8, 0u8, 0u8, 0u8],
        length.len() == 4,
        u32_at(length, 0) == encode_utf8(reason).len(),
    ensures
        StateView::Authenticate(connector, AuthStage::SecurityTypes).advance(word, name_ok)
            == Ok::<(StateView, Seq<u8>), VncErrorView>(
            (StateView::Authenticate(connector, AuthStage::FailureReasonLength), Seq::empty()),
        ),
        StateView::Authenticate(connector, AuthStage::FailureReasonLength).advance(
            length,
            name_ok,
        ) == Ok::<(StateView, Seq<u8>), VncErrorView>(
            (
                StateView::Authenticate(
                    connector,
                    AuthStage::FailureReason { length: u32_at(length, 0) as u32 },
                ),
                Seq::empty(),
            ),
        ),
        StateView::Authenticate(
            connector,
            AuthStage::FailureReason { length: u32_at(length, 0) as u32 },
        ).advance(encode_utf8(reason), name_ok) == Err::<(StateView, Seq<u8>), VncErrorView>(
            VncErrorView::ServerError(reason),
        ),
{
    vstd::utf8::encode_utf8_valid_utf8(reason);
    vstd::utf8::encode_utf8_decode_utf8(reason);
}

/// The zlib streams that a step leaves behind, if it leaves a client: a
/// client that comes to life has fresh ones, and a client that was alive
/// keeps its own.
pub open spec fn streams_kept(before: VncState, res: Result<(VncState, Vec<u8>), VncError>) -> bool {
    match res {
        Ok((VncState::Connected(client), _)) => client.streams == match before {
            VncState::Connected(earlier) => earlier.streams,
            _ => crate::codec::zlib::Streams::fresh(),
        },
        _ => true,
    }
}

/// The mathematical value of the outcome of a step.
pub open spec fn view_step(res: Result<(VncState, Vec<u8>), VncError>) -> StepView {
    match res {
        Ok((next, output)) => Ok((next@, output@)),
        Err(e) => Err(e@),
    }
}

/// Whether a list of security types holds the given one.
fn offers(offered: &Vec<SecurityType>, wanted: SecurityType) -> (found: bool)
    ensures
        found == offered@.contains(wanted),
{
    let mut i: usize = 0;
    while i < offered.len()
        invariant
            i <= offered@.len(),
            forall|j: int| 0 <= j < i ==> offered@[j] != wanted,
        decreases offered@.len() - i,
    {
        if offered[i] == wanted {
            return true;
        }
        i += 1;
    }
    false
}

impl VncConnector {
    /// The settings of a client with nothing chosen yet: no credentials,
    /// RFB 3.8 as the newest version, a shared desktop, the server's pixel
    /// format, no encodings, `localhost` as the server's name, and any
    /// banner taken.
    pub fn new() -> (connector: Self)
        ensures
            connector@ == (ConnectorView {
                username: None,
                password: None,
                rfb_version: VncVersion::RFB38,
                allow_shared: true,
                pixel_format: None,
                encodings: Seq::empty(),
                server_name: None,
                strict_version: false,
            }),
    {
        Self {
            credentials: Credentials::new(None, None),
            allow_shared: true,
            rfb_version: VncVersion::RFB38,
            pixel_format: None,
            encodings: Vec::new(),
            server_name: None,
            strict_version: false,
        }
    }

    /// Sets what the client presents where the server asks who it is.
    pub fn set_credentials(self, credentials: Credentials) -> (connector: Self)
        ensures
            connector@ == (ConnectorView {
                username: credentials@.username,
                password: credentials@.password,
                ..self@
            }),
    {
        let mut connector = self;
        connector.credentials = credentials;
        connector
    }

    /// Sets the newest version that the client speaks.
    pub fn set_version(self, version: VncVersion) -> (connector: Self)
        ensures
            connector@ == (ConnectorView { rfb_version: version, ..self@ }),
    {
        let mut connector = self;
        connector.rfb_version = version;
        connector
    }

    /// Sets the format in which events carry pixels. Without one the
    /// server's own format is used, and an event tells of it.
    pub fn set_pixel_format(self, pf: PixelFormat) -> (connector: Self)
        ensures
            connector@ == (ConnectorView { pixel_format: Some(pf), ..self@ }),
    {
        let mut connector = self;
        connector.pixel_format = Some(pf);
        connector
    }

    /// Sets whether the server may leave other clients connected.
    pub fn allow_shared(self, allow_shared: bool) -> (connector: Self)
        ensures
            connector@ == (ConnectorView { allow_shared, ..self@ }),
    {
        let mut connector = self;
        connector.allow_shared = allow_shared;
        connector
    }

    /// Adds an encoding that the client takes. The server is told of the
    /// encodings in the order in which they were added.
    pub fn add_encoding(self, encoding: VncEncoding) -> (connector: Self)
        ensures
            connector@ == (ConnectorView { encodings: self@.encodings.push(encoding), ..self@ }),
    {
        let mut connector = self;
        connector.encodings.push(encoding);
        connector
    }

    /// Sets whether a banner that spells none of the known versions ends
    /// the connection.
    pub fn set_strict_version(self, strict: bool) -> (connector: Self)
        ensures
            connector@ == (ConnectorView { strict_version: strict, ..self@ }),
    {
        let mut connector = self;
        connector.strict_version = strict;
        connector
    }

    /// Sets the name under which a TLS session knows the server.
    pub fn set_server_name(self, name: String) -> (connector: Self)
        ensures
            connector@ == (ConnectorView { server_name: Some(name@), ..self@ }),
    {
        let mut connector = self;
        connector.server_name = Some(name);
        connector
    }

    /// Ends the choosing: what comes back is a connection at its start.
    /// Fails with `NoEncoding` where no encoding was added.
    pub fn build(self) -> (res: Result<VncState, VncError>)
        ensures
            self@.encodings.len() == 0 ==> (res matches Err(e) && e == VncError::NoEncoding),
            self@.encodings.len() > 0 ==> (res matches Ok(state) && state@ == StateView::Handshake(
                self@,
            )),
    {
        if self.encodings.len() == 0 {
            return Err(VncError::NoEncoding);
        }
        Ok(VncState::Handshake(self))
    }

    /// The name under which a TLS session knows the server.
    pub fn tls_name(&self) -> (name: String)
        ensures
            name@ == self@.tls_name(),
    {
        match &self.server_name {
            Some(name) => name.clone(),
            None => "localhost".to_owned(),
        }
    }

    /// The byte with which the client names its pick.
    fn select(&self, picked: SecurityType) -> (out: Vec<u8>)
        ensures
            out@ == selection(self.rfb_version, picked),
    {
        let mut out: Vec<u8> = Vec::new();
        match self.rfb_version {
            VncVersion::RFB33 => {},
            _ => {
                picked.write(&mut out);
                assert(out@ =~= seq![picked.spec_code()]);
            },
        }
        out
    }

    /// The step that ends the authentication.
    fn enter(self, output: Vec<u8>) -> (res: Result<(VncState, Vec<u8>), VncError>)
        ensures
            view_step(res) == self@.enter(output@),
    {
        let mut output = output;
        let ghost before = output@;
        output.push(if self.allow_shared { 1 } else { 0 });
        assert(output@ =~= before + shared_flag(self.allow_shared));
        Ok((VncState::Authenticate(self, AuthStage::ServerInit), output))
    }

    /// The step on the server's banner.
    fn on_banner(self, input: &[u8]) -> (res: Result<(VncState, Vec<u8>), VncError>)
        requires
            input@.len() == 12,
        ensures
            view_step(res) == self@.on_banner(input@),
    {
        let read = if self.strict_version {
            VncVersion::read_strict(input)
        } else {
            VncVersion::read(input)
        };
        let theirs = match read {
            Ok(version) => version,
            Err(e) => {
                return Err(e);
            },
        };
        let agreed = self.rfb_version.negotiate(theirs);
        let mut output: Vec<u8> = Vec::new();
        agreed.write(&mut output);
        assert(output@ =~= agreed.spec_banner());
        let mut connector = self;
        connector.rfb_version = agreed;
        Ok((VncState::Authenticate(connector, AuthStage::SecurityTypes), output))
    }

    /// The step on the offered security types.
    fn pick(self, offered: &Vec<SecurityType>) -> (res: Result<(VncState, Vec<u8>), VncError>)
        ensures
            view_step(res) == self@.pick(offered@),
    {
        if offers(offered, SecurityType::VeNCrypt) {
            let output = self.select(SecurityType::VeNCrypt);
            Ok((VncState::Authenticate(self, AuthStage::VeNCrypt(VeNCryptStage::Version)), output))
        } else if offers(offered, SecurityType::VncAuth) {
            if self.credentials.password.is_none() {
                Err(VncError::MissingPassword)
            } else {
                let output = self.select(SecurityType::VncAuth);
                Ok((VncState::Authenticate(self, AuthStage::Challenge), output))
            }
        } else if offers(offered, SecurityType::NoAuth) {
            let output = self.select(SecurityType::NoAuth);
            match self.rfb_version {
                VncVersion::RFB38 => Ok(
                    (VncState::Authenticate(self, AuthStage::SecurityResult), output),
                ),
                _ => self.enter(output),
            }
        } else {
            Err(VncError::UnsupportedSecurity)
        }
    }

    /// The step on the first piece of the server's offer.
    fn on_security_types(self, input: &[u8]) -> (res: Result<(VncState, Vec<u8>), VncError>)
        requires
            input@.len() == self@.demand(AuthStage::SecurityTypes).input_len(),
        ensures
            view_step(res) == self@.on_security_types(input@),
    {
        match self.rfb_version {
            VncVersion::RFB33 => {
                let word = match crate::wire::read_u32(input, 0) {
                    Ok(word) => word,
                    Err(e) => {
                        return Err(e);
                    },
                };
                match SecurityType::of_word(word) {
                    Err(e) => Err(e),
                    Ok(SecurityType::Invalid) => Ok(
                        (VncState::Authenticate(self, AuthStage::FailureReasonLength), Vec::new()),
                    ),
                    Ok(picked) => {
                        let mut offered: Vec<SecurityType> = Vec::new();
                        offered.push(picked);
                        assert(offered@ =~= seq![picked]);
                        self.pick(&offered)
                    },
                }
            },
            _ => {
                if input[0] == 0 {
                    Ok((VncState::Authenticate(self, AuthStage::FailureReasonLength), Vec::new()))
                } else {
                    Ok(
                        (
                            VncState::Authenticate(
                                self,
                                AuthStage::SecurityList { count: input[0] },
                            ),
                            Vec::new(),
                        ),
                    )
                }
            },
        }
    }

    /// The step on the list of offered security types.
    fn on_security_list(self, input: &[u8]) -> (res: Result<(VncState, Vec<u8>), VncError>)
        ensures
            view_step(res) == self@.on_security_list(input@),
    {
        match SecurityType::read(input, &VncVersion::RFB38) {
            Err(e) => Err(e),
            Ok(offered) => self.pick(&offered),
        }
    }

    /// The step on the reason for which the server refuses.
    fn on_failure_reason(self, input: &[u8]) -> (res: Result<(VncState, Vec<u8>), VncError>)
        ensures
            view_step(res) == self@.on_failure_reason(input@),
    {
        let raw = match crate::wire::read_bytes(input, 0, input.len()) {
            Ok(raw) => raw,
            Err(e) => {
                return Err(VncError::Protocol);
            },
        };
        assert(raw@ =~= input@);
        match crate::wire::read_text(raw) {
            Ok(reason) => Err(VncError::ServerError(reason)),
            Err(e) => Err(e),
        }
    }

    /// The step on the challenge.
    fn on_challenge(self, input: &[u8]) -> (res: Result<(VncState, Vec<u8>), VncError>)
        requires
            input@.len() == 16,
        ensures
            view_step(res) == self@.on_challenge(input@),
    {
        let helper = match &self.credentials.password {
            None => {
                return Err(VncError::MissingPassword);
            },
            Some(password) => match AuthHelper::read(input, password.as_str()) {
                Ok(helper) => helper,
                Err(e) => {
                    return Err(e);
                },
            },
        };
        let mut output: Vec<u8> = Vec::new();
        helper.write(&mut output);
        assert(output@ =~= challenge_response(
            input@,
            encode_utf8(self@.password->Some_0),
        ));
        Ok((VncState::Authenticate(self, AuthStage::SecurityResult), output))
    }

    /// The step of the VeNCrypt sub-handshake.
    fn on_vencrypt(self, stage: VeNCryptStage, input: &[u8], name_ok: bool) -> (res: Result<
        (VncState, Vec<u8>),
        VncError,
    >)
        ensures
            view_step(res) == self@.on_vencrypt(stage, input@, name_ok),
    {
        let sub = VeNCryptAuth {
            stage,
            server_name: self.tls_name(),
            username: self.credentials.username.clone(),
            password: self.credentials.password.clone(),
        };
        assert(sub@ == self@.vencrypt(stage)) by {
            assert(view_text(sub.username) == self@.username);
            assert(view_text(sub.password) == self@.password);
        }
        match sub.advance(input, name_ok) {
            Err(e) => Err(e),
            Ok((next, output)) => {
                if next.is_done() {
                    Ok((VncState::Authenticate(self, AuthStage::SecurityResult), output))
                } else {
                    Ok((VncState::Authenticate(self, AuthStage::VeNCrypt(next.stage)), output))
                }
            },
        }
    }

    /// The step on the SecurityResult after an authentication.
    fn on_security_result(self, input: &[u8]) -> (res: Result<(VncState, Vec<u8>), VncError>)
        requires
            input@.len() == 4,
        ensures
            view_step(res) == self@.on_security_result(input@),
    {
        let word = match crate::wire::read_u32(input, 0) {
            Ok(word) => word,
            Err(e) => {
                return Err(e);
            },
        };
        match AuthResult::of_word(word) {
            Err(e) => Err(e),
            Ok(AuthResult::Success) => self.enter(Vec::new()),
            Ok(AuthResult::Failed) => match self.rfb_version {
                VncVersion::RFB38 => Ok(
                    (VncState::Authenticate(self, AuthStage::FailureReasonLength), Vec::new()),
                ),
                _ => Err(VncError::WrongPassword),
            },
        }
    }

    /// The step on the name of the desktop.
    fn on_desktop_name(self, head: ServerInitHead, input: &[u8]) -> (res: Result<
        (VncState, Vec<u8>),
        VncError,
    >)
        ensures
            view_step(res) == self@.on_desktop_name(head, input@),
            res matches Ok((VncState::Connected(client), _)) ==> client.streams
                == crate::codec::zlib::Streams::fresh(),
    {
        let init = match head.complete(input) {
            Ok(init) => init,
            Err(e) => {
                return Err(e);
            },
        };
        match VncClient::new(init, self.pixel_format, self.encodings) {
            Ok((client, output)) => Ok((VncState::Connected(client), output)),
            Err(e) => Err(e),
        }
    }

    /// How many bytes of input the next step takes at the given stage.
    fn input_len(&self, stage: AuthStage) -> (len: usize)
        ensures
            len == self@.demand(stage).input_len(),
    {
        match stage {
            AuthStage::SecurityTypes => match self.rfb_version {
                VncVersion::RFB33 => 4,
                _ => 1,
            },
            AuthStage::SecurityList { count } => count as usize,
            AuthStage::FailureReasonLength => 4,
            AuthStage::FailureReason { length } => length as usize,
            AuthStage::Challenge => 16,
            AuthStage::VeNCrypt(stage) => match stage {
                VeNCryptStage::Version => 2,
                VeNCryptStage::VersionAck => 1,
                VeNCryptStage::SubtypeCount => 1,
                VeNCryptStage::SubtypeList { count } => 4 * (count as usize),
                VeNCryptStage::SubtypeAck { .. } => 1,
                VeNCryptStage::Upgrade { .. } => 0,
                VeNCryptStage::Done => 0,
            },
            AuthStage::SecurityResult => 4,
            AuthStage::ServerInit => 24,
            AuthStage::DesktopName { head } => head.name_length as usize,
        }
    }

    /// What the driver has to do next at the given stage.
    fn demand(&self, stage: AuthStage) -> (demand: Demand)
        ensures
            demand@ == self@.demand(stage),
    {
        match stage {
            AuthStage::VeNCrypt(stage) => match stage {
                VeNCryptStage::Upgrade { .. } => Demand::StartTls(self.tls_name()),
                VeNCryptStage::Done => Demand::Finished,
                _ => Demand::Read(self.input_len(AuthStage::VeNCrypt(stage))),
            },
            _ => Demand::Read(self.input_len(stage)),
        }
    }

    /// One step of the authentication at the given stage.
    fn advance(self, stage: AuthStage, input: &[u8], name_ok: bool) -> (res: Result<
        (VncState, Vec<u8>),
        VncError,
    >)
        requires
            input@.len() == self@.demand(stage).input_len(),
        ensures
            view_step(res) == self@.advance(stage, input@, name_ok),
            res matches Ok((VncState::Connected(client), _)) ==> client.streams
                == crate::codec::zlib::Streams::fresh(),
    {
        match stage {
            AuthStage::SecurityTypes => self.on_security_types(input),
            AuthStage::SecurityList { count } => self.on_security_list(input),
            AuthStage::FailureReasonLength => {
                let length = match crate::wire::read_u32(input, 0) {
                    Ok(length) => length,
                    Err(e) => {
                        return Err(e);
                    },
                };
                Ok((VncState::Authenticate(self, AuthStage::FailureReason { length }), Vec::new()))
            },
            AuthStage::FailureReason { length } => self.on_failure_reason(input),
            AuthStage::Challenge => self.on_challenge(input),
            AuthStage::VeNCrypt(stage) => self.on_vencrypt(stage, input, name_ok),
            AuthStage::SecurityResult => self.on_security_result(input),
            AuthStage::ServerInit => match ServerInitHead::read(input) {
                Err(e) => Err(e),
                Ok(head) => Ok(
                    (VncState::Authenticate(self, AuthStage::DesktopName { head }), Vec::new()),
                ),
            },
            AuthStage::DesktopName { head } => self.on_desktop_name(head, input),
        }
    }
}

impl VncState {
    /// What the driver has to do next.
    pub fn demand(&self) -> (demand: Demand)
        ensures
            demand@ == self@.demand(),
    {
        match self {
            VncState::Handshake(_) => Demand::Read(12),
            VncState::Authenticate(connector, stage) => connector.demand(*stage),
            VncState::Connected(_) => Demand::Finished,
        }
    }

    /// How many bytes of input the next step takes.
    pub fn input_len(&self) -> (len: usize)
        ensures
            len == self@.demand().input_len(),
    {
        match self {
            VncState::Handshake(_) => 12,
            VncState::Authenticate(connector, stage) => connector.input_len(*stage),
            VncState::Connected(_) => 0,
        }
    }

    /// The name under which a TLS session knows the server.
    pub fn tls_name(&self) -> (name: String)
        ensures
            name@ == self@.tls_name(),
    {
        match self {
            VncState::Handshake(connector) => connector.tls_name(),
            VncState::Authenticate(connector, _) => connector.tls_name(),
            VncState::Connected(_) => "localhost".to_owned(),
        }
    }

    /// One step of the connection, given whether the TLS library takes the
    /// server name. `input` holds the bytes that `demand` asked for; any
    /// other number of bytes fails with `Io`.
    pub fn advance(self, input: &[u8], name_ok: bool) -> (res: Result<
        (VncState, Vec<u8>),
        VncError,
    >)
        ensures
            view_step(res) == self@.advance(input@, name_ok),
            streams_kept(self, res),
    {
        if input.len() != self.input_len() {
            return Err(VncError::Io);
        }
        match self {
            VncState::Handshake(connector) => connector.on_banner(input),
            VncState::Authenticate(connector, stage) => connector.advance(stage, input, name_ok),
            VncState::Connected(client) => Ok((VncState::Connected(client), Vec::new())),
        }
    }

    /// One step of the connection. `input` holds the bytes that `demand`
    /// asked for, and the result holds the next state and the bytes to
    /// send before the next step. The server name is put to the TLS
    /// library, and the step is the one that `advance` takes with its answer.
    pub fn try_start(self, input: &[u8]) -> (res: Result<(VncState, Vec<u8>), VncError>)
        ensures
            view_step(res) == self@.advance(input@, server_name_accepted(self@.tls_name())),
            streams_kept(self, res),
    {
        let name = self.tls_name();
        let name_ok = check_server_name(name.as_str());
        self.advance(input, name_ok)
    }

    /// The client, once the connection is established. Fails with
    /// `ConnectError` at any earlier state.
    pub fn finish(self) -> (res: Result<VncClient, VncError>)
        ensures
            match self@ {
                StateView::Connected(client) => res matches Ok(c) && c@ == client,
                _ => res matches Err(e) && e == VncError::ConnectError,
            },
            self matches VncState::Connected(before) ==> (res matches Ok(c) && c.streams
                == before.streams),
    {
        match self {
            VncState::Connected(client) => Ok(client),
            _ => Err(VncError::ConnectError),
        }
    }
}

} // verus!
