use vstd::prelude::*;

verus! {

/// Everything that can end a connection. None of these is recoverable: after
/// any of them the connection is to be dropped.
#[derive(Debug, Clone, PartialEq, Eq)]
pub enum VncError {
    /// The stream failed, or ended before the bytes that were asked for
    /// arrived: a read that came short.
    Io,
    /// The server sent data that the protocol does not allow, or a length
    /// that nothing can hold.
    Protocol,
    /// The server's version banner is not one of the three known ones.
    UnsupportedVersion,
    /// A security type byte outside the known set.
    InvalidSecurityType(u8),
    /// The server offered no security type that this client can perform.
    UnsupportedSecurity,
    /// The chosen security type needs a password and none was given.
    MissingPassword,
    /// The server refused the password without giving a reason.
    WrongPassword,
    /// The server refused the connection and said why.
    ServerError(String),
    /// The VeNCrypt sub-handshake was rejected, offered nothing acceptable,
    /// or asked for a TLS session under a server name that TLS does not take.
    UnsupportedVencrypt,
    /// The connector was built without any encoding.
    NoEncoding,
    /// There is no established connection: `finish` was called before the
    /// client was let in, or a client that is closed or has failed was
    /// asked for something.
    ConnectError,
}

/// The mathematical value of a [`VncError`]: the same cases, with the
/// server's reason as a sequence of characters.
pub enum VncErrorView {
    Io,
    Protocol,
    UnsupportedVersion,
    InvalidSecurityType(u8),
    UnsupportedSecurity,
    MissingPassword,
    WrongPassword,
    ServerError(Seq<char>),
    UnsupportedVencrypt,
    NoEncoding,
    ConnectError,
}

impl View for VncError {
    type V = VncErrorView;

    open spec fn view(&self) -> VncErrorView {
        match *self {
            VncError::Io => VncErrorView::Io,
            VncError::Protocol => VncErrorView::Protocol,
            VncError::UnsupportedVersion => VncErrorView::UnsupportedVersion,
            VncError::InvalidSecurityType(code) => VncErrorView::InvalidSecurityType(code),
            VncError::UnsupportedSecurity => VncErrorView::UnsupportedSecurity,
            VncError::MissingPassword => VncErrorView::MissingPassword,
            VncError::WrongPassword => VncErrorView::WrongPassword,
            VncError::ServerError(reason) => VncErrorView::ServerError(reason@),
            VncError::UnsupportedVencrypt => VncErrorView::UnsupportedVencrypt,
            VncError::NoEncoding => VncErrorView::NoEncoding,
            VncError::ConnectError => VncErrorView::ConnectError,
        }
    }
}

impl VncError {
    /// An error equal to this one.
    pub fn duplicate(&self) -> (copy: VncError)
        ensures
            copy@ == self@,
    {
        match self {
            VncError::Io => VncError::Io,
            VncError::Protocol => VncError::Protocol,
            VncError::UnsupportedVersion => VncError::UnsupportedVersion,
            VncError::InvalidSecurityType(code) => VncError::InvalidSecurityType(*code),
            VncError::UnsupportedSecurity => VncError::UnsupportedSecurity,
            VncError::MissingPassword => VncError::MissingPassword,
            VncError::WrongPassword => VncError::WrongPassword,
            VncError::ServerError(reason) => VncError::ServerError(reason.clone()),
            VncError::UnsupportedVencrypt => VncError::UnsupportedVencrypt,
            VncError::NoEncoding => VncError::NoEncoding,
            VncError::ConnectError => VncError::ConnectError,
        }
    }
}

/// The mathematical value of a result: the view of what it holds on either side.
pub open spec fn view_result<T: View>(res: Result<T, VncError>) -> Result<T::V, VncErrorView> {
    match res {
        Ok(value) => Ok(value@),
        Err(e) => Err(e@),
    }
}

/// The mathematical value of a result whose success is a plain value.
pub open spec fn plain_result<T>(res: Result<T, VncError>) -> Result<T, VncErrorView> {
    match res {
        Ok(value) => Ok(value),
        Err(e) => Err(e@),
    }
}

} // verus!
