//! The states of a handshake and the steps between them: which message may
//! come in which state, and what it asks of the key schedule.

use vstd::prelude::*;
use crate::TlsError;
use crate::alert::{AlertDescription, AlertLevel};

verus! {

/// The states of a client's handshake.
#[derive(Debug, Clone, Copy, PartialEq, Eq, Structural)]
pub enum ClientState {
    /// Nothing has been sent.
    Start,
    /// The ClientHello is out; the ServerHello is awaited.
    WaitServerHello,
    WaitEncryptedExtensions,
    /// A Certificate or a CertificateRequest is awaited.
    WaitCertificateOrRequest,
    /// The server has asked for a certificate; its own is awaited.
    WaitCertificate,
    WaitCertificateVerify,
    WaitFinished,
    /// The server's flight is in; the client's Finished is to be sent.
    SendFinished,
    Connected,
}

/// What happens to a client during a handshake.
#[derive(Debug, Clone, Copy, PartialEq, Eq, Structural)]
pub enum ClientEvent {
    /// The ClientHello was sent.
    ClientHelloSent,
    /// A ServerHello came in that selects parameters.
    ServerHello,
    /// A ServerHello came in that asks the client to retry.
    HelloRetryRequest,
    EncryptedExtensions,
    CertificateRequest,
    Certificate,
    CertificateVerify,
    Finished,
    /// The client's Finished was sent.
    FinishedSent,
    NewSessionTicket,
}

/// What a step asks of the caller beyond moving to the next state.
#[derive(Debug, Clone, Copy, PartialEq, Eq, Structural)]
pub enum ClientAction {
    Nothing,
    /// Put the hash of the first ClientHello in its place in the
    /// transcript, and send a second one.
    RetryClientHello,
    /// Derive the handshake traffic secrets and install them in both
    /// directions.
    InstallHandshakeSecrets,
    /// Verify the signature over the transcript.
    VerifySignature,
    /// Verify the MAC over the transcript as it stood before the message.
    VerifyFinished,
    /// Derive the application traffic secrets and install them in both
    /// directions.
    InstallApplicationSecrets,
}

/// The error of a message that comes in a state that does not await it.
pub open spec fn unexpected_message() -> TlsError {
    TlsError::AbortHandshake(AlertLevel::Fatal, AlertDescription::UnexpectedMessage)
}

impl ClientState {
    /// How far the handshake has come: the number of steps from the start
    /// on the way without detours.
    pub open spec fn progress(self) -> nat {
        match self {
            ClientState::Start => 0,
            ClientState::WaitServerHello => 1,
            ClientState::WaitEncryptedExtensions => 2,
            ClientState::WaitCertificateOrRequest => 3,
            ClientState::WaitCertificate => 4,
            ClientState::WaitCertificateVerify => 5,
            ClientState::WaitFinished => 6,
            ClientState::SendFinished => 7,
            ClientState::Connected => 8,
        }
    }

    /// The step that `event` causes in this state: the next state and what
    /// is to be done, or the error of a message that is not awaited.
    pub open spec fn spec_next(self, event: ClientEvent) -> Result<
        (ClientState, ClientAction),
        TlsError,
    > {
        match (self, event) {
            (ClientState::Start, ClientEvent::ClientHelloSent) => Ok(
                (ClientState::WaitServerHello, ClientAction::Nothing),
            ),
            (ClientState::WaitServerHello, ClientEvent::HelloRetryRequest) => Ok(
                (ClientState::WaitServerHello, ClientAction::RetryClientHello),
            ),
            (ClientState::WaitServerHello, ClientEvent::ServerHello) => Ok(
                (ClientState::WaitEncryptedExtensions, ClientAction::InstallHandshakeSecrets),
            ),
            (ClientState::WaitEncryptedExtensions, ClientEvent::EncryptedExtensions) => Ok(
                (ClientState::WaitCertificateOrRequest, ClientAction::Nothing),
            ),
            (ClientState::WaitCertificateOrRequest, ClientEvent::CertificateRequest) => Ok(
                (ClientState::WaitCertificate, ClientAction::Nothing),
            ),
            (ClientState::WaitCertificateOrRequest, ClientEvent::Certificate) => Ok(
                (ClientState::WaitCertificateVerify, ClientAction::Nothing),
            ),
            (ClientState::WaitCertificate, ClientEvent::Certificate) => Ok(
                (ClientState::WaitCertificateVerify, ClientAction::Nothing),
            ),
            (ClientState::WaitCertificateVerify, ClientEvent::CertificateVerify) => Ok(
                (ClientState::WaitFinished, ClientAction::VerifySignature),
            ),
            (ClientState::WaitFinished, ClientEvent::Finished) => Ok(
                (ClientState::SendFinished, ClientAction::VerifyFinished),
            ),
            (ClientState::SendFinished, ClientEvent::FinishedSent) => Ok(
                (ClientState::Connected, ClientAction::InstallApplicationSecrets),
            ),
            (ClientState::Connected, ClientEvent::NewSessionTicket) => Ok(
                (ClientState::Connected, ClientAction::Nothing),
            ),
            _ => Err(unexpected_message()),
        }
    }

    /// Takes the step that `event` causes in this state.
    pub fn next(self, event: ClientEvent) -> (r: Result<(ClientState, ClientAction), TlsError>)
        ensures
            r == self.spec_next(event),
    {
        match (self, event) {
            (ClientState::Start, ClientEvent::ClientHelloSent) => Ok(
                (ClientState::WaitServerHello, ClientAction::Nothing),
            ),
            (ClientState::WaitServerHello, ClientEvent::HelloRetryRequest) => Ok(
                (ClientState::WaitServerHello, ClientAction::RetryClientHello),
            ),
            (ClientState::WaitServerHello, ClientEvent::ServerHello) => Ok(
                (ClientState::WaitEncryptedExtensions, ClientAction::InstallHandshakeSecrets),
            ),
            (ClientState::WaitEncryptedExtensions, ClientEvent::EncryptedExtensions) => Ok(
                (ClientState::WaitCertificateOrRequest, ClientAction::Nothing),
            ),
            (ClientState::WaitCertificateOrRequest, ClientEvent::CertificateRequest) => Ok(
                (ClientState::WaitCertificate, ClientAction::Nothing),
            ),
            (ClientState::WaitCertificateOrRequest, ClientEvent::Certificate) => Ok(
                (ClientState::WaitCertificateVerify, ClientAction::Nothing),
            ),
            (ClientState::WaitCertificate, ClientEvent::Certificate) => Ok(
                (ClientState::WaitCertificateVerify, ClientAction::Nothing),
            ),
            (ClientState::WaitCertificateVerify, ClientEvent::CertificateVerify) => Ok(
                (ClientState::WaitFinished, ClientAction::VerifySignature),
            ),
            (ClientState::WaitFinished, ClientEvent::Finished) => Ok(
                (ClientState::SendFinished, ClientAction::VerifyFinished),
            ),
            (ClientState::SendFinished, ClientEvent::FinishedSent) => Ok(
                (ClientState::Connected, ClientAction::InstallApplicationSecrets),
            ),
            (ClientState::Connected, ClientEvent::NewSessionTicket) => Ok(
                (ClientState::Connected, ClientAction::Nothing),
            ),
            _ => Err(
                TlsError::AbortHandshake(AlertLevel::Fatal, AlertDescription::UnexpectedMessage),
            ),
        }
    }
}

/// A client's handshake as its driver holds it: the state, and the first
/// error where there was one. After an error the handshake is over: every
/// later step fails with the same error.
#[derive(Debug, Clone, Copy, PartialEq, Eq, Structural)]
pub struct ClientHandshake {
    pub state: ClientState,
    pub error: Option<TlsError>,
}

impl ClientHandshake {
    /// A handshake at its start.
    pub fn new() -> (r: Self)
        ensures
            r == (ClientHandshake { state: ClientState::Start, error: None }),
    {
        ClientHandshake { state: ClientState::Start, error: None }
    }

    /// Notes an error that came from outside the steps, such as a message
    /// that could not be read. The first error stays.
    pub fn fail(&mut self, error: TlsError)
        ensures
            final(self).state == old(self).state,
            final(self).error == Some(
                match old(self).error {
                    Some(first) => first,
                    None => error,
                },
            ),
    {
        if self.error.is_none() {
            self.error = Some(error);
        }
    }

    /// Takes the step that `event` causes: moves to the next state and
    /// gives what is to be done. An event that is not awaited fails the
    /// handshake; a handshake that has failed stays as it is and gives its
    /// first error again.
    pub fn step(&mut self, event: ClientEvent) -> (r: Result<ClientAction, TlsError>)
        ensures
            match old(self).error {
                Some(first) => r == Err::<ClientAction, TlsError>(first) && *final(self) == *old(
                    self,
                ),
                None => match old(self).state.spec_next(event) {
                    Ok((next, action)) => r == Ok::<ClientAction, TlsError>(action) && *final(self)
                        == (ClientHandshake { state: next, error: None }),
                    Err(e) => r == Err::<ClientAction, TlsError>(e) && *final(self) == (
                        ClientHandshake { state: old(self).state, error: Some(e) }
                    ),
                },
            },
    {
        match self.error {
            Some(first) => Err(first),
            None => match self.state.next(event) {
                Ok((next, action)) => {
                    self.state = next;
                    Ok(action)
                },
                Err(e) => {
                    self.error = Some(e);
                    Err(e)
                },
            },
        }
    }
}

/// What a failed handshake owes the peer: the alert to send before the
/// connection is closed. An error that asks to abort with a fatal alert
/// names the alert; no other error sends one.
pub open spec fn spec_alert_for(error: TlsError) -> Option<crate::alert::Alert> {
    match error {
        TlsError::AbortHandshake(AlertLevel::Fatal, description) => Some(
            crate::alert::Alert { level: AlertLevel::Fatal, description },
        ),
        _ => None,
    }
}

/// The alert to send for `error` before the connection is closed, if it
/// asks for one.
pub fn alert_for(error: TlsError) -> (r: Option<crate::alert::Alert>)
    ensures
        r == spec_alert_for(error),
{
    match error {
        TlsError::AbortHandshake(AlertLevel::Fatal, description) => Some(
            crate::alert::Alert::new(AlertLevel::Fatal, description),
        ),
        _ => None,
    }
}

/// The state that a run of events leads to from `state`, or the error of
/// the first event that is not awaited.
pub open spec fn spec_run(state: ClientState, events: Seq<ClientEvent>) -> Result<
    ClientState,
    TlsError,
>
    decreases events.len(),
{
    if events.len() == 0 {
        Ok(state)
    } else {
        match state.spec_next(events[0]) {
            Ok((next, _)) => spec_run(next, events.skip(1)),
            Err(e) => Err(e),
        }
    }
}

/// A handshake never goes back: a step leads to a state at least as far on
/// as the one it starts from, and at most two states further. It stays in
/// place only for a retry and for a ticket.
pub proof fn lemma_step_makes_progress(state: ClientState, event: ClientEvent)
    ensures
        match state.spec_next(event) {
            Ok((next, action)) => {
                &&& state.progress() <= next.progress() <= state.progress() + 2
                &&& next.progress() == state.progress() ==> event == ClientEvent::HelloRetryRequest
                    || event == ClientEvent::NewSessionTicket
            },
            Err(e) => e == unexpected_message(),
        },
{
}

/// The handshake secrets are installed before anything is read under them,
/// and the application secrets only after the server's Finished was
/// verified: a run of events that leads from the start to an open
/// connection holds a ServerHello, a Finished and the sending of the
/// client's Finished, in this order.
pub proof fn lemma_connected_only_through_finished(events: Seq<ClientEvent>)
    requires
        spec_run(ClientState::Start, events) == Ok::<ClientState, TlsError>(ClientState::Connected),
    ensures
        exists|i: int, j: int, k: int|
            0 <= i < j < k < events.len() && events[i] == ClientEvent::ServerHello && events[j]
                == ClientEvent::Finished && events[k] == ClientEvent::FinishedSent,
{
    lemma_run_reaches(ClientState::Start, events);
}

/// Whether the ServerHello is still to come in `state`.
pub open spec fn awaits_server_hello(state: ClientState) -> bool {
    state.progress() <= 1
}

/// Whether the server's Finished is still to come in `state`.
pub open spec fn awaits_finished(state: ClientState) -> bool {
    state.progress() <= 6
}

/// Whether the client's Finished is still to be sent in `state`.
pub open spec fn awaits_finished_sent(state: ClientState) -> bool {
    state.progress() <= 7
}

/// The part of [`lemma_connected_only_through_finished`] that holds from
/// every state: what a state still awaits is found in a run that opens the
/// connection from it, in order.
proof fn lemma_run_reaches(state: ClientState, events: Seq<ClientEvent>)
    requires
        spec_run(state, events) == Ok::<ClientState, TlsError>(ClientState::Connected),
    ensures
        awaits_finished_sent(state) ==> exists|k: int|
            0 <= k < events.len() && events[k] == ClientEvent::FinishedSent,
        awaits_finished(state) ==> exists|j: int, k: int|
            0 <= j < k < events.len() && events[j] == ClientEvent::Finished && events[k]
                == ClientEvent::FinishedSent,
        awaits_server_hello(state) ==> exists|i: int, j: int, k: int|
            0 <= i < j < k < events.len() && events[i] == ClientEvent::ServerHello && events[j]
                == ClientEvent::Finished && events[k] == ClientEvent::FinishedSent,
    decreases events.len(),
{
    if events.len() == 0 {
    } else {
        let next = state.spec_next(events[0])->Ok_0.0;
        let rest = events.skip(1);
        lemma_run_reaches(next, rest);
        if awaits_finished_sent(state) {
            if awaits_finished_sent(next) {
                let k = choose|k: int| 0 <= k < rest.len() && rest[k] == ClientEvent::FinishedSent;
                assert(events[k + 1] == ClientEvent::FinishedSent);
            } else {
                assert(events[0] == ClientEvent::FinishedSent);
            }
        }
        if awaits_finished(state) {
            if awaits_finished(next) {
                let (j, k) = choose|j: int, k: int|
                    0 <= j < k < rest.len() && rest[j] == ClientEvent::Finished && rest[k]
                        == ClientEvent::FinishedSent;
                assert(events[j + 1] == ClientEvent::Finished && events[k + 1]
                    == ClientEvent::FinishedSent);
            } else {
                let k = choose|k: int| 0 <= k < rest.len() && rest[k] == ClientEvent::FinishedSent;
                assert(events[0] == ClientEvent::Finished && events[k + 1]
                    == ClientEvent::FinishedSent);
            }
        }
        if awaits_server_hello(state) {
            if awaits_server_hello(next) {
                let (i, j, k) = choose|i: int, j: int, k: int|
                    0 <= i < j < k < rest.len() && rest[i] == ClientEvent::ServerHello && rest[j]
                        == ClientEvent::Finished && rest[k] == ClientEvent::FinishedSent;
                assert(events[i + 1] == ClientEvent::ServerHello && events[j + 1]
                    == ClientEvent::Finished && events[k + 1] == ClientEvent::FinishedSent);
            } else {
                let (j, k) = choose|j: int, k: int|
                    0 <= j < k < rest.len() && rest[j] == ClientEvent::Finished && rest[k]
                        == ClientEvent::FinishedSent;
                assert(events[0] == ClientEvent::ServerHello && events[j + 1]
                    == ClientEvent::Finished && events[k + 1] == ClientEvent::FinishedSent);
            }
        }
    }
}

/// The states of a server's handshake.
#[derive(Debug, Clone, Copy, PartialEq, Eq, Structural)]
pub enum ServerState {
    Start,
    WaitClientHello,
    /// The ClientHello is in and the parameters are chosen; the server's
    /// flight is to be sent.
    Negotiated,
    /// The server's flight is out; the client's is awaited.
    WaitFlight2,
    WaitFinished,
    Connected,
}

/// What happens to a server during a handshake.
#[derive(Debug, Clone, Copy, PartialEq, Eq, Structural)]
pub enum ServerEvent {
    /// The server began to listen.
    Started,
    ClientHello,
    /// The server's flight, from ServerHello to Finished, was sent.
    FlightSent,
    /// Nothing comes before the client's Finished: no early data and no
    /// certificate were asked for.
    NothingBeforeFinished,
    Finished,
}

/// What a step asks of a server beyond moving to the next state.
#[derive(Debug, Clone, Copy, PartialEq, Eq, Structural)]
pub enum ServerAction {
    Nothing,
    /// Choose the parameters and send the server's flight, with the
    /// handshake traffic secrets installed behind the ServerHello.
    SendFlight,
    /// Verify the MAC over the transcript as it stood before the message,
    /// then derive the application traffic secrets and install them.
    VerifyFinishedAndInstallApplicationSecrets,
}

impl ServerState {
    /// How far the handshake has come: the number of steps from the start.
    pub open spec fn progress(self) -> nat {
        match self {
            ServerState::Start => 0,
            ServerState::WaitClientHello => 1,
            ServerState::Negotiated => 2,
            ServerState::WaitFlight2 => 3,
            ServerState::WaitFinished => 4,
            ServerState::Connected => 5,
        }
    }

    /// The step that `event` causes in this state: the next state and what
    /// is to be done, or the error of a message that is not awaited.
    pub open spec fn spec_next(self, event: ServerEvent) -> Result<
        (ServerState, ServerAction),
        TlsError,
    > {
        match (self, event) {
            (ServerState::Start, ServerEvent::Started) => Ok(
                (ServerState::WaitClientHello, ServerAction::Nothing),
            ),
            (ServerState::WaitClientHello, ServerEvent::ClientHello) => Ok(
                (ServerState::Negotiated, ServerAction::SendFlight),
            ),
            (ServerState::Negotiated, ServerEvent::FlightSent) => Ok(
                (ServerState::WaitFlight2, ServerAction::Nothing),
            ),
            (ServerState::WaitFlight2, ServerEvent::NothingBeforeFinished) => Ok(
                (ServerState::WaitFinished, ServerAction::Nothing),
            ),
            (ServerState::WaitFinished, ServerEvent::Finished) => Ok(
                (ServerState::Connected, ServerAction::VerifyFinishedAndInstallApplicationSecrets),
            ),
            _ => Err(unexpected_message()),
        }
    }

    /// Takes the step that `event` causes in this state.
    pub fn next(self, event: ServerEvent) -> (r: Result<(ServerState, ServerAction), TlsError>)
        ensures
            r == self.spec_next(event),
            r matches Ok(step) ==> step.0.progress() == self.progress() + 1,
    {
        match (self, event) {
            (ServerState::Start, ServerEvent::Started) => Ok(
                (ServerState::WaitClientHello, ServerAction::Nothing),
            ),
            (ServerState::WaitClientHello, ServerEvent::ClientHello) => Ok(
                (ServerState::Negotiated, ServerAction::SendFlight),
            ),
            (ServerState::Negotiated, ServerEvent::FlightSent) => Ok(
                (ServerState::WaitFlight2, ServerAction::Nothing),
            ),
            (ServerState::WaitFlight2, ServerEvent::NothingBeforeFinished) => Ok(
                (ServerState::WaitFinished, ServerAction::Nothing),
            ),
            (ServerState::WaitFinished, ServerEvent::Finished) => Ok(
                (ServerState::Connected, ServerAction::VerifyFinishedAndInstallApplicationSecrets),
            ),
            _ => Err(
                TlsError::AbortHandshake(AlertLevel::Fatal, AlertDescription::UnexpectedMessage),
            ),
        }
    }
}

} // verus!
