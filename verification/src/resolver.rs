//! Resolving a username to the profile of its owner.
//!
//! The registry knows which passphrase owns a username; the profile lives in
//! another service, under that passphrase as its passkey. A resolution
//! therefore has two halves with one remote call between them. This module
//! holds both halves and leaves the call to its caller:
//!
//! 1. [`begin_resolution`] looks the username up and either fails at once or
//!    names the call to make;
//! 2. the caller makes that call, once, and reports what came of it as a
//!    [`RemoteReply`];
//! 3. [`conclude_resolution`] turns the reply into the result.
//!
//! The passphrase is read from the registry before the call and is not read
//! again after it: a registry that changes while the call is under way does
//! not change the result. The call is made once; a failure is reported, not
//! retried.
//!
//! Where the call is a plain function, [`get_profile_by_username`] runs the
//! three steps in one.

use vstd::prelude::*;
use vstd::string::StringExecFns;
use crate::address::{parse_principal, principal_bytes_of_text, PRINCIPAL_MAX_BYTES};
use crate::profile::{fetched, Profiles, UserDetails, UserDetailsView};
use crate::registry::{first_owner, owns, valid_registrations, RegistryStore, Registrations};

verus! {

/// The text of the principal under which the profile service is reached.
pub const PROFILE_SERVICE_ID: &'static str = "uxrrr-q7777-77774-qaaaq-cai";

/// The operation of the profile service that fetches a profile by passkey.
pub const PROFILE_FETCH_METHOD: &'static str = "get_user_details_by_passkey";

/// Why the platform rejected a call.
#[derive(Clone, Copy, Debug, PartialEq, Eq)]
pub enum RejectionCode {
    NoError,
    SysFatal,
    SysTransient,
    DestinationInvalid,
    CanisterReject,
    CanisterError,
    Unknown,
}

impl RejectionCode {
    /// The code's name.
    pub open spec fn name_text(self) -> Seq<char> {
        match self {
            RejectionCode::NoError => "NoError"@,
            RejectionCode::SysFatal => "SysFatal"@,
            RejectionCode::SysTransient => "SysTransient"@,
            RejectionCode::DestinationInvalid => "DestinationInvalid"@,
            RejectionCode::CanisterReject => "CanisterReject"@,
            RejectionCode::CanisterError => "CanisterError"@,
            RejectionCode::Unknown => "Unknown"@,
        }
    }

    /// The code's name, as a string.
    pub fn name(&self) -> (text: String)
        ensures
            text@ == self.name_text(),
    {
        match self {
            RejectionCode::NoError => "NoError".to_owned(),
            RejectionCode::SysFatal => "SysFatal".to_owned(),
            RejectionCode::SysTransient => "SysTransient".to_owned(),
            RejectionCode::DestinationInvalid => "DestinationInvalid".to_owned(),
            RejectionCode::CanisterReject => "CanisterReject".to_owned(),
            RejectionCode::CanisterError => "CanisterError".to_owned(),
            RejectionCode::Unknown => "Unknown".to_owned(),
        }
    }
}

/// Why a resolution failed. The three conditions are kept apart: a username
/// that nobody owns, a call that did not go through, and a registry that
/// names a passphrase under which the profile service holds nothing.
#[derive(Debug, PartialEq, Eq)]
pub enum ResolutionError {
    /// No registered list holds the username.
    UsernameNotFound,
    /// The remote call failed; code and message are those of the failure.
    RemoteCallFailed { code: RejectionCode, message: String },
    /// The call went through, and the profile service holds no profile under
    /// the passphrase that owns the username.
    ProfileMissingDespiteRegistration,
}

/// A resolution error as the contracts see it.
pub enum ResolutionErrorView {
    UsernameNotFound,
    RemoteCallFailed { code: RejectionCode, message: Seq<char> },
    ProfileMissingDespiteRegistration,
}

impl View for ResolutionError {
    type V = ResolutionErrorView;

    open spec fn view(&self) -> ResolutionErrorView {
        match self {
            ResolutionError::UsernameNotFound => ResolutionErrorView::UsernameNotFound,
            ResolutionError::RemoteCallFailed { code, message } => ResolutionErrorView::RemoteCallFailed {
                code: *code,
                message: message@,
            },
            ResolutionError::ProfileMissingDespiteRegistration => ResolutionErrorView::ProfileMissingDespiteRegistration,
        }
    }
}

impl ResolutionErrorView {
    /// The sentence that describes the error. The code and the message of a
    /// failed call stand in it as they came.
    pub open spec fn message_text(self) -> Seq<char> {
        match self {
            ResolutionErrorView::UsernameNotFound => "Username not found in registry."@,
            ResolutionErrorView::RemoteCallFailed { code, message } => "Inter-canister call failed: ("@
                + code.name_text() + ") "@ + message,
            ResolutionErrorView::ProfileMissingDespiteRegistration => "User found in registry, but no details found in profile canister."@,
        }
    }
}

impl ResolutionError {
    /// The sentence that describes the error, as a string.
    pub fn message(&self) -> (text: String)
        ensures
            text@ == self@.message_text(),
    {
        match self {
            ResolutionError::UsernameNotFound => "Username not found in registry.".to_owned(),
            ResolutionError::RemoteCallFailed { code, message } => {
                let name = code.name();
                "Inter-canister call failed: (".to_owned().concat(name.as_str()).concat(") ").concat(
                    message.as_str(),
                )
            },
            ResolutionError::ProfileMissingDespiteRegistration => "User found in registry, but no details found in profile canister.".to_owned(),
        }
    }
}

/// A call to the profile service, for the caller to make.
#[derive(Debug, PartialEq, Eq)]
pub struct RemoteCall {
    /// The principal of the service, as its bytes.
    pub target: Vec<u8>,
    /// The operation to call.
    pub method: String,
    /// The one argument: the passkey of the profile to fetch.
    pub passkey: String,
}

/// A remote call as the contracts see it.
pub struct RemoteCallView {
    pub target: Seq<u8>,
    pub method: Seq<char>,
    pub passkey: Seq<char>,
}

impl View for RemoteCall {
    type V = RemoteCallView;

    open spec fn view(&self) -> RemoteCallView {
        RemoteCallView { target: self.target@, method: self.method@, passkey: self.passkey@ }
    }
}

/// Where a resolution stands after its first half.
#[derive(Debug, PartialEq, Eq)]
pub enum ResolutionStep {
    /// It has failed; no call is to be made.
    Failed(ResolutionError),
    /// This call is to be made, and its reply handed to
    /// [`conclude_resolution`].
    Fetch(RemoteCall),
}

/// A resolution step as the contracts see it.
pub enum ResolutionStepView {
    Failed(ResolutionErrorView),
    Fetch(RemoteCallView),
}

impl View for ResolutionStep {
    type V = ResolutionStepView;

    open spec fn view(&self) -> ResolutionStepView {
        match self {
            ResolutionStep::Failed(error) => ResolutionStepView::Failed(error@),
            ResolutionStep::Fetch(call) => ResolutionStepView::Fetch(call@),
        }
    }
}

/// What came of the remote call.
#[derive(Debug, PartialEq, Eq)]
pub enum RemoteReply {
    /// The service answered: the profile under the passkey, or none.
    Answered(Option<UserDetails>),
    /// The call failed, in transport or at the remote side.
    Failed { code: RejectionCode, message: String },
}

/// A reply as the contracts see it.
pub enum RemoteReplyView {
    Answered(Option<UserDetailsView>),
    Failed { code: RejectionCode, message: Seq<char> },
}

impl View for RemoteReply {
    type V = RemoteReplyView;

    open spec fn view(&self) -> RemoteReplyView {
        match self {
            RemoteReply::Answered(Some(details)) => RemoteReplyView::Answered(Some(details@)),
            RemoteReply::Answered(None) => RemoteReplyView::Answered(None),
            RemoteReply::Failed { code, message } => RemoteReplyView::Failed { code: *code, message: message@ },
        }
    }
}

/// The first half of a resolution, given the owner of the username and the
/// decoded address of the profile service. Without an owner the resolution
/// fails and the address does not matter. With an owner and an address the
/// profile is to be fetched under the owner as passkey. With an owner and no
/// address there is no step to take.
pub open spec fn first_step(owner: Option<Seq<char>>, address: Option<Seq<u8>>) -> Option<ResolutionStepView> {
    match owner {
        None => Some(ResolutionStepView::Failed(ResolutionErrorView::UsernameNotFound)),
        Some(passkey) => match address {
            None => None,
            Some(target) => Some(
                ResolutionStepView::Fetch(
                    RemoteCallView { target, method: PROFILE_FETCH_METHOD@, passkey },
                ),
            ),
        },
    }
}

/// The result that a reply stands for: the profile that came, the
/// inconsistency where none came, the failure where the call failed.
pub open spec fn reply_outcome(reply: RemoteReplyView) -> Result<UserDetailsView, ResolutionErrorView> {
    match reply {
        RemoteReplyView::Answered(Some(details)) => Ok(details),
        RemoteReplyView::Answered(None) => Err(ResolutionErrorView::ProfileMissingDespiteRegistration),
        RemoteReplyView::Failed { code, message } => Err(ResolutionErrorView::RemoteCallFailed { code, message }),
    }
}

/// The reply of a profile service that holds `profiles` and is reached: what
/// it has under the passkey.
pub open spec fn faithful_reply(profiles: Profiles, passkey: Seq<char>) -> RemoteReplyView {
    RemoteReplyView::Answered(fetched(profiles, passkey))
}

/// The result of a whole resolution against a registry, where `reply` is
/// what came of the call, if one was made.
pub open spec fn resolution_result(
    registry: Registrations,
    username: Seq<char>,
    reply: RemoteReplyView,
) -> Result<UserDetailsView, ResolutionErrorView> {
    match first_owner(registry, username) {
        None => Err(ResolutionErrorView::UsernameNotFound),
        Some(_) => reply_outcome(reply),
    }
}

/// An optional string as the contracts see it.
pub open spec fn option_text(text: Option<String>) -> Option<Seq<char>> {
    match text {
        Some(text) => Some(text@),
        None => None,
    }
}

/// Optional bytes as the contracts see them.
pub open spec fn option_bytes(bytes: Option<Vec<u8>>) -> Option<Seq<u8>> {
    match bytes {
        Some(bytes) => Some(bytes@),
        None => None,
    }
}

/// Decides the first step from the owner of the username and the decoded
/// address of the profile service.
pub fn plan_step(owner: Option<String>, address: Option<Vec<u8>>) -> (step: Option<ResolutionStep>)
    ensures
        match step {
            Some(taken) => first_step(option_text(owner), option_bytes(address)) == Some(taken@),
            None => first_step(option_text(owner), option_bytes(address)) is None,
        },
{
    match owner {
        None => Some(ResolutionStep::Failed(ResolutionError::UsernameNotFound)),
        Some(passkey) => match address {
            None => None,
            Some(target) => Some(
                ResolutionStep::Fetch(RemoteCall { target, method: PROFILE_FETCH_METHOD.to_owned(), passkey }),
            ),
        },
    }
}

/// The first half of a resolution. A username that no passphrase owns fails
/// with `UsernameNotFound`, and no call is named. Otherwise the step names
/// the call that fetches the profile under the first owner, at the address
/// that `PROFILE_SERVICE_ID` decodes to. That text is decoded only once an
/// owner is found; `None` says that there is an owner and the text did not
/// decode.
pub fn begin_resolution(registry: &RegistryStore, username: String) -> (step: Option<ResolutionStep>)
    ensures
        match step {
            Some(taken) => Some(taken@) == first_step(
                first_owner(registry@, username@),
                principal_bytes_of_text(PROFILE_SERVICE_ID@),
            ),
            None => first_owner(registry@, username@) is Some && principal_bytes_of_text(
                PROFILE_SERVICE_ID@,
            ) is None,
        },
        (forall|passphrase: Seq<char>| !owns(registry@, passphrase, username@)) <==> step == Some(
            ResolutionStep::Failed(ResolutionError::UsernameNotFound),
        ),
        step matches Some(ResolutionStep::Fetch(call)) ==> call.target@.len() <= PRINCIPAL_MAX_BYTES,
        valid_registrations(registry@),
{
    let owner = registry.find_passphrase_for_username(&username);
    let address = if owner.is_some() {
        parse_principal(PROFILE_SERVICE_ID)
    } else {
        None
    };
    plan_step(owner, address)
}

/// The result of a resolution as the contracts see it.
pub open spec fn result_view(result: Result<UserDetails, ResolutionError>) -> Result<
    UserDetailsView,
    ResolutionErrorView,
> {
    match result {
        Ok(details) => Ok(details@),
        Err(error) => Err(error@),
    }
}

/// The second half of a resolution: the result that the reply stands for.
/// A profile that came is returned as it came. A failed call comes back as
/// `RemoteCallFailed` with its code and message untouched. An answer without
/// a profile is `ProfileMissingDespiteRegistration`.
pub fn conclude_resolution(reply: RemoteReply) -> (result: Result<UserDetails, ResolutionError>)
    ensures
        result_view(result) == reply_outcome(reply@),
{
    match reply {
        RemoteReply::Answered(Some(details)) => Ok(details),
        RemoteReply::Answered(None) => Err(ResolutionError::ProfileMissingDespiteRegistration),
        RemoteReply::Failed { code, message } => Err(ResolutionError::RemoteCallFailed { code, message }),
    }
}

/// A whole resolution, for a caller whose remote call is a plain function.
/// `fetch` stands for the call: it is handed the call that the first half
/// names and returns what came of it. It is used at most once, and not at all
/// for a username that no passphrase owns, which fails with
/// `UsernameNotFound` whatever `fetch` would have done. `None` says, as in
/// [`begin_resolution`], that there is an owner and the address of the
/// profile service did not decode.
pub fn get_profile_by_username<F: FnOnce(RemoteCall) -> RemoteReply>(
    registry: &RegistryStore,
    username: String,
    fetch: F,
) -> (outcome: Option<Result<UserDetails, ResolutionError>>)
    requires
        forall|call: RemoteCall| call_requires(fetch, (call,)),
    ensures
        match first_step(first_owner(registry@, username@), principal_bytes_of_text(PROFILE_SERVICE_ID@)) {
            None => outcome is None,
            Some(ResolutionStepView::Failed(error)) => outcome is Some && result_view(outcome->0) == Err::<
                UserDetailsView,
                ResolutionErrorView,
            >(error),
            Some(ResolutionStepView::Fetch(named)) => exists|call: RemoteCall, reply: RemoteReply|
                call@ == named && #[trigger] call_ensures(fetch, (call,), reply) && outcome is Some
                    && result_view(outcome->0) == reply_outcome(reply@),
        },
        (forall|passphrase: Seq<char>| !owns(registry@, passphrase, username@)) ==> outcome == Some(
            Err::<UserDetails, ResolutionError>(ResolutionError::UsernameNotFound),
        ),
{
    match begin_resolution(registry, username) {
        None => None,
        Some(ResolutionStep::Failed(error)) => Some(Err(error)),
        Some(ResolutionStep::Fetch(call)) => {
            let reply = fetch(call);
            Some(conclude_resolution(reply))
        },
    }
}

} // verus!
