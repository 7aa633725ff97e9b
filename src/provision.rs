//! First-time set-up of the device: the order of its steps and what each
//! outcome of a device call leads to. The calls themselves are made by the
//! caller, which reports each outcome back.
use vstd::prelude::*;

use crate::service::{next_reconnect, RECONNECT_BUDGET_MS, RECONNECT_FIRST_BACKOFF_MS};

verus! {

/// The authentication key that a fresh device holds.
pub const DEFAULT_AUTHKEY_ID: u16 = 1;

/// The administrator's authentication key, with the default key's
/// capabilities.
pub const ADMIN_AUTHKEY_ID: u16 = 2;

/// The service's authentication key.
pub const APP_AUTHKEY_ID: u16 = 3;

/// Device capabilities that the service's authentication key is given.
#[derive(Clone, Copy, Debug, PartialEq, Eq, Structural)]
pub enum Capability {
    PutAsymmetric,
    GetOption,
    PutOption,
    Audit,
    AsymmetricSignPkcs,
}

/// What the service's key may do: import keys, read and set options, read
/// the audit log, and sign.
pub fn app_authkey_capabilities() -> (r: Vec<Capability>)
    ensures
        r@ == seq![
            Capability::PutAsymmetric,
            Capability::GetOption,
            Capability::PutOption,
            Capability::Audit,
            Capability::AsymmetricSignPkcs,
        ],
{
    let r = vec![
        Capability::PutAsymmetric,
        Capability::GetOption,
        Capability::PutOption,
        Capability::Audit,
        Capability::AsymmetricSignPkcs,
    ];
    assert(r@ =~= seq![
        Capability::PutAsymmetric,
        Capability::GetOption,
        Capability::PutOption,
        Capability::Audit,
        Capability::AsymmetricSignPkcs,
    ]);
    r
}

/// What keys imported by the service's key may do: sign.
pub fn app_authkey_delegated_capabilities() -> (r: Vec<Capability>)
    ensures
        r@ == seq![Capability::AsymmetricSignPkcs],
{
    let r = vec![Capability::AsymmetricSignPkcs];
    assert(r@ =~= seq![Capability::AsymmetricSignPkcs]);
    r
}

/// How a device call ended.
#[derive(Clone, Copy, Debug, PartialEq, Eq, Structural)]
pub enum DeviceOutcome {
    Success,
    /// The connection to the device was lost.
    NetError,
    /// The device refused, with its return code.
    Failure(u8),
}

/// Where set-up stands.
#[derive(Clone, Copy, Debug, PartialEq, Eq, Structural)]
pub enum ProvisionState {
    /// The device is being reset.
    Resetting,
    /// The device is rebooting; the next attempt to reconnect follows a
    /// pause of `backoff_ms`.
    Reconnecting { backoff_ms: u64 },
    CreatingAdminKey,
    CreatingAppKey,
    DeletingDefaultKey,
    Done,
    Failed,
}

/// What the caller is to do next.
#[derive(Clone, Copy, Debug, PartialEq, Eq, Structural)]
pub enum ProvisionAction {
    /// Connect to the device again with the default key.
    Connect,
    /// Wait this many milliseconds, then connect again.
    RetryConnectAfter(u64),
    /// Create the administrator's key with the default key's capabilities.
    CreateAdminKey,
    /// Create the service's key.
    CreateAppKey,
    /// Delete the default key.
    DeleteDefaultKey,
    /// Stop: set-up is done, or has failed.
    Stop,
}

/// The next state and action after the outcome of the step that `state`
/// stands for; `elapsed_ms` is the time since the first attempt to
/// reconnect. A reset ends with a lost connection when the device reboots,
/// so that outcome of the reset, and only of it, counts as success; while
/// reconnecting, every failure is retried with a doubled pause until the
/// time budget is spent; any other failure ends set-up.
pub open spec fn provision_next(state: ProvisionState, outcome: DeviceOutcome, elapsed_ms: u64) -> (
    ProvisionState,
    ProvisionAction,
) {
    match state {
        ProvisionState::Resetting => match outcome {
            DeviceOutcome::Failure(_) => (ProvisionState::Failed, ProvisionAction::Stop),
            _ => (
                ProvisionState::Reconnecting { backoff_ms: RECONNECT_FIRST_BACKOFF_MS },
                ProvisionAction::Connect,
            ),
        },
        ProvisionState::Reconnecting { backoff_ms } => match outcome {
            DeviceOutcome::Success => (ProvisionState::CreatingAdminKey, ProvisionAction::CreateAdminKey),
            _ => if elapsed_ms > RECONNECT_BUDGET_MS {
                (ProvisionState::Failed, ProvisionAction::Stop)
            } else {
                (
                    ProvisionState::Reconnecting {
                        backoff_ms: if backoff_ms <= u64::MAX / 2 {
                            (backoff_ms * 2) as u64
                        } else {
                            u64::MAX
                        },
                    },
                    ProvisionAction::RetryConnectAfter(backoff_ms),
                )
            },
        },
        ProvisionState::CreatingAdminKey => match outcome {
            DeviceOutcome::Success => (ProvisionState::CreatingAppKey, ProvisionAction::CreateAppKey),
            _ => (ProvisionState::Failed, ProvisionAction::Stop),
        },
        ProvisionState::CreatingAppKey => match outcome {
            DeviceOutcome::Success => (
                ProvisionState::DeletingDefaultKey,
                ProvisionAction::DeleteDefaultKey,
            ),
            _ => (ProvisionState::Failed, ProvisionAction::Stop),
        },
        ProvisionState::DeletingDefaultKey => match outcome {
            DeviceOutcome::Success => (ProvisionState::Done, ProvisionAction::Stop),
            _ => (ProvisionState::Failed, ProvisionAction::Stop),
        },
        ProvisionState::Done => (ProvisionState::Done, ProvisionAction::Stop),
        ProvisionState::Failed => (ProvisionState::Failed, ProvisionAction::Stop),
    }
}

/// The next state and action of set-up.
pub fn provision_step(state: ProvisionState, outcome: DeviceOutcome, elapsed_ms: u64) -> (r: (
    ProvisionState,
    ProvisionAction,
))
    ensures
        r == provision_next(state, outcome, elapsed_ms),
{
    match state {
        ProvisionState::Resetting => match outcome {
            DeviceOutcome::Failure(_) => (ProvisionState::Failed, ProvisionAction::Stop),
            _ => (
                ProvisionState::Reconnecting { backoff_ms: RECONNECT_FIRST_BACKOFF_MS },
                ProvisionAction::Connect,
            ),
        },
        ProvisionState::Reconnecting { backoff_ms } => match outcome {
            DeviceOutcome::Success => (ProvisionState::CreatingAdminKey, ProvisionAction::CreateAdminKey),
            _ => match next_reconnect(elapsed_ms, backoff_ms) {
                Some((pause, next)) => (
                    ProvisionState::Reconnecting { backoff_ms: next },
                    ProvisionAction::RetryConnectAfter(pause),
                ),
                None => (ProvisionState::Failed, ProvisionAction::Stop),
            },
        },
        ProvisionState::CreatingAdminKey => match outcome {
            DeviceOutcome::Success => (ProvisionState::CreatingAppKey, ProvisionAction::CreateAppKey),
            _ => (ProvisionState::Failed, ProvisionAction::Stop),
        },
        ProvisionState::CreatingAppKey => match outcome {
            DeviceOutcome::Success => (
                ProvisionState::DeletingDefaultKey,
                ProvisionAction::DeleteDefaultKey,
            ),
            _ => (ProvisionState::Failed, ProvisionAction::Stop),
        },
        ProvisionState::DeletingDefaultKey => match outcome {
            DeviceOutcome::Success => (ProvisionState::Done, ProvisionAction::Stop),
            _ => (ProvisionState::Failed, ProvisionAction::Stop),
        },
        ProvisionState::Done => (ProvisionState::Done, ProvisionAction::Stop),
        ProvisionState::Failed => (ProvisionState::Failed, ProvisionAction::Stop),
    }
}

} // verus!
