//! The commands that the device names in its audit log.
use vstd::prelude::*;

use crate::log::HsmLogEntry;

verus! {

/// A command of the device, as its audit log names it.
#[derive(Clone, Copy, Debug, PartialEq, Eq, Structural)]
pub enum CommandType {
    Echo,
    CreateSession,
    AuthSession,
    SessionMessage,
    GetDeviceInfo,
    Bsl,
    Reset,
    CloseSession,
    StorageStatistics,
    PutOpaque,
    GetOpaque,
    PutAuthKey,
    PutAsymmetricKey,
    GenerateAsymmetricKey,
    SignPkcs1,
    ListObjects,
    DecryptPkcs1,
    ExportWrapped,
    ImportWrapped,
    PutWrapKey,
    GetLogs,
    GetObjectInfo,
    PutOption,
    GetOption,
    GetPseudoRandom,
    PutHmacKey,
    HmacData,
    GetPubkey,
    SignPss,
    SignEcdsa,
    DecryptEcdh,
    DeleteObject,
    DecryptOaep,
    GenerateHmacKey,
    GenerateWrapKey,
    VerifyHmac,
    SshCertify,
    PutTemplate,
    GetTemplate,
    OtpDecrypt,
    OtpAeadCreate,
    OtpAeadRandom,
    OtpAeadRewrap,
    AttestAsymmetric,
    PutOtpAeadKey,
    GenerateOtpAeadKey,
    SetLogIndex,
    WrapData,
    UnwrapData,
    SignEddsa,
    Blink,
    Error,
    Unknown,
}

/// The command that a byte of the audit log names. The top bit of the byte
/// is not part of the command: in a result it marks the response.
pub open spec fn command_type_of(c: u8) -> CommandType {
    match c & 0x7f {
        0x01 => CommandType::Echo,
        0x03 => CommandType::CreateSession,
        0x04 => CommandType::AuthSession,
        0x05 => CommandType::SessionMessage,
        0x06 => CommandType::GetDeviceInfo,
        0x07 => CommandType::Bsl,
        0x08 => CommandType::Reset,
        0x40 => CommandType::CloseSession,
        0x41 => CommandType::StorageStatistics,
        0x42 => CommandType::PutOpaque,
        0x43 => CommandType::GetOpaque,
        0x44 => CommandType::PutAuthKey,
        0x45 => CommandType::PutAsymmetricKey,
        0x46 => CommandType::GenerateAsymmetricKey,
        0x47 => CommandType::SignPkcs1,
        0x48 => CommandType::ListObjects,
        0x49 => CommandType::DecryptPkcs1,
        0x4a => CommandType::ExportWrapped,
        0x4b => CommandType::ImportWrapped,
        0x4c => CommandType::PutWrapKey,
        0x4d => CommandType::GetLogs,
        0x4e => CommandType::GetObjectInfo,
        0x4f => CommandType::PutOption,
        0x50 => CommandType::GetOption,
        0x51 => CommandType::GetPseudoRandom,
        0x52 => CommandType::PutHmacKey,
        0x53 => CommandType::HmacData,
        0x54 => CommandType::GetPubkey,
        0x55 => CommandType::SignPss,
        0x56 => CommandType::SignEcdsa,
        0x57 => CommandType::DecryptEcdh,
        0x58 => CommandType::DeleteObject,
        0x59 => CommandType::DecryptOaep,
        0x5a => CommandType::GenerateHmacKey,
        0x5b => CommandType::GenerateWrapKey,
        0x5c => CommandType::VerifyHmac,
        0x5d => CommandType::SshCertify,
        0x5e => CommandType::PutTemplate,
        0x5f => CommandType::GetTemplate,
        0x60 => CommandType::OtpDecrypt,
        0x61 => CommandType::OtpAeadCreate,
        0x62 => CommandType::OtpAeadRandom,
        0x63 => CommandType::OtpAeadRewrap,
        0x64 => CommandType::AttestAsymmetric,
        0x65 => CommandType::PutOtpAeadKey,
        0x66 => CommandType::GenerateOtpAeadKey,
        0x67 => CommandType::SetLogIndex,
        0x68 => CommandType::WrapData,
        0x69 => CommandType::UnwrapData,
        0x6a => CommandType::SignEddsa,
        0x6b => CommandType::Blink,
        0x7f => CommandType::Error,
        _ => CommandType::Unknown,
    }
}

impl CommandType {
    /// The command that a byte of the audit log names.
    pub fn from_byte(c: u8) -> (r: CommandType)
        ensures
            r == command_type_of(c),
    {
        match c & 0x7f {
            0x01 => CommandType::Echo,
            0x03 => CommandType::CreateSession,
            0x04 => CommandType::AuthSession,
            0x05 => CommandType::SessionMessage,
            0x06 => CommandType::GetDeviceInfo,
            0x07 => CommandType::Bsl,
            0x08 => CommandType::Reset,
            0x40 => CommandType::CloseSession,
            0x41 => CommandType::StorageStatistics,
            0x42 => CommandType::PutOpaque,
            0x43 => CommandType::GetOpaque,
            0x44 => CommandType::PutAuthKey,
            0x45 => CommandType::PutAsymmetricKey,
            0x46 => CommandType::GenerateAsymmetricKey,
            0x47 => CommandType::SignPkcs1,
            0x48 => CommandType::ListObjects,
            0x49 => CommandType::DecryptPkcs1,
            0x4a => CommandType::ExportWrapped,
            0x4b => CommandType::ImportWrapped,
            0x4c => CommandType::PutWrapKey,
            0x4d => CommandType::GetLogs,
            0x4e => CommandType::GetObjectInfo,
            0x4f => CommandType::PutOption,
            0x50 => CommandType::GetOption,
            0x51 => CommandType::GetPseudoRandom,
            0x52 => CommandType::PutHmacKey,
            0x53 => CommandType::HmacData,
            0x54 => CommandType::GetPubkey,
            0x55 => CommandType::SignPss,
            0x56 => CommandType::SignEcdsa,
            0x57 => CommandType::DecryptEcdh,
            0x58 => CommandType::DeleteObject,
            0x59 => CommandType::DecryptOaep,
            0x5a => CommandType::GenerateHmacKey,
            0x5b => CommandType::GenerateWrapKey,
            0x5c => CommandType::VerifyHmac,
            0x5d => CommandType::SshCertify,
            0x5e => CommandType::PutTemplate,
            0x5f => CommandType::GetTemplate,
            0x60 => CommandType::OtpDecrypt,
            0x61 => CommandType::OtpAeadCreate,
            0x62 => CommandType::OtpAeadRandom,
            0x63 => CommandType::OtpAeadRewrap,
            0x64 => CommandType::AttestAsymmetric,
            0x65 => CommandType::PutOtpAeadKey,
            0x66 => CommandType::GenerateOtpAeadKey,
            0x67 => CommandType::SetLogIndex,
            0x68 => CommandType::WrapData,
            0x69 => CommandType::UnwrapData,
            0x6a => CommandType::SignEddsa,
            0x6b => CommandType::Blink,
            0x7f => CommandType::Error,
            _ => CommandType::Unknown,
        }
    }
}

impl HsmLogEntry {
    /// Whether the device answered the entry's command with that command's
    /// response rather than with an error.
    pub open spec fn succeeded_spec(&self) -> bool {
        command_type_of(self.command) == command_type_of(self.result)
    }

    /// Whether the device answered the entry's command with that command's
    /// response rather than with an error.
    pub fn succeeded(&self) -> (r: bool)
        ensures
            r == self.succeeded_spec(),
    {
        CommandType::from_byte(self.command) == CommandType::from_byte(self.result)
    }
}

} // verus!
