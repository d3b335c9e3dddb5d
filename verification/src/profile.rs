//! Output profiles: where and how the programme is sent, and their validation.
use vstd::prelude::*;
use crate::text::{chars_of, is_blank, trim};

verus! {

/// Transport of a profile.
#[derive(Debug, Clone, Copy, PartialEq, Eq, Structural)]
pub enum OutputMode {
    SrtContribution,
    Icecast,
}

/// Where a profile's credential is kept in the system credential store.
#[derive(Debug, Clone, PartialEq, Eq)]
pub struct SecretRef {
    pub service: String,
    pub account: String,
}

/// An output profile.
#[derive(Debug, Clone)]
pub struct Profile {
    pub id: String,
    pub name: String,
    pub mode: OutputMode,
    pub host: String,
    pub port: u16,
    pub stream_id: Option<String>,
    pub mount: Option<String>,
    pub username: Option<String>,
    pub secret: Option<SecretRef>,
    pub credential_mode: Option<OutputMode>,
    pub tls: bool,
    pub bitrate_kbps: u16,
    pub channels: u8,
    pub program_name: Option<String>,
}

/// Why a profile is invalid.
#[derive(Debug, Clone, Copy, PartialEq, Eq, Structural)]
pub enum ProfileError {
    Name,
    Host,
    Port,
    StreamId,
    Mount,
    Bitrate,
    Channels,
}

/// The text of an optional string, empty when absent.
pub open spec fn opt_text(o: Option<String>) -> Seq<char> {
    match o {
        Some(s) => s@,
        None => Seq::empty(),
    }
}

/// A host may not hold a slash, a space or an at sign.
pub open spec fn has_forbidden_host_char(host: Seq<char>) -> bool {
    exists|i: int| 0 <= i < host.len() && (host[i] == '/' || host[i] == ' ' || host[i] == '@')
}

/// The outcome of validating `p`: the first rule that fails, in this order.
pub open spec fn validation(p: Profile) -> Result<(), ProfileError> {
    if trim(p.name@).len() == 0 {
        Err(ProfileError::Name)
    } else if trim(p.host@).len() == 0 || has_forbidden_host_char(p.host@) {
        Err(ProfileError::Host)
    } else if p.port == 0 {
        Err(ProfileError::Port)
    } else if !(32 <= p.bitrate_kbps <= 320) {
        Err(ProfileError::Bitrate)
    } else if p.channels != 1 && p.channels != 2 {
        Err(ProfileError::Channels)
    } else if p.mode == OutputMode::SrtContribution && opt_text(p.stream_id).len() == 0 {
        Err(ProfileError::StreamId)
    } else if p.mode == OutputMode::Icecast && !(opt_text(p.mount).len() > 0
        && opt_text(p.mount)[0] == '/') {
        Err(ProfileError::Mount)
    } else {
        Ok(())
    }
}

/// The user-facing text of a validation error.
pub open spec fn error_message(e: ProfileError) -> Seq<char> {
    match e {
        ProfileError::Name => "profile name is required"@,
        ProfileError::Host => "host is required"@,
        ProfileError::Port => "port must be 1–65535"@,
        ProfileError::StreamId => "SRT requires a stream ID"@,
        ProfileError::Mount => "Icecast requires a mount beginning with /"@,
        ProfileError::Bitrate => "AAC-LC bitrate must be 32–320 kbps"@,
        ProfileError::Channels => "only mono or stereo output is supported"@,
    }
}

impl ProfileError {
    /// The error's message.
    pub fn message(&self) -> (r: &'static str)
        ensures
            r@ == error_message(*self),
    {
        match self {
            ProfileError::Name => "profile name is required",
            ProfileError::Host => "host is required",
            ProfileError::Port => "port must be 1–65535",
            ProfileError::StreamId => "SRT requires a stream ID",
            ProfileError::Mount => "Icecast requires a mount beginning with /",
            ProfileError::Bitrate => "AAC-LC bitrate must be 32–320 kbps",
            ProfileError::Channels => "only mono or stereo output is supported",
        }
    }
}

fn host_has_forbidden_char(host: &str) -> (r: bool)
    ensures
        r == has_forbidden_host_char(host@),
{
    let v = chars_of(host);
    let mut i: usize = 0;
    while i < v.len()
        invariant
            v@ == host@,
            i <= v@.len(),
            forall|k: int| 0 <= k < i ==> !(v@[k] == '/' || v@[k] == ' ' || v@[k] == '@'),
        decreases v.len() - i,
    {
        if v[i] == '/' || v[i] == ' ' || v[i] == '@' {
            return true;
        }
        i = i + 1;
    }
    false
}

fn opt_is_empty(o: &Option<String>) -> (r: bool)
    ensures
        r == (opt_text(*o).len() == 0),
{
    match o {
        Some(s) => s.as_str().is_empty(),
        None => true,
    }
}

fn opt_starts_with_slash(o: &Option<String>) -> (r: bool)
    ensures
        r == (opt_text(*o).len() > 0 && opt_text(*o)[0] == '/'),
{
    match o {
        Some(s) => {
            let t = s.as_str();
            if t.unicode_len() == 0 {
                false
            } else {
                t.get_char(0) == '/'
            }
        },
        None => false,
    }
}

pub(crate) fn clone_opt_string(o: &Option<String>) -> (r: Option<String>)
    ensures
        r == *o,
{
    match o {
        Some(s) => Some(s.clone()),
        None => None,
    }
}

impl SecretRef {
    /// A field-by-field copy.
    pub fn duplicate(&self) -> (r: SecretRef)
        ensures
            r == *self,
    {
        SecretRef { service: self.service.clone(), account: self.account.clone() }
    }
}

pub(crate) fn clone_opt_secret(o: &Option<SecretRef>) -> (r: Option<SecretRef>)
    ensures
        r == *o,
{
    match o {
        Some(s) => Some(s.duplicate()),
        None => None,
    }
}

impl Profile {
    pub fn validate(&self) -> (r: Result<(), ProfileError>)
        ensures
            r == validation(*self),
    {
        if is_blank(self.name.as_str()) {
            return Err(ProfileError::Name);
        }
        if is_blank(self.host.as_str()) || host_has_forbidden_char(self.host.as_str()) {
            return Err(ProfileError::Host);
        }
        if self.port == 0 {
            return Err(ProfileError::Port);
        }
        if !(32 <= self.bitrate_kbps && self.bitrate_kbps <= 320) {
            return Err(ProfileError::Bitrate);
        }
        if self.channels != 1 && self.channels != 2 {
            return Err(ProfileError::Channels);
        }
        match self.mode {
            OutputMode::SrtContribution => {
                if opt_is_empty(&self.stream_id) {
                    Err(ProfileError::StreamId)
                } else {
                    Ok(())
                }
            },
            OutputMode::Icecast => {
                if !opt_starts_with_slash(&self.mount) {
                    Err(ProfileError::Mount)
                } else {
                    Ok(())
                }
            },
        }
    }

    /// A field-by-field copy, with the credential replaced by `secret`.
    pub fn with_secret(&self, secret: Option<SecretRef>) -> (r: Profile)
        ensures
            r == (Profile { secret, ..*self }),
    {
        Profile {
            id: self.id.clone(),
            name: self.name.clone(),
            mode: self.mode,
            host: self.host.clone(),
            port: self.port,
            stream_id: clone_opt_string(&self.stream_id),
            mount: clone_opt_string(&self.mount),
            username: clone_opt_string(&self.username),
            secret,
            credential_mode: self.credential_mode,
            tls: self.tls,
            bitrate_kbps: self.bitrate_kbps,
            channels: self.channels,
            program_name: clone_opt_string(&self.program_name),
        }
    }

    /// A field-by-field copy.
    pub fn duplicate(&self) -> (r: Profile)
        ensures
            r == *self,
    {
        self.with_secret(clone_opt_secret(&self.secret))
    }

    /// The profile as it may be exported: everything but the credential reference.
    pub fn export_without_secrets(&self) -> (r: Profile)
        ensures
            r == (Profile { secret: None, ..*self }),
    {
        self.with_secret(None)
    }
}


/// Exporting a profile without its credential does not change whether, and
/// why, it is valid.
pub proof fn export_keeps_validity(p: Profile)
    ensures
        validation(Profile { secret: None, ..p }) == validation(p),
{
}

/// A host holding a slash, a space or an at sign is refused as a host, once
/// the profile has a name: such a host can carry a path or credentials.
pub proof fn host_with_path_or_credentials_is_refused(p: Profile, i: int)
    requires
        trim(p.name@).len() > 0,
        0 <= i < p.host@.len(),
        p.host@[i] == '/' || p.host@[i] == ' ' || p.host@[i] == '@',
    ensures
        validation(p) == Err::<(), ProfileError>(ProfileError::Host),
{
    assert(has_forbidden_host_char(p.host@));
}

} // verus!
