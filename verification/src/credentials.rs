//! Saved profiles and their credentials: which stored credential a profile may
//! use, and what saving or deleting a profile does to the saved list and to
//! the system credential store.
use vstd::prelude::*;
use crate::profile::{OutputMode, Profile, ProfileError, SecretRef, validation};
use crate::text::{is_blank, same_text, trim};

verus! {

/// Credential-store service under which profile credentials are kept.
pub const SECRET_SERVICE: &'static str = "ee.melukoda.studio.profile";

/// A credential reference this application may use: its own service and a
/// non-blank account.
pub open spec fn valid_secret_ref(r: SecretRef) -> bool {
    r.service@ == SECRET_SERVICE@ && trim(r.account@).len() > 0
}

pub fn is_valid_secret_ref(r: &SecretRef) -> (b: bool)
    ensures
        b == valid_secret_ref(*r),
{
    same_text(r.service.as_str(), SECRET_SERVICE) && !is_blank(r.account.as_str())
}

/// The reference under which the credential of profile `profile_id` is stored.
pub fn secret_ref_for(profile_id: &str) -> (r: SecretRef)
    ensures
        r.service@ == SECRET_SERVICE@,
        r.account@ == profile_id@,
{
    SecretRef { service: SECRET_SERVICE.to_string(), account: profile_id.to_string() }
}

/// Position of the first saved profile with id `id`, searching from `i`.
pub open spec fn index_of_id_from(ps: Seq<Profile>, id: Seq<char>, i: int) -> Option<int>
    decreases ps.len() - i,
{
    if i < 0 || i >= ps.len() {
        None
    } else if ps[i].id@ == id {
        Some(i)
    } else {
        index_of_id_from(ps, id, i + 1)
    }
}

/// Position of the first saved profile with id `id`.
pub open spec fn index_of_id(ps: Seq<Profile>, id: Seq<char>) -> Option<int> {
    index_of_id_from(ps, id, 0)
}

pub proof fn lemma_index_of_id(ps: Seq<Profile>, id: Seq<char>, i: int)
    requires
        0 <= i <= ps.len(),
    ensures
        index_of_id_from(ps, id, i) matches Some(k) ==> i <= k < ps.len() && ps[k].id@ == id
            && forall|j: int| i <= j < k ==> #[trigger] ps[j].id@ != id,
        index_of_id_from(ps, id, i) is None ==> forall|j: int| i <= j < ps.len() ==> #[trigger] ps[j].id@ != id,
    decreases ps.len() - i,
{
    if i < ps.len() && ps[i].id@ != id {
        lemma_index_of_id(ps, id, i + 1);
    }
}

/// Finds the first saved profile with id `id`.
pub fn find_profile(ps: &Vec<Profile>, id: &str) -> (r: Option<usize>)
    ensures
        (match r {
            Some(k) => index_of_id(ps@, id@) == Some(k as int) && k < ps@.len() && ps@[k as int].id@ == id@,
            None => index_of_id(ps@, id@) is None,
        }),
{
    proof {
        lemma_index_of_id(ps@, id@, 0);
    }
    let mut i: usize = 0;
    while i < ps.len()
        invariant
            i <= ps@.len(),
            index_of_id(ps@, id@) == index_of_id_from(ps@, id@, i as int),
        decreases ps.len() - i,
    {
        if same_text(ps[i].id.as_str(), id) {
            return Some(i);
        }
        i = i + 1;
    }
    None
}

/// Whether a profile with id `id` has been saved.
pub fn has_profile(ps: &Vec<Profile>, id: &str) -> (r: bool)
    ensures
        r == (exists|k: int| 0 <= k < ps@.len() && #[trigger] ps@[k].id@ == id@),
{
    let found = find_profile(ps, id);
    proof {
        lemma_index_of_id(ps@, id@, 0);
    }
    found.is_some()
}

/// Where the credential for a connection comes from.
pub enum SecretSource {
    /// The credential typed in for this run.
    Runtime(String),
    /// The credential stored for the saved profile under this reference.
    Stored(SecretRef),
    /// No credential.
    Absent,
}

/// A non-empty runtime credential wins. Otherwise the credential stored with the
/// saved profile of the same id is used, but only when the saved profile has the
/// same transport and, for SRT, the credential was saved for SRT.
pub open spec fn secret_source(p: Profile, runtime: Option<String>, saved: Seq<Profile>) -> SecretSource {
    match runtime {
        Some(r) if r@.len() > 0 => SecretSource::Runtime(r),
        _ => match index_of_id(saved, p.id@) {
            None => SecretSource::Absent,
            Some(k) => {
                let s = saved[k];
                if s.mode != p.mode {
                    SecretSource::Absent
                } else if p.mode == OutputMode::SrtContribution && s.credential_mode != Some(
                    OutputMode::SrtContribution,
                ) {
                    SecretSource::Absent
                } else {
                    match s.secret {
                        None => SecretSource::Absent,
                        Some(r) => SecretSource::Stored(r),
                    }
                }
            },
        },
    }
}

pub fn resolve_secret_source(profile: &Profile, runtime_secret: Option<String>, saved: &Vec<Profile>) -> (r: SecretSource)
    ensures
        r == secret_source(*profile, runtime_secret, saved@),
{
    match runtime_secret {
        Some(secret) => {
            if secret.as_str().unicode_len() > 0 {
                return SecretSource::Runtime(secret);
            }
        },
        None => {},
    }
    let found = find_profile(saved, profile.id.as_str());
    match found {
        None => SecretSource::Absent,
        Some(k) => {
            let s = &saved[k];
            if s.mode != profile.mode {
                SecretSource::Absent
            } else if profile.mode == OutputMode::SrtContribution && s.credential_mode != Some(
                OutputMode::SrtContribution,
            ) {
                SecretSource::Absent
            } else {
                match &s.secret {
                    None => SecretSource::Absent,
                    Some(r) => SecretSource::Stored(r.duplicate()),
                }
            }
        },
    }
}


/// What saving a profile does to the system credential store.
pub enum CredentialAction {
    /// Nothing.
    Keep,
    /// Delete the credential stored under this reference.
    Remove(SecretRef),
    /// Store this credential under this reference.
    Store(SecretRef, String),
}

/// Which of the credential rules applies when a profile is saved.
#[derive(Debug, Clone, Copy, PartialEq, Eq, Structural)]
pub enum SaveCase {
    /// The user asked to clear the credential.
    Cleared,
    /// A new credential was typed in.
    Supplied,
    /// The stored credential belongs to another transport and is dropped.
    Dropped,
    /// The stored credential (if any) is kept.
    Kept,
}

/// The saved profile with the same id, if any.
pub open spec fn previous(saved: Seq<Profile>, id: Seq<char>) -> Option<Profile> {
    match index_of_id(saved, id) {
        Some(k) => Some(saved[k]),
        None => None,
    }
}

/// The credential reference the saved profile carries, if any.
pub open spec fn previous_secret(saved: Seq<Profile>, id: Seq<char>) -> Option<SecretRef> {
    match previous(saved, id) {
        Some(q) => q.secret,
        None => None,
    }
}

pub open spec fn save_case(p: Profile, runtime: Option<String>, clear: Option<bool>, saved: Seq<Profile>) -> SaveCase {
    let prev = previous(saved, p.id@);
    let mode_changed = match prev {
        Some(q) => q.mode != p.mode,
        None => false,
    };
    let supplied = match runtime {
        Some(r) => r@.len() > 0,
        None => false,
    };
    let matches_mode = match prev {
        Some(q) => q.credential_mode == Some(p.mode) || (p.mode == OutputMode::Icecast
            && q.credential_mode is None),
        None => false,
    };
    if clear == Some(true) {
        SaveCase::Cleared
    } else if supplied {
        SaveCase::Supplied
    } else if mode_changed || (!matches_mode && previous_secret(saved, p.id@) is Some) {
        SaveCase::Dropped
    } else {
        SaveCase::Kept
    }
}

/// `ps` with `p` in place of the first profile of the same id, or appended.
pub open spec fn upsert(ps: Seq<Profile>, p: Profile) -> Seq<Profile> {
    match index_of_id(ps, p.id@) {
        Some(k) => ps.update(k, p),
        None => ps.push(p),
    }
}

/// What saving a profile amounts to.
pub struct SavePlan {
    pub credential: CredentialAction,
    pub profile: Profile,
    pub profiles: Vec<Profile>,
    pub message: String,
}

fn remove_previous(prev: &Option<SecretRef>) -> (a: CredentialAction)
    ensures
        (match *prev {
            Some(r) => a == CredentialAction::Remove(r),
            None => a == CredentialAction::Keep,
        }),
{
    match prev {
        Some(r) => CredentialAction::Remove(r.duplicate()),
        None => CredentialAction::Keep,
    }
}

/// Plans saving `profile` into the saved list: validates it, decides what
/// becomes of its credential, and replaces or appends it.
pub fn plan_profile_save(
    profile: Profile,
    runtime_secret: Option<String>,
    clear_secret: Option<bool>,
    saved: Vec<Profile>,
) -> (r: Result<SavePlan, ProfileError>)
    ensures
        (match r {
            Err(e) => validation(profile) == Err::<(), ProfileError>(e),
            Ok(plan) => {
                let case = save_case(profile, runtime_secret, clear_secret, saved@);
                let prev = previous_secret(saved@, profile.id@);
                &&& validation(profile) is Ok
                &&& plan.profile.id == profile.id && plan.profile.name == profile.name
                &&& plan.profile == (Profile {
                    secret: plan.profile.secret,
                    credential_mode: plan.profile.credential_mode,
                    ..profile
                })
                &&& plan.profile.credential_mode == (if plan.profile.secret is Some {
                    Some(profile.mode)
                } else {
                    None
                })
                &&& (case == SaveCase::Cleared || case == SaveCase::Dropped) ==> {
                    &&& plan.profile.secret is None
                    &&& (match prev {
                        Some(q) => plan.credential == CredentialAction::Remove(q),
                        None => plan.credential == CredentialAction::Keep,
                    })
                }
                &&& case == SaveCase::Supplied ==> {
                    &&& plan.profile.secret matches Some(q) && q.service@ == SECRET_SERVICE@
                        && q.account@ == profile.id@
                    &&& plan.credential == CredentialAction::Store(plan.profile.secret->0, runtime_secret->0)
                }
                &&& case == SaveCase::Kept ==> {
                    &&& plan.profile.secret == prev
                    &&& plan.credential == CredentialAction::Keep
                }
                &&& plan.profiles@ == upsert(saved@, plan.profile)
                &&& plan.message@ == (if plan.profile.secret is Some {
                    "Saved profile "@ + profile.name@ + " and its credential reference."@
                } else {
                    "Saved profile "@ + profile.name@ + " without a credential."@
                })
            },
        }),
{
    match profile.validate() {
        Err(e) => { return Err(e); },
        Ok(()) => {},
    }
    let found = find_profile(&saved, profile.id.as_str());
    let prev_secret: Option<SecretRef> = match found {
        Some(k) => crate::profile::clone_opt_secret(&saved[k].secret),
        None => None,
    };
    let mode_changed = match found {
        Some(k) => saved[k].mode != profile.mode,
        None => false,
    };
    let matches_mode = match found {
        Some(k) => saved[k].credential_mode == Some(profile.mode) || (profile.mode
            == OutputMode::Icecast && saved[k].credential_mode.is_none()),
        None => false,
    };
    let supplied = match &runtime_secret {
        Some(v) => v.as_str().unicode_len() > 0,
        None => false,
    };
    let (credential, secret): (CredentialAction, Option<SecretRef>) = if clear_secret == Some(true) {
        (remove_previous(&prev_secret), None)
    } else if supplied {
        let reference = secret_ref_for(profile.id.as_str());
        let value = match runtime_secret {
            Some(v) => v,
            None => String::new(),
        };
        (CredentialAction::Store(reference.duplicate(), value), Some(reference))
    } else if mode_changed || (!matches_mode && prev_secret.is_some()) {
        (remove_previous(&prev_secret), None)
    } else {
        (CredentialAction::Keep, prev_secret)
    };
    let credential_mode = if secret.is_some() { Some(profile.mode) } else { None };
    let mut updated = profile.with_secret(secret);
    updated.credential_mode = credential_mode;
    let mut profiles = saved;
    match found {
        Some(k) => {
            profiles.set(k, updated.duplicate());
        },
        None => {
            profiles.push(updated.duplicate());
        },
    }
    let mut message = String::new();
    message.append("Saved profile ");
    message.append(profile.name.as_str());
    if updated.secret.is_some() {
        message.append(" and its credential reference.");
    } else {
        message.append(" without a credential.");
    }
    Ok(SavePlan { credential, profile: updated, profiles, message })
}

/// Why a profile cannot be deleted.
#[derive(Debug, Clone, Copy, PartialEq, Eq, Structural)]
pub enum DeleteError {
    /// No saved profile has that id.
    NotFound,
}

impl DeleteError {
    pub fn message(&self) -> (r: &'static str)
        ensures
            r@ == "Profile no longer exists."@,
    {
        "Profile no longer exists."
    }
}

/// What deleting a profile amounts to: the remaining saved list, and the
/// credential of the deleted profile, to be removed from the credential store.
pub struct DeletePlan {
    pub profiles: Vec<Profile>,
    pub secret: Option<SecretRef>,
}

/// Plans deleting every saved profile with id `id`.
pub fn plan_profile_delete(saved: &Vec<Profile>, id: &str) -> (r: Result<DeletePlan, DeleteError>)
    ensures
        (match r {
            Err(_) => forall|k: int| 0 <= k < saved@.len() ==> #[trigger] saved@[k].id@ != id@,
            Ok(plan) => {
                &&& exists|k: int| 0 <= k < saved@.len() && #[trigger] saved@[k].id@ == id@
                &&& plan.profiles@ == saved@.filter(|p: Profile| p.id@ != id@)
                &&& plan.secret == previous_secret(saved@, id@)
            },
        }),
{
    let found = find_profile(saved, id);
    let secret = match found {
        Some(k) => crate::profile::clone_opt_secret(&saved[k].secret),
        None => None,
    };
    let ghost pred = |p: Profile| p.id@ != id@;
    let mut remaining: Vec<Profile> = Vec::new();
    let mut i: usize = 0;
    while i < saved.len()
        invariant
            i <= saved@.len(),
            pred == (|p: Profile| p.id@ != id@),
            remaining@ == saved@.take(i as int).filter(pred),
        decreases saved.len() - i,
    {
        let keep = !same_text(saved[i].id.as_str(), id);
        if keep {
            remaining.push(saved[i].duplicate());
        }
        proof {
            reveal_with_fuel(Seq::<_>::filter, 1);
            assert(saved@.take(i + 1).drop_last() =~= saved@.take(i as int));
            assert(saved@.take(i + 1).last() == saved@[i as int]);
            assert(pred(saved@[i as int]) == keep);
        }
        i = i + 1;
    }
    proof {
        assert(saved@.take(saved@.len() as int) =~= saved@);
        lemma_index_of_id(saved@, id@, 0);
    }
    match found {
        None => Err(DeleteError::NotFound),
        Some(_) => Ok(DeletePlan { profiles: remaining, secret }),
    }
}


proof fn lemma_upsert_finds(ps: Seq<Profile>, p: Profile)
    ensures
        index_of_id(upsert(ps, p), p.id@) matches Some(k) && upsert(ps, p)[k] == p,
{
    lemma_index_of_id(ps, p.id@, 0);
    let u = upsert(ps, p);
    lemma_index_of_id(u, p.id@, 0);
    match index_of_id(ps, p.id@) {
        Some(k) => {
            assert(u[k] == p);
            if index_of_id(u, p.id@) is None {
                assert(u[k].id@ == p.id@);
            } else {
                let j = index_of_id(u, p.id@)->Some_0;
                if j < k {
                    assert(u[j] == ps[j]);
                } else if j > k {
                    assert(u[k].id@ == p.id@);
                }
            }
        },
        None => {
            assert(u[ps.len() as int] == p);
            if index_of_id(u, p.id@) is None {
                assert(u[ps.len() as int].id@ == p.id@);
            } else {
                let j = index_of_id(u, p.id@)->Some_0;
                if j < ps.len() {
                    assert(u[j] == ps[j]);
                }
            }
        },
    }
}

/// What is saved is found again: once a profile carrying a credential has
/// been saved (with its credential mode, as a save records it), a connection
/// for that profile id and transport without a typed-in credential uses the
/// saved credential reference.
pub proof fn saved_credential_is_used(saved: Seq<Profile>, p: Profile, q: Profile, runtime: Option<String>)
    requires
        p.secret is Some,
        p.credential_mode == Some(p.mode),
        q.id@ == p.id@,
        q.mode == p.mode,
        runtime matches Some(r) ==> r@.len() == 0,
    ensures
        secret_source(q, runtime, upsert(saved, p)) == SecretSource::Stored(p.secret->0),
{
    lemma_upsert_finds(saved, p);
}

/// A stored credential is only ever used for the transport it was saved with,
/// and an SRT passphrase only when it was recorded as one.
pub proof fn stored_credential_matches_transport(p: Profile, runtime: Option<String>, saved: Seq<Profile>, r: SecretRef)
    requires
        secret_source(p, runtime, saved) == SecretSource::Stored(r),
    ensures
        previous(saved, p.id@) matches Some(q) && q.mode == p.mode && q.secret == Some(r)
            && (p.mode == OutputMode::SrtContribution ==> q.credential_mode == Some(OutputMode::SrtContribution)),
{
}

/// After a profile is deleted no saved profile has its id, so no stored
/// credential is used for it any more.
pub proof fn deleted_profile_is_gone(saved: Seq<Profile>, id: Seq<char>, q: Profile)
    requires
        q.id@ == id,
    ensures
        index_of_id(saved.filter(|p: Profile| p.id@ != id), id) is None,
        secret_source(q, None, saved.filter(|p: Profile| p.id@ != id)) == SecretSource::Absent,
{
    let rest = saved.filter(|p: Profile| p.id@ != id);
    lemma_index_of_id(rest, id, 0);
    if index_of_id(rest, id) is Some {
        let k = index_of_id(rest, id)->Some_0;
        saved.lemma_filter_pred(|p: Profile| p.id@ != id, k);
    }
}

} // verus!
