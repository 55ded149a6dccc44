//! Authentication for a push: an ordered chain of credential providers,
//! tried one after another as the transport challenges.
//!
//! `CredentialChain` keeps that order for a caller that holds its providers
//! as a list. A caller whose credential source does its own sequencing tells
//! each provider it selected with `auth_attempt_message`, and hands the
//! result of the push to the batch like any other.

use vstd::prelude::*;
use vstd::string::*;
use crate::report::{LineView, ReportLine, Tone};

verus! {

/// A way to obtain a credential.
#[derive(Clone, Copy, Debug, PartialEq, Eq)]
pub enum Provider {
    /// An SSH key, held by the agent or read from a key file.
    SshKey,
    /// User name and password, stored for the remote or typed in.
    UserPassword,
    /// The credentials that the system holds for the current user.
    Default,
    /// A user name alone, for a transport that asks for one first.
    UserName,
}

/// An ordered chain of providers and how many of them were offered so far.
/// Each challenge takes the next provider; none is offered twice.
#[derive(Clone, Debug, PartialEq, Eq)]
pub struct CredentialChain {
    pub providers: Vec<Provider>,
    pub offered: usize,
}

/// How a push ended as far as authentication goes.
#[derive(Clone, Copy, Debug, PartialEq, Eq)]
pub enum PushVerdict {
    /// The transport accepted the credential of the provider at this position.
    Accepted { position: usize },
    /// Every provider was offered and none accepted: the push fails.
    Exhausted,
}

/// Whether the transport accepts the provider at `position`. A provider
/// that `accepts` says nothing of is rejected.
pub open spec fn accepted_at(accepts: Seq<bool>, position: int) -> bool {
    0 <= position < accepts.len() && accepts[position]
}

/// The verdict on a chain of `len` providers, `offered` of them spent, where
/// the transport accepts as `accepts` says: the first provider not yet
/// offered that is accepted, or exhaustion.
pub open spec fn verdict_of(len: int, offered: int, accepts: Seq<bool>, verdict: PushVerdict) -> bool {
    match verdict {
        PushVerdict::Accepted { position } => {
            &&& offered <= position < len
            &&& accepted_at(accepts, position as int)
            &&& forall|j: int| offered <= j < position ==> !accepted_at(accepts, j)
        },
        PushVerdict::Exhausted => forall|j: int| offered <= j < len ==> !accepted_at(accepts, j),
    }
}

impl CredentialChain {
    /// A chain of which nothing was offered yet.
    pub fn new(providers: Vec<Provider>) -> (chain: CredentialChain)
        ensures
            chain.providers@ == providers@,
            chain.offered == 0,
    {
        CredentialChain { providers, offered: 0 }
    }

    /// Whether every provider was offered.
    pub fn exhausted(&self) -> (done: bool)
        ensures
            done == (self.offered >= self.providers.len()),
    {
        self.offered >= self.providers.len()
    }

    /// Answers a challenge: the next provider of the chain, or none once
    /// the chain is exhausted.
    pub fn next_credential(&mut self) -> (next: Option<Provider>)
        ensures
            final(self).providers == old(self).providers,
            old(self).offered < old(self).providers.len() ==> {
                &&& next == Some(old(self).providers[old(self).offered as int])
                &&& final(self).offered == old(self).offered + 1
            },
            old(self).offered >= old(self).providers.len() ==> {
                &&& next is None
                &&& final(self).offered == old(self).offered
            },
    {
        if self.offered < self.providers.len() {
            let p = self.providers[self.offered];
            self.offered = self.offered + 1;
            Some(p)
        } else {
            None
        }
    }

    /// Goes through the challenges of one push: providers are offered in
    /// order until the transport accepts one or the chain is exhausted.
    /// `accepts[i]` says whether the transport accepts provider `i`.
    pub fn answer_challenges(&mut self, accepts: &Vec<bool>) -> (verdict: PushVerdict)
        ensures
            final(self).providers == old(self).providers,
            verdict_of(
                old(self).providers.len() as int,
                old(self).offered as int,
                accepts@,
                verdict,
            ),
            verdict matches PushVerdict::Accepted { position } ==> final(self).offered == position + 1,
            verdict is Exhausted ==> final(self).offered == if old(self).offered
                >= old(self).providers.len() {
                old(self).offered
            } else {
                old(self).providers.len()
            },
    {
        loop
            invariant
                self.providers == old(self).providers,
                old(self).offered <= self.offered,
                forall|j: int| old(self).offered <= j < self.offered ==> !accepted_at(accepts@, j),
                self.offered <= self.providers.len() || self.offered == old(self).offered,
            decreases self.providers.len() - self.offered,
        {
            let position = self.offered;
            match self.next_credential() {
                None => {
                    return PushVerdict::Exhausted;
                },
                Some(_) => {
                    if position < accepts.len() && accepts[position] {
                        return PushVerdict::Accepted { position };
                    }
                },
            }
        }
    }
}

/// The failure that a push ends with once no provider is left.
pub open spec fn exhaustion_text() -> Seq<char> {
    "no credential was accepted"@
}

/// What a verdict means for the push: success, or failure with its cause.
pub fn push_result(verdict: PushVerdict) -> (result: Result<(), String>)
    ensures
        verdict is Accepted <==> result is Ok,
        verdict is Exhausted ==> result is Err && result->Err_0@ == exhaustion_text(),
{
    match verdict {
        PushVerdict::Accepted { .. } => Ok(()),
        PushVerdict::Exhausted => Err(String::from_str("no credential was accepted")),
    }
}

/// How a provider is named to the operator.
pub open spec fn provider_text(provider: Provider) -> Seq<char> {
    match provider {
        Provider::SshKey => "an SSH key"@,
        Provider::UserPassword => "user name and password"@,
        Provider::Default => "default credentials"@,
        Provider::UserName => "a user name"@,
    }
}

/// What is told before a credential is tried for `url`: the user, the
/// target and the provider selected.
pub open spec fn attempt_text(url: Seq<char>, username: Option<Seq<char>>, provider: Provider) -> Seq<
    char,
> {
    match username {
        Some(name) => "Try authenticating with \""@ + name + "\" username for "@ + url + " by "@
            + provider_text(provider) + "..."@,
        None => "Try authenticating for "@ + url + ", without username, by "@ + provider_text(
            provider,
        ) + "..."@,
    }
}

/// The user name as a sequence of characters.
pub open spec fn name_text(username: Option<&str>) -> Option<Seq<char>> {
    match username {
        Some(name) => Some(name@),
        None => None,
    }
}

/// How a provider is named to the operator.
pub fn provider_name(provider: Provider) -> (name: &'static str)
    ensures
        name@ == provider_text(provider),
{
    match provider {
        Provider::SshKey => "an SSH key",
        Provider::UserPassword => "user name and password",
        Provider::Default => "default credentials",
        Provider::UserName => "a user name",
    }
}

/// The line told before a credential is tried: the provider selected and
/// the target URL, with the user name where the transport gave one.
pub fn auth_attempt_message(url: &str, username: Option<&str>, provider: Provider) -> (line: ReportLine)
    ensures
        line@ == (LineView {
            tone: Tone::Dim,
            text: attempt_text(url@, name_text(username), provider),
        }),
{
    let mut text = match username {
        Some(name) => {
            let mut text = String::from_str("Try authenticating with \"");
            text.append(name);
            text.append("\" username for ");
            text.append(url);
            text.append(" by ");
            text
        },
        None => {
            let mut text = String::from_str("Try authenticating for ");
            text.append(url);
            text.append(", without username, by ");
            text
        },
    };
    text.append(provider_name(provider));
    text.append("...");
    ReportLine { tone: Tone::Dim, text }
}

} // verus!
