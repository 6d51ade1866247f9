//! Keeping the credentials of a session fresh.
//!
//! A refresh is a short conversation with the provider's token endpoint.
//! This module decides what has to be asked and what to make of the
//! answers; the caller does the asking. Each step either ends the refresh
//! or names the one refresh token to exchange next. The root identity goes
//! first and the secondary Discord identity after it, never both at once.

use crate::error::TelescopeError;
use crate::identity::{AuthenticatedIdentities, DiscordIdentity, GitHubIdentity, RootIdentity};
use vstd::prelude::*;

verus! {

/// Where the refresh of a root identity stands.
#[derive(Clone, Debug, PartialEq, Eq)]
pub enum RootRefresh {
    /// The identity is good as it is.
    Done(RootIdentity),
    /// This Discord credential has run out: its refresh token has to be
    /// exchanged for a new credential.
    Exchange(DiscordIdentity),
}

/// A refresh that waits for the token endpoint's answer.
#[derive(Clone, Debug, PartialEq, Eq)]
pub enum PendingRefresh {
    /// The root identity has run out.
    Root {
        /// The root credential to replace.
        expired: DiscordIdentity,
        /// The secondary GitHub slot of the session.
        github: Option<GitHubIdentity>,
        /// The secondary Discord slot of the session.
        discord: Option<DiscordIdentity>,
    },
    /// The root identity is good and the secondary Discord identity has run
    /// out.
    Secondary {
        /// The root identity of the session.
        root: RootIdentity,
        /// The secondary GitHub slot of the session.
        github: Option<GitHubIdentity>,
        /// The secondary credential to replace.
        expired: DiscordIdentity,
    },
}

/// Where the refresh of a session stands.
#[derive(Clone, Debug, PartialEq, Eq)]
pub enum Refresh {
    /// The refresh is over: this is the session to go on with.
    Done(AuthenticatedIdentities),
    /// The token endpoint has to be asked; the refresh goes on with its
    /// answer.
    Exchange(PendingRefresh),
}

impl RootIdentity {
    /// What [`Self::refresh`] returns at `now`.
    pub open spec fn refresh_spec(self, now: int) -> RootRefresh {
        match self {
            RootIdentity::Discord(d) if d@.is_expired(now) => RootRefresh::Exchange(d),
            _ => RootRefresh::Done(self),
        }
    }

    /// Refresh this identity token if necessary. A GitHub token never
    /// expires and is handed back as it is, and so is a Discord credential
    /// whose expiry has not passed at `now` (seconds since the Unix epoch).
    /// A Discord credential that has run out is handed back for exchange.
    pub fn refresh(self, now: i64) -> (r: RootRefresh)
        ensures
            r == self.refresh_spec(now as int),
    {
        match self {
            RootIdentity::Discord(d) => {
                if d.is_expired(now) {
                    RootRefresh::Exchange(d)
                } else {
                    RootRefresh::Done(RootIdentity::Discord(d))
                }
            },
            RootIdentity::GitHub(g) => RootRefresh::Done(RootIdentity::GitHub(g)),
        }
    }

    /// The root identity after an exchange: the credential that the token
    /// endpoint granted, whole, or the endpoint's error. Nothing of the
    /// credential that ran out is kept.
    pub fn refreshed(answer: Result<DiscordIdentity, TelescopeError>) -> (r: Result<
        RootIdentity,
        TelescopeError,
    >)
        ensures
            r == (match answer {
                Ok(granted) => Ok::<RootIdentity, TelescopeError>(RootIdentity::Discord(granted)),
                Err(e) => Err(e),
            }),
    {
        match answer {
            Ok(granted) => Ok(RootIdentity::Discord(granted)),
            Err(e) => Err(e),
        }
    }
}

impl AuthenticatedIdentities {
    /// What is left to do once the root identity is good: the secondary
    /// Discord identity is exchanged if it has run out.
    pub open spec fn refresh_secondary_spec(self, now: int) -> Refresh {
        match self.discord {
            Some(d) if d@.is_expired(now) => Refresh::Exchange(
                PendingRefresh::Secondary { root: self.root, github: self.github, expired: d },
            ),
            _ => Refresh::Done(self),
        }
    }

    /// What [`Self::refresh`] returns at `now`.
    pub open spec fn refresh_spec(self, now: int) -> Refresh {
        match self.root {
            RootIdentity::Discord(d) if d@.is_expired(now) => Refresh::Exchange(
                PendingRefresh::Root { expired: d, github: self.github, discord: self.discord },
            ),
            _ => self.refresh_secondary_spec(now),
        }
    }

    fn refresh_secondary(self, now: i64) -> (r: Refresh)
        ensures
            r == self.refresh_secondary_spec(now as int),
    {
        let AuthenticatedIdentities { root, github, discord } = self;
        match discord {
            Some(d) => {
                if d.is_expired(now) {
                    Refresh::Exchange(PendingRefresh::Secondary { root, github, expired: d })
                } else {
                    Refresh::Done(AuthenticatedIdentities { root, github, discord: Some(d) })
                }
            },
            None => Refresh::Done(AuthenticatedIdentities { root, github, discord: None }),
        }
    }

    /// If necessary, refresh an identity cookie. The root identity is looked
    /// at first, the secondary Discord identity after it. The session comes
    /// back untouched where no credential has run out at `now` (seconds
    /// since the Unix epoch); otherwise the refresh waits for the exchange
    /// of the first credential that has.
    pub fn refresh(self, now: i64) -> (r: Refresh)
        ensures
            r == self.refresh_spec(now as int),
    {
        let AuthenticatedIdentities { root, github, discord } = self;
        match root.refresh(now) {
            RootRefresh::Exchange(expired) => Refresh::Exchange(
                PendingRefresh::Root { expired, github, discord },
            ),
            RootRefresh::Done(root) => AuthenticatedIdentities {
                root,
                github,
                discord,
            }.refresh_secondary(now),
        }
    }
}

impl PendingRefresh {
    /// The credential that has run out.
    pub open spec fn expired(self) -> DiscordIdentity {
        match self {
            PendingRefresh::Root { expired, .. } => expired,
            PendingRefresh::Secondary { expired, .. } => expired,
        }
    }

    /// The session as it stood when the refresh began to wait.
    pub open spec fn identities(self) -> AuthenticatedIdentities {
        match self {
            PendingRefresh::Root { expired, github, discord } => AuthenticatedIdentities {
                root: RootIdentity::Discord(expired),
                github,
                discord,
            },
            PendingRefresh::Secondary { root, github, expired } => AuthenticatedIdentities {
                root,
                github,
                discord: Some(expired),
            },
        }
    }

    /// What [`Self::resume`] returns.
    pub open spec fn resume_spec(
        self,
        answer: Result<DiscordIdentity, TelescopeError>,
        now: int,
    ) -> Result<Refresh, TelescopeError> {
        match self {
            PendingRefresh::Root { expired, github, discord } => match answer {
                Ok(granted) => Ok(
                    AuthenticatedIdentities {
                        root: RootIdentity::Discord(granted),
                        github,
                        discord,
                    }.refresh_secondary_spec(now),
                ),
                Err(e) => Err(e),
            },
            PendingRefresh::Secondary { root, github, expired } => match answer {
                Ok(granted) => Ok(
                    Refresh::Done(AuthenticatedIdentities { root, github, discord: Some(granted) }),
                ),
                Err(_) => Ok(
                    Refresh::Done(AuthenticatedIdentities { root, github, discord: Some(expired) }),
                ),
            },
        }
    }

    /// The refresh token to hand to the token endpoint.
    pub fn refresh_token(&self) -> (token: &String)
        ensures
            *token == self.expired().refresh_token,
    {
        match self {
            PendingRefresh::Root { expired, .. } => &expired.refresh_token,
            PendingRefresh::Secondary { expired, .. } => &expired.refresh_token,
        }
    }

    /// Goes on with the token endpoint's answer.
    ///
    /// For the root identity, a granted credential takes the place of the
    /// one that ran out and the secondary Discord identity is looked at
    /// next, at `now`; an error ends the refresh and is handed on as it
    /// came. For the secondary identity, a granted credential takes the
    /// place of the one that ran out; an error is dropped and the stale
    /// credential stays, so that a broken secondary link never costs the
    /// visitor the session.
    pub fn resume(self, answer: Result<DiscordIdentity, TelescopeError>, now: i64) -> (r: Result<
        Refresh,
        TelescopeError,
    >)
        ensures
            r == self.resume_spec(answer, now as int),
    {
        match self {
            PendingRefresh::Root { expired: _, github, discord } => match RootIdentity::refreshed(
                answer,
            ) {
                Ok(root) => Ok(AuthenticatedIdentities { root, github, discord }.refresh_secondary(now)),
                Err(e) => Err(e),
            },
            PendingRefresh::Secondary { root, github, expired } => match answer {
                Ok(granted) => Ok(
                    Refresh::Done(AuthenticatedIdentities { root, github, discord: Some(granted) }),
                ),
                Err(_) => Ok(
                    Refresh::Done(AuthenticatedIdentities { root, github, discord: Some(expired) }),
                ),
            },
        }
    }
}

/// Refreshing a session that holds no Discord credential changes nothing
/// and asks nothing of the token endpoint, at any time.
pub proof fn lemma_github_only_refresh_is_idle(session: AuthenticatedIdentities, now: int)
    requires
        session.root is GitHub,
        session.discord is None,
    ensures
        session.refresh_spec(now) == Refresh::Done(session),
{
}

/// Refreshing a session in which no credential has run out changes nothing
/// and asks nothing of the token endpoint.
pub proof fn lemma_fresh_session_refresh_is_idle(session: AuthenticatedIdentities, now: int)
    requires
        session.root matches RootIdentity::Discord(d) ==> !d@.is_expired(now),
        session.discord matches Some(d) ==> !d@.is_expired(now),
    ensures
        session.refresh_spec(now) == Refresh::Done(session),
{
}

/// A well-formed session whose root is a Discord credential that has run out
/// is refreshed with exactly one exchange, of that credential's refresh token.
/// When the token endpoint grants a credential the refresh is over, and the
/// session's Discord credential is the granted one in all three fields; so
/// its expiry is later and its access token another whenever the granted
/// ones are.
pub proof fn lemma_expired_root_is_exchanged_once(
    session: AuthenticatedIdentities,
    now: int,
    granted: DiscordIdentity,
    later: int,
)
    requires
        session.well_formed(),
        session.root matches RootIdentity::Discord(d) && d@.is_expired(now),
    ensures
        session.refresh_spec(now) matches Refresh::Exchange(pending) && {
            &&& session.root == RootIdentity::Discord(pending.expired())
            &&& pending.identities() == session
            &&& pending.resume_spec(Ok(granted), later) matches Ok(Refresh::Done(refreshed)) && {
                &&& refreshed.root == RootIdentity::Discord(granted)
                &&& refreshed.github == session.github
                &&& refreshed.discord is None
                &&& refreshed.discord_credential() == Some(&granted)
                &&& granted.expiration > pending.expired().expiration
                    ==> refreshed.discord_credential()->0.expiration
                    > pending.expired().expiration
                &&& granted.access_token@ != pending.expired().access_token@
                    ==> refreshed.discord_credential()->0.access_token@
                    != pending.expired().access_token@
            }
        },
{
}

/// When the token endpoint turns down the root identity's refresh token,
/// the refresh fails with the endpoint's error. When it turns down the
/// secondary identity's, the refresh still succeeds and the session is the
/// one it was.
pub proof fn lemma_rejected_exchange(pending: PendingRefresh, e: TelescopeError, now: int)
    ensures
        pending is Root ==> pending.resume_spec(Err(e), now) == Err::<Refresh, TelescopeError>(e),
        pending is Secondary ==> pending.resume_spec(Err(e), now) == Ok::<Refresh, TelescopeError>(
            Refresh::Done(pending.identities()),
        ),
{
}

/// A refresh asks at most twice: for the root identity first, and then, at
/// most once, for the secondary one.
pub proof fn lemma_refresh_ends(
    pending: PendingRefresh,
    answer: Result<DiscordIdentity, TelescopeError>,
    now: int,
)
    ensures
        pending.resume_spec(answer, now) matches Ok(Refresh::Exchange(next)) ==> pending is Root
            && next is Secondary,
        pending is Secondary ==> pending.resume_spec(answer, now) matches Ok(Refresh::Done(_)),
{
}

/// A refresh never touches the GitHub credentials and never moves a
/// credential from one slot to another: a well-formed session stays
/// well-formed through every step.
pub proof fn lemma_refresh_keeps_well_formed(
    session: AuthenticatedIdentities,
    now: int,
    answer: Result<DiscordIdentity, TelescopeError>,
    later: int,
)
    requires
        session.well_formed(),
    ensures
        match session.refresh_spec(now) {
            Refresh::Done(same) => same == session,
            Refresh::Exchange(pending) => {
                &&& pending.identities() == session
                &&& match pending.resume_spec(answer, later) {
                    Ok(Refresh::Done(refreshed)) => refreshed.well_formed() && refreshed.github
                        == session.github,
                    Ok(Refresh::Exchange(next)) => next.identities().well_formed()
                        && next.identities().github == session.github,
                    Err(e) => answer == Err::<DiscordIdentity, TelescopeError>(e),
                }
            },
        },
{
}

} // verus!
