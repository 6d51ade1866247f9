//! The credentials a visitor holds and the aggregate kept in the session
//! cookie.

use vstd::prelude::*;

verus! {

/// The platforms a visitor can authenticate with.
#[derive(Clone, Copy, Debug, PartialEq, Eq, Structural)]
pub enum UserAccountType {
    /// GitHub.
    GitHub,
    /// Discord.
    Discord,
}

/// A GitHub credential. GitHub access tokens do not expire.
#[derive(Clone, Debug, PartialEq, Eq)]
pub struct GitHubIdentity {
    /// The OAuth2 access token granted by GitHub.
    pub access_token: String,
}

/// A Discord credential. The expiry always belongs to the access token held
/// beside it: an exchange replaces all three fields together.
#[derive(Clone, Debug, PartialEq, Eq)]
pub struct DiscordIdentity {
    /// The OAuth2 access token granted by Discord.
    pub access_token: String,
    /// When the access token expires, in seconds since the Unix epoch.
    pub expiration: i64,
    /// The token that buys the next access token.
    pub refresh_token: String,
}

/// The identity that a visitor first authenticated with.
#[derive(Clone, Debug, PartialEq, Eq)]
pub enum RootIdentity {
    /// GitHub access token.
    GitHub(GitHubIdentity),
    /// Discord access and refresh tokens.
    Discord(DiscordIdentity),
}

/// The top level object stored in the identity cookie.
#[derive(Clone, Debug, PartialEq, Eq)]
pub struct AuthenticatedIdentities {
    /// The root authenticated identity. This identity must always exist.
    pub root: RootIdentity,
    /// An optional GitHub access token, linked to the session later on.
    pub github: Option<GitHubIdentity>,
    /// An optional Discord credential, linked to the session later on.
    pub discord: Option<DiscordIdentity>,
}

/// What a [`GitHubIdentity`] is, mathematically.
pub struct GitHubIdentityView {
    pub access_token: Seq<char>,
}

/// What a [`DiscordIdentity`] is, mathematically.
pub struct DiscordIdentityView {
    pub access_token: Seq<char>,
    pub expiration: int,
    pub refresh_token: Seq<char>,
}

/// What a [`RootIdentity`] is, mathematically.
pub enum RootIdentityView {
    GitHub(GitHubIdentityView),
    Discord(DiscordIdentityView),
}

/// What an [`AuthenticatedIdentities`] is, mathematically.
pub struct AuthenticatedIdentitiesView {
    pub root: RootIdentityView,
    pub github: Option<GitHubIdentityView>,
    pub discord: Option<DiscordIdentityView>,
}

impl View for GitHubIdentity {
    type V = GitHubIdentityView;

    open spec fn view(&self) -> GitHubIdentityView {
        GitHubIdentityView { access_token: self.access_token@ }
    }
}

impl View for DiscordIdentity {
    type V = DiscordIdentityView;

    open spec fn view(&self) -> DiscordIdentityView {
        DiscordIdentityView {
            access_token: self.access_token@,
            expiration: self.expiration as int,
            refresh_token: self.refresh_token@,
        }
    }
}

impl View for RootIdentity {
    type V = RootIdentityView;

    open spec fn view(&self) -> RootIdentityView {
        match self {
            RootIdentity::GitHub(gh) => RootIdentityView::GitHub(gh@),
            RootIdentity::Discord(d) => RootIdentityView::Discord(d@),
        }
    }
}

impl View for AuthenticatedIdentities {
    type V = AuthenticatedIdentitiesView;

    open spec fn view(&self) -> AuthenticatedIdentitiesView {
        AuthenticatedIdentitiesView {
            root: self.root@,
            github: match self.github {
                Some(gh) => Some(gh@),
                None => None,
            },
            discord: match self.discord {
                Some(d) => Some(d@),
                None => None,
            },
        }
    }
}

impl DiscordIdentityView {
    /// The expiry is one that a [`DiscordIdentity`] can hold.
    pub open spec fn representable(self) -> bool {
        i64::MIN <= self.expiration <= i64::MAX
    }

    /// The access token has run out at `now` when its expiry lies strictly
    /// in the past.
    pub open spec fn is_expired(self, now: int) -> bool {
        self.expiration < now
    }
}

impl RootIdentityView {
    /// Whether a [`RootIdentity`] can hold this value.
    pub open spec fn representable(self) -> bool {
        self matches RootIdentityView::Discord(d) ==> d.representable()
    }
}

impl AuthenticatedIdentitiesView {
    /// Whether an [`AuthenticatedIdentities`] can hold this value.
    pub open spec fn representable(self) -> bool {
        &&& self.root.representable()
        &&& self.discord matches Some(d) ==> d.representable()
    }

    /// No provider occurs twice: the root's provider has an empty secondary
    /// slot.
    pub open spec fn well_formed(self) -> bool {
        &&& self.root is GitHub ==> self.github is None
        &&& self.root is Discord ==> self.discord is None
    }

    /// The Discord credential of the session: the root if it is one, else
    /// the secondary slot.
    pub open spec fn discord(self) -> Option<DiscordIdentityView> {
        match self.root {
            RootIdentityView::Discord(d) => Some(d),
            RootIdentityView::GitHub(_) => self.discord,
        }
    }

    /// The GitHub credential of the session: the root if it is one, else
    /// the secondary slot.
    pub open spec fn github(self) -> Option<GitHubIdentityView> {
        match self.root {
            RootIdentityView::GitHub(gh) => Some(gh),
            RootIdentityView::Discord(_) => self.github,
        }
    }
}

impl DiscordIdentity {
    /// Whether the access token has run out at `now` (seconds since the Unix
    /// epoch). A token that expires at this very second still counts as
    /// good.
    pub fn is_expired(&self, now: i64) -> (expired: bool)
        ensures
            expired == self@.is_expired(now as int),
    {
        self.expiration < now
    }
}

impl RootIdentity {
    /// Get the user account variant representing the authenticated platform.
    pub fn get_user_account_type(&self) -> (platform: UserAccountType)
        ensures
            platform == (match self {
                RootIdentity::GitHub(_) => UserAccountType::GitHub,
                RootIdentity::Discord(_) => UserAccountType::Discord,
            }),
    {
        match self {
            RootIdentity::GitHub(_) => UserAccountType::GitHub,
            RootIdentity::Discord(_) => UserAccountType::Discord,
        }
    }

    /// Put this root in a top level identity cookie, with no other identity
    /// linked to it.
    pub fn make_authenticated_cookie(self) -> (cookie: AuthenticatedIdentities)
        ensures
            cookie.root == self,
            cookie.github is None,
            cookie.discord is None,
            cookie@.well_formed(),
    {
        AuthenticatedIdentities { root: self, github: None, discord: None }
    }
}

impl AuthenticatedIdentities {
    /// Whether no provider occurs twice in this session.
    pub open spec fn well_formed(&self) -> bool {
        self@.well_formed()
    }

    /// The Discord credential that [`Self::get_discord`] hands out.
    pub open spec fn discord_credential(&self) -> Option<&DiscordIdentity> {
        match &self.root {
            RootIdentity::Discord(d) => Some(d),
            RootIdentity::GitHub(_) => match &self.discord {
                Some(d) => Some(d),
                None => None,
            },
        }
    }

    /// The GitHub credential that [`Self::get_github`] hands out.
    pub open spec fn github_credential(&self) -> Option<&GitHubIdentity> {
        match &self.root {
            RootIdentity::GitHub(gh) => Some(gh),
            RootIdentity::Discord(_) => match &self.github {
                Some(gh) => Some(gh),
                None => None,
            },
        }
    }

    /// Whether no provider occurs both as the root and in a secondary slot.
    pub fn is_well_formed(&self) -> (ok: bool)
        ensures
            ok == self.well_formed(),
    {
        match &self.root {
            RootIdentity::GitHub(_) => self.github.is_none(),
            RootIdentity::Discord(_) => self.discord.is_none(),
        }
    }

    /// Get discord credentials if authenticated: the root if it is a Discord
    /// identity, else whatever the secondary slot holds.
    pub fn get_discord(&self) -> (found: Option<&DiscordIdentity>)
        ensures
            found == self.discord_credential(),
            self@.discord() == (match found {
                Some(d) => Some(d@),
                None => None,
            }),
    {
        if let RootIdentity::Discord(discord) = &self.root {
            Some(discord)
        } else {
            self.discord.as_ref()
        }
    }

    /// Get the github credentials if authenticated: the root if it is a
    /// GitHub identity, else whatever the secondary slot holds.
    pub fn get_github(&self) -> (found: Option<&GitHubIdentity>)
        ensures
            found == self.github_credential(),
            self@.github() == (match found {
                Some(gh) => Some(gh@),
                None => None,
            }),
    {
        if let RootIdentity::GitHub(gh) = &self.root {
            Some(gh)
        } else {
            self.github.as_ref()
        }
    }
}

/// The root identity comes before the secondary slots: a session whose root
/// is a GitHub identity hands out that one, whatever the GitHub slot holds,
/// and a session with another root hands out what the GitHub slot holds.
/// The same holds of Discord.
pub proof fn lemma_root_takes_precedence(session: AuthenticatedIdentities)
    ensures
        session.root matches RootIdentity::GitHub(gh) ==> session.github_credential() == Some(&gh),
        session.root matches RootIdentity::Discord(d) ==> session.discord_credential() == Some(&d),
        session.root is Discord ==> session.github_credential() == (match session.github {
            Some(gh) => Some(&gh),
            None => None,
        }),
        session.root is GitHub ==> session.discord_credential() == (match session.discord {
            Some(d) => Some(&d),
            None => None,
        }),
{
}

} // verus!
