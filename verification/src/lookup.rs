//! Finding the RCOS account behind a session.
//!
//! Two services have to be asked, one after the other: the provider of the
//! root identity says which of its users the access token belongs to, and
//! the RCOS directory says which account, if any, is linked to that user.
//! This module words the two questions; the caller asks them. The root
//! identity alone decides: the secondary identities are never consulted.

use crate::error::TelescopeError;
use crate::identity::{AuthenticatedIdentities, RootIdentity, UserAccountType};
use vstd::prelude::*;

verus! {

/// The question to a provider: which user does this access token belong to?
#[derive(Clone, Debug, PartialEq, Eq)]
pub struct PlatformRequest {
    /// The provider to ask.
    pub platform: UserAccountType,
    /// The access token to present.
    pub access_token: String,
}

/// The question to the RCOS directory: which account is linked to this user
/// of this platform? The directory answers with a username, or with nothing
/// where no account is linked, which is no error.
#[derive(Clone, Debug, PartialEq, Eq)]
pub struct DirectoryRequest {
    /// The platform that the user is known on.
    pub platform: UserAccountType,
    /// The unique identifier of the user on that platform.
    pub platform_id: String,
}

impl RootIdentity {
    /// The platform that this identity belongs to.
    pub open spec fn platform(&self) -> UserAccountType {
        match self {
            RootIdentity::GitHub(_) => UserAccountType::GitHub,
            RootIdentity::Discord(_) => UserAccountType::Discord,
        }
    }

    /// The access token of this identity.
    pub open spec fn access_token(&self) -> String {
        match self {
            RootIdentity::GitHub(gh) => gh.access_token,
            RootIdentity::Discord(d) => d.access_token,
        }
    }

    /// What to ask to get the string representing the unique user
    /// identifier on this platform: the platform's own question, with the
    /// access token held now.
    pub fn get_platform_id(&self) -> (request: PlatformRequest)
        ensures
            request.platform == self.platform(),
            request.access_token@ == self.access_token()@,
    {
        match self {
            RootIdentity::GitHub(gh) => PlatformRequest {
                platform: UserAccountType::GitHub,
                access_token: gh.access_token.clone(),
            },
            RootIdentity::Discord(d) => PlatformRequest {
                platform: UserAccountType::Discord,
                access_token: d.access_token.clone(),
            },
        }
    }

    /// What to ask to get the username of the RCOS account associated with
    /// this identity, given the provider's answer to
    /// [`Self::get_platform_id`]. The provider's error ends the search and
    /// is handed on as it came; its answer is put to the directory under
    /// the platform of this identity.
    pub fn get_rcos_username(&self, platform_id: Result<String, TelescopeError>) -> (r: Result<
        DirectoryRequest,
        TelescopeError,
    >)
        ensures
            r == (match platform_id {
                Ok(platform_id) => Ok::<DirectoryRequest, TelescopeError>(
                    DirectoryRequest { platform: self.platform(), platform_id },
                ),
                Err(e) => Err(e),
            }),
    {
        match platform_id {
            Ok(platform_id) => Ok(
                DirectoryRequest { platform: self.get_user_account_type(), platform_id },
            ),
            Err(e) => Err(e),
        }
    }
}

impl AuthenticatedIdentities {
    /// What to ask to get the RCOS username of an authenticated user. This
    /// is the same as just asking for the RCOS username of the root
    /// identity.
    pub fn get_rcos_username(&self, platform_id: Result<String, TelescopeError>) -> (r: Result<
        DirectoryRequest,
        TelescopeError,
    >)
        ensures
            r == (match platform_id {
                Ok(platform_id) => Ok::<DirectoryRequest, TelescopeError>(
                    DirectoryRequest { platform: self.root.platform(), platform_id },
                ),
                Err(e) => Err(e),
            }),
    {
        self.root.get_rcos_username(platform_id)
    }
}

} // verus!
