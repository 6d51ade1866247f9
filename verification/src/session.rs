//! The session of one request: the cookie that came with it, and the
//! reading of the visitor's identity from it.
//!
//! Reading runs as a small state machine. With no cookie the visitor is
//! anonymous. A cookie that cannot be decoded is forgotten. A cookie that
//! decodes is refreshed (see [`crate::refresh`]); when the refresh succeeds
//! the session is encoded again and written over the cookie, and when it
//! fails the visitor is anonymous for this request while the cookie stays
//! as it came, so that a later request may try again.

use crate::codec::{cookie_text, decoded, DecodeError};
use crate::error::TelescopeError;
use crate::identity::{
    AuthenticatedIdentities, AuthenticatedIdentitiesView, DiscordIdentity, RootIdentity,
};
use crate::refresh::{PendingRefresh, Refresh};
use vstd::prelude::*;
use vstd::string::StringExecFns;

verus! {

/// The name of the session cookie.
pub const COOKIE_NAME: &'static str = "telescope_auth";

/// How long the client keeps the session cookie, in seconds: one day from
/// the moment it is written, whether or not it is refreshed meanwhile.
pub const COOKIE_MAX_AGE: i64 = 86_400;

/// The length in bytes of the key that the cookie is encrypted with.
pub const COOKIE_KEY_LENGTH: usize = 32;

/// The identity of a user accessing telescope: the session cookie as this
/// request holds it.
#[derive(Clone, Debug, PartialEq, Eq)]
pub struct Identity {
    cookie: Option<String>,
    changed: bool,
}

/// What an [`Identity`] is, mathematically.
pub struct IdentityView {
    /// The text of the cookie, where there is one.
    pub cookie: Option<Seq<char>>,
    /// Whether the cookie was written or removed in this request, so that
    /// the client has to be told.
    pub changed: bool,
}

impl View for Identity {
    type V = IdentityView;

    closed spec fn view(&self) -> IdentityView {
        IdentityView {
            cookie: match self.cookie {
                Some(text) => Some(text@),
                None => None,
            },
            changed: self.changed,
        }
    }
}

/// How the reading of a visitor's identity ended, or what it waits for.
#[derive(Clone, Debug, PartialEq, Eq)]
pub enum IdentityRead {
    /// The request came without a session cookie.
    Anonymous,
    /// The cookie could not be decoded. It has been forgotten.
    Malformed(DecodeError),
    /// The token endpoint refused to refresh the root identity, or could
    /// not be reached. The cookie is left as it came.
    RefreshFailed(TelescopeError),
    /// The visitor is authenticated. The session has been written back to
    /// the cookie.
    Authenticated(AuthenticatedIdentities),
    /// The token endpoint has to be asked; the reading goes on with its
    /// answer, in [`Identity::resume`].
    Exchange(PendingRefresh),
}

impl IdentityView {
    /// The cookie after it was forgotten.
    pub open spec fn forgotten() -> IdentityView {
        IdentityView { cookie: None, changed: true }
    }

    /// The cookie after `session` was saved to it.
    pub open spec fn saved(session: AuthenticatedIdentities) -> IdentityView {
        IdentityView { cookie: Some(cookie_text(session@)), changed: true }
    }

    /// How a reading goes on once a step of the refresh has been taken: a
    /// finished refresh is saved, a failed one leaves the cookie alone, and
    /// so does one that waits for the token endpoint.
    pub open spec fn settles(
        self,
        step: Result<Refresh, TelescopeError>,
        read: IdentityRead,
        after: IdentityView,
    ) -> bool {
        match step {
            Ok(Refresh::Done(session)) => read == IdentityRead::Authenticated(session) && after
                == Self::saved(session),
            Ok(Refresh::Exchange(pending)) => read == IdentityRead::Exchange(pending) && after
                == self,
            Err(e) => read == IdentityRead::RefreshFailed(e) && after == self,
        }
    }

    /// How a reading goes on once the cookie has been decoded: a cookie
    /// that is no session is forgotten, a session is refreshed at `now`.
    pub open spec fn accepts(
        self,
        session: Result<AuthenticatedIdentities, DecodeError>,
        now: int,
        read: IdentityRead,
        after: IdentityView,
    ) -> bool {
        match session {
            Ok(session) => self.settles(Ok(session.refresh_spec(now)), read, after),
            Err(e) => read == IdentityRead::Malformed(e) && after == Self::forgotten(),
        }
    }

    /// How a reading starts at `now`: without a cookie the visitor is
    /// anonymous; with one, the reading goes on with what the cookie
    /// decodes to.
    pub open spec fn reads(self, now: int, read: IdentityRead, after: IdentityView) -> bool {
        match self.cookie {
            None => read == IdentityRead::Anonymous && after == self,
            Some(text) => exists|session: Result<AuthenticatedIdentities, DecodeError>|
                #[trigger] decoded(text, session) && self.accepts(session, now, read, after),
        }
    }
}

impl IdentityRead {
    /// The session of an authenticated visitor; nothing in every other
    /// case.
    pub fn authenticated(self) -> (session: Option<AuthenticatedIdentities>)
        ensures
            session == (match self {
                IdentityRead::Authenticated(s) => Some(s),
                _ => None::<AuthenticatedIdentities>,
            }),
    {
        match self {
            IdentityRead::Authenticated(s) => Some(s),
            _ => None,
        }
    }
}

impl Identity {
    /// The session of a request that came with this cookie, or with none.
    pub fn new(cookie: Option<String>) -> (identity: Self)
        ensures
            identity@ == (IdentityView {
                cookie: match cookie {
                    Some(text) => Some(text@),
                    None => None,
                },
                changed: false,
            }),
    {
        Identity { cookie, changed: false }
    }

    /// The text of the cookie as it stands now.
    pub fn cookie(&self) -> (text: Option<&String>)
        ensures
            self@.cookie == (match text {
                Some(t) => Some(t@),
                None => None,
            }),
    {
        self.cookie.as_ref()
    }

    /// Whether the cookie was written or removed since the request came in.
    pub fn changed(&self) -> (changed: bool)
        ensures
            changed == self@.changed,
    {
        self.changed
    }

    /// Forget the user's identity if it exists.
    pub fn forget(&mut self)
        ensures
            final(self)@ == IdentityView::forgotten(),
    {
        self.cookie = None;
        self.changed = true;
    }

    /// Save an identity object to the client's cookies, over whatever was
    /// there.
    pub fn save(&mut self, identity: &AuthenticatedIdentities)
        ensures
            final(self)@ == IdentityView::saved(*identity),
    {
        self.cookie = Some(identity.encode());
        self.changed = true;
    }

    /// Goes on with a step of the refresh.
    fn settle(&mut self, step: Result<Refresh, TelescopeError>) -> (read: IdentityRead)
        ensures
            old(self)@.settles(step, read, final(self)@),
    {
        match step {
            Ok(Refresh::Done(session)) => {
                self.save(&session);
                IdentityRead::Authenticated(session)
            },
            Ok(Refresh::Exchange(pending)) => IdentityRead::Exchange(pending),
            Err(e) => IdentityRead::RefreshFailed(e),
        }
    }

    /// Get the user's identity. Refresh it if necessary.
    ///
    /// The reading ends at once where there is no cookie, where the cookie
    /// does not decode, and where no credential has run out at `now`
    /// (seconds since the Unix epoch). Otherwise it waits for the exchange
    /// of a refresh token and goes on in [`Self::resume`].
    pub fn identity(&mut self, now: i64) -> (read: IdentityRead)
        ensures
            old(self)@.reads(now as int, read, final(self)@),
    {
        let session = match &self.cookie {
            None => {
                return IdentityRead::Anonymous;
            },
            Some(text) => AuthenticatedIdentities::decode(text.as_str()),
        };
        let ghost before = self@;
        assert(before.cookie is Some && decoded(before.cookie->0, session));
        let read = match session {
            Ok(session) => {
                let step = session.refresh(now);
                self.settle(Ok(step))
            },
            Err(e) => {
                self.forget();
                IdentityRead::Malformed(e)
            },
        };
        assert(before.accepts(session, now as int, read, self@));
        read
    }

    /// Goes on reading with the token endpoint's answer to the exchange
    /// that `pending` asked for.
    pub fn resume(
        &mut self,
        pending: PendingRefresh,
        answer: Result<DiscordIdentity, TelescopeError>,
        now: i64,
    ) -> (read: IdentityRead)
        ensures
            old(self)@.settles(pending.resume_spec(answer, now as int), read, final(self)@),
    {
        let step = pending.resume(answer, now);
        self.settle(step)
    }
}

/// The session or the error for a page that only authenticated visitors
/// may see.
pub fn require_authenticated(session: Option<AuthenticatedIdentities>) -> (r: Result<
    AuthenticatedIdentities,
    TelescopeError,
>)
    ensures
        r == (match session {
            Some(s) => Ok::<AuthenticatedIdentities, TelescopeError>(s),
            None => Err(TelescopeError::NotAuthenticated),
        }),
{
    match session {
        Some(s) => Ok(s),
        None => Err(TelescopeError::NotAuthenticated),
    }
}

/// The error for a request whose identity could not be taken out of it at
/// all. This is a fault of the server, not the absence of a session.
pub fn extraction_failure(detail: &str) -> (e: TelescopeError)
    ensures
        e matches TelescopeError::InternalServerError(message) && message@
            == "Could not extract identity object from request. Internal error: "@ + detail@,
        e.is_server_fault(),
{
    let mut message = String::from_str(
        "Could not extract identity object from request. Internal error: ",
    );
    message.append(detail);
    TelescopeError::ise(message)
}

/// A request without a cookie is anonymous, and nothing is written.
pub proof fn lemma_no_cookie_is_anonymous(
    before: IdentityView,
    now: int,
    read: IdentityRead,
    after: IdentityView,
)
    requires
        before.cookie is None,
        before.reads(now, read, after),
    ensures
        read == IdentityRead::Anonymous,
        after == before,
{
}

/// A cookie that is not the encoding of any session makes the visitor
/// anonymous and is forgotten.
pub proof fn lemma_undecodable_cookie_is_forgotten(
    before: IdentityView,
    now: int,
    read: IdentityRead,
    after: IdentityView,
)
    requires
        before.cookie matches Some(text) && forall|v: AuthenticatedIdentitiesView|
            v.representable() ==> text != #[trigger] cookie_text(v),
        before.reads(now, read, after),
    ensures
        read == IdentityRead::Malformed(DecodeError::Malformed),
        after.cookie is None,
        after.changed,
{
    let text = before.cookie->0;
    let session = choose|session: Result<AuthenticatedIdentities, DecodeError>|
        #[trigger] decoded(text, session) && before.accepts(session, now, read, after);
    match session {
        Ok(x) => {
            assert(x@.representable());
        },
        Err(DecodeError::DuplicateProvider) => {
            let x = choose|x: AuthenticatedIdentities|
                text == #[trigger] cookie_text(x@) && !x@.well_formed();
            assert(x@.representable());
        },
        Err(DecodeError::Malformed) => {},
    }
}

/// The cookie of a well-formed session in which no credential has run out
/// authenticates the visitor as that session, and is written back with the
/// text it came with.
pub proof fn lemma_fresh_cookie_is_kept(
    session: AuthenticatedIdentities,
    before: IdentityView,
    now: int,
    read: IdentityRead,
    after: IdentityView,
)
    requires
        session.well_formed(),
        session.refresh_spec(now) is Done,
        before.cookie == Some(cookie_text(session@)),
        before.reads(now, read, after),
    ensures
        read matches IdentityRead::Authenticated(same) && same@ == session@,
        after.cookie == before.cookie,
{
    let text = cookie_text(session@);
    let d = choose|d: Result<AuthenticatedIdentities, DecodeError>|
        #[trigger] decoded(text, d) && before.accepts(d, now, read, after);
    assert(session@.representable());
    assert(d matches Ok(y) && y@ == session@);
}

/// The cookie of a well-formed session whose root is a Discord credential
/// that has run out makes the reading wait for the exchange of that
/// credential's refresh token, and is not touched meanwhile.
pub proof fn lemma_expired_root_cookie_waits(
    session: AuthenticatedIdentities,
    before: IdentityView,
    now: int,
    read: IdentityRead,
    after: IdentityView,
)
    requires
        session.well_formed(),
        session.root matches RootIdentity::Discord(d) && d@.is_expired(now),
        before.cookie == Some(cookie_text(session@)),
        before.reads(now, read, after),
    ensures
        read matches IdentityRead::Exchange(pending) && pending is Root && pending.identities()@
            == session@,
        after == before,
{
    let text = cookie_text(session@);
    let d = choose|d: Result<AuthenticatedIdentities, DecodeError>|
        #[trigger] decoded(text, d) && before.accepts(d, now, read, after);
    assert(session@.representable());
    assert(d matches Ok(y) && y@ == session@);
}

/// When the token endpoint grants a new root credential to a well-formed
/// session, the visitor is authenticated with the granted credential as the
/// root, and the cookie is overwritten with the encoding of that session.
pub proof fn lemma_granted_exchange_is_saved(
    before: IdentityView,
    pending: PendingRefresh,
    granted: DiscordIdentity,
    now: int,
    read: IdentityRead,
    after: IdentityView,
)
    requires
        pending is Root,
        pending.identities().well_formed(),
        before.settles(pending.resume_spec(Ok(granted), now), read, after),
    ensures
        read matches IdentityRead::Authenticated(refreshed) && {
            &&& refreshed.root == RootIdentity::Discord(granted)
            &&& refreshed.github == pending.identities().github
            &&& refreshed.discord == pending.identities().discord
            &&& after.cookie == Some(cookie_text(refreshed@))
            &&& after.changed
        },
{
}

/// When the token endpoint turns down the root identity's refresh token,
/// the visitor is anonymous for this request and the cookie stays as it
/// came.
pub proof fn lemma_rejected_exchange_keeps_cookie(
    before: IdentityView,
    pending: PendingRefresh,
    e: TelescopeError,
    now: int,
    read: IdentityRead,
    after: IdentityView,
)
    requires
        pending is Root,
        before.settles(pending.resume_spec(Err(e), now), read, after),
    ensures
        read == IdentityRead::RefreshFailed(e),
        after == before,
{
}

} // verus!
