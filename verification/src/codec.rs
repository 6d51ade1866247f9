//! The text of the session cookie: how an [`AuthenticatedIdentities`] is
//! written into it and read back.
//!
//! The text is a JSON object, written without white space and with its
//! members in a fixed order. Reading accepts that one form and nothing
//! else, so a cookie that decodes is the cookie that encoding would write.

use crate::identity::{
    AuthenticatedIdentities, AuthenticatedIdentitiesView, DiscordIdentity, DiscordIdentityView,
    GitHubIdentity, GitHubIdentityView, RootIdentity, RootIdentityView,
};
use crate::text::{
    chars_of, decimal, expect, lemma_number_unique, lemma_occurs_concat, lemma_occurs_index,
    lemma_quoted_unique, number_at, occurs_at, push_decimal, push_quoted, quoted, read_number,
    read_quoted,
};
use vstd::prelude::*;
use vstd::string::StringExecFns;

verus! {

/// A GitHub credential as it stands in the cookie.
pub open spec fn github_text(g: GitHubIdentityView) -> Seq<char> {
    "{\"access_token\":"@ + quoted(g.access_token) + "}"@
}

/// The fragments of a GitHub credential stand one behind the other exactly
/// where the credential stands.
pub proof fn lemma_github_parts(input: Seq<char>, pos: int, g: GitHubIdentityView)
    ensures
        occurs_at(input, pos, github_text(g)) <==> {
            let at1 = pos + "{\"access_token\":"@.len();
            let at2 = at1 + quoted(g.access_token).len();
            &&& occurs_at(input, pos, "{\"access_token\":"@)
            &&& occurs_at(input, at1, quoted(g.access_token))
            &&& occurs_at(input, at2, "}"@)
        },
        github_text(g).len() == "{\"access_token\":"@.len() + quoted(g.access_token).len()
            + "}"@.len(),
{
    let a = "{\"access_token\":"@;
    let q = quoted(g.access_token);
    lemma_occurs_concat(input, pos, a + q, "}"@);
    lemma_occurs_concat(input, pos, a, q);
}

/// Appends a GitHub credential to `out`.
fn push_github(out: &mut String, g: &GitHubIdentity)
    ensures
        final(out)@ == old(out)@ + github_text(g@),
{
    let ghost before = out@;
    out.append("{\"access_token\":");
    push_quoted(out, g.access_token.as_str());
    out.append("}");
    assert(out@ =~= before + github_text(g@));
}

/// Reads the GitHub credential that starts at index `pos`.
fn read_github(input: &Vec<char>, pos: usize) -> (r: Option<(GitHubIdentity, usize)>)
    ensures
        r matches Some((g, end)) ==> occurs_at(input@, pos as int, github_text(g@)) && end == pos
            + github_text(g@).len(),
        forall|g: GitHubIdentityView|
            occurs_at(input@, pos as int, #[trigger] github_text(g)) ==> (r matches Some((x, _))
                && x@ == g),
{
    let opened = expect(input, pos, "{\"access_token\":");
    let r = match opened {
        None => None,
        Some(at1) => match read_quoted(input, at1) {
            None => None,
            Some((access_token, at2)) => match expect(input, at2, "}") {
                None => None,
                Some(end) => Some((GitHubIdentity { access_token }, end)),
            },
        },
    };
    proof {
        assert forall|g: GitHubIdentityView|
            occurs_at(input@, pos as int, #[trigger] github_text(g)) implies (r matches Some(
            (x, _),
        ) && x@ == g) by {
            lemma_github_parts(input@, pos as int, g);
        }
        if let Some((g, _)) = &r {
            lemma_github_parts(input@, pos as int, g@);
        }
    }
    r
}

/// A Discord credential as it stands in the cookie.
pub open spec fn discord_text(d: DiscordIdentityView) -> Seq<char> {
    "{\"access_token\":"@ + quoted(d.access_token) + ",\"expiration\":"@ + decimal(d.expiration)
        + ",\"refresh_token\":"@ + quoted(d.refresh_token) + "}"@
}

/// The fragments of a Discord credential stand one behind the other exactly
/// where the credential stands, and the expiry ends where its digits end.
pub proof fn lemma_discord_parts(input: Seq<char>, pos: int, d: DiscordIdentityView)
    ensures
        occurs_at(input, pos, discord_text(d)) <==> {
            let at1 = pos + "{\"access_token\":"@.len();
            let at2 = at1 + quoted(d.access_token).len();
            let at3 = at2 + ",\"expiration\":"@.len();
            let at4 = at3 + decimal(d.expiration).len();
            let at5 = at4 + ",\"refresh_token\":"@.len();
            let at6 = at5 + quoted(d.refresh_token).len();
            &&& occurs_at(input, pos, "{\"access_token\":"@)
            &&& occurs_at(input, at1, quoted(d.access_token))
            &&& occurs_at(input, at2, ",\"expiration\":"@)
            &&& number_at(input, at3, d.expiration)
            &&& occurs_at(input, at4, ",\"refresh_token\":"@)
            &&& occurs_at(input, at5, quoted(d.refresh_token))
            &&& occurs_at(input, at6, "}"@)
        },
        discord_text(d).len() == "{\"access_token\":"@.len() + quoted(d.access_token).len()
            + ",\"expiration\":"@.len() + decimal(d.expiration).len()
            + ",\"refresh_token\":"@.len() + quoted(d.refresh_token).len() + "}"@.len(),
{
    let a = "{\"access_token\":"@;
    let q1 = quoted(d.access_token);
    let b = ",\"expiration\":"@;
    let n = decimal(d.expiration);
    let c = ",\"refresh_token\":"@;
    let q2 = quoted(d.refresh_token);
    lemma_occurs_concat(input, pos, a + q1 + b + n + c + q2, "}"@);
    lemma_occurs_concat(input, pos, a + q1 + b + n + c, q2);
    lemma_occurs_concat(input, pos, a + q1 + b + n, c);
    lemma_occurs_concat(input, pos, a + q1 + b, n);
    lemma_occurs_concat(input, pos, a + q1, b);
    lemma_occurs_concat(input, pos, a, q1);
    let at4 = pos + a.len() + q1.len() + b.len() + n.len();
    reveal_strlit(",\"refresh_token\":");
    if occurs_at(input, at4, c) {
        lemma_occurs_index(input, at4, c, 0);
    }
}

/// Appends a Discord credential to `out`.
fn push_discord(out: &mut String, d: &DiscordIdentity)
    ensures
        final(out)@ == old(out)@ + discord_text(d@),
{
    let ghost before = out@;
    out.append("{\"access_token\":");
    push_quoted(out, d.access_token.as_str());
    out.append(",\"expiration\":");
    push_decimal(out, d.expiration);
    out.append(",\"refresh_token\":");
    push_quoted(out, d.refresh_token.as_str());
    out.append("}");
    assert(out@ =~= before + discord_text(d@));
}

/// Reads the Discord credential that starts at index `pos`.
fn read_discord(input: &Vec<char>, pos: usize) -> (r: Option<(DiscordIdentity, usize)>)
    ensures
        r matches Some((d, end)) ==> occurs_at(input@, pos as int, discord_text(d@)) && end
            == pos + discord_text(d@).len(),
        forall|d: DiscordIdentityView|
            i64::MIN <= d.expiration <= i64::MAX && occurs_at(
                input@,
                pos as int,
                #[trigger] discord_text(d),
            ) ==> (r matches Some((x, _)) && x@ == d),
{
    let r = match expect(input, pos, "{\"access_token\":") {
        None => None,
        Some(at1) => match read_quoted(input, at1) {
            None => None,
            Some((access_token, at2)) => match expect(input, at2, ",\"expiration\":") {
                None => None,
                Some(at3) => match read_number(input, at3) {
                    None => None,
                    Some((expiration, at4)) => match expect(input, at4, ",\"refresh_token\":") {
                        None => None,
                        Some(at5) => match read_quoted(input, at5) {
                            None => None,
                            Some((refresh_token, at6)) => match expect(input, at6, "}") {
                                None => None,
                                Some(end) => Some(
                                    (
                                        DiscordIdentity { access_token, expiration, refresh_token },
                                        end,
                                    ),
                                ),
                            },
                        },
                    },
                },
            },
        },
    };
    proof {
        assert forall|d: DiscordIdentityView|
            i64::MIN <= d.expiration <= i64::MAX && occurs_at(
                input@,
                pos as int,
                #[trigger] discord_text(d),
            ) implies (r matches Some((x, _)) && x@ == d) by {
            lemma_discord_parts(input@, pos as int, d);
        }
        if let Some((d, _)) = &r {
            lemma_discord_parts(input@, pos as int, d@);
        }
    }
    r
}

/// A root identity as it stands in the cookie: an object whose one member
/// is named after the provider.
pub open spec fn root_text(r: RootIdentityView) -> Seq<char> {
    match r {
        RootIdentityView::GitHub(g) => "{\"GitHub\":"@ + github_text(g) + "}"@,
        RootIdentityView::Discord(d) => "{\"Discord\":"@ + discord_text(d) + "}"@,
    }
}

/// The fragments of a root identity stand one behind the other exactly
/// where the identity stands, and the two providers' openings never stand
/// at the same index.
pub proof fn lemma_root_parts(input: Seq<char>, pos: int, r: RootIdentityView)
    ensures
        occurs_at(input, pos, root_text(r)) <==> (match r {
            RootIdentityView::GitHub(g) => {
                let at1 = pos + "{\"GitHub\":"@.len();
                &&& occurs_at(input, pos, "{\"GitHub\":"@)
                &&& occurs_at(input, at1, github_text(g))
                &&& occurs_at(input, at1 + github_text(g).len(), "}"@)
            },
            RootIdentityView::Discord(d) => {
                let at1 = pos + "{\"Discord\":"@.len();
                &&& occurs_at(input, pos, "{\"Discord\":"@)
                &&& occurs_at(input, at1, discord_text(d))
                &&& occurs_at(input, at1 + discord_text(d).len(), "}"@)
            },
        }),
        root_text(r).len() == (match r {
            RootIdentityView::GitHub(g) => "{\"GitHub\":"@.len() + github_text(g).len() + "}"@.len(),
            RootIdentityView::Discord(d) => "{\"Discord\":"@.len() + discord_text(d).len()
                + "}"@.len(),
        }),
        !(occurs_at(input, pos, "{\"GitHub\":"@) && occurs_at(input, pos, "{\"Discord\":"@)),
{
    match r {
        RootIdentityView::GitHub(g) => {
            lemma_occurs_concat(input, pos, "{\"GitHub\":"@ + github_text(g), "}"@);
            lemma_occurs_concat(input, pos, "{\"GitHub\":"@, github_text(g));
        },
        RootIdentityView::Discord(d) => {
            lemma_occurs_concat(input, pos, "{\"Discord\":"@ + discord_text(d), "}"@);
            lemma_occurs_concat(input, pos, "{\"Discord\":"@, discord_text(d));
        },
    }
    reveal_strlit("{\"GitHub\":");
    reveal_strlit("{\"Discord\":");
    if occurs_at(input, pos, "{\"GitHub\":"@) && occurs_at(input, pos, "{\"Discord\":"@) {
        lemma_occurs_index(input, pos, "{\"GitHub\":"@, 2);
        lemma_occurs_index(input, pos, "{\"Discord\":"@, 2);
    }
}

/// Appends a root identity to `out`.
fn push_root(out: &mut String, r: &RootIdentity)
    ensures
        final(out)@ == old(out)@ + root_text(r@),
{
    let ghost before = out@;
    match r {
        RootIdentity::GitHub(g) => {
            out.append("{\"GitHub\":");
            push_github(out, g);
        },
        RootIdentity::Discord(d) => {
            out.append("{\"Discord\":");
            push_discord(out, d);
        },
    }
    out.append("}");
    assert(out@ =~= before + root_text(r@));
}

/// Reads the root identity that starts at index `pos`.
fn read_root(input: &Vec<char>, pos: usize) -> (r: Option<(RootIdentity, usize)>)
    ensures
        r matches Some((root, end)) ==> occurs_at(input@, pos as int, root_text(root@)) && end
            == pos + root_text(root@).len(),
        forall|v: RootIdentityView|
            v.representable() && occurs_at(input@, pos as int, #[trigger] root_text(v)) ==> (
            r matches Some((x, _)) && x@ == v),
{
    let r = match expect(input, pos, "{\"GitHub\":") {
        Some(at1) => match read_github(input, at1) {
            None => None,
            Some((g, at2)) => match expect(input, at2, "}") {
                None => None,
                Some(end) => Some((RootIdentity::GitHub(g), end)),
            },
        },
        None => match expect(input, pos, "{\"Discord\":") {
            None => None,
            Some(at1) => match read_discord(input, at1) {
                None => None,
                Some((d, at2)) => match expect(input, at2, "}") {
                    None => None,
                    Some(end) => Some((RootIdentity::Discord(d), end)),
                },
            },
        },
    };
    proof {
        assert forall|v: RootIdentityView|
            v.representable() && occurs_at(input@, pos as int, #[trigger] root_text(v)) implies (
        r matches Some((x, _)) && x@ == v) by {
            lemma_root_parts(input@, pos as int, v);
        }
        if let Some((root, _)) = &r {
            lemma_root_parts(input@, pos as int, root@);
        }
    }
    r
}

/// A secondary GitHub slot as it stands in the cookie: `null` where it is
/// empty.
pub open spec fn github_slot_text(slot: Option<GitHubIdentityView>) -> Seq<char> {
    match slot {
        Some(g) => github_text(g),
        None => "null"@,
    }
}

/// A secondary Discord slot as it stands in the cookie: `null` where it is
/// empty.
pub open spec fn discord_slot_text(slot: Option<DiscordIdentityView>) -> Seq<char> {
    match slot {
        Some(d) => discord_text(d),
        None => "null"@,
    }
}

/// No credential stands where `null` stands.
pub proof fn lemma_null_is_no_credential(input: Seq<char>, pos: int)
    requires
        occurs_at(input, pos, "null"@),
    ensures
        !occurs_at(input, pos, "{\"access_token\":"@),
{
    reveal_strlit("null");
    reveal_strlit("{\"access_token\":");
    lemma_occurs_index(input, pos, "null"@, 0);
    if occurs_at(input, pos, "{\"access_token\":"@) {
        lemma_occurs_index(input, pos, "{\"access_token\":"@, 0);
    }
}

/// Appends a secondary GitHub slot to `out`.
fn push_github_slot(out: &mut String, slot: &Option<GitHubIdentity>)
    ensures
        final(out)@ == old(out)@ + github_slot_text(
            match *slot {
                Some(g) => Some(g@),
                None => None,
            },
        ),
{
    match slot {
        Some(g) => push_github(out, g),
        None => out.append("null"),
    }
}

/// Appends a secondary Discord slot to `out`.
fn push_discord_slot(out: &mut String, slot: &Option<DiscordIdentity>)
    ensures
        final(out)@ == old(out)@ + discord_slot_text(
            match *slot {
                Some(d) => Some(d@),
                None => None,
            },
        ),
{
    match slot {
        Some(d) => push_discord(out, d),
        None => out.append("null"),
    }
}

/// Reads the secondary GitHub slot that starts at index `pos`.
fn read_github_slot(input: &Vec<char>, pos: usize) -> (r: Option<(Option<GitHubIdentity>, usize)>)
    ensures
        r matches Some((slot, end)) ==> {
            let v = match slot {
                Some(g) => Some(g@),
                None => None,
            };
            occurs_at(input@, pos as int, github_slot_text(v)) && end == pos + github_slot_text(
                v,
            ).len()
        },
        forall|v: Option<GitHubIdentityView>|
            occurs_at(input@, pos as int, #[trigger] github_slot_text(v)) ==> (r matches Some(
                (slot, _),
            ) && v == match slot {
                Some(g) => Some(g@),
                None => None,
            }),
{
    let r = match expect(input, pos, "null") {
        Some(end) => Some((None, end)),
        None => match read_github(input, pos) {
            Some((g, end)) => Some((Some(g), end)),
            None => None,
        },
    };
    proof {
        assert forall|v: Option<GitHubIdentityView>|
            occurs_at(input@, pos as int, #[trigger] github_slot_text(v)) implies (r matches Some(
            (slot, _),
        ) && v == match slot {
            Some(g) => Some(g@),
            None => None,
        }) by {
            if let Some(g) = v {
                lemma_github_parts(input@, pos as int, g);
                if occurs_at(input@, pos as int, "null"@) {
                    lemma_null_is_no_credential(input@, pos as int);
                }
            }
        }
    }
    r
}

/// Reads the secondary Discord slot that starts at index `pos`.
fn read_discord_slot(input: &Vec<char>, pos: usize) -> (r: Option<
    (Option<DiscordIdentity>, usize),
>)
    ensures
        r matches Some((slot, end)) ==> {
            let v = match slot {
                Some(d) => Some(d@),
                None => None,
            };
            occurs_at(input@, pos as int, discord_slot_text(v)) && end == pos + discord_slot_text(
                v,
            ).len()
        },
        forall|v: Option<DiscordIdentityView>|
            (v matches Some(d) ==> d.representable()) && occurs_at(
                input@,
                pos as int,
                #[trigger] discord_slot_text(v),
            ) ==> (r matches Some((slot, _)) && v == match slot {
                Some(d) => Some(d@),
                None => None,
            }),
{
    let r = match expect(input, pos, "null") {
        Some(end) => Some((None, end)),
        None => match read_discord(input, pos) {
            Some((d, end)) => Some((Some(d), end)),
            None => None,
        },
    };
    proof {
        assert forall|v: Option<DiscordIdentityView>|
            (v matches Some(d) ==> d.representable()) && occurs_at(
                input@,
                pos as int,
                #[trigger] discord_slot_text(v),
            ) implies (r matches Some((slot, _)) && v == match slot {
            Some(d) => Some(d@),
            None => None,
        }) by {
            if let Some(d) = v {
                lemma_discord_parts(input@, pos as int, d);
                if occurs_at(input@, pos as int, "null"@) {
                    lemma_null_is_no_credential(input@, pos as int);
                }
            }
        }
    }
    r
}

/// The whole session as it stands in the cookie.
pub open spec fn cookie_text(x: AuthenticatedIdentitiesView) -> Seq<char> {
    "{\"root\":"@ + root_text(x.root) + ",\"github\":"@ + github_slot_text(x.github)
        + ",\"discord\":"@ + discord_slot_text(x.discord) + "}"@
}

/// The fragments of a session stand one behind the other exactly where the
/// session stands.
pub proof fn lemma_cookie_parts(input: Seq<char>, pos: int, x: AuthenticatedIdentitiesView)
    ensures
        occurs_at(input, pos, cookie_text(x)) <==> {
            let at1 = pos + "{\"root\":"@.len();
            let at2 = at1 + root_text(x.root).len();
            let at3 = at2 + ",\"github\":"@.len();
            let at4 = at3 + github_slot_text(x.github).len();
            let at5 = at4 + ",\"discord\":"@.len();
            let at6 = at5 + discord_slot_text(x.discord).len();
            &&& occurs_at(input, pos, "{\"root\":"@)
            &&& occurs_at(input, at1, root_text(x.root))
            &&& occurs_at(input, at2, ",\"github\":"@)
            &&& occurs_at(input, at3, github_slot_text(x.github))
            &&& occurs_at(input, at4, ",\"discord\":"@)
            &&& occurs_at(input, at5, discord_slot_text(x.discord))
            &&& occurs_at(input, at6, "}"@)
        },
        cookie_text(x).len() == "{\"root\":"@.len() + root_text(x.root).len()
            + ",\"github\":"@.len() + github_slot_text(x.github).len() + ",\"discord\":"@.len()
            + discord_slot_text(x.discord).len() + "}"@.len(),
{
    let a = "{\"root\":"@;
    let r = root_text(x.root);
    let b = ",\"github\":"@;
    let g = github_slot_text(x.github);
    let c = ",\"discord\":"@;
    let d = discord_slot_text(x.discord);
    lemma_occurs_concat(input, pos, a + r + b + g + c + d, "}"@);
    lemma_occurs_concat(input, pos, a + r + b + g + c, d);
    lemma_occurs_concat(input, pos, a + r + b + g, c);
    lemma_occurs_concat(input, pos, a + r + b, g);
    lemma_occurs_concat(input, pos, a + r, b);
    lemma_occurs_concat(input, pos, a, r);
}

/// Reads the session that starts at index `pos`.
fn read_cookie(input: &Vec<char>, pos: usize) -> (r: Option<(AuthenticatedIdentities, usize)>)
    ensures
        r matches Some((x, end)) ==> occurs_at(input@, pos as int, cookie_text(x@)) && end == pos
            + cookie_text(x@).len(),
        forall|v: AuthenticatedIdentitiesView|
            v.representable() && occurs_at(input@, pos as int, #[trigger] cookie_text(v)) ==> (
            r matches Some((x, _)) && x@ == v),
{
    let r = match expect(input, pos, "{\"root\":") {
        None => None,
        Some(at1) => match read_root(input, at1) {
            None => None,
            Some((root, at2)) => match expect(input, at2, ",\"github\":") {
                None => None,
                Some(at3) => match read_github_slot(input, at3) {
                    None => None,
                    Some((github, at4)) => match expect(input, at4, ",\"discord\":") {
                        None => None,
                        Some(at5) => match read_discord_slot(input, at5) {
                            None => None,
                            Some((discord, at6)) => match expect(input, at6, "}") {
                                None => None,
                                Some(end) => Some(
                                    (AuthenticatedIdentities { root, github, discord }, end),
                                ),
                            },
                        },
                    },
                },
            },
        },
    };
    proof {
        assert forall|v: AuthenticatedIdentitiesView|
            v.representable() && occurs_at(input@, pos as int, #[trigger] cookie_text(v)) implies (
        r matches Some((x, _)) && x@ == v) by {
            lemma_cookie_parts(input@, pos as int, v);
        }
        if let Some((x, _)) = &r {
            lemma_cookie_parts(input@, pos as int, x@);
        }
    }
    r
}

/// Why a cookie could not be read.
#[derive(Clone, Copy, Debug, PartialEq, Eq, Structural)]
pub enum DecodeError {
    /// The text is not the encoding of any session.
    Malformed,
    /// The text encodes a session in which the root's provider fills a
    /// secondary slot too.
    DuplicateProvider,
}

/// What reading the cookie `text` gives: the one well-formed session that
/// is written as `text`, or the reason why there is none.
pub open spec fn decoded(text: Seq<char>, r: Result<AuthenticatedIdentities, DecodeError>) -> bool {
    &&& match r {
        Ok(x) => text == cookie_text(x@) && x@.well_formed(),
        Err(DecodeError::DuplicateProvider) => exists|x: AuthenticatedIdentities|
            text == #[trigger] cookie_text(x@) && !x@.well_formed(),
        Err(DecodeError::Malformed) => forall|v: AuthenticatedIdentitiesView|
            v.representable() ==> text != #[trigger] cookie_text(v),
    }
    &&& forall|v: AuthenticatedIdentitiesView|
        v.representable() && v.well_formed() && text == #[trigger] cookie_text(v) ==> (
        r matches Ok(x) && x@ == v)
}

impl AuthenticatedIdentities {
    /// The text to keep in the session cookie. Every session has one, and
    /// the same session always has the same one.
    pub fn encode(&self) -> (cookie: String)
        ensures
            cookie@ == cookie_text(self@),
    {
        let mut out = String::new();
        out.append("{\"root\":");
        push_root(&mut out, &self.root);
        out.append(",\"github\":");
        push_github_slot(&mut out, &self.github);
        out.append(",\"discord\":");
        push_discord_slot(&mut out, &self.discord);
        out.append("}");
        assert(out@ =~= cookie_text(self@));
        out
    }

    /// Reads a session back from the text of a cookie. Only the text that
    /// [`Self::encode`] writes for a well-formed session is accepted;
    /// anything else, whatever it holds, is an error and never a panic.
    pub fn decode(cookie: &str) -> (r: Result<AuthenticatedIdentities, DecodeError>)
        ensures
            decoded(cookie@, r),
    {
        let input = chars_of(cookie);
        let read = read_cookie(&input, 0);
        proof {
            assert(cookie@.subrange(0, cookie@.len() as int) =~= cookie@);
        }
        let r = match read {
            None => Err(DecodeError::Malformed),
            Some((x, end)) => {
                if end != input.len() {
                    Err(DecodeError::Malformed)
                } else if x.is_well_formed() {
                    Ok(x)
                } else {
                    Err(DecodeError::DuplicateProvider)
                }
            },
        };
        proof {
            let text = cookie@;
            assert forall|v: AuthenticatedIdentitiesView| text == #[trigger] cookie_text(v) implies occurs_at(
                text,
                0,
                cookie_text(v),
            ) by {
                assert(text.subrange(0, text.len() as int) =~= text);
            }
        }
        r
    }
}

/// Two GitHub credentials that stand at one index are the same credential.
pub proof fn lemma_github_unique(
    input: Seq<char>,
    pos: int,
    a: GitHubIdentityView,
    b: GitHubIdentityView,
)
    requires
        occurs_at(input, pos, github_text(a)),
        occurs_at(input, pos, github_text(b)),
    ensures
        a == b,
{
    lemma_github_parts(input, pos, a);
    lemma_github_parts(input, pos, b);
    lemma_quoted_unique(
        input,
        pos + "{\"access_token\":"@.len(),
        a.access_token,
        b.access_token,
    );
}

/// Two Discord credentials that stand at one index are the same credential.
pub proof fn lemma_discord_unique(
    input: Seq<char>,
    pos: int,
    a: DiscordIdentityView,
    b: DiscordIdentityView,
)
    requires
        occurs_at(input, pos, discord_text(a)),
        occurs_at(input, pos, discord_text(b)),
    ensures
        a == b,
{
    lemma_discord_parts(input, pos, a);
    lemma_discord_parts(input, pos, b);
    let at1 = pos + "{\"access_token\":"@.len();
    lemma_quoted_unique(input, at1, a.access_token, b.access_token);
    let at3 = at1 + quoted(a.access_token).len() + ",\"expiration\":"@.len();
    lemma_number_unique(input, at3, a.expiration, b.expiration);
    let at5 = at3 + decimal(a.expiration).len() + ",\"refresh_token\":"@.len();
    lemma_quoted_unique(input, at5, a.refresh_token, b.refresh_token);
}

/// Two root identities that stand at one index are the same identity.
pub proof fn lemma_root_unique(input: Seq<char>, pos: int, a: RootIdentityView, b: RootIdentityView)
    requires
        occurs_at(input, pos, root_text(a)),
        occurs_at(input, pos, root_text(b)),
    ensures
        a == b,
{
    lemma_root_parts(input, pos, a);
    lemma_root_parts(input, pos, b);
    match (a, b) {
        (RootIdentityView::GitHub(g), RootIdentityView::GitHub(h)) => {
            lemma_github_unique(input, pos + "{\"GitHub\":"@.len(), g, h);
        },
        (RootIdentityView::Discord(d), RootIdentityView::Discord(e)) => {
            lemma_discord_unique(input, pos + "{\"Discord\":"@.len(), d, e);
        },
        _ => {},
    }
}

/// Two secondary GitHub slots that stand at one index hold the same.
pub proof fn lemma_github_slot_unique(
    input: Seq<char>,
    pos: int,
    a: Option<GitHubIdentityView>,
    b: Option<GitHubIdentityView>,
)
    requires
        occurs_at(input, pos, github_slot_text(a)),
        occurs_at(input, pos, github_slot_text(b)),
    ensures
        a == b,
{
    if let Some(g) = a {
        lemma_github_parts(input, pos, g);
    }
    if let Some(h) = b {
        lemma_github_parts(input, pos, h);
    }
    if a is None || b is None {
        lemma_null_is_no_credential(input, pos);
    } else {
        lemma_github_unique(input, pos, a->0, b->0);
    }
}

/// Two secondary Discord slots that stand at one index hold the same.
pub proof fn lemma_discord_slot_unique(
    input: Seq<char>,
    pos: int,
    a: Option<DiscordIdentityView>,
    b: Option<DiscordIdentityView>,
)
    requires
        occurs_at(input, pos, discord_slot_text(a)),
        occurs_at(input, pos, discord_slot_text(b)),
    ensures
        a == b,
{
    if let Some(d) = a {
        lemma_discord_parts(input, pos, d);
    }
    if let Some(e) = b {
        lemma_discord_parts(input, pos, e);
    }
    if a is None || b is None {
        lemma_null_is_no_credential(input, pos);
    } else {
        lemma_discord_unique(input, pos, a->0, b->0);
    }
}

/// No two sessions are written as the same text.
pub proof fn lemma_encoding_is_injective(
    a: AuthenticatedIdentitiesView,
    b: AuthenticatedIdentitiesView,
)
    requires
        cookie_text(a) == cookie_text(b),
    ensures
        a == b,
{
    let text = cookie_text(a);
    assert(text.subrange(0, text.len() as int) =~= text);
    lemma_cookie_parts(text, 0, a);
    lemma_cookie_parts(text, 0, b);
    let at1 = "{\"root\":"@.len() as int;
    lemma_root_unique(text, at1, a.root, b.root);
    let at3 = at1 + root_text(a.root).len() + ",\"github\":"@.len();
    lemma_github_slot_unique(text, at3, a.github, b.github);
    let at5 = at3 + github_slot_text(a.github).len() + ",\"discord\":"@.len();
    lemma_discord_slot_unique(text, at5, a.discord, b.discord);
}

/// Reading what was written gives back the session that was written.
pub proof fn lemma_decode_inverts_encode(
    x: AuthenticatedIdentities,
    r: Result<AuthenticatedIdentities, DecodeError>,
)
    requires
        x.well_formed(),
        decoded(cookie_text(x@), r),
    ensures
        r matches Ok(y) && y@ == x@,
{
}

} // verus!
