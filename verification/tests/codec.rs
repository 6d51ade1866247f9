use telescope::codec::DecodeError;
use telescope::identity::{AuthenticatedIdentities, DiscordIdentity, GitHubIdentity, RootIdentity};

fn github(token: &str) -> GitHubIdentity {
    GitHubIdentity { access_token: token.to_string() }
}

fn discord(access: &str, expiration: i64, refresh: &str) -> DiscordIdentity {
    DiscordIdentity {
        access_token: access.to_string(),
        expiration,
        refresh_token: refresh.to_string(),
    }
}

fn github_session(token: &str) -> AuthenticatedIdentities {
    RootIdentity::GitHub(github(token)).make_authenticated_cookie()
}

fn assert_round_trip(session: AuthenticatedIdentities) {
    let text = session.encode();
    assert_eq!(AuthenticatedIdentities::decode(&text), Ok(session.clone()));
    // The same session always has the same text.
    assert_eq!(session.encode(), text);
}

const GITHUB_COOKIE: &str =
    "{\"root\":{\"GitHub\":{\"access_token\":\"gho_abc\"}},\"github\":null,\"discord\":null}";

const DISCORD_COOKIE: &str = "{\"root\":{\"Discord\":{\"access_token\":\"acc\",\"expiration\":1614600000,\"refresh_token\":\"ref\"}},\"github\":{\"access_token\":\"gh\"},\"discord\":null}";

#[test]
fn encode_github_root_exact_text() {
    assert_eq!(github_session("gho_abc").encode(), GITHUB_COOKIE);
}

#[test]
fn encode_discord_root_exact_text() {
    let session = AuthenticatedIdentities {
        root: RootIdentity::Discord(discord("acc", 1614600000, "ref")),
        github: Some(github("gh")),
        discord: None,
    };
    assert_eq!(session.encode(), DISCORD_COOKIE);
}

#[test]
fn encode_secondary_discord_exact_text() {
    let session = AuthenticatedIdentities {
        root: RootIdentity::GitHub(github("g")),
        github: None,
        discord: Some(discord("a", -5, "r")),
    };
    assert_eq!(
        session.encode(),
        "{\"root\":{\"GitHub\":{\"access_token\":\"g\"}},\"github\":null,\"discord\":{\"access_token\":\"a\",\"expiration\":-5,\"refresh_token\":\"r\"}}"
    );
}

#[test]
fn encode_escapes_quotes_backslashes_and_controls() {
    let session = github_session("a\"b\\c\nd\te\rf\u{8}g\u{c}h\u{1}i\u{1f}j\u{7f}k");
    assert_eq!(
        session.encode(),
        "{\"root\":{\"GitHub\":{\"access_token\":\"a\\\"b\\\\c\\nd\\te\\rf\\bg\\fh\\u0001i\\u001fj\u{7f}k\"}},\"github\":null,\"discord\":null}"
    );
}

#[test]
fn encode_writes_the_extremes_of_the_expiry() {
    let lowest = RootIdentity::Discord(discord("a", i64::MIN, "r")).make_authenticated_cookie();
    assert!(lowest.encode().contains("\"expiration\":-9223372036854775808,"));
    let highest = RootIdentity::Discord(discord("a", i64::MAX, "r")).make_authenticated_cookie();
    assert!(highest.encode().contains("\"expiration\":9223372036854775807,"));
    let zero = RootIdentity::Discord(discord("a", 0, "r")).make_authenticated_cookie();
    assert!(zero.encode().contains("\"expiration\":0,"));
}

#[test]
fn decode_reads_the_exact_text_back() {
    assert_eq!(AuthenticatedIdentities::decode(GITHUB_COOKIE), Ok(github_session("gho_abc")));
    assert_eq!(
        AuthenticatedIdentities::decode(DISCORD_COOKIE),
        Ok(AuthenticatedIdentities {
            root: RootIdentity::Discord(discord("acc", 1614600000, "ref")),
            github: Some(github("gh")),
            discord: None,
        })
    );
}

#[test]
fn round_trip_github_only() {
    assert_round_trip(github_session("SECRET-REDACTED"));
}

#[test]
fn round_trip_discord_root_with_secondary_github() {
    assert_round_trip(AuthenticatedIdentities {
        root: RootIdentity::Discord(discord("access", 1_700_000_000, "refresh")),
        github: Some(github("gh")),
        discord: None,
    });
}

#[test]
fn round_trip_github_root_with_secondary_discord() {
    assert_round_trip(AuthenticatedIdentities {
        root: RootIdentity::GitHub(github("gh")),
        github: None,
        discord: Some(discord("access", 42, "refresh")),
    });
}

#[test]
fn round_trip_every_expiry_shape() {
    for expiration in [
        0,
        1,
        9,
        10,
        11,
        99,
        100,
        101,
        -1,
        -9,
        -10,
        -100,
        1_614_600_000,
        i64::MAX,
        i64::MAX - 1,
        i64::MIN,
        i64::MIN + 1,
    ] {
        assert_round_trip(
            RootIdentity::Discord(discord("a", expiration, "r")).make_authenticated_cookie(),
        );
    }
}

#[test]
fn round_trip_tokens_with_every_kind_of_character() {
    for token in [
        "",
        "\"",
        "\\",
        "\\\"",
        "\\n",
        "\n",
        "\r\n\t",
        "\u{0}",
        "\u{7}\u{8}\u{9}\u{a}\u{b}\u{c}\u{d}\u{e}",
        "\u{1f} \u{7f}",
        "null",
        "},\"github\":null",
        "caf\u{e9}",
        "\u{1F600}\u{10FFFF}\u{D7FF}\u{E000}",
        "\\u0041",
    ] {
        assert_round_trip(github_session(token));
        assert_round_trip(
            RootIdentity::Discord(discord(token, 7, token)).make_authenticated_cookie(),
        );
    }
}

#[test]
fn round_trip_every_control_character() {
    for code in 0u32..0x20 {
        let c = char::from_u32(code).unwrap();
        let token: String = [c, 'x', c].iter().collect();
        assert_round_trip(github_session(&token));
    }
}

#[test]
fn decode_rejects_text_that_is_no_session() {
    assert_eq!(
        AuthenticatedIdentities::decode("not-a-valid-session"),
        Err(DecodeError::Malformed)
    );
}

#[test]
fn decode_rejects_the_empty_text() {
    assert_eq!(AuthenticatedIdentities::decode(""), Err(DecodeError::Malformed));
}

#[test]
fn decode_rejects_every_truncation() {
    for cookie in [GITHUB_COOKIE, DISCORD_COOKIE] {
        for end in 0..cookie.len() {
            assert_eq!(
                AuthenticatedIdentities::decode(&cookie[..end]),
                Err(DecodeError::Malformed),
                "prefix of length {}",
                end
            );
        }
    }
}

#[test]
fn decode_rejects_trailing_text() {
    for tail in [" ", "}", "\n", "x", GITHUB_COOKIE] {
        let text = format!("{}{}", GITHUB_COOKIE, tail);
        assert_eq!(AuthenticatedIdentities::decode(&text), Err(DecodeError::Malformed));
    }
}

#[test]
fn decode_rejects_other_layouts_of_the_same_object() {
    for text in [
        // White space between the tokens.
        "{ \"root\":{\"GitHub\":{\"access_token\":\"t\"}},\"github\":null,\"discord\":null}",
        "{\"root\": {\"GitHub\":{\"access_token\":\"t\"}},\"github\":null,\"discord\":null}",
        // Members in another order.
        "{\"github\":null,\"root\":{\"GitHub\":{\"access_token\":\"t\"}},\"discord\":null}",
        // A member left out.
        "{\"root\":{\"GitHub\":{\"access_token\":\"t\"}},\"github\":null}",
        "{\"root\":{\"GitHub\":{\"access_token\":\"t\"}}}",
        // A member too many.
        "{\"root\":{\"GitHub\":{\"access_token\":\"t\"}},\"github\":null,\"discord\":null,\"x\":1}",
        // A provider that does not exist, and one in the wrong case.
        "{\"root\":{\"GitLab\":{\"access_token\":\"t\"}},\"github\":null,\"discord\":null}",
        "{\"root\":{\"github\":{\"access_token\":\"t\"}},\"github\":null,\"discord\":null}",
        // The fields of one provider under the name of the other.
        "{\"root\":{\"Discord\":{\"access_token\":\"t\"}},\"github\":null,\"discord\":null}",
        "{\"root\":{\"GitHub\":{\"access_token\":\"t\",\"expiration\":1,\"refresh_token\":\"r\"}},\"github\":null,\"discord\":null}",
        // A root that is absent.
        "{\"root\":null,\"github\":null,\"discord\":null}",
        // A token that is no string.
        "{\"root\":{\"GitHub\":{\"access_token\":5}},\"github\":null,\"discord\":null}",
        "{\"root\":{\"GitHub\":{\"access_token\":null}},\"github\":null,\"discord\":null}",
    ] {
        assert_eq!(AuthenticatedIdentities::decode(text), Err(DecodeError::Malformed), "{}", text);
    }
}

fn discord_cookie_with_expiry(expiry: &str) -> String {
    format!(
        "{{\"root\":{{\"Discord\":{{\"access_token\":\"a\",\"expiration\":{},\"refresh_token\":\"r\"}}}},\"github\":null,\"discord\":null}}",
        expiry
    )
}

#[test]
fn decode_reads_expiries_in_range() {
    for (text, value) in [
        ("0", 0),
        ("7", 7),
        ("-7", -7),
        ("9223372036854775807", i64::MAX),
        ("-9223372036854775808", i64::MIN),
    ] {
        assert_eq!(
            AuthenticatedIdentities::decode(&discord_cookie_with_expiry(text)),
            Ok(RootIdentity::Discord(discord("a", value, "r")).make_authenticated_cookie()),
            "{}",
            text
        );
    }
}

#[test]
fn decode_rejects_expiries_written_otherwise_or_out_of_range() {
    for text in [
        "",
        "-",
        "+5",
        "05",
        "00",
        "-0",
        "-05",
        "5.0",
        "5e3",
        "0x10",
        " 5",
        "5 ",
        "\"5\"",
        "null",
        "9223372036854775808",
        "-9223372036854775809",
        "18446744073709551616",
        "99999999999999999999999999999999999999",
        "\u{663}",
    ] {
        assert_eq!(
            AuthenticatedIdentities::decode(&discord_cookie_with_expiry(text)),
            Err(DecodeError::Malformed),
            "{:?}",
            text
        );
    }
}

fn github_cookie_with_raw_token(raw: &str) -> String {
    format!(
        "{{\"root\":{{\"GitHub\":{{\"access_token\":\"{}\"}}}},\"github\":null,\"discord\":null}}",
        raw
    )
}

#[test]
fn decode_reads_each_escape_that_encode_writes() {
    for (raw, token) in [
        ("\\\"", "\""),
        ("\\\\", "\\"),
        ("\\b", "\u{8}"),
        ("\\f", "\u{c}"),
        ("\\n", "\n"),
        ("\\r", "\r"),
        ("\\t", "\t"),
        ("\\u0000", "\u{0}"),
        ("\\u000b", "\u{b}"),
        ("\\u001f", "\u{1f}"),
        ("x\\u0010y", "x\u{10}y"),
    ] {
        assert_eq!(
            AuthenticatedIdentities::decode(&github_cookie_with_raw_token(raw)),
            Ok(github_session(token)),
            "{}",
            raw
        );
    }
}

#[test]
fn decode_rejects_escapes_that_encode_never_writes() {
    for raw in [
        // Escapes of characters that stand for themselves.
        "\\/",
        "\\u0041",
        "\\u0020",
        "\\u007f",
        "\\u00e9",
        // Long escapes of characters that have a short one.
        "\\u0008",
        "\\u0009",
        "\\u000a",
        "\\u000c",
        "\\u000d",
        "\\u0022",
        "\\u005c",
        // Upper-case digits.
        "\\u001F",
        "\\u000B",
        "\\U0001",
        // Escapes cut short or unknown.
        "\\",
        "\\u",
        "\\u0",
        "\\u00",
        "\\u001",
        "\\u00g0",
        "\\x01",
        "\\a",
        "\\0",
        // Control characters that are not escaped.
        "\n",
        "\t",
        "\u{0}",
        "\u{1f}",
    ] {
        assert_eq!(
            AuthenticatedIdentities::decode(&github_cookie_with_raw_token(raw)),
            Err(DecodeError::Malformed),
            "{:?}",
            raw
        );
    }
}

#[test]
fn decode_rejects_a_provider_in_two_places() {
    let github_twice = AuthenticatedIdentities {
        root: RootIdentity::GitHub(github("one")),
        github: Some(github("two")),
        discord: None,
    };
    assert_eq!(
        AuthenticatedIdentities::decode(&github_twice.encode()),
        Err(DecodeError::DuplicateProvider)
    );
    let discord_twice = AuthenticatedIdentities {
        root: RootIdentity::Discord(discord("a", 1, "r")),
        github: None,
        discord: Some(discord("b", 2, "s")),
    };
    assert_eq!(
        AuthenticatedIdentities::decode(&discord_twice.encode()),
        Err(DecodeError::DuplicateProvider)
    );
}

#[test]
fn decode_accepts_both_secondary_slots_only_under_no_root_of_theirs() {
    let session = AuthenticatedIdentities {
        root: RootIdentity::GitHub(github("g")),
        github: None,
        discord: Some(discord("a", 1, "r")),
    };
    assert!(session.is_well_formed());
    assert_round_trip(session);
}

#[test]
fn encoded_text_is_json_with_the_fields_of_the_session() {
    let token = "a\"b\\c\nd\u{1}\u{1f}\u{7f}\u{e9}\u{1F600}";
    let session = AuthenticatedIdentities {
        root: RootIdentity::Discord(discord(token, -1_234_567_890_123, "refresh\ttoken")),
        github: Some(github(token)),
        discord: None,
    };
    let value: serde_json::Value = serde_json::from_str(&session.encode()).unwrap();
    let root = &value["root"]["Discord"];
    assert_eq!(root["access_token"].as_str(), Some(token));
    assert_eq!(root["expiration"].as_i64(), Some(-1_234_567_890_123));
    assert_eq!(root["refresh_token"].as_str(), Some("refresh\ttoken"));
    assert_eq!(value["github"]["access_token"].as_str(), Some(token));
    assert!(value["discord"].is_null());
    assert_eq!(value.as_object().map(|members| members.len()), Some(3));
}

#[test]
fn encoded_strings_are_escaped_as_serde_json_escapes_them() {
    for code in (0u32..0x3000).chain([0xd7ff, 0xe000, 0xfeff, 0xfffd, 0xffff, 0x1F600, 0x10FFFF]) {
        let c = char::from_u32(code).unwrap();
        let token: String = [c].iter().collect();
        let text = github_session(&token).encode();
        let quoted = serde_json::to_string(&token).unwrap();
        assert_eq!(text, github_cookie_with_raw_token(&quoted[1..quoted.len() - 1]), "{:?}", c);
    }
}

#[test]
fn different_sessions_have_different_texts() {
    let sessions = [
        github_session("a"),
        github_session("b"),
        github_session("a\"},\"github\":null"),
        RootIdentity::Discord(discord("a", 0, "")).make_authenticated_cookie(),
        RootIdentity::Discord(discord("a", 0, "0")).make_authenticated_cookie(),
        RootIdentity::Discord(discord("a", 10, "")).make_authenticated_cookie(),
        RootIdentity::Discord(discord("a", 1, "0")).make_authenticated_cookie(),
        RootIdentity::Discord(discord("a", -1, "0")).make_authenticated_cookie(),
        AuthenticatedIdentities {
            root: RootIdentity::GitHub(github("a")),
            github: None,
            discord: Some(discord("a", 0, "")),
        },
        AuthenticatedIdentities {
            root: RootIdentity::Discord(discord("a", 0, "")),
            github: Some(github("a")),
            discord: None,
        },
    ];
    for (i, one) in sessions.iter().enumerate() {
        for (j, other) in sessions.iter().enumerate() {
            assert_eq!(one.encode() == other.encode(), i == j, "{} and {}", i, j);
        }
    }
}
