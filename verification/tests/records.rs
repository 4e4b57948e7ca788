use cql_gateway::records::{
    BigintPair, GuildMembers, GuildOrderType, MemberTimeouts, MentionsType, Roles, Settings,
    TokenType,
};

fn token(date: &str) -> TokenType {
    TokenType {
        token_: "SECRET-REDACTED".to_string(),
        created_date: date.to_string(),
        ip: "127.0.0.1".to_string(),
        flags: 1,
        token_id: "t1".to_string(),
    }
}

fn settings(tokens: Vec<TokenType>) -> Settings {
    Settings {
        user_id: "u1".to_string(),
        status: 1,
        custom_status: None,
        bio: Some("bio".to_string()),
        tokens,
        theme: "dark".to_string(),
        language: "en".to_string(),
        privacy: 0,
        mentions: vec![MentionsType { message_id: "m1".to_string() }],
        max_guilds: 100,
        max_file_upload_size: 8,
        guild_order: vec![GuildOrderType { guild_id: "g1".to_string(), position: 2 }],
        allowed_invites: 5,
    }
}

#[test]
fn token_dates_parse_to_epoch_milliseconds() {
    let cql = token("1970-01-01T00:00:01+00:00").to_cql().unwrap();
    assert_eq!(cql.created_date, 1000);
    assert_eq!(cql.flags, 1);
    assert_eq!(cql.token_id, "t1");
}

#[test]
fn an_unparsable_token_date_is_a_format_error() {
    let err = token("not a date").to_cql().unwrap_err();
    assert_eq!(err.text, "not a date");
}

#[test]
fn settings_convert_field_by_field() {
    let cql = settings(vec![token("2024-05-01T12:00:00+00:00")]).to_cql().unwrap();
    assert_eq!(cql.user_id, "u1");
    assert_eq!(cql.tokens.len(), 1);
    assert_eq!(cql.tokens[0].created_date, 1714564800000);
    assert_eq!(cql.mentions[0].message_id, "m1");
    assert_eq!(cql.guild_order[0].guild_id, "g1");
    assert_eq!(cql.guild_order[0].position, 2);
    assert_eq!(cql.allowed_invites, 5);
}

#[test]
fn settings_fail_when_any_token_date_fails() {
    let bad = settings(vec![token("2024-05-01T12:00:00+00:00"), token("later")]);
    let err = bad.to_cql().unwrap_err();
    assert_eq!(err.text, "later");
}

#[test]
fn bigint_pairs_parse_both_halves() {
    let pair = BigintPair { first: "8".to_string(), second: "-2048".to_string() };
    let cql = pair.to_cql().unwrap();
    assert_eq!(cql.first, 8);
    assert_eq!(cql.second, -2048);
}

#[test]
fn a_bad_half_names_itself() {
    let pair = BigintPair { first: "8".to_string(), second: "big".to_string() };
    assert_eq!(pair.to_cql().unwrap_err().text, "big");
}

#[test]
fn guild_members_parse_dates_and_member_id() {
    let member = GuildMembers {
        guild_id: "g".to_string(),
        user_id: "u".to_string(),
        roles: vec!["r1".to_string()],
        nickname: None,
        joined_at: "1970-01-02T00:00:00+00:00".to_string(),
        flags: 0,
        timeouts: vec![MemberTimeouts {
            channel_id: "c".to_string(),
            timeout_until: "1970-01-01T00:00:10+00:00".to_string(),
        }],
        guild_member_id: "9007199254740993".to_string(),
    };
    let cql = member.to_cql().unwrap();
    assert_eq!(cql.joined_at, 86_400_000);
    assert_eq!(cql.timeouts[0].timeout_until, 10_000);
    assert_eq!(cql.guild_member_id, 9007199254740993);
}

#[test]
fn a_non_decimal_member_id_is_a_format_error() {
    let member = GuildMembers {
        guild_id: "g".to_string(),
        user_id: "u".to_string(),
        roles: Vec::new(),
        nickname: None,
        joined_at: "1970-01-01T00:00:00+00:00".to_string(),
        flags: 0,
        timeouts: Vec::new(),
        guild_member_id: "not-a-number".to_string(),
    };
    assert_eq!(member.to_cql().unwrap_err().text, "not-a-number");
}

#[test]
fn roles_parse_every_permission_pair() {
    let role = Roles {
        role_id: "r".to_string(),
        guild_id: "g".to_string(),
        name: "admin".to_string(),
        allowed_age_restricted: false,
        deleteable: true,
        mentionable: true,
        hoisted: false,
        color: 0xff00,
        permissions: vec![
            BigintPair { first: "1".to_string(), second: "2".to_string() },
            BigintPair { first: "3".to_string(), second: "4".to_string() },
        ],
        position: 1,
    };
    let cql = role.to_cql().unwrap();
    assert_eq!(cql.permissions.len(), 2);
    assert_eq!(cql.permissions[1].first, 3);
    assert_eq!(cql.permissions[1].second, 4);
}
