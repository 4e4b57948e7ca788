//! Domain record codecs: per-"type" record shapes layered on the generic
//! insert path, and their conversions to the column form the driver binds.
//!
//! Each record exists twice: the wire form, where timestamps are RFC 3339
//! strings and precision-sensitive 64-bit integers are decimal strings, and
//! the column form, where timestamps are epoch milliseconds and 64-bit
//! integers are native. Converting parses those strings and fails with a
//! `FormatError` on unparsable input instead of panicking.

use vstd::prelude::*;

use crate::codec::{rfc3339_millis, rfc3339_to_millis};
use crate::decimal::{parse_i64_dec, spec_parse_i64};

verus! {

/// An unparsable timestamp or integer string, carried verbatim.
#[derive(Debug, PartialEq)]
pub struct FormatError {
    pub text: String,
}

/// A session token as it travels on the wire.
#[derive(Debug)]
pub struct TokenType {
    pub token_: String,
    pub created_date: String,
    pub ip: String,
    pub flags: i32,
    pub token_id: String,
}

/// A session token as the driver binds it.
#[derive(Debug)]
pub struct TokensTypeUDT {
    pub token_: String,
    pub created_date: i64,
    pub ip: String,
    pub flags: i32,
    pub token_id: String,
}

/// The column form carries the wire form's fields, with the creation date
/// parsed to epoch milliseconds.
pub open spec fn token_cql_matches(t: TokensTypeUDT, s: TokenType) -> bool {
    &&& t.token_ == s.token_
    &&& Some(t.created_date) == rfc3339_millis(s.created_date@)
    &&& t.ip == s.ip
    &&& t.flags == s.flags
    &&& t.token_id == s.token_id
}

impl TokenType {
    /// Converts to the column form; fails exactly when the creation date is
    /// not RFC 3339.
    pub fn to_cql(self) -> (r: Result<TokensTypeUDT, FormatError>)
        ensures
            r is Ok <==> rfc3339_millis(self.created_date@) is Some,
            r matches Ok(t) ==> token_cql_matches(t, self),
            r matches Err(e) ==> e.text@ == self.created_date@ && rfc3339_millis(
                e.text@,
            ) is None,
    {
        match rfc3339_to_millis(self.created_date.as_str()) {
            Some(ms) => Ok(
                TokensTypeUDT {
                    token_: self.token_,
                    created_date: ms,
                    ip: self.ip,
                    flags: self.flags,
                    token_id: self.token_id,
                },
            ),
            None => Err(FormatError { text: self.created_date }),
        }
    }
}

/// A mention as it travels on the wire.
#[derive(Debug)]
pub struct MentionsType {
    pub message_id: String,
}

/// A mention as the driver binds it.
#[derive(Debug)]
pub struct MentionsTypeUDT {
    pub message_id: String,
}

impl MentionsType {
    /// Converts to the column form; nothing needs parsing.
    pub fn to_cql(self) -> (r: MentionsTypeUDT)
        ensures
            r.message_id == self.message_id,
    {
        MentionsTypeUDT { message_id: self.message_id }
    }
}

/// A guild-order entry as it travels on the wire.
#[derive(Debug)]
pub struct GuildOrderType {
    pub guild_id: String,
    pub position: i32,
}

/// A guild-order entry as the driver binds it.
#[derive(Debug)]
pub struct GuildOrderTypeUDT {
    pub guild_id: String,
    pub position: i32,
}

impl GuildOrderType {
    /// Converts to the column form; nothing needs parsing.
    pub fn to_cql(self) -> (r: GuildOrderTypeUDT)
        ensures
            r.guild_id == self.guild_id,
            r.position == self.position,
    {
        GuildOrderTypeUDT { guild_id: self.guild_id, position: self.position }
    }
}

/// A member timeout as it travels on the wire.
#[derive(Debug)]
pub struct MemberTimeouts {
    pub channel_id: String,
    pub timeout_until: String,
}

/// A member timeout as the driver binds it.
#[derive(Debug)]
pub struct MemberTimeoutsUDT {
    pub channel_id: String,
    pub timeout_until: i64,
}

/// The column form carries the channel, with the timeout parsed to epoch
/// milliseconds.
pub open spec fn timeout_cql_matches(t: MemberTimeoutsUDT, s: MemberTimeouts) -> bool {
    &&& t.channel_id == s.channel_id
    &&& Some(t.timeout_until) == rfc3339_millis(s.timeout_until@)
}

impl MemberTimeouts {
    /// Converts to the column form; fails exactly when the timeout is not
    /// RFC 3339.
    pub fn to_cql(self) -> (r: Result<MemberTimeoutsUDT, FormatError>)
        ensures
            r is Ok <==> rfc3339_millis(self.timeout_until@) is Some,
            r matches Ok(t) ==> timeout_cql_matches(t, self),
            r matches Err(e) ==> e.text@ == self.timeout_until@ && rfc3339_millis(
                e.text@,
            ) is None,
    {
        match rfc3339_to_millis(self.timeout_until.as_str()) {
            Some(ms) => Ok(MemberTimeoutsUDT { channel_id: self.channel_id, timeout_until: ms }),
            None => Err(FormatError { text: self.timeout_until }),
        }
    }
}

/// A pair of 64-bit integers as it travels on the wire: decimal strings, so
/// clients lose no precision.
#[derive(Debug)]
pub struct BigintPair {
    pub first: String,
    pub second: String,
}

/// A pair of 64-bit integers as the driver binds it.
#[derive(Debug)]
pub struct BigintPairUDT {
    pub first: i64,
    pub second: i64,
}

/// The column form carries both integers parsed from their decimal strings.
pub open spec fn pair_cql_matches(u: BigintPairUDT, p: BigintPair) -> bool {
    &&& Some(u.first) == spec_parse_i64(p.first@)
    &&& Some(u.second) == spec_parse_i64(p.second@)
}

/// Whether both halves of a wire pair parse as 64-bit integers.
pub open spec fn pair_ok(p: BigintPair) -> bool {
    spec_parse_i64(p.first@) is Some && spec_parse_i64(p.second@) is Some
}

impl BigintPair {
    /// Converts to the column form; fails exactly when either half is not a
    /// decimal 64-bit integer, naming the half that failed first.
    pub fn to_cql(self) -> (r: Result<BigintPairUDT, FormatError>)
        ensures
            r is Ok <==> pair_ok(self),
            r matches Ok(u) ==> pair_cql_matches(u, self),
            r matches Err(e) ==> spec_parse_i64(e.text@) is None,
    {
        let first = match parse_i64_dec(self.first.as_str()) {
            Some(v) => v,
            None => {
                return Err(FormatError { text: self.first });
            },
        };
        let second = match parse_i64_dec(self.second.as_str()) {
            Some(v) => v,
            None => {
                return Err(FormatError { text: self.second });
            },
        };
        Ok(BigintPairUDT { first, second })
    }
}

/// A direct-message recipient.
#[derive(Debug)]
pub struct DmRecipients {
    pub user_id: String,
    pub flags: i32,
}

/// A direct-message recipient as the driver binds it.
#[derive(Debug)]
pub struct DmRecipientsUDT {
    pub user_id: String,
    pub flags: i32,
}

/// A friend interaction.
#[derive(Debug)]
pub struct FriendsInteractions {
    pub user_id: String,
    pub target_id: String,
    pub target_nickname: String,
    pub flags: i32,
}

/// A friend interaction as the driver binds it.
#[derive(Debug)]
pub struct FriendsInteractionsUDT {
    pub user_id: String,
    pub target_id: String,
    pub target_nickname: String,
    pub flags: i32,
}

/// An embed author.
#[derive(Debug)]
pub struct Author {
    pub name: String,
    pub iconurl: String,
}

/// An embed author as the driver binds it.
#[derive(Debug)]
pub struct AuthorUDT {
    pub name: String,
    pub iconurl: String,
}

/// An embed footer, its timestamp an RFC 3339 string.
#[derive(Debug)]
pub struct Footer {
    pub text: String,
    pub timestamp: String,
}

/// An embed footer as the driver binds it, its timestamp in epoch
/// milliseconds.
#[derive(Debug)]
pub struct FooterUDT {
    pub text: String,
    pub timestamp_: i64,
}

/// An embed field.
#[derive(Debug)]
pub struct Field {
    pub title: String,
    pub description: String,
}

/// An embed field as the driver binds it.
#[derive(Debug)]
pub struct FieldUDT {
    pub title: String,
    pub description: String,
}

/// A message embed.
#[derive(Debug)]
pub struct MainObject {
    pub title: String,
    pub description: String,
    pub url: String,
    pub color: String,
    pub author: Author,
    pub footer: Footer,
    pub fields: Vec<Field>,
    pub thumbnail_url: String,
    pub image_url: String,
}

/// A message embed as the driver binds it.
#[derive(Debug)]
pub struct MainObjectUDT {
    pub title: String,
    pub description: String,
    pub url: String,
    pub color: String,
    pub author: AuthorUDT,
    pub footer: FooterUDT,
    pub fields: Vec<FieldUDT>,
    pub thumbnail_url: String,
    pub image_url: String,
}

/// User settings as they travel on the wire.
#[derive(Debug)]
pub struct Settings {
    pub user_id: String,
    pub status: i32,
    pub custom_status: Option<String>,
    pub bio: Option<String>,
    pub tokens: Vec<TokenType>,
    pub theme: String,
    pub language: String,
    pub privacy: i32,
    pub mentions: Vec<MentionsType>,
    pub max_guilds: i32,
    pub max_file_upload_size: i32,
    pub guild_order: Vec<GuildOrderType>,
    pub allowed_invites: i32,
}

/// User settings as the driver binds them.
#[derive(Debug)]
pub struct CqlSettings {
    pub user_id: String,
    pub status: i32,
    pub custom_status: Option<String>,
    pub bio: Option<String>,
    pub tokens: Vec<TokensTypeUDT>,
    pub theme: String,
    pub language: String,
    pub privacy: i32,
    pub mentions: Vec<MentionsTypeUDT>,
    pub max_guilds: i32,
    pub max_file_upload_size: i32,
    pub guild_order: Vec<GuildOrderTypeUDT>,
    pub allowed_invites: i32,
}

/// Whether every token's creation date parses.
pub open spec fn tokens_ok(s: Seq<TokenType>) -> bool {
    forall|i: int| 0 <= i < s.len() ==> rfc3339_millis((#[trigger] s[i]).created_date@) is Some
}

impl Settings {
    /// Converts to the column form; fails exactly when some token's creation
    /// date is not RFC 3339.
    #[verifier::loop_isolation(false)]
    pub fn to_cql(self) -> (r: Result<CqlSettings, FormatError>)
        ensures
            r is Ok <==> tokens_ok(self.tokens@),
            r matches Ok(c) ==> {
                &&& c.user_id == self.user_id
                &&& c.status == self.status
                &&& c.custom_status == self.custom_status
                &&& c.bio == self.bio
                &&& c.theme == self.theme
                &&& c.language == self.language
                &&& c.privacy == self.privacy
                &&& c.max_guilds == self.max_guilds
                &&& c.max_file_upload_size == self.max_file_upload_size
                &&& c.allowed_invites == self.allowed_invites
                &&& c.tokens@.len() == self.tokens@.len()
                &&& (forall|i: int|
                    0 <= i < self.tokens@.len() ==> token_cql_matches(
                        #[trigger] c.tokens@[i],
                        self.tokens@[i],
                    ))
                &&& c.mentions@.len() == self.mentions@.len()
                &&& (forall|i: int|
                    0 <= i < self.mentions@.len() ==> (#[trigger] c.mentions@[i]).message_id
                        == self.mentions@[i].message_id)
                &&& c.guild_order@.len() == self.guild_order@.len()
                &&& (forall|i: int|
                    0 <= i < self.guild_order@.len() ==> (#[trigger] c.guild_order@[i]).guild_id
                        == self.guild_order@[i].guild_id && c.guild_order@[i].position
                        == self.guild_order@[i].position)
            },
            r matches Err(e) ==> rfc3339_millis(e.text@) is None,
    {
        let ghost all_tokens = self.tokens@;
        let mut tokens: Vec<TokensTypeUDT> = Vec::new();
        let mut rest = self.tokens;
        while rest.len() > 0
            invariant
                tokens@.len() + rest@.len() == all_tokens.len(),
                rest@ == all_tokens.subrange(tokens@.len() as int, all_tokens.len() as int),
                forall|j: int|
                    0 <= j < tokens@.len() ==> token_cql_matches(
                        #[trigger] tokens@[j],
                        all_tokens[j],
                    ),
            decreases rest@.len(),
        {
            let ghost done = tokens@.len() as int;
            let tok = rest.remove(0);
            proof {
                assert(tok == all_tokens[done]);
                assert(rest@ =~= all_tokens.subrange(done + 1, all_tokens.len() as int));
            }
            match tok.to_cql() {
                Ok(t) => tokens.push(t),
                Err(e) => {
                    proof {
                        assert(rfc3339_millis(all_tokens[done].created_date@) is None);
                    }
                    return Err(e);
                },
            }
        }
        proof {
            assert forall|i: int|
                0 <= i < all_tokens.len() implies rfc3339_millis(
                (#[trigger] all_tokens[i]).created_date@,
            ) is Some by {
                assert(token_cql_matches(tokens@[i], all_tokens[i]));
            }
        }

        let ghost all_mentions = self.mentions@;
        let mut mentions: Vec<MentionsTypeUDT> = Vec::new();
        let mut rest = self.mentions;
        while rest.len() > 0
            invariant
                mentions@.len() + rest@.len() == all_mentions.len(),
                rest@ == all_mentions.subrange(mentions@.len() as int, all_mentions.len() as int),
                forall|j: int|
                    0 <= j < mentions@.len() ==> (#[trigger] mentions@[j]).message_id
                        == all_mentions[j].message_id,
            decreases rest@.len(),
        {
            let ghost done = mentions@.len() as int;
            let m = rest.remove(0);
            proof {
                assert(m == all_mentions[done]);
                assert(rest@ =~= all_mentions.subrange(done + 1, all_mentions.len() as int));
            }
            mentions.push(m.to_cql());
        }

        let ghost all_order = self.guild_order@;
        let mut guild_order: Vec<GuildOrderTypeUDT> = Vec::new();
        let mut rest = self.guild_order;
        while rest.len() > 0
            invariant
                guild_order@.len() + rest@.len() == all_order.len(),
                rest@ == all_order.subrange(guild_order@.len() as int, all_order.len() as int),
                forall|j: int|
                    0 <= j < guild_order@.len() ==> (#[trigger] guild_order@[j]).guild_id
                        == all_order[j].guild_id && guild_order@[j].position
                        == all_order[j].position,
            decreases rest@.len(),
        {
            let ghost done = guild_order@.len() as int;
            let g = rest.remove(0);
            proof {
                assert(g == all_order[done]);
                assert(rest@ =~= all_order.subrange(done + 1, all_order.len() as int));
            }
            guild_order.push(g.to_cql());
        }

        Ok(
            CqlSettings {
                user_id: self.user_id,
                status: self.status,
                custom_status: self.custom_status,
                bio: self.bio,
                tokens,
                theme: self.theme,
                language: self.language,
                privacy: self.privacy,
                mentions,
                max_guilds: self.max_guilds,
                max_file_upload_size: self.max_file_upload_size,
                guild_order,
                allowed_invites: self.allowed_invites,
            },
        )
    }
}

/// A guild member as it travels on the wire: the joined date and timeouts
/// are RFC 3339 strings, the member id a decimal 64-bit integer string.
#[derive(Debug)]
pub struct GuildMembers {
    pub guild_id: String,
    pub user_id: String,
    pub roles: Vec<String>,
    pub nickname: Option<String>,
    pub joined_at: String,
    pub flags: i32,
    pub timeouts: Vec<MemberTimeouts>,
    pub guild_member_id: String,
}

/// A guild member as the driver binds it.
#[derive(Debug)]
pub struct GuildMembersCQL {
    pub guild_id: String,
    pub user_id: String,
    pub roles: Vec<String>,
    pub nickname: Option<String>,
    pub joined_at: i64,
    pub flags: i32,
    pub timeouts: Vec<MemberTimeoutsUDT>,
    pub guild_member_id: i64,
}

/// Whether every timeout's date parses.
pub open spec fn timeouts_ok(s: Seq<MemberTimeouts>) -> bool {
    forall|i: int| 0 <= i < s.len() ==> rfc3339_millis((#[trigger] s[i]).timeout_until@) is Some
}

impl GuildMembers {
    /// Converts to the column form; fails exactly when the joined date or a
    /// timeout is not RFC 3339, or the member id is not a decimal 64-bit
    /// integer.
    #[verifier::loop_isolation(false)]
    pub fn to_cql(self) -> (r: Result<GuildMembersCQL, FormatError>)
        ensures
            r is Ok <==> rfc3339_millis(self.joined_at@) is Some && timeouts_ok(self.timeouts@)
                && spec_parse_i64(self.guild_member_id@) is Some,
            r matches Ok(c) ==> {
                &&& c.guild_id == self.guild_id
                &&& c.user_id == self.user_id
                &&& c.roles == self.roles
                &&& c.nickname == self.nickname
                &&& Some(c.joined_at) == rfc3339_millis(self.joined_at@)
                &&& c.flags == self.flags
                &&& c.timeouts@.len() == self.timeouts@.len()
                &&& (forall|i: int|
                    0 <= i < self.timeouts@.len() ==> timeout_cql_matches(
                        #[trigger] c.timeouts@[i],
                        self.timeouts@[i],
                    ))
                &&& Some(c.guild_member_id) == spec_parse_i64(self.guild_member_id@)
            },
            r matches Err(e) ==> rfc3339_millis(e.text@) is None || spec_parse_i64(
                e.text@,
            ) is None,
    {
        let joined_at = match rfc3339_to_millis(self.joined_at.as_str()) {
            Some(ms) => ms,
            None => {
                return Err(FormatError { text: self.joined_at });
            },
        };
        let guild_member_id = match parse_i64_dec(self.guild_member_id.as_str()) {
            Some(v) => v,
            None => {
                return Err(FormatError { text: self.guild_member_id });
            },
        };

        let ghost all = self.timeouts@;
        let mut timeouts: Vec<MemberTimeoutsUDT> = Vec::new();
        let mut rest = self.timeouts;
        while rest.len() > 0
            invariant
                timeouts@.len() + rest@.len() == all.len(),
                rest@ == all.subrange(timeouts@.len() as int, all.len() as int),
                forall|j: int|
                    0 <= j < timeouts@.len() ==> timeout_cql_matches(
                        #[trigger] timeouts@[j],
                        all[j],
                    ),
            decreases rest@.len(),
        {
            let ghost done = timeouts@.len() as int;
            let t = rest.remove(0);
            proof {
                assert(t == all[done]);
                assert(rest@ =~= all.subrange(done + 1, all.len() as int));
            }
            match t.to_cql() {
                Ok(u) => timeouts.push(u),
                Err(e) => {
                    proof {
                        assert(rfc3339_millis(all[done].timeout_until@) is None);
                    }
                    return Err(e);
                },
            }
        }
        proof {
            assert forall|i: int|
                0 <= i < all.len() implies rfc3339_millis(
                (#[trigger] all[i]).timeout_until@,
            ) is Some by {
                assert(timeout_cql_matches(timeouts@[i], all[i]));
            }
        }

        Ok(
            GuildMembersCQL {
                guild_id: self.guild_id,
                user_id: self.user_id,
                roles: self.roles,
                nickname: self.nickname,
                joined_at,
                flags: self.flags,
                timeouts,
                guild_member_id,
            },
        )
    }
}

/// A role as it travels on the wire: permissions are pairs of decimal
/// 64-bit integer strings.
#[derive(Debug)]
pub struct Roles {
    pub role_id: String,
    pub guild_id: String,
    pub name: String,
    pub allowed_age_restricted: bool,
    pub deleteable: bool,
    pub mentionable: bool,
    pub hoisted: bool,
    pub color: i32,
    pub permissions: Vec<BigintPair>,
    pub position: i32,
}

/// A role as the driver binds it.
#[derive(Debug)]
pub struct RolesCQL {
    pub role_id: String,
    pub guild_id: String,
    pub name: String,
    pub allowed_age_restricted: bool,
    pub deleteable: bool,
    pub mentionable: bool,
    pub hoisted: bool,
    pub color: i32,
    pub permissions: Vec<BigintPairUDT>,
    pub position: i32,
}

/// Whether every permission pair parses.
pub open spec fn permissions_ok(s: Seq<BigintPair>) -> bool {
    forall|i: int| 0 <= i < s.len() ==> pair_ok(#[trigger] s[i])
}

impl Roles {
    /// Converts to the column form; fails exactly when some permission half
    /// is not a decimal 64-bit integer.
    #[verifier::loop_isolation(false)]
    pub fn to_cql(self) -> (r: Result<RolesCQL, FormatError>)
        ensures
            r is Ok <==> permissions_ok(self.permissions@),
            r matches Ok(c) ==> {
                &&& c.role_id == self.role_id
                &&& c.guild_id == self.guild_id
                &&& c.name == self.name
                &&& c.allowed_age_restricted == self.allowed_age_restricted
                &&& c.deleteable == self.deleteable
                &&& c.mentionable == self.mentionable
                &&& c.hoisted == self.hoisted
                &&& c.color == self.color
                &&& c.position == self.position
                &&& c.permissions@.len() == self.permissions@.len()
                &&& (forall|i: int|
                    0 <= i < self.permissions@.len() ==> pair_cql_matches(
                        #[trigger] c.permissions@[i],
                        self.permissions@[i],
                    ))
            },
            r matches Err(e) ==> spec_parse_i64(e.text@) is None,
    {
        let ghost all = self.permissions@;
        let mut permissions: Vec<BigintPairUDT> = Vec::new();
        let mut rest = self.permissions;
        while rest.len() > 0
            invariant
                permissions@.len() + rest@.len() == all.len(),
                rest@ == all.subrange(permissions@.len() as int, all.len() as int),
                forall|j: int|
                    0 <= j < permissions@.len() ==> pair_cql_matches(
                        #[trigger] permissions@[j],
                        all[j],
                    ),
            decreases rest@.len(),
        {
            let ghost done = permissions@.len() as int;
            let p = rest.remove(0);
            proof {
                assert(p == all[done]);
                assert(rest@ =~= all.subrange(done + 1, all.len() as int));
            }
            match p.to_cql() {
                Ok(u) => permissions.push(u),
                Err(e) => {
                    proof {
                        assert(!pair_ok(all[done]));
                    }
                    return Err(e);
                },
            }
        }
        proof {
            assert forall|i: int| 0 <= i < all.len() implies pair_ok(#[trigger] all[i]) by {
                assert(pair_cql_matches(permissions@[i], all[i]));
            }
        }

        Ok(
            RolesCQL {
                role_id: self.role_id,
                guild_id: self.guild_id,
                name: self.name,
                allowed_age_restricted: self.allowed_age_restricted,
                deleteable: self.deleteable,
                mentionable: self.mentionable,
                hoisted: self.hoisted,
                color: self.color,
                permissions,
                position: self.position,
            },
        )
    }
}

/// A direct-message channel as it travels on the wire.
#[derive(Debug)]
pub struct Dms {
    pub dm_id: String,
    pub recipients: Vec<DmRecipients>,
    pub channel_id: String,
    pub flags: i32,
}

/// A direct-message channel as the driver binds it.
#[derive(Debug)]
pub struct DmsCQL {
    pub dm_id: String,
    pub recipients: Vec<DmRecipientsUDT>,
    pub channel_id: String,
    pub flags: i32,
}

/// A friend list as it travels on the wire.
#[derive(Debug)]
pub struct Friends {
    pub friend_id: String,
    pub interactions: Vec<FriendsInteractions>,
}

/// A friend list as the driver binds it.
#[derive(Debug)]
pub struct FriendsCQL {
    pub friend_id: String,
    pub interactions: Vec<FriendsInteractionsUDT>,
}

/// A message as it travels on the wire.
#[derive(Debug)]
pub struct Messages {
    pub message_id: String,
    pub author_id: String,
    pub content: Option<String>,
    pub allowed_mentions: i32,
    pub updated_date: Option<String>,
    pub channel_id: String,
    pub nonce: Option<String>,
    pub bucket: String,
    pub flags: i32,
    pub mentions: Vec<String>,
    pub mention_roles: Vec<String>,
    pub mention_channels: Vec<String>,
    pub embeds: Vec<MainObject>,
    pub attachments: Vec<String>,
    pub replying_to: Option<String>,
}

/// A message as the driver binds it.
#[derive(Debug)]
pub struct MessagesCQL {
    pub message_id: String,
    pub author_id: String,
    pub content: Option<String>,
    pub allowed_mentions: i32,
    pub updated_date: Option<i64>,
    pub channel_id: String,
    pub nonce: Option<String>,
    pub bucket: String,
    pub flags: i32,
    pub mentions: Vec<String>,
    pub mention_roles: Vec<String>,
    pub mention_channels: Vec<String>,
    pub embeds: Vec<MainObjectUDT>,
    pub attachments: Vec<String>,
    pub replying_to: Option<String>,
}

/// A permission override as it travels on the wire.
#[derive(Debug)]
pub struct PermissionOverrides {
    pub permission_id: String,
    pub id: String,
    pub allow_: Vec<BigintPair>,
    pub deny: Vec<BigintPair>,
    pub type_: i32,
    pub editable: bool,
    pub slowmode: i32,
}

/// A permission override as the driver binds it.
#[derive(Debug)]
pub struct PermissionOverridesCQL {
    pub permission_id: String,
    pub id: String,
    pub allow_: Vec<BigintPairUDT>,
    pub deny: Vec<BigintPairUDT>,
    pub type_: i32,
    pub editable: bool,
    pub slowmode: i32,
}

/// A user row.
#[derive(Debug)]
pub struct User {
    pub user_id: String,
    pub email: String,
    pub username: String,
    pub tag: String,
    pub avatar: String,
    pub password: String,
    pub phone_number: String,
    pub two_fa_secret: String,
    pub ips: Vec<String>,
    pub public_flags: String,
    pub flags: String,
    pub guilds: Vec<String>,
    pub global_nickname: String,
}

/// A bot row.
#[derive(Debug)]
pub struct Bot {
    pub user_id: String,
    pub name: String,
    pub description: String,
    pub avatar: String,
    pub summary: String,
    pub owner_id: String,
}

/// An empty-buckets row.
#[derive(Debug)]
pub struct EmptyBuckets {
    pub channel_id: String,
    pub buckets: Vec<String>,
}

/// A ban row, its dates in epoch milliseconds.
#[derive(Debug)]
pub struct Ban {
    pub guild_id: String,
    pub user_id: String,
    pub banner_id: String,
    pub reason: String,
    pub banned_date: i64,
    pub unban_date: i64,
}

} // verus!
