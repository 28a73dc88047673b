//! The destination service's identifiers and payloads.
use vstd::prelude::*;

use vstd::string::StringExecFns;

verus! {

broadcast use vstd::string::group_string_axioms;

/// The credential of the bot that posts.
pub struct BotToken(String);

/// The destination server.
pub struct GuildId(String);

impl BotToken {
    pub fn new(token: String) -> (r: BotToken)
        ensures
            r.spec_str() == token@,
    {
        BotToken(token)
    }

    pub closed spec fn spec_str(&self) -> Seq<char> {
        self.0@
    }

    pub fn as_str(&self) -> (r: &str)
        ensures
            r@ == self.spec_str(),
    {
        self.0.as_str()
    }
}

impl GuildId {
    pub fn new(id: String) -> (r: GuildId)
        ensures
            r.spec_str() == id@,
    {
        GuildId(id)
    }

    pub closed spec fn spec_str(&self) -> Seq<char> {
        self.0@
    }

    pub fn as_str(&self) -> (r: &str)
        ensures
            r@ == self.spec_str(),
    {
        self.0.as_str()
    }
}

/// Identifies a channel, a category or a thread at the destination.
#[derive(Clone, Debug, Hash)]
pub struct ChannelId(String);

/// Identifies a posted message at the destination.
#[derive(Clone, Debug, Hash)]
pub struct MessageId(String);

impl View for ChannelId {
    type V = Seq<char>;

    closed spec fn view(&self) -> Seq<char> {
        self.0@
    }
}

impl View for MessageId {
    type V = Seq<char>;

    closed spec fn view(&self) -> Seq<char> {
        self.0@
    }
}

impl ChannelId {
    /// The id with the text `id`, unchanged.
    pub fn new(id: String) -> (r: ChannelId)
        ensures
            r@ == id@,
    {
        ChannelId(id)
    }

    pub fn as_str(&self) -> (r: &str)
        ensures
            r@ == self@,
    {
        self.0.as_str()
    }

    pub fn duplicate(&self) -> (r: ChannelId)
        ensures
            r@ == self@,
    {
        ChannelId(self.0.clone())
    }
}

impl MessageId {
    pub fn new(id: String) -> (r: MessageId)
        ensures
            r@ == id@,
    {
        MessageId(id)
    }

    pub fn as_str(&self) -> (r: &str)
        ensures
            r@ == self@,
    {
        self.0.as_str()
    }

    pub fn duplicate(&self) -> (r: MessageId)
        ensures
            r@ == self@,
    {
        MessageId(self.0.clone())
    }
}

/// The same as [`ChannelId::new`].
impl From<String> for ChannelId {
    fn from(value: String) -> (r: ChannelId) {
        ChannelId(value)
    }
}

impl vstd::std_specs::convert::FromSpecImpl<String> for ChannelId {
    open spec fn obeys_from_spec() -> bool {
        true
    }

    closed spec fn from_spec(v: String) -> ChannelId {
        ChannelId(v)
    }
}

impl PartialEq for ChannelId {
    fn eq(&self, other: &ChannelId) -> (r: bool) {
        self.0 == other.0
    }
}

impl vstd::std_specs::cmp::PartialEqSpecImpl for ChannelId {
    open spec fn obeys_eq_spec() -> bool {
        true
    }

    open spec fn eq_spec(&self, other: &ChannelId) -> bool {
        self@ == other@
    }
}

impl Eq for ChannelId {
}

impl PartialEq for MessageId {
    fn eq(&self, other: &MessageId) -> (r: bool) {
        self.0 == other.0
    }
}

impl vstd::std_specs::cmp::PartialEqSpecImpl for MessageId {
    open spec fn obeys_eq_spec() -> bool {
        true
    }

    open spec fn eq_spec(&self, other: &MessageId) -> bool {
        self@ == other@
    }
}

impl Eq for MessageId {
}

/// Why a secret could not be read from the environment.
#[derive(Clone, Copy, Debug, PartialEq, Eq, Structural)]
pub enum SecretLoadError {
    NotPresentByEnvVar,
    NotUnicode,
}

/// The kinds of destination channel that the migration deals with.
#[derive(Clone, Copy, Debug, PartialEq, Eq, Structural)]
pub enum ChannelType {
    GuildText,
    GuildVoice,
    GuildCategory,
    PublicThread,
}

pub open spec fn channel_type_code(t: ChannelType) -> u8 {
    match t {
        ChannelType::GuildText => 0,
        ChannelType::GuildVoice => 2,
        ChannelType::GuildCategory => 4,
        ChannelType::PublicThread => 11,
    }
}

impl ChannelType {
    /// The number that stands for this kind on the wire.
    pub fn code(&self) -> (r: u8)
        ensures
            r == channel_type_code(*self),
    {
        match self {
            ChannelType::GuildText => 0,
            ChannelType::GuildVoice => 2,
            ChannelType::GuildCategory => 4,
            ChannelType::PublicThread => 11,
        }
    }

    /// The kind that `code` stands for, if any.
    pub fn from_code(code: u8) -> (r: Option<ChannelType>)
        ensures
            r is Some <==> (code == 0 || code == 2 || code == 4 || code == 11),
            r is Some ==> channel_type_code(r->0) == code,
    {
        match code {
            0 => Some(ChannelType::GuildText),
            2 => Some(ChannelType::GuildVoice),
            4 => Some(ChannelType::GuildCategory),
            11 => Some(ChannelType::PublicThread),
            _ => None,
        }
    }
}

/// A channel as the destination describes it.
#[derive(Clone, Debug)]
pub struct ChannelGet {
    pub name: String,
    pub id: ChannelId,
    pub channel_type: ChannelType,
    pub parent_id: Option<ChannelId>,
    pub message_count: Option<u64>,
}

pub struct ChannelGetView {
    pub name: Seq<char>,
    pub id: Seq<char>,
    pub channel_type: ChannelType,
    pub parent_id: Option<Seq<char>>,
    pub message_count: Option<u64>,
}

impl View for ChannelGet {
    type V = ChannelGetView;

    open spec fn view(&self) -> ChannelGetView {
        ChannelGetView {
            name: self.name@,
            id: self.id@,
            channel_type: self.channel_type,
            parent_id: match self.parent_id {
                Some(p) => Some(p@),
                None => None,
            },
            message_count: self.message_count,
        }
    }
}

impl ChannelGet {
    pub fn duplicate(&self) -> (r: ChannelGet)
        ensures
            r@ == self@,
    {
        ChannelGet {
            name: self.name.clone(),
            id: self.id.duplicate(),
            channel_type: self.channel_type,
            parent_id: match &self.parent_id {
                Some(p) => Some(p.duplicate()),
                None => None,
            },
            message_count: self.message_count,
        }
    }
}

/// A channel to create at the destination.
#[derive(Clone, Debug)]
pub struct ChannelPost {
    pub name: String,
    pub channel_type: ChannelType,
    pub parent_id: Option<ChannelId>,
}

/// A file to upload with a message.
#[derive(Clone, Debug)]
pub struct FilePost {
    pub mime: String,
    pub title: String,
    pub body: Vec<u8>,
}

/// The text of a message to post.
#[derive(Clone, Debug)]
pub struct MessagePost {
    pub content: String,
}

/// A posted message as the destination describes it.
#[derive(Clone, Debug)]
pub struct MessageGet {
    pub id: MessageId,
    pub channel_id: ChannelId,
}

/// The base of every endpoint of the destination's API.
pub const DISCORD_ENDPOINT_COMMON: &'static str = "https://discord.com/api/v10";

/// The endpoint that lists and creates the channels of a server.
pub fn guild_channels_url(guild: &GuildId) -> (r: String)
    ensures
        r@ == DISCORD_ENDPOINT_COMMON@ + "/guilds/"@ + guild.spec_str() + "/channels"@,
{
    let mut r = String::from_str(DISCORD_ENDPOINT_COMMON);
    r.append("/guilds/");
    r.append(guild.as_str());
    r.append("/channels");
    r
}

/// The endpoint of one channel (or thread).
pub fn channel_url(channel: &ChannelId) -> (r: String)
    ensures
        r@ == DISCORD_ENDPOINT_COMMON@ + "/channels/"@ + channel@,
{
    let mut r = String::from_str(DISCORD_ENDPOINT_COMMON);
    r.append("/channels/");
    r.append(channel.as_str());
    r
}

/// The endpoint that posts messages into a channel (or thread).
pub fn channel_messages_url(channel: &ChannelId) -> (r: String)
    ensures
        r@ == DISCORD_ENDPOINT_COMMON@ + "/channels/"@ + channel@ + "/messages"@,
{
    let mut r = channel_url(channel);
    r.append("/messages");
    r
}

/// The endpoint that opens a thread on a posted message.
pub fn start_thread_url(channel: &ChannelId, message: &MessageId) -> (r: String)
    ensures
        r@ == DISCORD_ENDPOINT_COMMON@ + "/channels/"@ + channel@ + "/messages/"@ + message@ + "/threads"@,
{
    let mut r = channel_url(channel);
    r.append("/messages/");
    r.append(message.as_str());
    r.append("/threads");
    r
}

/// The value of the authorization header for the bot.
pub fn authorization(token: &BotToken) -> (r: String)
    ensures
        r@ == "Bot "@ + token.spec_str(),
{
    let mut r = String::from_str("Bot ");
    r.append(token.as_str());
    r
}

} // verus!
