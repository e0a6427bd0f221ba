use vstd::prelude::*;

verus! {

/// A Discord server.
#[derive(Debug, Clone, Copy, PartialEq, Eq, PartialOrd, Ord, Hash, Structural)]
pub struct GuildId(u64);

impl View for GuildId {
    type V = u64;

    closed spec fn view(&self) -> u64 {
        self.0
    }
}

impl GuildId {
    pub fn new(raw: u64) -> (id: Self)
        ensures
            id@ == raw,
    {
        GuildId(raw)
    }

    pub fn get(self) -> (raw: u64)
        ensures
            raw == self@,
    {
        self.0
    }

    pub proof fn lemma_view_identifies(self, other: Self)
        ensures
            (self@ == other@) == (self == other),
    {
    }
}

/// A Discord channel: text, voice or category.
#[derive(Debug, Clone, Copy, PartialEq, Eq, PartialOrd, Ord, Hash, Structural)]
pub struct ChannelId(u64);

impl View for ChannelId {
    type V = u64;

    closed spec fn view(&self) -> u64 {
        self.0
    }
}

impl ChannelId {
    pub fn new(raw: u64) -> (id: Self)
        ensures
            id@ == raw,
    {
        ChannelId(raw)
    }

    pub fn get(self) -> (raw: u64)
        ensures
            raw == self@,
    {
        self.0
    }

    pub proof fn lemma_view_identifies(self, other: Self)
        ensures
            (self@ == other@) == (self == other),
    {
    }
}

/// A role in a Discord server.
#[derive(Debug, Clone, Copy, PartialEq, Eq, PartialOrd, Ord, Hash, Structural)]
pub struct RoleId(u64);

impl View for RoleId {
    type V = u64;

    closed spec fn view(&self) -> u64 {
        self.0
    }
}

impl RoleId {
    pub fn new(raw: u64) -> (id: Self)
        ensures
            id@ == raw,
    {
        RoleId(raw)
    }

    pub fn get(self) -> (raw: u64)
        ensures
            raw == self@,
    {
        self.0
    }

    pub proof fn lemma_view_identifies(self, other: Self)
        ensures
            (self@ == other@) == (self == other),
    {
    }
}

/// A Discord user.
#[derive(Debug, Clone, Copy, PartialEq, Eq, PartialOrd, Ord, Hash, Structural)]
pub struct UserId(u64);

impl View for UserId {
    type V = u64;

    closed spec fn view(&self) -> u64 {
        self.0
    }
}

impl UserId {
    pub fn new(raw: u64) -> (id: Self)
        ensures
            id@ == raw,
    {
        UserId(raw)
    }

    pub fn get(self) -> (raw: u64)
        ensures
            raw == self@,
    {
        self.0
    }

    pub proof fn lemma_view_identifies(self, other: Self)
        ensures
            (self@ == other@) == (self == other),
    {
    }
}

/// Discord counts its snowflakes from the first second of 2015.
pub const DISCORD_EPOCH_MS: u64 = 1420070400000;

/// A Discord message ID.
#[derive(Debug, Clone, Copy, PartialEq, Eq, PartialOrd, Ord, Hash, Structural)]
pub struct Snowflake(u64);

impl View for Snowflake {
    type V = u64;

    closed spec fn view(&self) -> u64 {
        self.0
    }
}

impl Snowflake {
    pub fn new(raw: u64) -> (id: Self)
        ensures
            id@ == raw,
    {
        Snowflake(raw)
    }

    pub fn get(self) -> (raw: u64)
        ensures
            raw == self@,
    {
        self.0
    }

    /// When Discord made the snowflake, in Unix milliseconds.
    pub fn unix_millis(self) -> (millis: u64)
        ensures
            millis == self@ / 4194304 + DISCORD_EPOCH_MS,
    {
        let raw = self.0;
        let stamp = raw >> 22u32;
        assert(stamp == raw / 4194304) by (bit_vector)
            requires
                stamp == raw >> 22u32,
        ;
        stamp + DISCORD_EPOCH_MS
    }

    pub proof fn lemma_view_identifies(self, other: Self)
        ensures
            (self@ == other@) == (self == other),
    {
    }
}

/// A channel in a server.
#[derive(Debug, Clone, Copy, PartialEq, Eq, Hash, Structural)]
pub struct Place {
    pub guild: GuildId,
    pub channel: ChannelId,
}

/// Whom a sign-up post pings.
#[derive(Debug, Clone, Copy, PartialEq, Eq, Hash, Structural)]
pub enum Ping {
    Everyone,
    Role(RoleId),
}

impl Ping {
    /// The @everyone role carries the server's own ID.
    pub open spec fn spec_of(guild: GuildId, role: RoleId) -> Ping {
        if role@ == guild@ {
            Ping::Everyone
        } else {
            Ping::Role(role)
        }
    }

    pub fn of(guild: GuildId, role: RoleId) -> (ping: Ping)
        ensures
            ping == Ping::spec_of(guild, role),
    {
        if role.get() == guild.get() {
            Ping::Everyone
        } else {
            Ping::Role(role)
        }
    }
}

} // verus!
