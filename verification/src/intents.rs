//! The intents bitmask declared at identify time: a fixed set of named flags,
//! each one bit of the integer the client sends, restricting which event
//! categories the server will push.

use vstd::prelude::*;

verus! {

/// One named intent flag. Each flag occupies a distinct bit of the identify
/// bitmask; flags are combined with bitwise or.
#[derive(Clone, Copy, Debug, PartialEq, Eq, Structural)]
pub enum Intents {
    Guilds,
    GuildMembers,
    GuildBans,
    GuildEmojis,
    GuildIntegrations,
    GuildWebhooks,
    GuildInvites,
    GuildVoiceStates,
    GuildPresences,
    GuildMessages,
    GuildMessageReactions,
    GuildMessageTyping,
    DirectMessages,
    DirectMessageReactions,
    DirectMessageTyping,
}

impl Intents {
    /// The bit this flag contributes to the identify bitmask.
    pub open spec fn spec_bit(self) -> u64 {
        match self {
            Intents::Guilds => 0x1,
            Intents::GuildMembers => 0x2,
            Intents::GuildBans => 0x4,
            Intents::GuildEmojis => 0x8,
            Intents::GuildIntegrations => 0x10,
            Intents::GuildWebhooks => 0x20,
            Intents::GuildInvites => 0x40,
            Intents::GuildVoiceStates => 0x80,
            Intents::GuildPresences => 0x100,
            Intents::GuildMessages => 0x200,
            Intents::GuildMessageReactions => 0x400,
            Intents::GuildMessageTyping => 0x800,
            Intents::DirectMessages => 0x1000,
            Intents::DirectMessageReactions => 0x2000,
            Intents::DirectMessageTyping => 0x4000,
        }
    }

    /// The bit this flag contributes, as a value.
    pub fn bit(self) -> (r: u64)
        ensures
            r == self.spec_bit(),
    {
        match self {
            Intents::Guilds => 0x1,
            Intents::GuildMembers => 0x2,
            Intents::GuildBans => 0x4,
            Intents::GuildEmojis => 0x8,
            Intents::GuildIntegrations => 0x10,
            Intents::GuildWebhooks => 0x20,
            Intents::GuildInvites => 0x40,
            Intents::GuildVoiceStates => 0x80,
            Intents::GuildPresences => 0x100,
            Intents::GuildMessages => 0x200,
            Intents::GuildMessageReactions => 0x400,
            Intents::GuildMessageTyping => 0x800,
            Intents::DirectMessages => 0x1000,
            Intents::DirectMessageReactions => 0x2000,
            Intents::DirectMessageTyping => 0x4000,
        }
    }
}

/// No intents: receive only the frames every session gets.
pub const INTENTS_NONE: u64 = 0;

/// Every intent except the privileged ones (guild members and presences),
/// which require explicit enablement on the application.
pub const INTENTS_ALL_WITHOUT_PRIVILEDGED: u64 = 0x1 | 0x4 | 0x8 | 0x10 | 0x20 | 0x40
    | 0x80 | 0x200 | 0x400 | 0x800 | 0x1000 | 0x2000 | 0x4000;

/// Every intent, privileged ones included.
pub const INTENTS_ALL: u64 = INTENTS_ALL_WITHOUT_PRIVILEDGED | 0x2 | 0x100;

/// The unprivileged mask is exactly the or of every flag's bit except the two
/// privileged flags, and the full mask adds those two back.
pub proof fn lemma_intent_masks()
    ensures
        INTENTS_ALL_WITHOUT_PRIVILEDGED == Intents::Guilds.spec_bit() | Intents::GuildBans.spec_bit()
            | Intents::GuildEmojis.spec_bit() | Intents::GuildIntegrations.spec_bit()
            | Intents::GuildWebhooks.spec_bit() | Intents::GuildInvites.spec_bit()
            | Intents::GuildVoiceStates.spec_bit() | Intents::GuildMessages.spec_bit()
            | Intents::GuildMessageReactions.spec_bit() | Intents::GuildMessageTyping.spec_bit()
            | Intents::DirectMessages.spec_bit() | Intents::DirectMessageReactions.spec_bit()
            | Intents::DirectMessageTyping.spec_bit(),
        INTENTS_ALL == INTENTS_ALL_WITHOUT_PRIVILEDGED | Intents::GuildMembers.spec_bit()
            | Intents::GuildPresences.spec_bit(),
{
    assert(0x1u64 | 0x4 | 0x8 | 0x10 | 0x20 | 0x40 | 0x80 | 0x200 | 0x400 | 0x800 | 0x1000
        | 0x2000 | 0x4000 == 0x7efdu64) by (bit_vector);
    assert(0x7efdu64 | 0x2 | 0x100 == 0x7fffu64) by (bit_vector);
}

} // verus!
