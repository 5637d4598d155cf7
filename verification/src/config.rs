//! Settings of the assistant, with the defaults and bounds that apply to them.

use vstd::prelude::*;

verus! {

#[derive(Debug, Clone)]
pub struct Config {
    pub discord: DiscordConfig,
    pub voicevox: VoicevoxConfig,
    pub redis: RedisConfig,
}

#[derive(Debug, Clone)]
pub struct DiscordConfig {
    pub client_id: u64,
    pub bot_token: String,
    pub speak_user_name: bool,
    pub speak_length_limit: usize,
}

#[derive(Debug, Clone)]
pub struct VoicevoxConfig {
    pub api_base: String,
}

#[derive(Debug, Clone)]
pub struct RedisConfig {
    pub url: String,
}

/// The length limit that applies when `configured` is what a file holds:
/// a value below one is raised to one.
pub open spec fn clamped_length_limit(configured: usize) -> usize {
    if configured < 1 {
        1
    } else {
        configured
    }
}

/// The length limit for a configured integer: one where it is below one,
/// the largest limit there is where it is above that, else the integer.
pub open spec fn length_limit_of(configured: i64) -> usize {
    if configured < 1 {
        1
    } else if configured > usize::MAX {
        usize::MAX
    } else {
        configured as usize
    }
}

/// The limit in force when a file holds `configured`, or nothing.
pub open spec fn effective_length_limit(configured: Option<i64>) -> usize {
    match configured {
        Some(value) => length_limit_of(value),
        None => 60,
    }
}

/// Whether the speaker's name is read when a file holds `configured`, or nothing.
pub open spec fn effective_speak_user_name(configured: Option<bool>) -> bool {
    match configured {
        Some(value) => value,
        None => true,
    }
}

/// The speaker's name is read unless the settings say otherwise.
pub fn default_speak_user_name() -> (res: bool)
    ensures
        res == true,
{
    true
}

/// An utterance holds at most 60 characters unless the settings say otherwise.
pub fn default_speak_length_limit() -> (res: usize)
    ensures
        res == 60,
{
    60
}

/// Raises a configured length limit below one to one.
pub fn clamp_speak_length_limit(configured: usize) -> (res: usize)
    ensures
        res == clamped_length_limit(configured),
        res >= 1,
{
    if configured < 1 {
        1
    } else {
        configured
    }
}

/// The length limit for a configured integer: every value below one,
/// negative ones too, becomes one.
pub fn speak_length_limit_from(configured: i64) -> (res: usize)
    ensures
        res == length_limit_of(configured),
        res >= 1,
        configured < 1 ==> res == 1,
{
    if configured < 1 {
        1
    } else if configured as u64 > usize::MAX as u64 {
        usize::MAX
    } else {
        clamp_speak_length_limit(configured as usize)
    }
}

impl DiscordConfig {
    /// A length limit is at least one.
    pub open spec fn wf(&self) -> bool {
        self.speak_length_limit >= 1
    }

    /// Builds the settings from what a file holds: a missing entry takes its
    /// default, a length limit below one becomes one.
    pub fn resolve(
        client_id: u64,
        bot_token: String,
        speak_user_name: Option<bool>,
        speak_length_limit: Option<i64>,
    ) -> (res: DiscordConfig)
        ensures
            res.wf(),
            res.client_id == client_id,
            res.bot_token == bot_token,
            res.speak_user_name == effective_speak_user_name(speak_user_name),
            res.speak_length_limit == effective_length_limit(speak_length_limit),
    {
        let speak_user_name = match speak_user_name {
            Some(value) => value,
            None => default_speak_user_name(),
        };
        let speak_length_limit = match speak_length_limit {
            Some(value) => speak_length_limit_from(value),
            None => default_speak_length_limit(),
        };
        DiscordConfig { client_id, bot_token, speak_user_name, speak_length_limit }
    }
}

} // verus!
