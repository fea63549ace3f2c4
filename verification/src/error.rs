//! The error taxonomy of the bot.
//!
//! Fatal startup errors (missing credentials, client construction), fatal
//! runtime errors (a closed source stream) and recoverable per-operation
//! errors (gif fetch, event fetch or parse) share one enum. Authorization
//! failures and unknown commands are not errors: they are ordinary outcomes
//! answered with a notice.

use vstd::prelude::*;

verus! {

use vstd::string::StringExecFns;

/// Every failure the bot can report, fatal or recoverable.
#[derive(Debug, Clone, PartialEq)]
pub enum GabelnError {
    FailedToFetchUserEvents(String),
    FailedToParseUserEvents,
    FailedToCreateFeed,
    NoTelegramBotToken,
    FailedToCreateTelegramBot,
    FailedToListenForTelegramMessages,
    FailedToListenForEvents,
    FailedToPublishEvents,
    FailedToGetOwnUser,
    NoGiphyApiKey,
    FailedToFetchGif,
    FailedToParseGiphyResponse,
}

/// The fixed description of each error variant.
pub open spec fn description_spec(e: &GabelnError) -> Seq<char> {
    match e {
        GabelnError::FailedToFetchUserEvents(_) => "Failed to fetch the events for the given user!"@,
        GabelnError::FailedToParseUserEvents => "Failed to parse the user events response body!"@,
        GabelnError::FailedToCreateFeed => "Failed to create atom feed from user events!"@,
        GabelnError::NoTelegramBotToken => "Please provide a telegram bot token via environment variable!"@,
        GabelnError::FailedToCreateTelegramBot => "Could not create Telegram API instance!"@,
        GabelnError::FailedToListenForTelegramMessages => "Could not listen for Telegram messages!"@,
        GabelnError::FailedToListenForEvents => "Could not listen for events!"@,
        GabelnError::FailedToPublishEvents => "Failed to publish user events to channel!"@,
        GabelnError::FailedToGetOwnUser => "Failed to get user of this bot!"@,
        GabelnError::NoGiphyApiKey => "Please provide a giphy API key via environment variable!"@,
        GabelnError::FailedToFetchGif => "Failed to fetch gif from giphy API!"@,
        GabelnError::FailedToParseGiphyResponse => "Failed to parse response from giphy API!"@,
    }
}

/// The display text of each error variant: as the description, except that
/// a fetch failure names the user it failed on.
pub open spec fn message_spec(e: &GabelnError) -> Seq<char> {
    match e {
        GabelnError::FailedToFetchUserEvents(user) => "Failed to fetch the events for the user "@ + user@
            + "!"@,
        _ => description_spec(e),
    }
}

impl GabelnError {
    /// A short, variant-determined description of the error.
    pub fn description(&self) -> (r: &'static str)
        ensures
            r@ == description_spec(self),
    {
        match self {
            GabelnError::FailedToFetchUserEvents(_) => "Failed to fetch the events for the given user!",
            GabelnError::FailedToParseUserEvents => "Failed to parse the user events response body!",
            GabelnError::FailedToCreateFeed => "Failed to create atom feed from user events!",
            GabelnError::NoTelegramBotToken => "Please provide a telegram bot token via environment variable!",
            GabelnError::FailedToCreateTelegramBot => "Could not create Telegram API instance!",
            GabelnError::FailedToListenForTelegramMessages => "Could not listen for Telegram messages!",
            GabelnError::FailedToListenForEvents => "Could not listen for events!",
            GabelnError::FailedToPublishEvents => "Failed to publish user events to channel!",
            GabelnError::FailedToGetOwnUser => "Failed to get user of this bot!",
            GabelnError::NoGiphyApiKey => "Please provide a giphy API key via environment variable!",
            GabelnError::FailedToFetchGif => "Failed to fetch gif from giphy API!",
            GabelnError::FailedToParseGiphyResponse => "Failed to parse response from giphy API!",
        }
    }

    /// The user-facing message: the description, with the offending user
    /// named when the events of one user could not be fetched.
    pub fn message(&self) -> (r: String)
        ensures
            r@ == message_spec(self),
    {
        match self {
            GabelnError::FailedToFetchUserEvents(user) => {
                let mut out = String::from_str("Failed to fetch the events for the user ");
                out.append(user.as_str());
                out.append("!");
                out
            },
            _ => String::from_str(self.description()),
        }
    }
}

} // verus!
