//! Utilities over a personal social-media data export: a tree of JSON files,
//! each holding one conversation's message history.  The library parses those
//! files against a closed schema, aggregates the messages of a folder into one
//! corpus, and plans media reorganisation and content search over it.
use vstd::prelude::*;

pub mod classify;
pub mod corpus;
pub mod ip;
pub mod json;
pub mod messages;
pub mod reorg;
pub mod search;

verus! {

/// The command surface: one operation group over the message archive.
pub struct CliCommand {
    pub command: CliCommands,
}

pub enum CliCommands {
    Activity { command: ActivityActivity },
}

pub enum ActivityActivity {
    Messages(ActivityMessages),
}

pub enum ActivityMessagesSubCommand {
    ReorgImages,
    ReorgVideos,
    ListFiles,
}

pub struct ActivityMessages {
    pub command: ActivityMessagesSubCommand,
    /// An explicit target folder; when absent the caller falls back to
    /// interactive folder selection.
    pub target_folder: Option<String>,
}

/// The top-level export category folders that must exist under the data root
/// before any operation runs.
#[derive(Debug, PartialEq, Eq, Structural)]
pub enum Folders {
    AdsInformation,
    AppsAndWebsitesOffOfFacebook,
    Connections,
    LoggedInformation,
    PersonalInformation,
    Preferences,
    SecurityAndLoginInformation,
    YourActivityAcrossFacebook,
}

impl Folders {
    pub open spec fn spec_path(&self) -> Seq<char> {
        match self {
            Folders::AdsInformation => "ads_information"@,
            Folders::AppsAndWebsitesOffOfFacebook => "apps_and_websites_off_of_facebook"@,
            Folders::Connections => "connections"@,
            Folders::LoggedInformation => "logged_information"@,
            Folders::PersonalInformation => "personal_information"@,
            Folders::Preferences => "preferences"@,
            Folders::SecurityAndLoginInformation => "security_and_login_information"@,
            Folders::YourActivityAcrossFacebook => "your_activity_across_facebook"@,
        }
    }

    /// The folder's name under the data root.
    pub fn path(&self) -> (r: &'static str)
        ensures
            r@ == self.spec_path(),
    {
        match self {
            Folders::AdsInformation => "ads_information",
            Folders::AppsAndWebsitesOffOfFacebook => "apps_and_websites_off_of_facebook",
            Folders::Connections => "connections",
            Folders::LoggedInformation => "logged_information",
            Folders::PersonalInformation => "personal_information",
            Folders::Preferences => "preferences",
            Folders::SecurityAndLoginInformation => "security_and_login_information",
            Folders::YourActivityAcrossFacebook => "your_activity_across_facebook",
        }
    }

    /// Every category folder, in a fixed order.
    pub fn all() -> (r: Vec<Folders>)
        ensures
            r@ =~= seq![
                Folders::AdsInformation,
                Folders::AppsAndWebsitesOffOfFacebook,
                Folders::Connections,
                Folders::LoggedInformation,
                Folders::PersonalInformation,
                Folders::Preferences,
                Folders::SecurityAndLoginInformation,
                Folders::YourActivityAcrossFacebook,
            ],
    {
        vec![
            Folders::AdsInformation,
            Folders::AppsAndWebsitesOffOfFacebook,
            Folders::Connections,
            Folders::LoggedInformation,
            Folders::PersonalInformation,
            Folders::Preferences,
            Folders::SecurityAndLoginInformation,
            Folders::YourActivityAcrossFacebook,
        ]
    }
}

/// The library's one error type.  `Generic` wraps any parse failure with a
/// human-readable description; `Skippable` marks a category that is
/// legitimately absent.
#[derive(Debug)]
pub enum MagicError {
    Generic(String),
    Skippable,
}

impl core::str::FromStr for MagicError {
    type Err = MagicError;

    fn from_str(s: &str) -> Result<Self, Self::Err> {
        Ok(MagicError::Generic(<String as vstd::string::StringExecFns>::from_str(s)))
    }
}

/// A data category that may be marked as legitimately absent.
pub trait Skippable {
    spec fn spec_path(&self) -> Seq<char>;

    /// The path under which this category's files live.
    fn path(&self) -> (r: String)
        ensures
            r@ == self.spec_path(),
    ;

    /// Whether the category's marker file says the user has no such data.
    fn skippable(&self) -> bool;
}

/// Relies on std::path::Path::exists: whether the path names an existing
/// filesystem entry.  The answer depends on the disk, so nothing is claimed
/// of it.
#[verifier::external_body]
fn path_exists(p: &str) -> bool {
    std::path::Path::new(p).exists()
}

#[derive(Debug, PartialEq, Eq, Structural)]
pub enum ActivityTypes {
    BugBounty,
    Messages,
}

impl Skippable for ActivityTypes {
    open spec fn spec_path(&self) -> Seq<char> {
        match self {
            ActivityTypes::BugBounty => "data/your_activity_across_facebook/bug_bounty"@,
            ActivityTypes::Messages => "data/your_activity_across_facebook/messages"@,
        }
    }

    fn path(&self) -> (r: String) {
        match self {
            ActivityTypes::BugBounty => String::from_str(
                "data/your_activity_across_facebook/bug_bounty",
            ),
            ActivityTypes::Messages => String::from_str(
                "data/your_activity_across_facebook/messages",
            ),
        }
    }

    fn skippable(&self) -> bool {
        let mut p = self.path();
        p.append("/no-data.txt");
        path_exists(p.as_str())
    }
}

} // verus!
