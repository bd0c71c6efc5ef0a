//! What can go wrong in the bridge.

use vstd::prelude::*;
use vstd::string::StringExecFns;

verus! {

/// An entity identifier that cannot be registered.
#[derive(Debug)]
pub enum ValidationError {
    /// The identifier has no characters.
    Empty,
    /// The identifier, which holds a character that is not allowed.
    InvalidCharacters(String),
}

/// A `ValidationError`, as plain text.
pub enum ValidationErrorView {
    Empty,
    InvalidCharacters(Seq<char>),
}

impl View for ValidationError {
    type V = ValidationErrorView;

    open spec fn view(&self) -> ValidationErrorView {
        match self {
            ValidationError::Empty => ValidationErrorView::Empty,
            ValidationError::InvalidCharacters(id) => ValidationErrorView::InvalidCharacters(id@),
        }
    }
}

/// What is said of a refused identifier.
pub open spec fn validation_message(error: ValidationErrorView) -> Seq<char> {
    match error {
        ValidationErrorView::Empty => "Entity ID cannot be empty"@,
        ValidationErrorView::InvalidCharacters(id) => "Entity ID '"@ + id
            + "' contains invalid characters"@,
    }
}

impl ValidationError {
    /// Says what is wrong with the identifier.
    pub fn message(&self) -> (text: String)
        ensures
            text@ == validation_message(self@),
    {
        match self {
            ValidationError::Empty => String::from_str("Entity ID cannot be empty"),
            ValidationError::InvalidCharacters(id) => {
                let mut text = String::from_str("Entity ID '");
                text.append(id.as_str());
                text.append("' contains invalid characters");
                text
            },
        }
    }
}

/// Why a registration of several entities stopped.
#[derive(Debug)]
pub enum RegistrationError {
    /// An entity identifier was refused.
    Validation(ValidationError),
    /// The name of a sensor chip could not be read; the message says why.
    ChipName(String),
}

/// A `RegistrationError`, as plain text.
pub enum RegistrationErrorView {
    Validation(ValidationErrorView),
    ChipName(Seq<char>),
}

impl View for RegistrationError {
    type V = RegistrationErrorView;

    open spec fn view(&self) -> RegistrationErrorView {
        match self {
            RegistrationError::Validation(error) => RegistrationErrorView::Validation(error@),
            RegistrationError::ChipName(message) => RegistrationErrorView::ChipName(message@),
        }
    }
}

/// A value that could not be written as JSON.
#[derive(Debug)]
pub struct SerializationError {
    /// What the encoder reported.
    pub reason: String,
}

impl View for SerializationError {
    type V = Seq<char>;

    open spec fn view(&self) -> Seq<char> {
        self.reason@
    }
}

/// Why the settings of the broker connection could not be worked out.
#[derive(Debug)]
pub enum SetupError {
    /// The broker URL, the device identifier or both are longer than a URL
    /// can be.
    TooLong,
    /// The broker URL is no URL; the message says why.
    InvalidUrl(String),
    /// A user is set whose password is kept elsewhere, and no secret was
    /// handed in.
    MissingSecret,
}

/// The connection to the broker broke: the login was refused, the network
/// was lost, the transport encryption failed.
#[derive(Debug)]
pub struct ConnectionError {
    /// What the transport reported.
    pub reason: String,
}

impl View for ConnectionError {
    type V = Seq<char>;

    open spec fn view(&self) -> Seq<char> {
        self.reason@
    }
}

/// The broker connection did not take a message that was written.
#[derive(Debug)]
pub struct PublishError {
    /// What the transport reported.
    pub reason: String,
}

impl View for PublishError {
    type V = Seq<char>;

    open spec fn view(&self) -> Seq<char> {
        self.reason@
    }
}

/// The machine could not be sampled.
#[derive(Debug)]
pub struct CollaboratorError {
    /// What the sampler reported.
    pub reason: String,
}

impl View for CollaboratorError {
    type V = Seq<char>;

    open spec fn view(&self) -> Seq<char> {
        self.reason@
    }
}

/// Why a password cannot be stored.
#[derive(Debug)]
pub enum PasswordError {
    /// No user is set whose password it would be.
    NoUsername,
}

/// What is said where a password is to be stored and no user is set.
pub const NO_USERNAME: &'static str =
    "You must set the username for login with the mqtt server before you can set the user's password";

impl PasswordError {
    /// Says what has to be done first.
    pub fn message(&self) -> (text: String)
        ensures
            text@ == NO_USERNAME@,
    {
        String::from_str(NO_USERNAME)
    }
}

/// Why a pass over the discovery entries stopped early.
#[derive(Debug)]
pub enum DiscoveryError {
    /// The payload of the entry at `index` could not be written.
    Serialization { index: usize, error: SerializationError },
    /// The broker connection refused the entry at `index`.
    Publish { index: usize, error: PublishError },
}

/// A `DiscoveryError`, as plain values.
pub enum DiscoveryErrorView {
    Serialization { index: usize, reason: Seq<char> },
    Publish { index: usize, reason: Seq<char> },
}

impl View for DiscoveryError {
    type V = DiscoveryErrorView;

    open spec fn view(&self) -> DiscoveryErrorView {
        match self {
            DiscoveryError::Serialization { index, error } => DiscoveryErrorView::Serialization {
                index: *index,
                reason: error@,
            },
            DiscoveryError::Publish { index, error } => DiscoveryErrorView::Publish {
                index: *index,
                reason: error@,
            },
        }
    }
}

/// Why a sampling round gave no state to publish.
#[derive(Debug)]
pub enum SampleError {
    /// The machine could not be sampled at all.
    Collaborator(CollaboratorError),
    /// The metrics could not be written as JSON.
    Serialization(SerializationError),
}

/// A `SampleError`, as plain text.
pub enum SampleErrorView {
    Collaborator(Seq<char>),
    Serialization(Seq<char>),
}

impl View for SampleError {
    type V = SampleErrorView;

    open spec fn view(&self) -> SampleErrorView {
        match self {
            SampleError::Collaborator(error) => SampleErrorView::Collaborator(error@),
            SampleError::Serialization(error) => SampleErrorView::Serialization(error@),
        }
    }
}

/// Why the bridge gave up a run.
#[derive(Debug)]
pub enum FatalError {
    /// The connection to the broker broke.
    Connection(ConnectionError),
    /// The entities could not be announced.
    Discovery(DiscoveryError),
    /// The metrics could not be written as JSON.
    Serialization(SerializationError),
    /// The machine could not be sampled at all.
    Collaborator(CollaboratorError),
}

/// A `FatalError`, as plain values.
pub enum FatalErrorView {
    Connection(Seq<char>),
    Discovery(DiscoveryErrorView),
    Serialization(Seq<char>),
    Collaborator(Seq<char>),
}

impl View for FatalError {
    type V = FatalErrorView;

    open spec fn view(&self) -> FatalErrorView {
        match self {
            FatalError::Connection(error) => FatalErrorView::Connection(error@),
            FatalError::Discovery(error) => FatalErrorView::Discovery(error@),
            FatalError::Serialization(error) => FatalErrorView::Serialization(error@),
            FatalError::Collaborator(error) => FatalErrorView::Collaborator(error@),
        }
    }
}

/// Why the bridge could not start.
#[derive(Debug)]
pub enum StartupError {
    /// The settings do not name the device, and the machine has no host
    /// name to go by.
    NoHostname,
    /// An entity could not be registered.
    Registration(RegistrationError),
}

} // verus!
