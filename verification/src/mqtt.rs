//! The connection to the broker: the settings it is opened with, and the
//! supervisor that watches it.

use vstd::prelude::*;
use vstd::string::StringExecFns;
use vstd::string::StrSliceExecFns;
use crate::config::{Config, PasswordSource};
use crate::discovery::optional_text;
use crate::error::{ConnectionError, SetupError};
use crate::password::KEYRING_SERVICE_NAME;
use crate::text::{chars_of, string_of, trim_end, trimmed_end};

verus! {

/// How many requests to the broker may wait to be sent.
pub const REQUEST_CAPACITY: usize = 10;

/// The longest broker URL and the longest device identifier that are taken,
/// in characters.
pub const MAX_URL_TEXT: usize = 1_000_000;

/// The identifier under which the device `device_id` logs in at the broker:
/// `system-mqtt-{device_id}`, so that no two devices share a session.
pub open spec fn client_id(device_id: Seq<char>) -> Seq<char> {
    "system-mqtt-"@ + device_id
}

/// The URL `url` with the pair `name=value` added to its query, as the `url`
/// crate writes it, or nothing where `url` is no absolute URL.
pub uninterp spec fn url_with_param(url: Seq<char>, name: Seq<char>, value: Seq<char>) -> Option<
    Seq<char>,
>;

/// `Url::parse_with_params` with one pair, and the URL's text taken out of
/// the result. Trusted: the outcome depends on the three texts alone, and is
/// what `url_with_param` names: the new URL, or an error with its message
/// where `url` does not parse. The bound keeps the URL below the length at
/// which the crate gives up.
#[verifier::external_body]
fn add_query_pair(url: &str, name: &str, value: &str) -> (result: Result<String, String>)
    requires
        url@.len() <= MAX_URL_TEXT,
        name@.len() <= MAX_URL_TEXT,
        value@.len() <= 2 * MAX_URL_TEXT,
    ensures
        match result {
            Ok(text) => url_with_param(url@, name@, value@) == Some(text@),
            Err(_) => url_with_param(url@, name@, value@) is None,
        },
{
    match url::Url::parse_with_params(url, [(name, value)]) {
        Ok(parsed) => Ok(String::from(parsed)),
        Err(error) => Err(format!("{}", error)),
    }
}

/// What has to be fetched before the connection can be set up.
#[derive(Debug)]
pub enum SecretSource {
    /// No secret: there is no login, or the password stands in the settings.
    Nothing,
    /// The password that the keyring holds for `username` under `service`.
    Keyring { service: String, username: String },
    /// The contents of the file with this path.
    File(String),
}

/// A `SecretSource`, as plain text.
pub enum SecretSourceView {
    Nothing,
    Keyring { service: Seq<char>, username: Seq<char> },
    File(Seq<char>),
}

impl View for SecretSource {
    type V = SecretSourceView;

    open spec fn view(&self) -> SecretSourceView {
        match self {
            SecretSource::Nothing => SecretSourceView::Nothing,
            SecretSource::Keyring { service, username } => SecretSourceView::Keyring {
                service: service@,
                username: username@,
            },
            SecretSource::File(path) => SecretSourceView::File(path@),
        }
    }
}

/// The secret that the connection of `config` needs. Without a user none is
/// needed, whatever the password source says.
pub open spec fn needed_secret(config: Config) -> SecretSourceView {
    match config.username {
        None => SecretSourceView::Nothing,
        Some(username) => match config.password_source {
            PasswordSource::Keyring => SecretSourceView::Keyring {
                service: KEYRING_SERVICE_NAME@,
                username: username@,
            },
            PasswordSource::SecretFile(path) => SecretSourceView::File(path@),
            PasswordSource::Plaintext(_) => SecretSourceView::Nothing,
        },
    }
}

/// What is read before the connection is set up.
#[derive(Debug)]
pub struct SetupPlan {
    /// The path of the certificate to read, if transport encryption is on.
    pub ca_cert: Option<String>,
    /// The secret to fetch.
    pub secret: SecretSource,
}

/// Tells what has to be read for the connection that `config` describes.
pub fn setup_plan(config: &Config) -> (plan: SetupPlan)
    ensures
        optional_text(plan.ca_cert) == optional_text(config.ca_cert),
        plan.secret@ == needed_secret(*config),
{
    let ca_cert = match &config.ca_cert {
        Some(path) => Some(path.clone()),
        None => None,
    };
    let secret = match &config.username {
        None => SecretSource::Nothing,
        Some(username) => match &config.password_source {
            PasswordSource::Keyring => SecretSource::Keyring {
                service: String::from_str(KEYRING_SERVICE_NAME),
                username: username.clone(),
            },
            PasswordSource::SecretFile(path) => SecretSource::File(path.clone()),
            PasswordSource::Plaintext(_) => SecretSource::Nothing,
        },
    };
    SetupPlan { ca_cert, secret }
}

/// The password that a source gives, with the secret that was fetched for
/// it: the keyring's password as it is, the file's contents without the
/// white space at their end, or the password of the settings.
pub open spec fn password_of(source: PasswordSource, secret: Option<Seq<char>>) -> Option<
    Seq<char>,
> {
    match source {
        PasswordSource::Keyring => secret,
        PasswordSource::SecretFile(_) => match secret {
            Some(contents) => Some(trimmed_end(contents)),
            None => None,
        },
        PasswordSource::Plaintext(password) => Some(password@),
    }
}

/// The settings with which the connection to the broker is opened.
#[derive(Debug)]
pub struct ClientSettings {
    /// The URL of the broker, with the client identifier in its query.
    pub url: String,
    /// The certificate that signed the broker's, where transport encryption
    /// is on.
    pub ca_cert: Option<Vec<u8>>,
    /// The user and the password to log in with, if any.
    pub credentials: Option<(String, String)>,
    /// How many requests may wait to be sent.
    pub capacity: usize,
}

/// The URL of the broker of `config` for the device `device_id`: the
/// configured one with the pair `client_id=system-mqtt-{device_id}` added.
pub fn client_url(config: &Config, device_id: &str) -> (result: Result<String, SetupError>)
    ensures
        match result {
            Ok(url) => {
                &&& config.mqtt_server@.len() <= MAX_URL_TEXT
                &&& device_id@.len() <= MAX_URL_TEXT
                &&& url_with_param(config.mqtt_server@, "client_id"@, client_id(device_id@))
                    == Some(url@)
            },
            Err(SetupError::TooLong) => config.mqtt_server@.len() > MAX_URL_TEXT
                || device_id@.len() > MAX_URL_TEXT,
            Err(SetupError::InvalidUrl(_)) => {
                &&& config.mqtt_server@.len() <= MAX_URL_TEXT
                &&& device_id@.len() <= MAX_URL_TEXT
                &&& url_with_param(config.mqtt_server@, "client_id"@, client_id(device_id@))
                    is None
            },
            Err(SetupError::MissingSecret) => false,
        },
{
    if config.mqtt_server.as_str().unicode_len() > MAX_URL_TEXT || device_id.unicode_len()
        > MAX_URL_TEXT {
        return Err(SetupError::TooLong);
    }
    let mut id = String::from_str("system-mqtt-");
    id.append(device_id);
    proof {
        reveal_strlit("system-mqtt-");
        reveal_strlit("client_id");
    }
    match add_query_pair(config.mqtt_server.as_str(), "client_id", id.as_str()) {
        Ok(url) => Ok(url),
        Err(message) => Err(SetupError::InvalidUrl(message)),
    }
}

fn password(source: &PasswordSource, secret: Option<String>) -> (found: Option<String>)
    ensures
        optional_text(found) == password_of(*source, optional_text(secret)),
{
    match source {
        PasswordSource::Keyring => secret,
        PasswordSource::SecretFile(_) => match secret {
            Some(contents) => Some(string_of(&trim_end(&chars_of(contents.as_str())))),
            None => None,
        },
        PasswordSource::Plaintext(password) => Some(password.clone()),
    }
}

/// Works out the settings of the connection for the device `device_id`,
/// from `config` and from what was read as `setup_plan` asks: the
/// certificate, and the secret that the password source points to.
pub fn setup_mqtt_client(
    config: &Config,
    device_id: &str,
    ca_cert: Option<Vec<u8>>,
    secret: Option<String>,
) -> (result: Result<ClientSettings, SetupError>)
    ensures
        match result {
            Ok(settings) => {
                &&& config.mqtt_server@.len() <= MAX_URL_TEXT
                &&& device_id@.len() <= MAX_URL_TEXT
                &&& url_with_param(config.mqtt_server@, "client_id"@, client_id(device_id@))
                    == Some(settings.url@)
                &&& settings.ca_cert == ca_cert
                &&& settings.capacity == REQUEST_CAPACITY
                &&& match config.username {
                    None => settings.credentials is None,
                    Some(username) => settings.credentials matches Some((user, word))
                        && user@ == username@ && password_of(
                        config.password_source,
                        optional_text(secret),
                    ) == Some(word@),
                }
            },
            Err(SetupError::TooLong) => config.mqtt_server@.len() > MAX_URL_TEXT
                || device_id@.len() > MAX_URL_TEXT,
            Err(SetupError::InvalidUrl(_)) => {
                &&& config.mqtt_server@.len() <= MAX_URL_TEXT
                &&& device_id@.len() <= MAX_URL_TEXT
                &&& url_with_param(config.mqtt_server@, "client_id"@, client_id(device_id@))
                    is None
            },
            Err(SetupError::MissingSecret) => {
                &&& config.mqtt_server@.len() <= MAX_URL_TEXT
                &&& device_id@.len() <= MAX_URL_TEXT
                &&& url_with_param(config.mqtt_server@, "client_id"@, client_id(device_id@))
                    is Some
                &&& config.username is Some
                &&& password_of(config.password_source, optional_text(secret)) is None
            },
        },
{
    let url = match client_url(config, device_id) {
        Ok(url) => url,
        Err(error) => {
            return Err(error);
        },
    };
    let credentials = match &config.username {
        None => None,
        Some(username) => match password(&config.password_source, secret) {
            Some(word) => Some((username.clone(), word)),
            None => {
                return Err(SetupError::MissingSecret);
            },
        },
    };
    Ok(ClientSettings { url, ca_cert, credentials, capacity: REQUEST_CAPACITY })
}

/// Where the connection to the broker stands.
#[derive(Clone, Copy, Debug, PartialEq, Eq, Structural)]
pub enum ConnectionState {
    /// Opened, and not yet acknowledged by the broker.
    Connecting,
    /// Acknowledged by the broker.
    Connected,
}

/// What one poll of the connection gave.
#[derive(Debug)]
pub enum PollOutcome {
    /// The broker acknowledged the connection.
    ConnAck,
    /// Any other traffic, in or out.
    Other,
    /// The connection broke; the message says how.
    Error(String),
}

/// A `PollOutcome`, as plain text.
pub enum PollView {
    ConnAck,
    Other,
    Error(Seq<char>),
}

impl View for PollOutcome {
    type V = PollView;

    open spec fn view(&self) -> PollView {
        match self {
            PollOutcome::ConnAck => PollView::ConnAck,
            PollOutcome::Other => PollView::Other,
            PollOutcome::Error(reason) => PollView::Error(reason@),
        }
    }
}

/// Where the connection stands after a poll that gave `outcome`, or the
/// reason for which it is given up: an acknowledgement connects, an error
/// ends the watch, and anything else changes nothing.
pub open spec fn after_poll(state: ConnectionState, outcome: PollView) -> Result<
    ConnectionState,
    Seq<char>,
> {
    match outcome {
        PollView::ConnAck => Ok(ConnectionState::Connected),
        PollView::Other => Ok(state),
        PollView::Error(reason) => Err(reason),
    }
}

/// Where the connection stands after the polls `outcomes`, or the reason
/// for which it was given up. Once it is given up, no later poll counts.
pub open spec fn after_polls(state: ConnectionState, outcomes: Seq<PollView>) -> Result<
    ConnectionState,
    Seq<char>,
>
    decreases outcomes.len(),
{
    if outcomes.len() == 0 {
        Ok(state)
    } else {
        match after_poll(state, outcomes.first()) {
            Ok(next) => after_polls(next, outcomes.drop_first()),
            Err(reason) => Err(reason),
        }
    }
}

/// One turn of the watch over the connection: takes what a poll gave and
/// tells where the connection stands now, or with which error the watch
/// ends.
pub fn mqtt_loop(state: ConnectionState, outcome: PollOutcome) -> (next: Result<
    ConnectionState,
    ConnectionError,
>)
    ensures
        match next {
            Ok(state_now) => after_poll(state, outcome@) == Ok::<ConnectionState, Seq<char>>(
                state_now,
            ),
            Err(error) => after_poll(state, outcome@) == Err::<ConnectionState, Seq<char>>(
                error@,
            ),
        },
{
    match outcome {
        PollOutcome::ConnAck => Ok(ConnectionState::Connected),
        PollOutcome::Other => Ok(state),
        PollOutcome::Error(reason) => Err(ConnectionError { reason }),
    }
}

/// The watch runs until the first error and reports that one: where the
/// poll at `first` is the first that broke, the watch ends with its reason,
/// whatever came later.
pub proof fn lemma_first_error_ends_watch(
    state: ConnectionState,
    outcomes: Seq<PollView>,
    first: int,
)
    requires
        0 <= first < outcomes.len(),
        outcomes[first] is Error,
        forall|i: int| 0 <= i < first ==> !(#[trigger] outcomes[i] is Error),
    ensures
        after_polls(state, outcomes) == Err::<ConnectionState, Seq<char>>(outcomes[first]->0),
    decreases first,
{
    if first > 0 {
        let next = after_poll(state, outcomes.first())->Ok_0;
        assert(!(outcomes[0] is Error));
        assert forall|i: int| 0 <= i < first - 1 implies !(#[trigger] outcomes.drop_first()[i]
            is Error) by {
            assert(outcomes.drop_first()[i] == outcomes[i + 1]);
        }
        lemma_first_error_ends_watch(next, outcomes.drop_first(), first - 1);
    }
}

/// Without an error the watch goes on.
pub proof fn lemma_watch_goes_on(state: ConnectionState, outcomes: Seq<PollView>)
    requires
        forall|i: int| 0 <= i < outcomes.len() ==> !(#[trigger] outcomes[i] is Error),
    ensures
        after_polls(state, outcomes) is Ok,
    decreases outcomes.len(),
{
    if outcomes.len() > 0 {
        assert(!(outcomes[0] is Error));
        let next = after_poll(state, outcomes.first())->Ok_0;
        assert forall|i: int| 0 <= i < outcomes.len() - 1 implies !(
        #[trigger] outcomes.drop_first()[i] is Error) by {
            assert(outcomes.drop_first()[i] == outcomes[i + 1]);
        }
        lemma_watch_goes_on(next, outcomes.drop_first());
    }
}

} // verus!
