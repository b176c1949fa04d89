//! The translation provider: its errors as the user sees them, where its key
//! comes from, and whether it can be used at all.

use crate::credentials::CredentialError;
use crate::text::{blank, copy_of, decimal, is_blank, push_decimal};
use vstd::prelude::*;

verus! {

/// Why a translation failed, without anything of the request or the response.
#[derive(Debug, PartialEq, Eq)]
pub enum ProviderError {
    Cancelled,
    Configuration,
    Authentication,
    HttpStatus(u16),
    RateLimited,
    Dns,
    Tls,
    Timeout,
    Transport,
    MalformedResponse,
    IncompleteResponse,
    ResponseTooLarge,
    Unavailable,
    InvalidResponse,
    Local(String),
}

/// Why a request of the OpenAI client failed.
#[derive(Clone, Copy, Debug, PartialEq, Eq)]
pub enum OpenAiError {
    InvalidConfiguration(&'static str),
    UnsupportedScheme,
    InvalidUrl,
    InvalidRequest(&'static str),
    InvalidHeader,
    Dns,
    Tls,
    Timeout,
    Transport,
    HttpStatus(u16),
    RateLimited,
    MalformedJson,
    IncompleteResponse,
    ResponseTooLarge,
    Cancelled,
    UnsupportedPlatform,
}

/// The category of a client error. No detail of a configuration or a request
/// is kept; a status is kept unless it says that the key was refused.
pub open spec fn provider_category(error: OpenAiError) -> ProviderError {
    match error {
        OpenAiError::InvalidConfiguration(_) => ProviderError::Configuration,
        OpenAiError::UnsupportedScheme => ProviderError::Configuration,
        OpenAiError::InvalidUrl => ProviderError::Configuration,
        OpenAiError::InvalidRequest(_) => ProviderError::Configuration,
        OpenAiError::InvalidHeader => ProviderError::Configuration,
        OpenAiError::Dns => ProviderError::Dns,
        OpenAiError::Tls => ProviderError::Tls,
        OpenAiError::Timeout => ProviderError::Timeout,
        OpenAiError::Transport => ProviderError::Transport,
        OpenAiError::HttpStatus(status) => if status == 401 || status == 403 {
            ProviderError::Authentication
        } else {
            ProviderError::HttpStatus(status)
        },
        OpenAiError::RateLimited => ProviderError::RateLimited,
        OpenAiError::MalformedJson => ProviderError::MalformedResponse,
        OpenAiError::IncompleteResponse => ProviderError::IncompleteResponse,
        OpenAiError::ResponseTooLarge => ProviderError::ResponseTooLarge,
        OpenAiError::Cancelled => ProviderError::Cancelled,
        OpenAiError::UnsupportedPlatform => ProviderError::Unavailable,
    }
}

pub fn map_provider_error(error: OpenAiError) -> (category: ProviderError)
    ensures
        category == provider_category(error),
{
    match error {
        OpenAiError::InvalidConfiguration(_) => ProviderError::Configuration,
        OpenAiError::UnsupportedScheme => ProviderError::Configuration,
        OpenAiError::InvalidUrl => ProviderError::Configuration,
        OpenAiError::InvalidRequest(_) => ProviderError::Configuration,
        OpenAiError::InvalidHeader => ProviderError::Configuration,
        OpenAiError::Dns => ProviderError::Dns,
        OpenAiError::Tls => ProviderError::Tls,
        OpenAiError::Timeout => ProviderError::Timeout,
        OpenAiError::Transport => ProviderError::Transport,
        OpenAiError::HttpStatus(status) => if status == 401 || status == 403 {
            ProviderError::Authentication
        } else {
            ProviderError::HttpStatus(status)
        },
        OpenAiError::RateLimited => ProviderError::RateLimited,
        OpenAiError::MalformedJson => ProviderError::MalformedResponse,
        OpenAiError::IncompleteResponse => ProviderError::IncompleteResponse,
        OpenAiError::ResponseTooLarge => ProviderError::ResponseTooLarge,
        OpenAiError::Cancelled => ProviderError::Cancelled,
        OpenAiError::UnsupportedPlatform => ProviderError::Unavailable,
    }
}

/// Two errors that differ only in the detail of a configuration or a request
/// are the same to everyone outside the client.
pub proof fn lemma_details_are_dropped(first: &'static str, second: &'static str)
    ensures
        provider_category(OpenAiError::InvalidConfiguration(first)) == provider_category(
            OpenAiError::InvalidConfiguration(second),
        ),
        provider_category(OpenAiError::InvalidRequest(first)) == provider_category(
            OpenAiError::InvalidRequest(second),
        ),
{
}

/// The error as the result window shows it. Of a local error nothing is shown.
pub open spec fn provider_error_text(error: ProviderError) -> Seq<char> {
    match error {
        ProviderError::Cancelled => "Request cancelled"@,
        ProviderError::Configuration => "Provider configuration is invalid"@,
        ProviderError::Authentication => "Provider authentication failed"@,
        ProviderError::HttpStatus(status) => "Provider returned HTTP status "@ + decimal(
            status as nat,
        ),
        ProviderError::RateLimited => "Provider rate limit exceeded"@,
        ProviderError::Dns => "Provider host could not be resolved"@,
        ProviderError::Tls => "Secure provider connection failed"@,
        ProviderError::Timeout => "Provider request timed out"@,
        ProviderError::Transport => "Provider connection failed"@,
        ProviderError::MalformedResponse => "Provider returned malformed data"@,
        ProviderError::IncompleteResponse => "Provider response ended before completion"@,
        ProviderError::ResponseTooLarge => "Provider response exceeded the safety limit"@,
        ProviderError::Unavailable => "Provider is unavailable"@,
        ProviderError::InvalidResponse => "Provider returned invalid data"@,
        ProviderError::Local(_) => "Provider request failed"@,
    }
}

pub fn provider_error(error: &ProviderError) -> (message: String)
    ensures
        message@ == provider_error_text(*error),
{
    match error {
        ProviderError::Cancelled => copy_of("Request cancelled"),
        ProviderError::Configuration => copy_of("Provider configuration is invalid"),
        ProviderError::Authentication => copy_of("Provider authentication failed"),
        ProviderError::HttpStatus(status) => {
            let mut message: String = copy_of("Provider returned HTTP status ");
            push_decimal(&mut message, *status as u64);
            message
        },
        ProviderError::RateLimited => copy_of("Provider rate limit exceeded"),
        ProviderError::Dns => copy_of("Provider host could not be resolved"),
        ProviderError::Tls => copy_of("Secure provider connection failed"),
        ProviderError::Timeout => copy_of("Provider request timed out"),
        ProviderError::Transport => copy_of("Provider connection failed"),
        ProviderError::MalformedResponse => copy_of("Provider returned malformed data"),
        ProviderError::IncompleteResponse => copy_of("Provider response ended before completion"),
        ProviderError::ResponseTooLarge => copy_of("Provider response exceeded the safety limit"),
        ProviderError::Unavailable => copy_of("Provider is unavailable"),
        ProviderError::InvalidResponse => copy_of("Provider returned invalid data"),
        ProviderError::Local(_) => copy_of("Provider request failed"),
    }
}

// One streamed request on its worker thread.

/// A request starts unless it was cancelled before, or no thread could be had.
pub fn stream_admitted(cancelled: bool, spawned: bool) -> (admitted: Result<(), ProviderError>)
    ensures
        match admitted {
            Ok(()) => !cancelled && spawned,
            Err(error) => if cancelled {
                error == ProviderError::Cancelled
            } else {
                !spawned && error is Local && error->Local_0@ == "could not start provider worker"@
            },
        },
{
    if cancelled {
        Err(ProviderError::Cancelled)
    } else if !spawned {
        Err(ProviderError::Local(copy_of("could not start provider worker")))
    } else {
        Ok(())
    }
}

/// What the channel of a request's worker says.
#[derive(Clone, Copy, Debug, PartialEq, Eq, Structural)]
pub enum StreamPoll {
    Delta,
    /// Nothing arrived in time; the worker has or has not ended.
    Quiet { finished: bool },
    Disconnected,
}

/// The channel is polled until the worker has ended and nothing waits in it.
pub fn keep_polling(poll: StreamPoll) -> (keep: bool)
    ensures
        keep == (poll is Delta || poll == (StreamPoll::Quiet { finished: false })),
{
    match poll {
        StreamPoll::Delta => true,
        StreamPoll::Quiet { finished } => !finished,
        StreamPoll::Disconnected => false,
    }
}

/// The outcome of a request: `outcome` is what its worker returned, missing
/// where the worker stopped without returning.
pub fn stream_outcome(outcome: Option<Result<(), OpenAiError>>, cancelled: bool) -> (result: Result<
    (),
    ProviderError,
>)
    ensures
        match outcome {
            None => {
                &&& result matches Err(ProviderError::Local(reason))
                &&& reason@ == "provider worker stopped"@
            },
            Some(outcome) => result == if cancelled {
                Err(ProviderError::Cancelled)
            } else {
                match outcome {
                    Ok(()) => Ok(()),
                    Err(error) => Err(provider_category(error)),
                }
            },
        },
{
    match outcome {
        None => Err(ProviderError::Local(copy_of("provider worker stopped"))),
        Some(outcome) => if cancelled {
            Err(ProviderError::Cancelled)
        } else {
            match outcome {
                Ok(()) => Ok(()),
                Err(error) => Err(map_provider_error(error)),
            }
        },
    }
}

// Building the provider.

/// A setting from the environment, or else the configured one.
pub fn setting_or(environment: Option<String>, configured: &str) -> (setting: String)
    ensures
        setting@ == match environment {
            Some(value) => value@,
            None => configured@,
        },
{
    match environment {
        Some(value) => value,
        None => copy_of(configured),
    }
}

/// A value that can be used: one that is set and not blank.
pub open spec fn usable(value: Option<String>) -> bool {
    value matches Some(text) && !is_blank(text@)
}

/// The first of two variables that can be used.
pub open spec fn first_usable(primary: Option<String>, alternate: Option<String>) -> Option<String> {
    if usable(primary) {
        primary
    } else if usable(alternate) {
        alternate
    } else {
        None
    }
}

/// The key that the environment gives: the first of the two variables that is
/// set and not blank.
pub fn environment_key(primary: Option<String>, alternate: Option<String>) -> (key: Option<String>)
    ensures
        key == first_usable(primary, alternate),
{
    if let Some(value) = primary {
        if !blank(value.as_str()) {
            return Some(value);
        }
    }
    match alternate {
        Some(value) => if blank(value.as_str()) {
            None
        } else {
            Some(value)
        },
        None => None,
    }
}

/// The key to use and whether the credential store failed.
#[derive(Debug, PartialEq, Eq)]
pub struct KeyLookup {
    pub key: Option<String>,
    pub store_failed: bool,
}

/// The environment's key, or else the answer of the credential store.
pub open spec fn resolved_key(
    environment: Option<String>,
    stored: Result<Option<String>, CredentialError>,
) -> KeyLookup {
    match (environment, stored) {
        (Some(key), _) => KeyLookup { key: Some(key), store_failed: false },
        (None, Ok(key)) => KeyLookup { key, store_failed: false },
        (None, Err(_)) => KeyLookup { key: None, store_failed: true },
    }
}

/// The store is asked only where the environment gives no key.
pub fn resolve_key(
    environment: Option<String>,
    stored: Result<Option<String>, CredentialError>,
) -> (lookup: KeyLookup)
    ensures
        lookup == resolved_key(environment, stored),
{
    match environment {
        Some(key) => KeyLookup { key: Some(key), store_failed: false },
        None => match stored {
            Ok(key) => KeyLookup { key, store_failed: false },
            Err(_) => KeyLookup { key: None, store_failed: true },
        },
    }
}

/// A key from the environment has precedence: with one, the answer of the
/// credential store does not matter, not even its failure.
pub proof fn lemma_environment_key_has_precedence(
    key: String,
    first: Result<Option<String>, CredentialError>,
    second: Result<Option<String>, CredentialError>,
)
    ensures
        resolved_key(Some(key), first) == resolved_key(Some(key), second),
        resolved_key(Some(key), first).key == Some(key),
        provider_fault(resolved_key(Some(key), first), true) is None,
{
}

/// The credentials are checked in one order: the first variable, the second,
/// then the store. A variable that is unset or blank is passed over; with
/// either of them the store does not matter. Without both, an empty store means
/// that no key is configured, and a failing one that it is unavailable.
pub proof fn lemma_credentials_are_checked_in_order(
    primary: Option<String>,
    alternate: Option<String>,
    stored: Result<Option<String>, CredentialError>,
    config_valid: bool,
)
    ensures
        usable(primary) ==> resolved_key(first_usable(primary, alternate), stored) == (KeyLookup {
            key: primary,
            store_failed: false,
        }),
        !usable(primary) && usable(alternate) ==> resolved_key(
            first_usable(primary, alternate),
            stored,
        ) == (KeyLookup { key: alternate, store_failed: false }),
        !usable(primary) && !usable(alternate) ==> {
            let lookup = resolved_key(first_usable(primary, alternate), stored);
            match stored {
                Ok(Some(key)) => lookup == (KeyLookup { key: Some(key), store_failed: false }),
                Ok(None) => lookup.key is None && provider_fault(lookup, config_valid) == Some(
                    "OpenAI API key is not configured",
                ),
                Err(_) => lookup.key is None && provider_fault(lookup, config_valid) == Some(
                    "Credential storage is unavailable",
                ),
            }
        },
{
}

/// What stands in the way of a provider before it is created.
pub open spec fn provider_fault(lookup: KeyLookup, config_valid: bool) -> Option<&'static str> {
    if lookup.store_failed {
        Some("Credential storage is unavailable")
    } else if lookup.key is None {
        Some("OpenAI API key is not configured")
    } else if !config_valid {
        Some("provider configuration is invalid")
    } else {
        None
    }
}

/// Whether a provider can be created: with a key and a valid configuration.
pub fn check_provider(lookup: &KeyLookup, config_valid: bool) -> (fault: Option<&'static str>)
    ensures
        fault == provider_fault(*lookup, config_valid),
{
    if lookup.store_failed {
        Some("Credential storage is unavailable")
    } else if lookup.key.is_none() {
        Some("OpenAI API key is not configured")
    } else if !config_valid {
        Some("provider configuration is invalid")
    } else {
        None
    }
}

/// What a built provider amounts to.
#[derive(Clone, Copy, Debug, PartialEq, Eq)]
pub struct ProviderStatus {
    /// The configuration may be used for requests.
    pub usable: bool,
    pub error: Option<&'static str>,
}

/// The status once the provider was to be created; `created` counts only where
/// nothing stood in the way. A configuration is usable exactly where there is
/// no error.
pub fn provider_status(fault: Option<&'static str>, created: bool) -> (status: ProviderStatus)
    ensures
        status.error == match fault {
            Some(error) => Some(error),
            None => if created {
                None
            } else {
                Some("Provider configuration is invalid")
            },
        },
        status.usable == (status.error is None),
{
    let error: Option<&'static str> = match fault {
        Some(error) => Some(error),
        None => if created {
            None
        } else {
            Some("Provider configuration is invalid")
        },
    };
    ProviderStatus { usable: error.is_none(), error }
}

/// How the configuration file was found at startup.
#[derive(Clone, Copy, Debug, PartialEq, Eq, Structural)]
pub enum ConfigFile {
    /// No path is known, or nothing is there: the defaults are used.
    Absent,
    Loaded,
    Invalid,
}

/// What is reported of the configuration file.
pub fn config_error(file: ConfigFile) -> (error: Option<&'static str>)
    ensures
        error == if file == ConfigFile::Invalid {
            Some("Configuration file is invalid")
        } else {
            None
        },
{
    match file {
        ConfigFile::Invalid => Some("Configuration file is invalid"),
        _ => None,
    }
}

/// The startup error: the provider's, or else the configuration file's.
pub fn startup_error(
    provider: Option<&'static str>,
    config: Option<&'static str>,
) -> (error: Option<&'static str>)
    ensures
        error == if provider is Some {
            provider
        } else {
            config
        },
{
    match provider {
        Some(error) => Some(error),
        None => config,
    }
}

// What the rules above are for.

/// A refused key is told apart from any other status, which is kept; each
/// failure of the connection is its own category, and only a cancelled request
/// is cancelled.
pub proof fn lemma_failures_keep_their_category(status: u16, error: OpenAiError)
    ensures
        provider_category(OpenAiError::HttpStatus(401)) == ProviderError::Authentication,
        provider_category(OpenAiError::HttpStatus(403)) == ProviderError::Authentication,
        status != 401 && status != 403 ==> provider_category(OpenAiError::HttpStatus(status))
            == ProviderError::HttpStatus(status),
        provider_category(error) == ProviderError::Cancelled <==> error == OpenAiError::Cancelled,
        provider_category(error) == ProviderError::RateLimited <==> error
            == OpenAiError::RateLimited,
        provider_category(error) == ProviderError::Timeout <==> error == OpenAiError::Timeout,
        provider_category(error) == ProviderError::Dns <==> error == OpenAiError::Dns,
        provider_category(error) == ProviderError::Tls <==> error == OpenAiError::Tls,
        provider_category(error) == ProviderError::Transport <==> error == OpenAiError::Transport,
        provider_category(error) == ProviderError::MalformedResponse <==> error
            == OpenAiError::MalformedJson,
        provider_category(error) == ProviderError::IncompleteResponse <==> error
            == OpenAiError::IncompleteResponse,
        provider_category(error) == ProviderError::ResponseTooLarge <==> error
            == OpenAiError::ResponseTooLarge,
        provider_category(error) == ProviderError::Unavailable <==> error
            == OpenAiError::UnsupportedPlatform,
        provider_category(error) == ProviderError::Configuration <==> error is InvalidConfiguration
            || error is UnsupportedScheme || error is InvalidUrl || error is InvalidRequest || error
            is InvalidHeader,
        !(provider_category(error) is Local) && provider_category(error)
            != ProviderError::InvalidResponse,
{
}

/// A stream that was cancelled ends as cancelled, whatever the worker said; one
/// whose worker is gone fails; any other ends as the worker said.
pub proof fn lemma_how_a_stream_is_judged(
    outcome: Result<(), OpenAiError>,
    cancelled: bool,
    told: Result<(), ProviderError>,
    silent: Result<(), ProviderError>,
    spawned: bool,
    admitted: Result<(), ProviderError>,
)
    requires
        call_ensures(stream_outcome, (Some(outcome), cancelled), told),
        call_ensures(stream_outcome, (None, cancelled), silent),
        call_ensures(stream_admitted, (cancelled, spawned), admitted),
    ensures
        cancelled ==> told == Err::<(), _>(ProviderError::Cancelled),
        !cancelled ==> (told is Ok <==> outcome is Ok),
        !cancelled && outcome == Err::<(), OpenAiError>(OpenAiError::HttpStatus(401)) ==> told
            == Err::<(), _>(ProviderError::Authentication),
        silent is Err && (silent matches Err(error) && error is Local),
        admitted is Ok <==> !cancelled && spawned,
        cancelled ==> admitted == Err::<(), _>(ProviderError::Cancelled),
{
}

/// The stream is asked again after a piece of text, and after a silence as long
/// as its worker runs.
pub proof fn lemma_a_running_stream_is_asked_again(poll: StreamPoll, keep: bool)
    requires
        call_ensures(keep_polling, (poll,), keep),
    ensures
        poll == StreamPoll::Delta ==> keep,
        poll == (StreamPoll::Quiet { finished: false }) ==> keep,
        poll == (StreamPoll::Quiet { finished: true }) ==> !keep,
        poll == StreamPoll::Disconnected ==> !keep,
{
}

/// The environment comes before the configuration; a blank key counts as none.
pub proof fn lemma_the_environment_comes_first(
    value: String,
    configured: &str,
    set: String,
    unset: String,
    alternate: Option<String>,
)
    requires
        call_ensures(setting_or, (Some(value), configured), set),
        call_ensures(setting_or, (None, configured), unset),
    ensures
        set@ == value@,
        unset@ == configured@,
        is_blank(value@) ==> first_usable(Some(value), alternate) == first_usable(None, alternate),
        !is_blank(value@) ==> first_usable(Some(value), alternate) == Some(value) && first_usable(
            None,
            Some(value),
        ) == Some(value),
        first_usable(None, None) is None,
{
}

/// A provider may be used where nothing is wrong and it could be made; what is
/// wrong is told, and a file that cannot be used only where the provider has
/// nothing to tell.
pub proof fn lemma_when_a_provider_may_be_used(
    fault: Option<&'static str>,
    created: bool,
    status: ProviderStatus,
    file: ConfigFile,
    config: Option<&'static str>,
    error: Option<&'static str>,
    lookup: KeyLookup,
    config_valid: bool,
)
    requires
        call_ensures(provider_status, (fault, created), status),
        call_ensures(config_error, (file,), config),
        call_ensures(startup_error, (fault, config), error),
    ensures
        status.usable <==> fault is None && created,
        status.usable <==> status.error is None,
        fault is Some ==> status.error == fault,
        config is Some <==> file == ConfigFile::Invalid,
        error is None <==> fault is None && file != ConfigFile::Invalid,
        fault is Some ==> error == fault,
        provider_fault(lookup, config_valid) is None <==> lookup.key is Some && !lookup.store_failed
            && config_valid,
{
}

/// Each category is told in words of its own.
pub proof fn lemma_categories_are_told_in_their_own_words(status: u16)
    ensures
        provider_error_text(ProviderError::Authentication) == "Provider authentication failed"@,
        provider_error_text(ProviderError::RateLimited) == "Provider rate limit exceeded"@,
        provider_error_text(ProviderError::Timeout) == "Provider request timed out"@,
        provider_error_text(ProviderError::Transport) == "Provider connection failed"@,
        provider_error_text(ProviderError::Dns) == "Provider host could not be resolved"@,
        provider_error_text(ProviderError::Tls) == "Secure provider connection failed"@,
        provider_error_text(ProviderError::Cancelled) == "Request cancelled"@,
        provider_error_text(ProviderError::Configuration) == "Provider configuration is invalid"@,
        provider_error_text(ProviderError::Unavailable) == "Provider is unavailable"@,
        provider_error_text(ProviderError::HttpStatus(status)).skip(30) == decimal(status as nat),
{
    reveal_strlit("Provider returned HTTP status ");
    let text = provider_error_text(ProviderError::HttpStatus(status));
    assert(text.skip(30) =~= decimal(status as nat));
}

/// The key that is used is the environment's where that has one, otherwise the
/// stored one; without either the provider says so.
pub proof fn lemma_which_key_is_used(
    primary: Option<String>,
    alternate: Option<String>,
    environment: Option<String>,
    stored: Result<Option<String>, CredentialError>,
    lookup: KeyLookup,
    config_valid: bool,
    fault: Option<&'static str>,
)
    requires
        call_ensures(environment_key, (primary, alternate), environment),
        call_ensures(resolve_key, (environment, stored), lookup),
        call_ensures(check_provider, (&lookup, config_valid), fault),
    ensures
        primary matches Some(key) ==> (!is_blank(key@) ==> lookup.key == Some(key)),
        primary is None ==> (alternate matches Some(key) ==> (!is_blank(key@) ==> lookup.key
            == Some(key))),
        primary is None && alternate is None ==> (stored matches Ok(key) ==> lookup.key == key),
        primary is None && alternate is None && stored is Err ==> lookup.key is None
            && lookup.store_failed && fault is Some,
        fault is None <==> lookup.key is Some && !lookup.store_failed && config_valid,
{
}

} // verus!
