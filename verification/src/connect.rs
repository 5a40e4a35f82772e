//! The transport factory: from an address, credentials and a client
//! identifier to a client handle and its event loop.

use crate::address::{parse_url, spec_parse_url};
use rumqttc::{AsyncClient, EventLoop, MqttOptions};
use std::time::Duration;
use vstd::prelude::*;
use vstd::string::*;

verus! {

/// Seconds between keep-alive pings on an idle connection.
pub const KEEP_ALIVE_SECS: u64 = 2;

/// How many requests may wait between a client handle and its event loop.
pub const REQUEST_CAPACITY: usize = 10;

/// `rumqttc::MqttOptions`, the options of a connection as the transport
/// holds them. A value is known only as what the calls that made it
/// return.
#[verifier::external_type_specification]
#[verifier::external_body]
pub struct ExMqttOptions(MqttOptions);

/// `rumqttc::AsyncClient`, the handle through which requests reach an event
/// loop. Nothing is known of a value but that it exists.
#[verifier::external_type_specification]
#[verifier::external_body]
pub struct ExAsyncClient(AsyncClient);

/// `rumqttc::EventLoop`, which talks to the broker when it is polled. Of a
/// value only the options that it holds are spoken of.
#[verifier::external_type_specification]
#[verifier::external_body]
pub struct ExEventLoop(EventLoop);

/// What a connection is opened with.
#[derive(Clone, Debug, PartialEq, Eq)]
pub struct ConnectOptions {
    pub client_id: String,
    pub host: String,
    pub port: u16,
    pub keep_alive_secs: u64,
    pub clean_session: bool,
    pub username: String,
    pub password: String,
    pub request_capacity: usize,
}

/// The mathematical content of [`ConnectOptions`].
pub struct ConnectOptionsView {
    pub client_id: Seq<char>,
    pub host: Seq<char>,
    pub port: u16,
    pub keep_alive_secs: u64,
    pub clean_session: bool,
    pub username: Seq<char>,
    pub password: Seq<char>,
    pub request_capacity: usize,
}

impl View for ConnectOptions {
    type V = ConnectOptionsView;

    open spec fn view(&self) -> ConnectOptionsView {
        ConnectOptionsView {
            client_id: self.client_id@,
            host: self.host@,
            port: self.port,
            keep_alive_secs: self.keep_alive_secs,
            clean_session: self.clean_session,
            username: self.username@,
            password: self.password@,
            request_capacity: self.request_capacity,
        }
    }
}

/// The options for a connection to `url` under `client_id`: host and port as
/// the address gives them, a keep-alive of two seconds, a clean session and
/// the credentials as supplied.
pub open spec fn spec_connect_options(
    url: Seq<char>,
    user: Seq<char>,
    password: Seq<char>,
    client_id: Seq<char>,
) -> ConnectOptionsView {
    ConnectOptionsView {
        client_id,
        host: spec_parse_url(url).0,
        port: spec_parse_url(url).1,
        keep_alive_secs: KEEP_ALIVE_SECS,
        clean_session: true,
        username: user,
        password,
        request_capacity: REQUEST_CAPACITY,
    }
}

/// Builds the options for a connection to `url`.
pub fn connect_options(url: &str, user: &str, password: &str, client_id: &str) -> (options:
    ConnectOptions)
    ensures
        options@ == spec_connect_options(url@, user@, password@, client_id@),
{
    let (host, port) = parse_url(url);
    ConnectOptions {
        client_id: client_id.to_owned(),
        host,
        port,
        keep_alive_secs: KEEP_ALIVE_SECS,
        clean_session: true,
        username: user.to_owned(),
        password: password.to_owned(),
        request_capacity: REQUEST_CAPACITY,
    }
}

/// What `rumqttc::MqttOptions::new` returns for a client identifier and a
/// broker address.
pub uninterp spec fn options_new(client_id: Seq<char>, host: Seq<char>, port: u16) -> MqttOptions;

/// What `rumqttc::MqttOptions::set_keep_alive` makes of `options`, given a
/// whole number of seconds.
pub uninterp spec fn options_with_keep_alive(options: MqttOptions, seconds: u64) -> MqttOptions;

/// What `rumqttc::MqttOptions::set_clean_session` makes of `options`.
pub uninterp spec fn options_with_clean_session(
    options: MqttOptions,
    clean_session: bool,
) -> MqttOptions;

/// What `rumqttc::MqttOptions::set_credentials` makes of `options`.
pub uninterp spec fn options_with_credentials(
    options: MqttOptions,
    username: Seq<char>,
    password: Seq<char>,
) -> MqttOptions;

/// The options that an event loop holds, in its public field, and connects
/// with when it is polled.
pub uninterp spec fn options_of_loop(event_loop: EventLoop) -> MqttOptions;

/// The transport's options for `options`: made for its client identifier
/// and broker address, then given its keep-alive, its clean-session flag
/// and its credentials, in this order.
pub open spec fn spec_options_built(options: ConnectOptionsView) -> MqttOptions {
    options_with_credentials(
        options_with_clean_session(
            options_with_keep_alive(
                options_new(options.client_id, options.host, options.port),
                options.keep_alive_secs,
            ),
            options.clean_session,
        ),
        options.username,
        options.password,
    )
}

/// The transport's options for a connection to `url` under `client_id`:
/// those built for [`spec_connect_options`].
pub open spec fn spec_transport_options(
    url: Seq<char>,
    user: Seq<char>,
    password: Seq<char>,
    client_id: Seq<char>,
) -> MqttOptions {
    spec_options_built(spec_connect_options(url, user, password, client_id))
}

/// `rumqttc::MqttOptions::new`: the options are a function of the client
/// identifier and the broker address alone, as the constructor stores them
/// beside constants.
#[verifier::external_body]
fn new_options(client_id: &str, host: &str, port: u16) -> (built: MqttOptions)
    ensures
        built == options_new(client_id@, host@, port),
{
    MqttOptions::new(client_id, host, port)
}

/// `rumqttc::MqttOptions::set_keep_alive`, with a whole number of seconds:
/// the options afterwards are a function of the options before and the
/// seconds. The crate refuses only intervals above zero and below one
/// second, which whole seconds never are.
#[verifier::external_body]
fn set_keep_alive(options: &mut MqttOptions, seconds: u64)
    ensures
        *final(options) == options_with_keep_alive(*old(options), seconds),
{
    options.set_keep_alive(Duration::from_secs(seconds));
}

/// `rumqttc::MqttOptions::set_clean_session`: the options afterwards are a
/// function of the options before and the flag. The crate refuses to switch
/// the clean session off for an empty client identifier, so only switching
/// it on is admitted.
#[verifier::external_body]
fn set_clean_session(options: &mut MqttOptions, clean_session: bool)
    requires
        clean_session,
    ensures
        *final(options) == options_with_clean_session(*old(options), clean_session),
{
    options.set_clean_session(clean_session);
}

/// `rumqttc::MqttOptions::set_credentials`: the options afterwards are a
/// function of the options before, the user name and the password.
#[verifier::external_body]
fn set_credentials(options: &mut MqttOptions, username: &str, password: &str)
    ensures
        *final(options) == options_with_credentials(*old(options), username@, password@),
{
    options.set_credentials(username, password);
}

/// `rumqttc::AsyncClient::new`: a client handle and the event loop that
/// serves it, joined by a channel of the given capacity. The event loop
/// holds the options it was given. No connection is attempted before the
/// event loop is polled.
#[verifier::external_body]
fn new_client(options: MqttOptions, capacity: usize) -> (handles: (AsyncClient, EventLoop))
    ensures
        options_of_loop(handles.1) == options,
{
    AsyncClient::new(options, capacity)
}

/// Opens the transport that `options` describes: each setting is handed to
/// the transport as it stands.
fn open_transport(options: &ConnectOptions) -> (handles: (AsyncClient, EventLoop))
    requires
        options.clean_session,
    ensures
        options_of_loop(handles.1) == spec_options_built(options@),
{
    let mut built = new_options(options.client_id.as_str(), options.host.as_str(), options.port);
    set_keep_alive(&mut built, options.keep_alive_secs);
    set_clean_session(&mut built, options.clean_session);
    set_credentials(&mut built, options.username.as_str(), options.password.as_str());
    new_client(built, options.request_capacity)
}

/// The client identifier used when the caller names none.
pub open spec fn spec_default_client_id() -> Seq<char> {
    "dt_command_client"@
}

/// The client identifier used when the caller names none.
pub fn default_client_id() -> (id: &'static str)
    ensures
        id@ == spec_default_client_id(),
{
    "dt_command_client"
}

/// Connects under the default client identifier: the event loop holds the
/// options for `url` and the credentials under that identifier.
pub fn mqtt_connect(url: &str, user: &str, password: &str) -> (handles: (AsyncClient, EventLoop))
    ensures
        options_of_loop(handles.1) == spec_transport_options(
            url@,
            user@,
            password@,
            spec_default_client_id(),
        ),
{
    mqtt_connect_with_client_id(url, user, password, default_client_id())
}

/// Connects to `url` under `client_id`: the event loop holds the options
/// made for the host and port of `url` and for `client_id`, with a
/// keep-alive of two seconds, a clean session and the credentials as
/// supplied. Whether the broker can be reached shows only when the event
/// loop is first polled.
pub fn mqtt_connect_with_client_id(url: &str, user: &str, password: &str, client_id: &str) -> (handles:
    (AsyncClient, EventLoop))
    ensures
        options_of_loop(handles.1) == spec_transport_options(url@, user@, password@, client_id@),
{
    let options = connect_options(url, user, password, client_id);
    open_transport(&options)
}

} // verus!
