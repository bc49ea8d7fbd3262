//! The player's remote-control channel: its status report, its commands, and
//! the request URLs that carry them.

use vstd::prelude::*;
use crate::digits::{decimal, decimal_string};

verus! {

/// Whether the player is playing.
#[derive(Clone, Copy, Debug, PartialEq, Eq)]
pub enum State {
    Playing,
    Paused,
}

/// The player's status: position and length in seconds, volume on the
/// player's 0..=512 scale.
#[derive(Clone, Copy, Debug, PartialEq, Eq)]
pub struct RpcResponse {
    pub state: State,
    pub time: u32,
    pub length: u32,
    pub volume: u16,
}

/// A transport command for the running player.
#[derive(Clone, Copy, Debug, PartialEq, Eq)]
pub enum RpcCommand {
    /// Ten seconds forward.
    SeekForward,
    /// Ten seconds back.
    SeekRewind,
    /// To this many seconds from the start.
    SeekTo(u32),
    TogglePause,
    Mute,
    FullVolume,
}

/// The `application/x-www-form-urlencoded` text of a list of name/value pairs.
pub uninterp spec fn form_urlencoded(pairs: Seq<(Seq<char>, Seq<char>)>) -> Seq<char>;

#[verifier::external_type_specification]
#[verifier::external_body]
pub struct ExUrlEncodeError(serde_urlencoded::ser::Error);

pub open spec fn pair_views(pairs: Seq<(String, String)>) -> Seq<(Seq<char>, Seq<char>)> {
    pairs.map_values(|p: (String, String)| (p.0@, p.1@))
}

/// Relies on `serde_urlencoded::to_string`: a sequence of name/value string
/// pairs is written as one form-urlencoded string, pairs in order. On string
/// pairs it does not fail: the sequence, pair, key and value serializers all
/// return `Ok` for strings.
#[verifier::external_body]
fn urlencode_pairs(pairs: &Vec<(String, String)>) -> (r: Result<String, serde_urlencoded::ser::Error>)
    ensures
        r is Ok,
        r matches Ok(s) ==> s@ == form_urlencoded(pair_views(pairs@)),
{
    serde_urlencoded::to_string(pairs)
}

/// The request parameters of `command`.
pub open spec fn query_pairs(command: RpcCommand) -> Seq<(Seq<char>, Seq<char>)> {
    match command {
        RpcCommand::SeekForward => seq![("command"@, "seek"@), ("val"@, "+10"@)],
        RpcCommand::SeekRewind => seq![("command"@, "seek"@), ("val"@, "-10"@)],
        RpcCommand::SeekTo(ts) => seq![("command"@, "seek"@), ("val"@, decimal(ts as nat))],
        RpcCommand::TogglePause => seq![("command"@, "pl_pause"@)],
        RpcCommand::Mute => seq![("command"@, "volume"@), ("val"@, "0"@)],
        RpcCommand::FullVolume => seq![("command"@, "volume"@), ("val"@, "255"@)],
    }
}

fn pair(name: &str, value: String) -> (r: (String, String))
    ensures
        r.0@ == name@,
        r.1@ == value@,
{
    (String::from_str(name), value)
}

impl RpcCommand {
    fn query_pairs(&self) -> (r: Vec<(String, String)>)
        ensures
            pair_views(r@) == query_pairs(*self),
    {
        let mut pairs: Vec<(String, String)> = Vec::new();
        match self {
            RpcCommand::SeekForward => {
                pairs.push(pair("command", String::from_str("seek")));
                pairs.push(pair("val", String::from_str("+10")));
            },
            RpcCommand::SeekRewind => {
                pairs.push(pair("command", String::from_str("seek")));
                pairs.push(pair("val", String::from_str("-10")));
            },
            RpcCommand::SeekTo(ts) => {
                pairs.push(pair("command", String::from_str("seek")));
                pairs.push(pair("val", decimal_string(*ts)));
            },
            RpcCommand::TogglePause => {
                pairs.push(pair("command", String::from_str("pl_pause")));
            },
            RpcCommand::Mute => {
                pairs.push(pair("command", String::from_str("volume")));
                pairs.push(pair("val", String::from_str("0")));
            },
            RpcCommand::FullVolume => {
                pairs.push(pair("command", String::from_str("volume")));
                pairs.push(pair("val", String::from_str("255")));
            },
        }
        assert(pair_views(pairs@) =~= query_pairs(*self));
        pairs
    }

    /// The command as a form-urlencoded query string.
    pub fn to_query_string(&self) -> (r: String)
        ensures
            r@ == form_urlencoded(query_pairs(*self)),
    {
        let pairs = self.query_pairs();
        match urlencode_pairs(&pairs) {
            Ok(s) => s,
            Err(_) => String::new(),
        }
    }
}

/// The status URL of the player's HTTP interface on `host:port`.
pub open spec fn status_url(host: Seq<char>, port: u16) -> Seq<char> {
    "http://"@ + host + ":"@ + decimal(port as nat) + "/requests/status.json"@
}

/// Where the player's HTTP interface is, and its password.
pub struct Rpc {
    url: String,
    password: String,
}

impl Rpc {
    pub closed spec fn url_spec(&self) -> Seq<char> {
        self.url@
    }

    pub closed spec fn password_spec(&self) -> Seq<char> {
        self.password@
    }

    /// The interface on `host:port`, reached with `password`.
    pub fn new(host: String, port: u16, password: String) -> (r: Rpc)
        ensures
            r.url_spec() == status_url(host@, port),
            r.password_spec() == password@,
    {
        let mut url = String::from_str("http://");
        url.append(host.as_str());
        url.append(":");
        let port_digits = decimal_string(port as u32);
        url.append(port_digits.as_str());
        url.append("/requests/status.json");
        Rpc { url, password }
    }

    /// The status URL, which also takes commands as its query.
    pub fn url(&self) -> (r: &String)
        ensures
            r@ == self.url_spec(),
    {
        &self.url
    }

    pub fn password(&self) -> (r: &String)
        ensures
            r@ == self.password_spec(),
    {
        &self.password
    }

    /// The status URL with `query` as its query string.
    pub fn url_with_query(&self, query: &str) -> (r: String)
        ensures
            r@ == self.url_spec() + "?"@ + query@,
    {
        let mut u = self.url.clone();
        u.append("?");
        u.append(query);
        u
    }

    /// The URL that sends `command` to the player.
    pub fn command_url(&self, command: &RpcCommand) -> (r: String)
        ensures
            r@ == self.url_spec() + "?"@ + form_urlencoded(query_pairs(*command)),
    {
        let query = command.to_query_string();
        self.url_with_query(query.as_str())
    }
}

} // verus!
