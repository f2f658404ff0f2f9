use url::Url;
use vstd::prelude::*;

use crate::committer::{AccountsError, AccountsResult};

verus! {

/// The text of the URL that parsing `text` gives, if it is a URL.
pub uninterp spec fn url_parsed(text: Seq<char>) -> Option<Seq<char>>;

/// The scheme of the URL `text`.
pub uninterp spec fn url_scheme_of(text: Seq<char>) -> Seq<char>;

/// The port of the URL `text`, when it is not the scheme's default one.
pub uninterp spec fn url_port_of(text: Seq<char>) -> Option<u16>;

/// The text of the URL `text` with its scheme set to `scheme`, if the URL
/// allows that change.
pub uninterp spec fn url_scheme_set(text: Seq<char>, scheme: Seq<char>) -> Option<Seq<char>>;

/// The text of the URL `text` with its port set to `port`, if the URL
/// allows that change.
pub uninterp spec fn url_port_set(text: Seq<char>, port: Option<u16>) -> Option<Seq<char>>;

/// Calls `Url::parse` and serializes the result; trusted to give the text
/// that the parse gives, or none when `text` is no URL.
#[verifier::external_body]
fn url_parse(text: &str) -> (r: Option<String>)
    ensures
        match r {
            Some(s) => url_parsed(text@) == Some(s@),
            None => url_parsed(text@) is None,
        },
{
    Url::parse(text).ok().map(|u| u.to_string())
}

/// The text of the URL that `text` denotes, normalized as URLs are; none
/// when `text` is not a URL.
pub fn parse_url(text: &str) -> (r: Option<String>)
    ensures
        match r {
            Some(s) => url_parsed(text@) == Some(s@),
            None => url_parsed(text@) is None,
        },
{
    url_parse(text)
}

/// Calls `Url::scheme` on the parsed `text`; trusted to give its scheme
/// (empty when `text` is no URL).
#[verifier::external_body]
fn url_scheme(text: &str) -> (r: String)
    ensures
        r@ == url_scheme_of(text@),
{
    Url::parse(text).map(|u| u.scheme().to_string()).unwrap_or_default()
}

/// Calls `Url::port` on the parsed `text`; trusted to give its port (none
/// when `text` is no URL).
#[verifier::external_body]
fn url_port(text: &str) -> (r: Option<u16>)
    ensures
        r == url_port_of(text@),
{
    Url::parse(text).ok().and_then(|u| u.port())
}

/// Calls `Url::set_scheme` on the parsed `text`; trusted to give the
/// changed URL's text, or none when the change is refused.
#[verifier::external_body]
fn url_with_scheme(text: &str, scheme: &str) -> (r: Option<String>)
    ensures
        match r {
            Some(s) => url_scheme_set(text@, scheme@) == Some(s@),
            None => url_scheme_set(text@, scheme@) is None,
        },
{
    let mut u = Url::parse(text).ok()?;
    u.set_scheme(scheme).ok()?;
    Some(u.to_string())
}

/// Calls `Url::set_port` on the parsed `text`; trusted to give the changed
/// URL's text, or none when the change is refused.
#[verifier::external_body]
fn url_with_port(text: &str, port: Option<u16>) -> (r: Option<String>)
    ensures
        match r {
            Some(s) => url_port_set(text@, port) == Some(s@),
            None => url_port_set(text@, port) is None,
        },
{
    let mut u = Url::parse(text).ok()?;
    u.set_port(port).ok()?;
    Some(u.to_string())
}

/// The clusters known by name.
#[derive(Clone, Copy, Debug, PartialEq, Eq)]
pub enum ClusterType {
    Testnet,
    MainnetBeta,
    Devnet,
    Development,
}

/// The cluster a validator clones from and commits to.
#[derive(Clone, Debug)]
pub enum Cluster {
    Known(ClusterType),
    /// A cluster at this RPC URL (the text of a parsed URL).
    Custom(String),
    /// A cluster at this RPC URL and this websocket URL.
    CustomWithWs(String, String),
}

/// The endpoints of a cluster.
#[derive(Clone, Debug, PartialEq, Eq)]
pub enum RpcCluster {
    Mainnet,
    Testnet,
    Devnet,
    Development,
    /// A cluster with this RPC URL and this websocket URL.
    Custom(String, String),
}

/// The websocket scheme that goes with an RPC scheme.
pub open spec fn ws_scheme_for(scheme: Seq<char>) -> Option<Seq<char>> {
    if scheme == "http"@ {
        Some("ws"@)
    } else if scheme == "https"@ {
        Some("wss"@)
    } else {
        None
    }
}

/// The port after `port`.
pub open spec fn next_port(port: Option<u16>) -> Option<u16> {
    match port {
        Some(p) => Some((p + 1) as u16),
        None => None,
    }
}

/// Whether `url` is an `http` or `https` URL on the last port, whose next
/// port does not exist.
pub open spec fn last_port_blocks(url: Seq<char>) -> bool {
    ws_scheme_for(url_scheme_of(url)) is Some && url_port_of(url) == Some(65535u16)
}

/// Why a websocket URL could not be derived.
#[derive(Clone, Copy, Debug, PartialEq, Eq)]
pub enum WsUrlError {
    /// The scheme is neither `http` nor `https`.
    InvalidRpcUrl,
    /// The URL refused the new scheme.
    FailedToUpdateUrlScheme,
    /// The URL refused the new port.
    FailedToUpdateUrlPort,
}

/// The websocket URL of the RPC URL `url`: its scheme made `ws` (or `wss`
/// for `https`), and its port, if it has one, one higher.
pub open spec fn ws_url_of(url: Seq<char>) -> Result<Seq<char>, WsUrlError> {
    match ws_scheme_for(url_scheme_of(url)) {
        None => Err(WsUrlError::InvalidRpcUrl),
        Some(scheme) => match url_scheme_set(url, scheme) {
            None => Err(WsUrlError::FailedToUpdateUrlScheme),
            Some(with_scheme) => match url_port_set(with_scheme, next_port(url_port_of(url))) {
                None => Err(WsUrlError::FailedToUpdateUrlPort),
                Some(ws) => Ok(ws),
            },
        },
    }
}

/// Whether `e` is the error that deriving the websocket URL of `url` meets.
pub open spec fn is_ws_url_error(url: Seq<char>, e: AccountsError) -> bool {
    match ws_url_of(url) {
        Ok(_) => false,
        Err(WsUrlError::InvalidRpcUrl) => e matches AccountsError::InvalidRpcUrl(t) && t@ == url,
        Err(WsUrlError::FailedToUpdateUrlScheme) => e matches AccountsError::FailedToUpdateUrlScheme,
        Err(WsUrlError::FailedToUpdateUrlPort) => e matches AccountsError::FailedToUpdateUrlPort,
    }
}

/// Whether `r` is the outcome of deriving the websocket URL of `url`.
pub open spec fn is_ws_url_outcome(url: Seq<char>, r: AccountsResult<String>) -> bool {
    match r {
        Ok(s) => ws_url_of(url) == Ok::<Seq<char>, WsUrlError>(s@),
        Err(e) => is_ws_url_error(url, e),
    }
}

/// Whether `r` is the outcome of finding the endpoints of `cluster`.
pub open spec fn is_rpc_cluster_outcome(cluster: Cluster, r: AccountsResult<RpcCluster>) -> bool {
    match cluster {
        Cluster::Known(ClusterType::Testnet) => r == Ok::<RpcCluster, AccountsError>(RpcCluster::Testnet),
        Cluster::Known(ClusterType::MainnetBeta) => r == Ok::<RpcCluster, AccountsError>(RpcCluster::Mainnet),
        Cluster::Known(ClusterType::Devnet) => r == Ok::<RpcCluster, AccountsError>(RpcCluster::Devnet),
        Cluster::Known(ClusterType::Development) => r == Ok::<RpcCluster, AccountsError>(RpcCluster::Development),
        Cluster::Custom(url) => match ws_url_of(url@) {
            Ok(ws) => r matches Ok(RpcCluster::Custom(h, w)) && h@ == url@ && w@ == ws,
            Err(_) => r matches Err(e) && is_ws_url_error(url@, e),
        },
        Cluster::CustomWithWs(http, ws) => r matches Ok(RpcCluster::Custom(h, w)) && h@ == http@ && w@ == ws@,
    }
}

/// The websocket URL of an RPC URL (the text of a parsed URL); an `http`
/// or `https` URL must not be on the last port, whose next one does not
/// exist.
fn try_ws_url_from_rpc_url(url: &String) -> (r: AccountsResult<String>)
    requires
        last_port_blocks(url@) == false,
    ensures
        is_ws_url_outcome(url@, r),
{
    let scheme = url_scheme(url.as_str());
    let http = "http".to_owned();
    let https = "https".to_owned();
    let ws = if scheme == http {
        "ws"
    } else if scheme == https {
        "wss"
    } else {
        return Err(AccountsError::InvalidRpcUrl(url.clone()));
    };
    let port = match url_port(url.as_str()) {
        Some(p) => Some(p + 1),
        None => None,
    };
    let with_scheme = match url_with_scheme(url.as_str(), ws) {
        Some(u) => u,
        None => return Err(AccountsError::FailedToUpdateUrlScheme),
    };
    match url_with_port(with_scheme.as_str(), port) {
        Some(u) => Ok(u),
        None => Err(AccountsError::FailedToUpdateUrlPort),
    }
}

/// The endpoints of `cluster`; a custom cluster's websocket URL is derived
/// from its RPC URL, which, when it is `http` or `https`, must not be on the
/// last port.
pub fn try_rpc_cluster_from_cluster(cluster: &Cluster) -> (r: AccountsResult<RpcCluster>)
    requires
        cluster matches Cluster::Custom(url) ==> !last_port_blocks(url@),
    ensures
        is_rpc_cluster_outcome(*cluster, r),
{
    match cluster {
        Cluster::Known(ClusterType::Testnet) => Ok(RpcCluster::Testnet),
        Cluster::Known(ClusterType::MainnetBeta) => Ok(RpcCluster::Mainnet),
        Cluster::Known(ClusterType::Devnet) => Ok(RpcCluster::Devnet),
        Cluster::Known(ClusterType::Development) => Ok(RpcCluster::Development),
        Cluster::Custom(url) => {
            let ws_url = try_ws_url_from_rpc_url(url)?;
            Ok(RpcCluster::Custom(url.clone(), ws_url))
        },
        Cluster::CustomWithWs(http, ws) => Ok(RpcCluster::Custom(http.clone(), ws.clone())),
    }
}

/// The endpoints of `cluster`, or none for a custom cluster whose `http` or
/// `https` RPC URL is on the last port, whose next port does not exist.
pub fn rpc_cluster_from_cluster(cluster: &Cluster) -> (r: Option<AccountsResult<RpcCluster>>)
    ensures
        r is None <==> (cluster matches Cluster::Custom(url) && last_port_blocks(url@)),
        r matches Some(res) ==> is_rpc_cluster_outcome(*cluster, res),
{
    if let Cluster::Custom(url) = cluster {
        let scheme = url_scheme(url.as_str());
        let http = "http".to_owned();
        let https = "https".to_owned();
        if scheme == http || scheme == https {
            if let Some(p) = url_port(url.as_str()) {
                if p == 65535 {
                    return None;
                }
            }
        }
    }
    Some(try_rpc_cluster_from_cluster(cluster))
}

} // verus!
