//! The semantic-convention attribute keys consumed by the mapping, and the
//! context-tag keys they feed.

use vstd::prelude::*;

verus! {

/// `http.method`
pub fn http_method() -> (r: String)
    ensures
        r@ == "http.method"@,
{
    String::from_str("http.method")
}

/// `http.route`
pub fn http_route() -> (r: String)
    ensures
        r@ == "http.route"@,
{
    String::from_str("http.route")
}

/// `http.status_code`
pub fn http_status_code() -> (r: String)
    ensures
        r@ == "http.status_code"@,
{
    String::from_str("http.status_code")
}

/// `http.url`
pub fn http_url() -> (r: String)
    ensures
        r@ == "http.url"@,
{
    String::from_str("http.url")
}

/// `http.target`
pub fn http_target() -> (r: String)
    ensures
        r@ == "http.target"@,
{
    String::from_str("http.target")
}

/// `http.scheme`
pub fn http_scheme() -> (r: String)
    ensures
        r@ == "http.scheme"@,
{
    String::from_str("http.scheme")
}

/// `http.host`
pub fn http_host() -> (r: String)
    ensures
        r@ == "http.host"@,
{
    String::from_str("http.host")
}

/// `http.client_ip`
pub fn http_client_ip() -> (r: String)
    ensures
        r@ == "http.client_ip"@,
{
    String::from_str("http.client_ip")
}

/// `net.peer.ip`
pub fn net_peer_ip() -> (r: String)
    ensures
        r@ == "net.peer.ip"@,
{
    String::from_str("net.peer.ip")
}

/// `net.peer.name`
pub fn net_peer_name() -> (r: String)
    ensures
        r@ == "net.peer.name"@,
{
    String::from_str("net.peer.name")
}

/// `net.peer.port`
pub fn net_peer_port() -> (r: String)
    ensures
        r@ == "net.peer.port"@,
{
    String::from_str("net.peer.port")
}

/// `db.statement`
pub fn db_statement() -> (r: String)
    ensures
        r@ == "db.statement"@,
{
    String::from_str("db.statement")
}

/// `db.name`
pub fn db_name() -> (r: String)
    ensures
        r@ == "db.name"@,
{
    String::from_str("db.name")
}

/// `db.system`
pub fn db_system() -> (r: String)
    ensures
        r@ == "db.system"@,
{
    String::from_str("db.system")
}

/// `messaging.system`
pub fn messaging_system() -> (r: String)
    ensures
        r@ == "messaging.system"@,
{
    String::from_str("messaging.system")
}

/// `rpc.system`
pub fn rpc_system() -> (r: String)
    ensures
        r@ == "rpc.system"@,
{
    String::from_str("rpc.system")
}

/// `exception.type`
pub fn exception_type() -> (r: String)
    ensures
        r@ == "exception.type"@,
{
    String::from_str("exception.type")
}

/// `exception.message`
pub fn exception_message() -> (r: String)
    ensures
        r@ == "exception.message"@,
{
    String::from_str("exception.message")
}

/// `exception.stacktrace`
pub fn exception_stacktrace() -> (r: String)
    ensures
        r@ == "exception.stacktrace"@,
{
    String::from_str("exception.stacktrace")
}

/// `service.version`
pub fn service_version() -> (r: String)
    ensures
        r@ == "service.version"@,
{
    String::from_str("service.version")
}

/// `enduser.id`
pub fn enduser_id() -> (r: String)
    ensures
        r@ == "enduser.id"@,
{
    String::from_str("enduser.id")
}

/// `service.namespace`
pub fn service_namespace() -> (r: String)
    ensures
        r@ == "service.namespace"@,
{
    String::from_str("service.namespace")
}

/// `service.name`
pub fn service_name() -> (r: String)
    ensures
        r@ == "service.name"@,
{
    String::from_str("service.name")
}

/// `service.instance.id`
pub fn service_instance_id() -> (r: String)
    ensures
        r@ == "service.instance.id"@,
{
    String::from_str("service.instance.id")
}

/// `telemetry.sdk.name`
pub fn telemetry_sdk_name() -> (r: String)
    ensures
        r@ == "telemetry.sdk.name"@,
{
    String::from_str("telemetry.sdk.name")
}

/// `telemetry.sdk.version`
pub fn telemetry_sdk_version() -> (r: String)
    ensures
        r@ == "telemetry.sdk.version"@,
{
    String::from_str("telemetry.sdk.version")
}

/// `ai.application.ver`
pub fn tag_application_ver() -> (r: String)
    ensures
        r@ == "ai.application.ver"@,
{
    String::from_str("ai.application.ver")
}

/// `ai.user.authUserId`
pub fn tag_user_auth_user_id() -> (r: String)
    ensures
        r@ == "ai.user.authUserId"@,
{
    String::from_str("ai.user.authUserId")
}

/// `ai.cloud.role`
pub fn tag_cloud_role() -> (r: String)
    ensures
        r@ == "ai.cloud.role"@,
{
    String::from_str("ai.cloud.role")
}

/// `ai.cloud.roleInstance`
pub fn tag_cloud_role_instance() -> (r: String)
    ensures
        r@ == "ai.cloud.roleInstance"@,
{
    String::from_str("ai.cloud.roleInstance")
}

/// `ai.internal.sdkVersion`
pub fn tag_internal_sdk_version() -> (r: String)
    ensures
        r@ == "ai.internal.sdkVersion"@,
{
    String::from_str("ai.internal.sdkVersion")
}

/// `ai.operation.name`
pub fn tag_operation_name() -> (r: String)
    ensures
        r@ == "ai.operation.name"@,
{
    String::from_str("ai.operation.name")
}

} // verus!
