//! The tenant-routed proxy decision: whether an inbound request passes
//! through to the control API or is forwarded to a tenant's guest, and
//! exactly where.

use vstd::prelude::*;

use crate::manager::TenantManager;

verus! {

broadcast use vstd::string::group_string_axioms;

/// The tenant-identity header of an inbound request, as seen by the
/// router: absent, present but not valid UTF-8, or its decoded value.
pub enum TenantHeader {
    Absent,
    Invalid,
    Present(String),
}

/// What the proxy does with an inbound request.
pub enum ProxyDecision {
    /// No tenant header: the request continues to the control API
    /// unchanged.
    PassThrough,
    /// The tenant header is not valid UTF-8: answered 400.
    BadRequest,
    /// The named tenant is unknown: answered 404.
    NotFound,
    /// Forward to the tenant's guest: the rebuilt upstream URI and the
    /// value the Host header must carry. The tenant header is consumed;
    /// method, remaining headers and body pass through unchanged.
    Forward { uri: String, host: String },
}

/// The query suffix appended to a forwarded path.
pub open spec fn spec_query_suffix(query: Option<Seq<char>>) -> Seq<char> {
    match query {
        Some(q) => "?"@ + q,
        None => Seq::empty(),
    }
}

/// Routes one inbound request: a request without the tenant header
/// passes through; an unreadable header is refused; a known tenant's
/// request is forwarded to `http://<vm_ip>:8080<path>[?query]` with the
/// Host header rewritten to `<vm_ip>:8080`; an unknown tenant is 404.
pub fn proxy_route(
    manager: &TenantManager,
    header: &TenantHeader,
    path: &str,
    query: Option<&String>,
) -> (r: ProxyDecision)
    requires
        manager.wf(),
    ensures
        header matches TenantHeader::Absent ==> r matches ProxyDecision::PassThrough,
        header matches TenantHeader::Invalid ==> r matches ProxyDecision::BadRequest,
        header matches TenantHeader::Present(id) ==> {
            &&& !manager.tenant_map().contains_key(id@) ==> (r matches ProxyDecision::NotFound)
            &&& manager.tenant_map().contains_key(id@) ==> {
                let vm_ip = manager.tenant_map()[id@].vm_ip;
                &&& r matches ProxyDecision::Forward { uri, host }
                &&& uri@ == "http://"@ + vm_ip + ":8080"@ + path@ + spec_query_suffix(
                    match query {
                        Some(q) => Some(q@),
                        None => None,
                    },
                )
                &&& host@ == vm_ip + ":8080"@
            }
        },
{
    let id = match header {
        TenantHeader::Absent => {
            return ProxyDecision::PassThrough;
        },
        TenantHeader::Invalid => {
            return ProxyDecision::BadRequest;
        },
        TenantHeader::Present(id) => id,
    };
    let tenant = match manager.get_tenant(id.as_str()) {
        Some(t) => t,
        None => {
            return ProxyDecision::NotFound;
        },
    };
    let mut host = tenant.vm_ip.clone();
    host.append(":8080");
    let mut uri = String::from_str("http://");
    uri.append(host.as_str());
    uri.append(path);
    match query {
        Some(q) => {
            uri.append("?");
            uri.append(q.as_str());
        },
        None => {},
    }
    ProxyDecision::Forward { uri, host }
}

} // verus!
