//! The captive portal's request handling: what each of the three routes
//! answers and does to the signal bus.
//!
//! The portal serves the static configuration page at the root, the current
//! scan text under the list route, and takes credential submissions under
//! the setup route, forwarding the raw body verbatim to the bus — validation
//! is the supervisor's job: attempting the connection is the validation.
//! The socket handling, the worker pool and the race against the end
//! broadcast live in the driver.

use vstd::prelude::*;

use crate::wifimanager::bus::{spec_read_scan, spec_submit, WmInnerSignals};

verus! {

/// One parsed portal request.
#[derive(Clone, Debug, PartialEq, Eq)]
pub enum PortalRequest {
    /// The root route: the static configuration page.
    Root,
    /// The list route: the current scan text.
    List,
    /// The setup route: a raw credential submission body.
    Setup(Vec<u8>),
}

/// What the portal answers.
#[derive(Clone, Debug, PartialEq, Eq)]
pub enum PortalResponse {
    /// The static configuration page, as served for the root route.
    Page,
    /// The scan text at the time of the request.
    ScanList(Vec<u8>),
    /// The submission was taken; the page stays up while it is validated.
    Accepted,
}

/// The static configuration page.
pub fn portal_page() -> (r: &'static str)
    ensures
        r@ == spec_portal_page(),
{
    "<!DOCTYPE html><html><head><title>Wi-Fi setup</title></head><body><h1>Wi-Fi setup</h1><form method=\"post\" action=\"/setup\"><input name=\"ssid\" placeholder=\"network\"><input name=\"password\" type=\"password\" placeholder=\"password\"><button>Connect</button></form><pre id=\"list\"></pre></body></html>"
}

/// The characters of the static configuration page.
pub open spec fn spec_portal_page() -> Seq<char> {
    "<!DOCTYPE html><html><head><title>Wi-Fi setup</title></head><body><h1>Wi-Fi setup</h1><form method=\"post\" action=\"/setup\"><input name=\"ssid\" placeholder=\"network\"><input name=\"password\" type=\"password\" placeholder=\"password\"><button>Connect</button></form><pre id=\"list\"></pre></body></html>"@
}

/// Answers one portal request.  The root and list routes leave the bus as it
/// is; a setup request places its body in the submission slot, overwriting
/// any unconsumed previous submission.
pub fn handle_portal_request(bus: &mut WmInnerSignals, req: PortalRequest) -> (r: PortalResponse)
    ensures
        req is Root ==> *final(bus) == *old(bus) && r is Page,
        req is List ==> *final(bus) == *old(bus) && (r matches PortalResponse::ScanList(t) && t@
            == spec_read_scan(old(bus)@)),
        req matches PortalRequest::Setup(bytes) ==> (*final(bus))@ == spec_submit(
            old(bus)@,
            bytes@,
        ) && r is Accepted,
{
    match req {
        PortalRequest::Root => PortalResponse::Page,
        PortalRequest::List => PortalResponse::ScanList(bus.read_scan_results()),
        PortalRequest::Setup(bytes) => {
            bus.submit(bytes);
            PortalResponse::Accepted
        },
    }
}

} // verus!
