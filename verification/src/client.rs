use vstd::prelude::*;

verus! {

/// Configuration for one gateway client: the environment flag and the
/// locations of the certificate, private key and CA bundle that the TLS
/// handshake is built from.
pub struct APNS {
    pub sandbox: bool,
    pub certificate: String,
    pub private_key: String,
    pub ca_certificate: String,
}

impl APNS {
    pub fn new(sandbox: bool, cert_file: String, private_key_file: String, ca_file: String) -> (r:
        APNS)
        ensures
            r.sandbox == sandbox,
            r.certificate@ == cert_file@,
            r.private_key@ == private_key_file@,
            r.ca_certificate@ == ca_file@,
    {
        APNS {
            sandbox,
            certificate: cert_file,
            private_key: private_key_file,
            ca_certificate: ca_file,
        }
    }
}

/// The notification gateway endpoint for the chosen environment.
pub fn apns_gateway(sandbox: bool) -> (r: &'static str)
    ensures
        sandbox ==> r@ == "gateway.sandbox.push.apple.com:2195"@,
        !sandbox ==> r@ == "gateway.push.apple.com:2195"@,
{
    if sandbox {
        "gateway.sandbox.push.apple.com:2195"
    } else {
        "gateway.push.apple.com:2195"
    }
}

/// The feedback service endpoint for the chosen environment.
pub fn feedback_gateway(sandbox: bool) -> (r: &'static str)
    ensures
        sandbox ==> r@ == "feedback.sandbox.push.apple.com:2196"@,
        !sandbox ==> r@ == "feedback.push.apple.com:2196"@,
{
    if sandbox {
        "feedback.sandbox.push.apple.com:2196"
    } else {
        "feedback.push.apple.com:2196"
    }
}

} // verus!
