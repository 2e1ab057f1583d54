use apns::client::apns_gateway;
use apns::client::feedback_gateway;
use apns::APNS;

#[test]
fn new_keeps_configuration() {
    let client = APNS::new(
        true,
        "cert.pem".to_string(),
        "key.pem".to_string(),
        "ca.pem".to_string(),
    );
    assert!(client.sandbox);
    assert_eq!(client.certificate, "cert.pem");
    assert_eq!(client.private_key, "key.pem");
    assert_eq!(client.ca_certificate, "ca.pem");
}

#[test]
fn gateway_endpoints_follow_the_environment_flag() {
    assert_eq!(apns_gateway(false), "gateway.push.apple.com:2195");
    assert_eq!(apns_gateway(true), "gateway.sandbox.push.apple.com:2195");
    assert_eq!(feedback_gateway(false), "feedback.push.apple.com:2196");
    assert_eq!(feedback_gateway(true), "feedback.sandbox.push.apple.com:2196");
}
