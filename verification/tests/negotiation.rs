//! Algorithm negotiation: the tie-break is deterministic and respects the
//! offering side's order, and a category without a common value fails.

use rustyssh::err::SSHError;
use rustyssh::msg::MsgKexInit;
use rustyssh::negotiate::{find_first_common, negotiate};

fn names(v: &[&str]) -> Vec<String> {
    v.iter().map(|s| s.to_string()).collect()
}

#[test]
fn test_first_common_order_respecting() {
    // Offering ["a","b"] against peer ["b","a"] selects "a".
    let chosen = find_first_common(&names(&["a", "b"]), &names(&["b", "a"]));
    assert_eq!(chosen, Some("a".to_string()));
    // And the reverse direction selects "b": the offerer's order decides.
    let chosen = find_first_common(&names(&["b", "a"]), &names(&["a", "b"]));
    assert_eq!(chosen, Some("b".to_string()));
}

#[test]
fn test_first_common_no_overlap() {
    // Offering ["a"] against peer ["b"] yields no selection.
    assert_eq!(find_first_common(&names(&["a"]), &names(&["b"])), None);
}

#[test]
fn test_first_common_skips_uncommon_prefix() {
    let chosen = find_first_common(&names(&["x", "y", "z"]), &names(&["z", "y"]));
    assert_eq!(chosen, Some("y".to_string()));
}

fn offer(kex: &[&str], hostkey: &[&str], enc: &[&str], mac: &[&str], comp: &[&str]) -> MsgKexInit {
    MsgKexInit {
        cookie: [0u8; 16],
        kex_algorithms: names(kex),
        server_host_key_algorithms: names(hostkey),
        encryption_algorithms_client_to_server: names(enc),
        encryption_algorithms_server_to_client: names(enc),
        mac_algorithms_client_to_server: names(mac),
        mac_algorithms_server_to_client: names(mac),
        compression_algorithms_client_to_server: names(comp),
        compression_algorithms_server_to_client: names(comp),
        languages_client_to_server: Vec::new(),
        languages_server_to_client: Vec::new(),
        kex_first_packet_follows: false,
        reserved: 0,
    }
}

#[test]
fn test_negotiate_full_suite() {
    let client = offer(
        &["ecdh-sha2-nistp256", "curve25519-sha256"],
        &["ssh-ed25519", "ssh-rsa"],
        &["aes256-ctr", "aes128-ctr"],
        &["hmac-sha2-256", "hmac-sha1"],
        &["none"],
    );
    let server = offer(
        &["curve25519-sha256", "ecdh-sha2-nistp256"],
        &["ssh-ed25519"],
        &["aes128-ctr"],
        &["hmac-sha1", "hmac-sha2-256"],
        &["none", "zlib"],
    );
    let suite = negotiate(&client, &server).unwrap();
    // Per category: first in the client's order that the server lists at all.
    assert_eq!(suite.kex, "ecdh-sha2-nistp256");
    assert_eq!(suite.host_key, "ssh-ed25519");
    assert_eq!(suite.encryption_client_to_server, "aes128-ctr");
    assert_eq!(suite.encryption_server_to_client, "aes128-ctr");
    assert_eq!(suite.mac_client_to_server, "hmac-sha2-256");
    assert_eq!(suite.mac_server_to_client, "hmac-sha2-256");
    assert_eq!(suite.compression_client_to_server, "none");
    assert_eq!(suite.compression_server_to_client, "none");
}

#[test]
fn test_negotiate_missing_category_fails() {
    let client = offer(&["a"], &["ssh-ed25519"], &["aes128-ctr"], &["hmac-sha2-256"], &["none"]);
    let server = offer(&["b"], &["ssh-ed25519"], &["aes128-ctr"], &["hmac-sha2-256"], &["none"]);
    assert_eq!(negotiate(&client, &server).unwrap_err(), SSHError::NegotiationFailure);
}
