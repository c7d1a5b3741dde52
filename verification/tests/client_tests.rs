use raft_kv::client::{after_error, Empty, Leader, SEND_ATTEMPTS};
use raft_kv::membership::BasicNode;
use raft_kv::network::{rpc_url, Network};
use raft_kv::options::Options;

#[test]
fn rpc_url_joins_address_and_endpoint() {
    assert_eq!(rpc_url("127.0.0.1:8081", "raft-vote"), "http://127.0.0.1:8081/raft-vote");
    assert_eq!(rpc_url("", ""), "http:///");
}

#[test]
fn network_addresses_a_node() {
    let net = Network::new();
    let node = BasicNode::new("10.0.0.2:21001".to_string());
    assert_eq!(net.target_url(&node, "raft-append"), "http://10.0.0.2:21001/raft-append");
    let conn = net.new_client(2, &node);
    assert_eq!(conn.target, 2);
    assert_eq!(conn.url("raft-snapshot"), "http://10.0.0.2:21001/raft-snapshot");
}

#[test]
fn leader_url() {
    let leader = Leader::new(1, "127.0.0.1:8081".to_string());
    assert_eq!(leader.url("write"), "http://127.0.0.1:8081/write");
    assert_eq!(leader.node_id, 1);
}

#[test]
fn failure_without_leader_is_given_up() {
    let step = after_error(SEND_ATTEMPTS, None);
    assert!(!step.retry);
    assert!(step.new_leader.is_none());
    assert_eq!(step.n_retry, SEND_ATTEMPTS);
}

#[test]
fn failure_naming_the_leader_is_retried_there() {
    let step = after_error(3, Some((2, "127.0.0.1:8082".to_string())));
    assert!(step.retry);
    assert_eq!(step.n_retry, 2);
    let leader = step.new_leader.unwrap();
    assert_eq!(leader.node_id, 2);
    assert_eq!(leader.addr, "127.0.0.1:8082");
}

#[test]
fn a_request_is_sent_at_most_three_times() {
    let mut n_retry = SEND_ATTEMPTS;
    let mut sends = 1;
    loop {
        let step = after_error(n_retry, Some((3, "h:3".to_string())));
        assert!(step.new_leader.is_some());
        if !step.retry {
            break;
        }
        n_retry = step.n_retry;
        sends += 1;
    }
    assert_eq!(sends, 3);
}

#[test]
fn last_forward_updates_leader_but_gives_up() {
    let step = after_error(1, Some((4, "h:4".to_string())));
    assert!(!step.retry);
    assert_eq!(step.n_retry, 0);
    assert_eq!(step.new_leader.unwrap().node_id, 4);
}

#[test]
fn options_and_empty_body() {
    let o = Options::new(1, "127.0.0.1:8081".to_string());
    assert_eq!(o.id, 1);
    assert_eq!(o.http_addr, "127.0.0.1:8081");
    assert_eq!(Empty {}, Empty {});
}

#[test]
fn node_config_is_valid_with_the_node_timings() {
    let config = raft_kv::node::node_config().expect("the node configuration is valid");
    assert_eq!(config.heartbeat_interval, 500);
    assert_eq!(config.election_timeout_min, 1500);
    assert_eq!(config.election_timeout_max, 3000);
    assert_eq!(config.max_payload_entries, 300);
}
