use steam_serverlist::error::ServerDiscoveryError;
use steam_serverlist::handle::TrackedServer;
use steam_serverlist::options::DiscoverOptions;
use steam_serverlist::order::sort_by_load;
use steam_serverlist::registry::{advance, ServerList};
use steam_serverlist::server::Server;

fn server(endpoint: &str, load: u32) -> Server {
    Server {
        endpoint: endpoint.to_string(),
        legacy_endpoint: format!("legacy-{}", endpoint),
        server_type: "websockets".to_string(),
        dc: "fra1".to_string(),
        realm: "steamglobal".to_string(),
        load,
        wtd_load_bits: (load as f32 * 1.5).to_bits(),
    }
}

fn endpoints(servers: &[Server]) -> Vec<String> {
    servers.iter().map(|s| s.endpoint.clone()).collect()
}

fn picks(list: &ServerList, count: usize) -> Vec<String> {
    (0..count).map(|_| list.pick_ws().server().endpoint.clone()).collect()
}

fn network_error() -> reqwest::Error {
    reqwest::Client::new().get("not a url").build().unwrap_err()
}

#[test]
fn url_templates_the_endpoint() {
    let s = server("cm1-fra1.steamserver.net:27019", 3);
    assert_eq!(s.url(), "wss://cm1-fra1.steamserver.net:27019/cmsocket/");
}

#[test]
fn url_of_empty_endpoint() {
    assert_eq!(server("", 0).url(), "wss:///cmsocket/");
}

#[test]
fn five_picks_follow_load_order() {
    let list = ServerList::from_servers(vec![server("A", 1), server("B", 5), server("C", 2)]).unwrap();
    assert_eq!(picks(&list, 5), vec!["A", "C", "B", "A", "C"]);
}

#[test]
fn picks_repeat_sorted_order_every_round() {
    let list = ServerList::from_servers(vec![
        server("d", 40),
        server("a", 10),
        server("c", 30),
        server("b", 20),
    ])
    .unwrap();
    assert_eq!(list.len(), 4);
    let seen = picks(&list, 12);
    for round in 0..3 {
        assert_eq!(&seen[round * 4..round * 4 + 4], &["a", "b", "c", "d"]);
    }
}

#[test]
fn single_server_is_picked_every_time() {
    let list = ServerList::from_servers(vec![server("only", 9)]).unwrap();
    assert_eq!(picks(&list, 3), vec!["only", "only", "only"]);
}

#[test]
fn sort_keeps_order_of_equal_loads() {
    let sorted = sort_by_load(vec![
        server("x", 2),
        server("y", 1),
        server("z", 2),
        server("w", 1),
        server("v", 0),
    ]);
    assert_eq!(endpoints(&sorted), vec!["v", "y", "w", "x", "z"]);
}

#[test]
fn sort_of_empty_list_is_empty() {
    assert!(sort_by_load(Vec::new()).is_empty());
}

#[test]
fn sort_keeps_largest_loads_last() {
    let sorted = sort_by_load(vec![server("max", u32::MAX), server("zero", 0), server("mid", 7)]);
    assert_eq!(endpoints(&sorted), vec!["zero", "mid", "max"]);
    assert_eq!(sorted[2].load, u32::MAX);
    assert_eq!(sorted[2].wtd_load_bits, (u32::MAX as f32 * 1.5).to_bits());
}

#[test]
fn empty_server_list_is_refused() {
    let r = ServerList::from_servers(Vec::new());
    assert!(matches!(r, Err(ServerDiscoveryError::NoServers)));
}

#[test]
fn empty_discovery_response_gives_no_servers_error() {
    let r = ServerList::from_discovery(Ok(Vec::new()));
    assert!(matches!(r, Err(ServerDiscoveryError::NoServers)));
}

#[test]
fn transport_failure_gives_network_error() {
    let r = ServerList::from_discovery(Err(network_error()));
    assert!(matches!(r, Err(ServerDiscoveryError::Network(_))));
}

#[test]
fn successful_discovery_builds_sorted_registry() {
    let r = ServerList::from_discovery(Ok(vec![server("slow", 80), server("fast", 5)]));
    let list = r.unwrap();
    assert_eq!(picks(&list, 3), vec!["fast", "slow", "fast"]);
}

#[test]
fn error_from_transport_error_is_network() {
    let e = ServerDiscoveryError::from(network_error());
    assert!(matches!(e, ServerDiscoveryError::Network(_)));
}

#[test]
fn failures_are_shared_between_picks_of_one_server() {
    let list = ServerList::from_servers(vec![server("A", 1), server("B", 5), server("C", 2)]).unwrap();
    let first = list.pick_ws();
    assert_eq!(first.server().endpoint, "A");
    for m in 0..4u32 {
        assert_eq!(first.track_connection_failure(), m);
    }
    let _c = list.pick_ws();
    let _b = list.pick_ws();
    let again = list.pick_ws();
    assert_eq!(again.server().endpoint, "A");
    assert_eq!(again.connection_failures(), 4);
    assert_eq!(first.connection_failures(), 4);
    assert_eq!(list.pick_ws().connection_failures(), 0);
}

#[test]
fn new_handle_starts_without_failures() {
    let h = TrackedServer::new(server("n", 1));
    assert_eq!(h.connection_failures(), 0);
    assert_eq!(h.server().endpoint, "n");
}

#[test]
fn shared_handle_counts_on_the_same_counter() {
    let h = TrackedServer::new(7u64);
    let copy = h.share();
    assert_eq!(*copy.server(), 7);
    assert_eq!(copy.track_connection_failure(), 0);
    assert_eq!(h.track_connection_failure(), 1);
    assert_eq!(copy.connection_failures(), 2);
}

#[test]
fn picks_are_balanced_over_servers() {
    let list = ServerList::from_servers(vec![server("p", 3), server("q", 1), server("r", 2)]).unwrap();
    let seen = picks(&list, 10);
    for name in ["p", "q", "r"] {
        let n = seen.iter().filter(|e| e.as_str() == name).count();
        assert!(n == 3 || n == 4);
    }
    assert_eq!(seen.iter().filter(|e| e.as_str() == "q").count(), 4);
}

#[test]
fn clones_share_the_rotation() {
    let list = ServerList::from_servers(vec![server("a", 1), server("b", 2)]).unwrap();
    let other = list.clone();
    assert_eq!(list.pick_ws().server().endpoint, "a");
    assert_eq!(other.pick_ws().server().endpoint, "b");
    assert_eq!(list.pick_ws().server().endpoint, "a");
}

#[test]
fn select_wraps_position() {
    let list = ServerList::from_servers(vec![server("a", 1), server("b", 2), server("c", 3)]).unwrap();
    assert_eq!(list.select(0).server().endpoint, "a");
    assert_eq!(list.select(2).server().endpoint, "c");
    assert_eq!(list.select(4).server().endpoint, "b");
    assert_eq!(list.select(usize::MAX).server().endpoint, "a");
}

#[test]
fn advance_wraps_after_last() {
    assert_eq!(advance(0, 3), 1);
    assert_eq!(advance(1, 3), 2);
    assert_eq!(advance(2, 3), 0);
    assert_eq!(advance(0, 1), 0);
    assert_eq!(advance(usize::MAX, 5), 0);
}

#[test]
fn query_without_cell() {
    let q = DiscoverOptions::default().query();
    assert_eq!(
        q,
        vec![
            ("cmtype".to_string(), "websockets".to_string()),
            ("realm".to_string(), "steamglobal".to_string()),
        ]
    );
}

#[test]
fn query_with_cell() {
    let q = DiscoverOptions::default().with_cell(255).query();
    assert_eq!(q.len(), 3);
    assert_eq!(q[2], ("cellid".to_string(), "255".to_string()));
    let q = DiscoverOptions::default().with_cell(0).query();
    assert_eq!(q[2], ("cellid".to_string(), "0".to_string()));
    let q = DiscoverOptions::default().with_cell(42).query();
    assert_eq!(q[2].1, "42");
}

#[test]
fn default_options() {
    let o = DiscoverOptions::default();
    assert_eq!(o.cell(), None);
    assert!(o.web_client().is_none());
}

#[test]
fn builders_set_their_field_only() {
    let o = DiscoverOptions::default().with_cell(12).with_web_client(reqwest::Client::new());
    assert_eq!(o.cell(), Some(12));
    assert!(o.web_client().is_some());
    let o = o.with_cell(13);
    assert_eq!(o.cell(), Some(13));
    assert!(o.web_client().is_some());
}
