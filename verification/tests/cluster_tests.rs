use rand::SeedableRng;
use kv_client::cluster::client::first_replicas;
use kv_client::cluster::client::{
    find_token_range, get_key_hash, route_at_random_with, new_replica_positions, route, route_at_random,
    route_by_token, sort_by_end, token_range_replicas_of, RouteError,
};
use kv_client::cluster::cluster_state::{ClusterState, InvalidClusterState};
use kv_client::cluster::node::NodeDTO;
use kv_client::cluster::token_range::TokenRange;
use kv_client::cluster::token_range_replica::{TokenRangeReplicas, TokenRangeReplicasDTO};
use kv_client::cluster::ServerAddress;
use kv_client::commands::command_ops::bloom_filter::bloom_filter_req::BloomFilterCfgReq;
use kv_client::commands::command_ops::text::text_req::TextReq;
use kv_client::commands::command_req::{CfgReq, CommandReq, KeyReq, Req};

fn addr(port: u16) -> ServerAddress {
    ServerAddress {
        host: String::from("127.0.0.1"),
        port,
        region: String::from("r"),
        az: String::from("a"),
    }
}

fn node(id: u64) -> NodeDTO {
    NodeDTO { id, address: addr(9000 + id as u16) }
}

fn trr(start: u64, end: u64, replicas: Vec<u64>) -> TokenRangeReplicas {
    TokenRangeReplicas { token_range: TokenRange { start, end }, replicas }
}

fn table() -> Vec<TokenRangeReplicas> {
    vec![trr(0, 100, vec![1, 2]), trr(100, 200, vec![3]), trr(200, 300, vec![4, 5])]
}

#[test]
fn cluster_state_codes() {
    assert_eq!(ClusterState::try_from(1u8), Ok(ClusterState::Booting));
    assert_eq!(ClusterState::try_from(2u8), Ok(ClusterState::Normal));
    assert_eq!(ClusterState::try_from(13u8), Ok(ClusterState::ServerScalingStarted));
    assert_eq!(ClusterState::try_from(0u8), Err(InvalidClusterState { value: 0 }));
    assert_eq!(ClusterState::try_from(14u8), Err(InvalidClusterState { value: 14 }));
    assert_eq!(u8::from(ClusterState::ScaledDownMoved), 10);
    assert_eq!(u8::from(&ClusterState::Normal), 2);
    for v in 1u8..=13 {
        assert_eq!(u8::from(ClusterState::try_from(v).unwrap()), v);
    }
}

#[test]
fn displays() {
    assert_eq!(node(7).to_string(), "NodeDTO 7");
    assert_eq!(TokenRange { start: 1, end: 5 }.to_string(), "TR 1 - 5");
    assert_eq!(TokenRange { start: 0, end: u64::MAX }.to_string(), "TR 0 - 18446744073709551615");
    let dto = TokenRangeReplicasDTO {
        token_range: TokenRange { start: 1, end: 5 },
        replicas: vec![node(7), node(8)],
    };
    assert_eq!(dto.to_string(), "TR 1 - 5 [NodeDTO 7, NodeDTO 8]");
    let empty = TokenRangeReplicasDTO { token_range: TokenRange { start: 2, end: 3 }, replicas: vec![] };
    assert_eq!(empty.to_string(), "TR 2 - 3 []");
}

#[test]
fn key_hash_is_xxh3_modulo_65536() {
    for key in [&b"hello"[..], &b""[..], &b"user:42"[..]] {
        let h = get_key_hash(key);
        assert_eq!(h, xxhash_rust::xxh3::xxh3_64(key) % 65536);
        assert!(h < 65536);
    }
    assert_ne!(get_key_hash(b"a"), get_key_hash(b"b"));
}

#[test]
fn owner_of_a_token() {
    let t = table();
    assert_eq!(find_token_range(&t, 0), 0);
    assert_eq!(find_token_range(&t, 100), 0);
    assert_eq!(find_token_range(&t, 101), 1);
    assert_eq!(find_token_range(&t, 300), 2);
    assert_eq!(find_token_range(&t, 301), 0);
}

#[test]
fn routing_by_token() {
    let t = table();
    assert_eq!(route_by_token(&t, 50), Ok(1));
    assert_eq!(route_by_token(&t, 150), Ok(3));
    assert_eq!(route_by_token(&t, 250), Ok(4));
    assert_eq!(route_by_token(&t, 65535), Ok(1));
    assert_eq!(route_by_token(&Vec::new(), 5), Err(RouteError::NoTokenRanges));
    let bare = vec![trr(0, 10, vec![]), trr(10, 20, vec![9])];
    assert_eq!(route_by_token(&bare, 5), Err(RouteError::NoReplicas));
    assert_eq!(route_by_token(&bare, 15), Ok(9));
}

#[test]
fn routing_requests() {
    let t = vec![trr(0, 65535, vec![6, 7])];
    let data = Req::Command(KeyReq { key: String::from("k"), req: CommandReq::Text(TextReq::Get) });
    assert_eq!(route(&t, &data), Ok(6));
    let cfg = Req::Cfg(CfgReq::BloomFilter(BloomFilterCfgReq::GetConfig {
        config_key: String::from("c"),
    }));
    for _ in 0..20 {
        let r = route(&t, &cfg).unwrap();
        assert!(r == 6 || r == 7);
    }
    assert_eq!(route(&Vec::new(), &cfg), Err(RouteError::NoTokenRanges));
    assert_eq!(route(&vec![trr(0, 1, vec![])], &cfg), Err(RouteError::NoReplicas));
    for _ in 0..20 {
        let r = route_at_random(&table()).unwrap();
        assert!([1, 2, 3, 4, 5].contains(&r));
    }
}

#[test]
fn routing_table_from_description() {
    let dtos = vec![
        TokenRangeReplicasDTO { token_range: TokenRange { start: 200, end: 300 }, replicas: vec![node(3)] },
        TokenRangeReplicasDTO { token_range: TokenRange { start: 0, end: 100 }, replicas: vec![node(1), node(2)] },
        TokenRangeReplicasDTO { token_range: TokenRange { start: 100, end: 200 }, replicas: vec![] },
    ];
    let t = token_range_replicas_of(&dtos);
    assert_eq!(t.len(), 3);
    assert_eq!(t[0].token_range, TokenRange { start: 0, end: 100 });
    assert_eq!(t[0].replicas, vec![1, 2]);
    assert_eq!(t[1].token_range, TokenRange { start: 100, end: 200 });
    assert!(t[1].replicas.is_empty());
    assert_eq!(t[2].replicas, vec![3]);

    let mut v = vec![trr(5, 9, vec![1]), trr(0, 2, vec![2]), trr(2, 5, vec![3])];
    sort_by_end(&mut v);
    let ends: Vec<u64> = v.iter().map(|x| x.token_range.end).collect();
    assert_eq!(ends, vec![2, 5, 9]);
    let ids: Vec<u64> = v.iter().map(|x| x.replicas[0]).collect();
    assert_eq!(ids, vec![2, 3, 1]);
}

#[test]
fn nodes_that_need_a_connection() {
    let dtos = vec![
        TokenRangeReplicasDTO { token_range: TokenRange { start: 0, end: 1 }, replicas: vec![node(1), node(2)] },
        TokenRangeReplicasDTO { token_range: TokenRange { start: 1, end: 2 }, replicas: vec![node(2), node(3), node(1)] },
        TokenRangeReplicasDTO { token_range: TokenRange { start: 2, end: 3 }, replicas: vec![node(4)] },
    ];
    assert_eq!(new_replica_positions(&dtos, &vec![2]), vec![(0, 0), (1, 1), (2, 0)]);
    assert_eq!(new_replica_positions(&dtos, &vec![]), vec![(0, 0), (0, 1), (1, 1), (2, 0)]);
    assert_eq!(new_replica_positions(&dtos, &vec![1, 2, 3, 4]), Vec::<(usize, usize)>::new());
}

#[test]
fn equal_ends_keep_their_order() {
    let mut v = vec![trr(0, 5, vec![1]), trr(1, 3, vec![2]), trr(2, 5, vec![3]), trr(3, 5, vec![4])];
    sort_by_end(&mut v);
    let ids: Vec<u64> = v.iter().map(|x| x.replicas[0]).collect();
    assert_eq!(ids, vec![2, 1, 3, 4]);
    let dtos = vec![
        TokenRangeReplicasDTO { token_range: TokenRange { start: 9, end: 7 }, replicas: vec![node(1)] },
        TokenRangeReplicasDTO { token_range: TokenRange { start: 8, end: 7 }, replicas: vec![node(2)] },
        TokenRangeReplicasDTO { token_range: TokenRange { start: 0, end: 1 }, replicas: vec![node(3)] },
    ];
    let t = token_range_replicas_of(&dtos);
    let ids: Vec<u64> = t.iter().map(|x| x.replicas[0]).collect();
    assert_eq!(ids, vec![3, 1, 2]);
}

#[test]
fn first_replica_of_each_range() {
    let t = vec![trr(0, 1, vec![4, 5]), trr(1, 2, vec![]), trr(2, 3, vec![6])];
    assert_eq!(first_replicas(&t), vec![4, 6]);
    assert_eq!(first_replicas(&Vec::new()), Vec::<u64>::new());
}

#[test]
fn random_route_with_a_generator() {
    let mut rng = rand::rngs::StdRng::seed_from_u64(7);
    for _ in 0..20 {
        let r = route_at_random_with(&table(), &mut rng).unwrap();
        assert!([1, 2, 3, 4, 5].contains(&r));
    }
    assert_eq!(route_at_random_with(&Vec::new(), &mut rng), Err(RouteError::NoTokenRanges));
    assert_eq!(route_at_random_with(&vec![trr(0, 1, vec![])], &mut rng), Err(RouteError::NoReplicas));
}
