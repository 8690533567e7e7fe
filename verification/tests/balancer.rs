use relay_core::balancer::{check_delay, Election, Inner, PingBalancer, ProbeResult};
use relay_core::server::{Server, ServerAddr, ServerConfig, ServerScore, ServerType};
use relay_core::socks5::{IpAddress, SocketAddress};

fn config(last_octet: u8) -> ServerConfig {
    ServerConfig {
        addr: ServerAddr::SocketAddr(
            SocketAddress { ip: IpAddress::V4([10, 0, 0, last_octet]), port: 8388 },
        ),
        method: String::from("aes-256-gcm"),
        key: vec![last_octet; 32],
    }
}

fn servers(scores: &[u64]) -> Vec<ServerScore> {
    let mut v = Vec::new();
    for (i, s) in scores.iter().enumerate() {
        let mut server = ServerScore::new(config(i as u8));
        server.set_score(*s);
        v.push(server);
    }
    v
}

#[test]
fn server_record_starts_at_zero() {
    let mut s = ServerScore::new(config(1));
    assert_eq!(s.score(), 0);
    assert_eq!(*s.server_config(), config(1));
    s.set_score(1234);
    assert_eq!(s.score(), 1234);
    assert_eq!(*s.server_config(), config(1));
}

#[test]
fn server_config_may_name_a_host() {
    let cfg = ServerConfig {
        addr: ServerAddr::DomainName(String::from("proxy.example"), 443),
        method: String::from("chacha20-ietf-poly1305"),
        key: vec![7; 32],
    };
    let s = ServerScore::new(cfg.clone());
    assert_eq!(s.server_config().addr, ServerAddr::DomainName(String::from("proxy.example"), 443));
    assert_eq!(*s.server_config(), cfg);
}

#[test]
fn inner_starts_with_the_first_server() {
    let inner = Inner::new(servers(&[5, 3, 9]));
    assert_eq!(inner.best_idx(), 0);
    assert_eq!(inner.total_server(), 3);
    assert!(inner.checking_required());
    assert_eq!(inner.best_server().score(), 5);
    assert_eq!(inner.server(2).score(), 9);
}

#[test]
fn election_picks_the_lowest_score() {
    let mut inner = Inner::new(servers(&[5, 3, 9]));
    {
        let switched = inner.choose_best_server();
        let (last, best) = switched.expect("the best server changes");
        assert_eq!(last.score(), 5);
        assert_eq!(best.score(), 3);
        assert_eq!(*best.server_config(), config(1));
    }
    assert_eq!(inner.best_idx(), 1);
    assert!(inner.choose_best_server().is_none());
    assert_eq!(inner.best_idx(), 1);
}

#[test]
fn election_breaks_ties_by_the_lowest_index() {
    let mut inner = Inner::new(servers(&[7, 2, 2, 2]));
    assert!(inner.choose_best_server().is_some());
    assert_eq!(inner.best_idx(), 1);

    let mut inner = Inner::new(servers(&[4, 4, 4]));
    inner.set_best_idx(2);
    assert_eq!(inner.best_idx(), 2);
    {
        let (last, best) = inner.choose_best_server().expect("moves to the first");
        assert_eq!(*last.server_config(), config(2));
        assert_eq!(*best.server_config(), config(0));
    }
    assert_eq!(inner.best_idx(), 0);
}

#[test]
fn election_with_one_server_never_switches() {
    let mut inner = Inner::new(servers(&[2000]));
    assert!(!inner.checking_required());
    assert!(inner.choose_best_server().is_none());
    assert_eq!(inner.best_idx(), 0);
}

#[test]
fn single_server_bypass() {
    let mut balancer = PingBalancer::new(vec![ServerScore::new(config(9))], ServerType::Udp);
    assert!(!balancer.checking_required());
    assert_eq!(balancer.total(), 1);
    assert_eq!(*balancer.pick_server().server_config(), config(9));
    assert_eq!(balancer.pick_server().score(), 0);
    assert_eq!(balancer.election_pass(), Election::Unchanged);
    assert_eq!(*balancer.pick_server().server_config(), config(9));
    assert_eq!(balancer.best_idx(), 0);
}

#[test]
fn balancer_keeps_its_kind() {
    let b = PingBalancer::new(vec![ServerScore::new(config(1))], ServerType::Tcp);
    assert_eq!(b.server_type(), ServerType::Tcp);
    let b = PingBalancer::new(vec![ServerScore::new(config(1))], ServerType::Udp);
    assert_eq!(b.server_type(), ServerType::Udp);
}

#[test]
fn election_switches_on_degradation() {
    let a = ServerScore::new(config(1));
    let b = ServerScore::new(config(2));
    let mut balancer = PingBalancer::new(vec![a, b], ServerType::Tcp);
    assert!(balancer.checking_required());
    assert_eq!(balancer.total(), 2);
    for _ in 0..20 {
        assert_eq!(balancer.check_update_score(0, Some(10)), 5);
        assert_eq!(balancer.check_update_score(1, Some(200)), 100);
    }
    assert_eq!(balancer.election_pass(), Election::Unchanged);
    assert_eq!(balancer.best_idx(), 0);
    assert_eq!(*balancer.pick_server().server_config(), config(1));

    let mut last = 0;
    for _ in 0..20 {
        last = balancer.check_update_score(0, None);
    }
    // 17 latencies of 10 ms and 20 errors remain in the window of 37
    assert_eq!(last, 5 + 20 * 1000 / 37);
    assert_eq!(balancer.server(0).score(), 545);
    assert_eq!(balancer.server(1).score(), 100);
    assert_eq!(
        balancer.election_pass(),
        Election::Switched { last: 0, best: 1, announce: true }
    );
    assert_eq!(*balancer.pick_server().server_config(), config(2));
}

#[test]
fn first_election_is_silent() {
    let mut balancer =
        PingBalancer::new(vec![ServerScore::new(config(1)), ServerScore::new(config(2))], ServerType::Udp);
    balancer.check_update_score(0, None);
    balancer.check_update_score(1, Some(40));
    assert_eq!(
        balancer.election_pass(),
        Election::Switched { last: 0, best: 1, announce: false }
    );
    balancer.check_update_score(1, None);
    balancer.check_update_score(1, None);
    balancer.check_update_score(0, Some(40));
    // server 0: median 40, one error in two; server 1: median 40, two errors in three
    assert_eq!(
        balancer.election_pass(),
        Election::Switched { last: 1, best: 0, announce: true }
    );
    assert_eq!(balancer.election_pass(), Election::Unchanged);
}

#[test]
fn probe_score_goes_to_the_probed_server_only() {
    let mut balancer = PingBalancer::new(
        vec![ServerScore::new(config(1)), ServerScore::new(config(2)), ServerScore::new(config(3))],
        ServerType::Udp,
    );
    assert_eq!(balancer.check_update_score(1, Some(600)), 300);
    assert_eq!(balancer.server(0).score(), 0);
    assert_eq!(balancer.server(1).score(), 300);
    assert_eq!(balancer.server(2).score(), 0);
    assert_eq!(*balancer.server(1).server_config(), config(2));
    assert_eq!(balancer.best_idx(), 0);
}

#[test]
fn inner_check_update_score_pushes_and_stores() {
    let mut latency = relay_core::score::ServerLatency::new();
    let mut server = ServerScore::new(config(1));
    assert_eq!(Inner::check_update_score(&mut latency, &mut server, Some(1000)), 500);
    assert_eq!(server.score(), 500);
    assert_eq!(Inner::check_update_score(&mut latency, &mut server, None), 1000);
    assert_eq!(server.score(), 1000);
}

#[test]
fn probe_that_completed_yields_its_time() {
    assert_eq!(check_delay(ProbeResult::Completed, 0, 25), Some(25));
    assert_eq!(check_delay(ProbeResult::Completed, 1, 250), Some(1250));
}

#[test]
fn probe_that_failed_yields_nothing() {
    assert_eq!(check_delay(ProbeResult::Failed, 0, 3), None);
    assert_eq!(check_delay(ProbeResult::Failed, 2, 0), None);
}

#[test]
fn probe_that_timed_out_counts_as_slow() {
    assert_eq!(check_delay(ProbeResult::TimedOut, 2, 0), Some(2000));
    assert_eq!(check_delay(ProbeResult::TimedOut, 2, 1), Some(2001));
}
