use htrpc::pool::{AcquireDecision, Command, RemoteAddr, RpcClientPool};

fn addr(ip: u32, port: u16) -> RemoteAddr {
    RemoteAddr { ip, port }
}

#[test]
fn pool_lru_capacity() {
    let a = addr(1, 80);
    let b = addr(2, 80);
    let mut pool = RpcClientPool::with_pool_size(2);
    pool.handle_command(Command::ReleaseConnection { addr: a, connection: 10 });
    pool.handle_command(Command::ReleaseConnection { addr: b, connection: 11 });
    pool.handle_command(Command::ReleaseConnection { addr: a, connection: 12 });
    // the globally oldest entry (connection 10, for address a) was evicted,
    // even though the newest entry is for the same address
    assert_eq!(pool.connections.len(), 2);
    assert_eq!(pool.connections[0].connection, 11);
    assert_eq!(pool.connections[1].connection, 12);
    // acquiring address b reuses its idle connection
    let d = pool.handle_command(Command::AcquireConnection { addr: b, now_ms: 0 });
    assert_eq!(d, Some(AcquireDecision::Reuse { connection: 11 }));
    // a second acquire for b has nothing cached and decides a fresh connect
    let d = pool.handle_command(Command::AcquireConnection { addr: b, now_ms: 0 });
    assert_eq!(d, Some(AcquireDecision::Connect { timeout_ms: 1000 }));
}

#[test]
fn pool_acquire_oldest_per_address() {
    let a = addr(1, 80);
    let mut pool = RpcClientPool::with_pool_size(10);
    pool.handle_command(Command::ReleaseConnection { addr: a, connection: 20 });
    pool.handle_command(Command::ReleaseConnection { addr: a, connection: 21 });
    let d = pool.handle_command(Command::AcquireConnection { addr: a, now_ms: 0 });
    assert_eq!(d, Some(AcquireDecision::Reuse { connection: 20 }));
    let d = pool.handle_command(Command::AcquireConnection { addr: a, now_ms: 0 });
    assert_eq!(d, Some(AcquireDecision::Reuse { connection: 21 }));
}

#[test]
fn pool_blacklist() {
    let a = addr(9, 443);
    let mut pool = RpcClientPool::new();
    pool.set_suspended_duration(60000);
    pool.set_connect_timeout(1000);
    // a failed fresh connect suspends the address
    pool.handle_command(Command::AddToBlacklist { addr: a, now_ms: 1000 });
    // within the suspended window the acquire fails fast, without a connect,
    // and carries the deadline
    let d = pool.handle_command(Command::AcquireConnection { addr: a, now_ms: 5000 });
    assert_eq!(d, Some(AcquireDecision::Suspended { until_ms: 61000 }));
    // still suspended just before the deadline
    let d = pool.handle_command(Command::AcquireConnection { addr: a, now_ms: 60999 });
    assert_eq!(d, Some(AcquireDecision::Suspended { until_ms: 61000 }));
    // once the window has lapsed a fresh connect is attempted
    let d = pool.handle_command(Command::AcquireConnection { addr: a, now_ms: 61000 });
    assert_eq!(d, Some(AcquireDecision::Connect { timeout_ms: 1000 }));
    // and the lapsed entry is gone: the next acquire connects again
    let d = pool.handle_command(Command::AcquireConnection { addr: a, now_ms: 0 });
    assert_eq!(d, Some(AcquireDecision::Connect { timeout_ms: 1000 }));
}
