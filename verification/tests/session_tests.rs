use fileshare::net::IpAddress;
use fileshare::sessions::{ClientManager, ClientState};

fn ip(d: u8) -> IpAddress {
    IpAddress::V4 { a: 10, b: 0, c: 0, d }
}

#[test]
fn first_sight_creates_connected_session() {
    let mut cm = ClientManager::new();
    cm.add_connection(ip(1), 50000);
    assert_eq!(cm.clients.len(), 1);
    let c = cm.clients[0].1;
    assert_eq!(c.state, ClientState::Connected);
    assert_eq!(c.index, 0);
    assert_eq!(c.last_connection, 50000);
    assert_eq!(c.last_download, 40000); // backdated so the tick sees no download
    assert_eq!(c.download_count, 0);
}

#[test]
fn classification_windows_on_tick() {
    let mut cm = ClientManager::new();
    cm.add_connection(ip(1), 10000);
    cm.add_download(ip(1), 1000, 10000);
    // download traffic 1 s old: Downloading
    cm.update(11000);
    assert_eq!(cm.clients[0].1.state, ClientState::Downloading);
    assert_eq!(cm.active_downloads(), 1);
    assert_eq!(cm.active_connections(), 1);
    // download 2.5 s old, connection 2.5 s old: Connected
    cm.update(12500);
    assert_eq!(cm.clients[0].1.state, ClientState::Connected);
    assert_eq!(cm.active_downloads(), 0);
    assert_eq!(cm.active_connections(), 1);
    // both 4.5 s old: Disconnected
    cm.update(14500);
    assert_eq!(cm.clients[0].1.state, ClientState::Disconnected);
    assert_eq!(cm.active_connections(), 0);
}

#[test]
fn progress_preserved_across_stall() {
    let mut cm = ClientManager::new();
    cm.add_connection(ip(1), 0);
    cm.add_download(ip(1), 8192, 0);
    cm.download_progress(ip(1), 1, 0); // 4096 bytes of 8192
    assert_eq!(cm.clients[0].1.current_download_progress, 4096);
    // tick 3 s later: the session leaves Downloading, the transfer is
    // carried over rather than zeroed
    cm.update(3000);
    let c = cm.clients[0].1;
    assert_eq!(c.state, ClientState::Connected);
    assert_eq!(c.current_download_progress, 0);
    assert_eq!(c.canceled_download_progress, 4096);
    assert_eq!(c.canceled_download_size, 8192);
    // the stream resumes: progress continues from 4096, not from 0
    cm.download_progress(ip(1), 1, 3100);
    let c = cm.clients[0].1;
    assert_eq!(c.current_download_progress, 8192);
    assert_eq!(c.current_downloads_size, 8192);
    assert_eq!(c.canceled_download_progress, 0);
}

#[test]
fn speed_and_peak_on_tick() {
    let mut cm = ClientManager::new();
    cm.add_connection(ip(1), 0);
    cm.add_download(ip(1), 100000, 0);
    cm.download_progress(ip(1), 3, 100); // 12288 bytes this tick
    cm.update(1000);
    let c = cm.clients[0].1;
    assert_eq!(c.speed, 12288);
    assert_eq!(c.max_speed, 12288);
    assert_eq!(cm.throughput(), 12288);
    cm.download_progress(ip(1), 1, 1100); // 4096 bytes this tick
    cm.update(2000);
    let c = cm.clients[0].1;
    assert_eq!(c.speed, 4096);
    assert_eq!(c.max_speed, 12288); // the peak stays
}

#[test]
fn transmitted_data_counts_all_progress() {
    let mut cm = ClientManager::new();
    cm.add_connection(ip(1), 0);
    cm.download_progress(ip(1), 2, 50);
    cm.download_progress(ip(9), 5, 60); // unknown address still counts globally
    assert_eq!(cm.transmitted_data(), 7 * 4096);
}

#[test]
fn download_done_counts() {
    let mut cm = ClientManager::new();
    cm.add_connection(ip(1), 0);
    cm.download_done(ip(1), 100);
    cm.download_done(ip(2), 200); // unknown address: global only
    assert_eq!(cm.clients[0].1.download_count, 1);
    assert_eq!(cm.total_downloads(), 2);
}

#[test]
fn sorted_clients_newest_first() {
    let mut cm = ClientManager::new();
    cm.add_connection(ip(1), 0);
    cm.add_connection(ip(2), 10);
    cm.add_connection(ip(3), 20);
    assert_eq!(cm.num_clients(), 3);
    let sorted = cm.sorted_clients();
    assert_eq!(sorted[0].0, ip(3));
    assert_eq!(sorted[1].0, ip(2));
    assert_eq!(sorted[2].0, ip(1));
}

#[test]
fn reconnect_touches_existing_session() {
    let mut cm = ClientManager::new();
    cm.add_connection(ip(1), 0);
    cm.add_connection(ip(1), 500);
    assert_eq!(cm.clients.len(), 1);
    assert_eq!(cm.clients[0].1.last_connection, 500);
}
