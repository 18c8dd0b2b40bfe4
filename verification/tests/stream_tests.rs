use fileshare::events::ServerMessage;
use fileshare::net::IpAddress;
use fileshare::stream::CountingStream;

fn ip() -> IpAddress {
    IpAddress::V4 { a: 10, b: 0, c: 0, d: 5 }
}

#[test]
fn progress_events_are_coalesced() {
    let mut cs = CountingStream::new(3, ip(), 1000);
    assert_eq!(cs.on_chunk(1100), None);
    assert_eq!(cs.on_chunk(1200), None);
    // more than 250 ms since the last send: flush the three chunks
    assert_eq!(
        cs.on_chunk(1300),
        Some(ServerMessage::DownloadActive { ip: ip(), num_packets: 3 })
    );
    assert_eq!(cs.counter, 0);
    assert_eq!(cs.last_send_time, 1300);
    // the interval restarts
    assert_eq!(cs.on_chunk(1400), None);
}

#[test]
fn end_emits_final_progress_then_one_terminal() {
    let mut cs = CountingStream::new(7, ip(), 0);
    assert_eq!(cs.on_chunk(10), None);
    assert_eq!(cs.on_chunk(20), None);
    let (active, done) = cs.on_end();
    assert_eq!(active, ServerMessage::DownloadActive { ip: ip(), num_packets: 2 });
    assert_eq!(done, ServerMessage::Downloaded { index: 7, ip: ip() });
}
