use fileshare::control::{handle_server_message, handle_zip_message, refresh_decision,
    RefreshAction};
use fileshare::archive::ZipMessage;
use fileshare::events::ServerMessage;
use fileshare::net::IpAddress;
use fileshare::registry::FileManager;
use fileshare::router::plan_download;
use fileshare::sessions::ClientManager;
use fileshare::stream::CountingStream;

fn client() -> IpAddress {
    IpAddress::V4 { a: 10, b: 0, c: 0, d: 5 }
}

/// The whole single-file flow: client 10.0.0.5 asks for entry 3 (a
/// 10 MB file); the stream completes; the entry's download count rises
/// by one, the session's lifetime bytes rise by 10 MB, and exactly one
/// terminal event was seen.
#[test]
fn completed_download_counts_once() {
    let ten_mb: usize = 10 * 1024 * 1024;
    let mut files = FileManager::new();
    for i in 0..3 {
        files.push(format!("srv/file{}.bin", i), 100, false);
    }
    files.push("srv/video.bin".to_string(), ten_mb, false); // index 3
    let mut clients = ClientManager::new();

    handle_server_message(
        &mut files,
        &mut clients,
        ServerMessage::ClientConnected { ip: client() },
        1000,
    );

    let plan = plan_download(&files, 3, 1, client());
    let request = plan.request_event.expect("single request announces itself");
    assert_eq!(request, ServerMessage::DownloadRequest { index: 3, ip: client() });
    assert_eq!(plan.file.as_ref().unwrap().size, ten_mb);
    handle_server_message(&mut files, &mut clients, request, 1000);

    // 10 MB in 4096-byte chunks, streamed without a pause long enough
    // to flush a progress event before the end
    let mut cs = CountingStream::new(3, client(), 1000);
    let mut terminal_events = 0;
    for _ in 0..(ten_mb / 4096) {
        assert_eq!(cs.on_chunk(1100), None);
    }
    let (active, done) = cs.on_end();
    handle_server_message(&mut files, &mut clients, active, 1200);
    if let ServerMessage::Downloaded { index, ip } = done {
        assert_eq!(index, 3);
        assert_eq!(ip, client());
        terminal_events += 1;
    }
    assert_eq!(terminal_events, 1);
    handle_server_message(&mut files, &mut clients, done, 1200);

    assert_eq!(files.get(3).unwrap().download_count, 1);
    let session = clients.clients[0].1;
    assert_eq!(session.download_size, ten_mb);
    assert_eq!(session.download_count, 1);
    assert_eq!(clients.total_downloads(), 1);
}

#[test]
fn download_all_books_total_size() {
    let mut files = FileManager::new();
    files.push("a/one.bin".to_string(), 100, false);
    files.push("a/two.bin".to_string(), 200, false);
    let mut clients = ClientManager::new();
    handle_server_message(
        &mut files,
        &mut clients,
        ServerMessage::ClientConnected { ip: client() },
        0,
    );
    handle_server_message(
        &mut files,
        &mut clients,
        ServerMessage::DownloadAllRequest { ip: client() },
        10,
    );
    assert_eq!(clients.clients[0].1.current_downloads_size, 300);
    assert_eq!(clients.active_downloads(), 1);
}

#[test]
fn request_for_unknown_entry_books_nothing() {
    let mut files = FileManager::new();
    let mut clients = ClientManager::new();
    handle_server_message(
        &mut files,
        &mut clients,
        ServerMessage::ClientConnected { ip: client() },
        0,
    );
    handle_server_message(
        &mut files,
        &mut clients,
        ServerMessage::DownloadRequest { index: 9, ip: client() },
        10,
    );
    assert_eq!(clients.clients[0].1.current_downloads_size, 0);
}

#[test]
fn zip_events_drive_job_bookkeeping() {
    let mut files = FileManager::new();
    let src = "data/photos".to_string();
    files.add_new_zip_compressing(src.clone(), 50);
    handle_zip_message(
        &mut files,
        &ZipMessage::Started { path: src.clone(), num_files: 2 },
        0,
    );
    assert_eq!(files.compressing_zips[0].1.num_files, 2);
    handle_zip_message(&mut files, &ZipMessage::Progress { path: src.clone() }, 0);
    handle_zip_message(&mut files, &ZipMessage::Progress { path: src.clone() }, 0);
    assert_eq!(files.compressing_zips[0].1.progress, 2);
    handle_zip_message(&mut files, &ZipMessage::Done { path: src.clone() }, 4242);
    assert!(files.compressing_zips.is_empty());
    assert_eq!(files.entries.len(), 1);
    assert_eq!(files.entries[0].1.path, "./temp/photos.zip");
    assert_eq!(files.entries[0].1.size, 4242);
    assert!(files.entries[0].1.is_zip);
}

#[test]
fn refresh_decisions() {
    let a = IpAddress::V4 { a: 192, b: 168, c: 1, d: 2 };
    let b = IpAddress::V4 { a: 192, b: 168, c: 1, d: 3 };
    assert_eq!(refresh_decision(Some(a), Some(a)), RefreshAction::Tick);
    assert_eq!(refresh_decision(Some(a), Some(b)), RefreshAction::Restart);
    assert_eq!(refresh_decision(None, Some(b)), RefreshAction::Restart);
    assert_eq!(refresh_decision(Some(a), None), RefreshAction::StopAndTick);
    assert_eq!(refresh_decision(None, None), RefreshAction::StopAndTick);
}
