//! The control loop's reducer: how each event bus message changes the
//! registry and the sessions.
//!
//! The loop that receives the messages, and the timers that drive the
//! tick, run outside; they hand every message to these functions
//! together with the clock.

use vstd::prelude::*;
use crate::archive::{ZipMessage, valid_archive_source, zip_path_for_spec};
use crate::events::ServerMessage;
use crate::net::IpAddress;
use crate::registry::{FileManager, has_index, has_job, has_path, index_pos, inc_count_seq,
    set_num_files_seq, bump_progress_seq, remove_job_seq, total_size, total_size_spec};
use crate::registry;
use crate::sessions::{ClientManager, add_connection_seq, add_download_seq, download_done_seq,
    download_progress_seq, chunk_bytes_spec};

verus! {

/// The size a download request for `index` books against its session:
/// the entry's size, or nothing when the index is unknown.
pub open spec fn request_size_spec(s: Seq<(usize, registry::FileInfo)>, index: usize) -> usize {
    if has_index(s, index) {
        s[index_pos(s, index)].1.size
    } else {
        0usize
    }
}

/// Applies one server-origin event: a connection touches its session,
/// download requests book their sizes and force `Downloading`,
/// streamed progress feeds the counters, and a terminal event counts
/// the download on both the entry and the session.
pub fn handle_server_message(
    files: &mut FileManager,
    clients: &mut ClientManager,
    msg: ServerMessage,
    now: u64,
)
    requires
        old(files).wf(),
        old(clients).wf(),
    ensures
        final(files).wf(),
        final(clients).wf(),
        final(files).compressing_zips@ == old(files).compressing_zips@,
        final(files).next_index == old(files).next_index,
        final(files).entries@ == (match msg {
            ServerMessage::Downloaded { index, ip } => inc_count_seq(old(files).entries@, index),
            _ => old(files).entries@,
        }),
        final(clients).clients@ == (match msg {
            ServerMessage::Downloaded { index, ip } => download_done_seq(
                old(clients).clients@,
                ip,
                now,
            ),
            ServerMessage::ClientConnected { ip } => add_connection_seq(
                old(clients).clients@,
                ip,
                now,
            ),
            ServerMessage::DownloadActive { ip, num_packets } => download_progress_seq(
                old(clients).clients@,
                ip,
                num_packets,
                now,
            ),
            ServerMessage::DownloadRequest { index, ip } => add_download_seq(
                old(clients).clients@,
                ip,
                request_size_spec(old(files).entries@, index),
                now,
            ),
            ServerMessage::DownloadAllRequest { ip } => add_download_seq(
                old(clients).clients@,
                ip,
                total_size_spec(old(files).entries@),
                now,
            ),
        }),
        final(clients).total_downloads == (match msg {
            ServerMessage::Downloaded { .. } => old(clients).total_downloads.saturating_add(1),
            _ => old(clients).total_downloads,
        }),
        final(clients).transmitted_data == (match msg {
            ServerMessage::DownloadActive { num_packets, .. } => old(clients).transmitted_data.saturating_add(chunk_bytes_spec(num_packets)),
            _ => old(clients).transmitted_data,
        }),
        final(clients).active_downloads == (match msg {
            ServerMessage::DownloadRequest { .. } | ServerMessage::DownloadAllRequest { .. } => if
                old(clients).active_downloads == 0 {
                1usize
            } else {
                old(clients).active_downloads
            },
            _ => old(clients).active_downloads,
        }),
        final(clients).throughput == old(clients).throughput,
        final(clients).active_connections == old(clients).active_connections,
{
    match msg {
        ServerMessage::Downloaded { index, ip } => {
            files.increment_download_count(index);
            clients.download_done(ip, now);
        },
        ServerMessage::ClientConnected { ip } => {
            clients.add_connection(ip, now);
        },
        ServerMessage::DownloadActive { ip, num_packets } => {
            clients.download_progress(ip, num_packets, now);
        },
        ServerMessage::DownloadRequest { index, ip } => {
            let size = match files.get(index) {
                Some(f) => f.size,
                None => 0,
            };
            clients.add_download(ip, size, now);
        },
        ServerMessage::DownloadAllRequest { ip } => {
            let size = total_size(files.get_view());
            clients.add_download(ip, size, now);
        },
    }
}

/// Applies one archive job event to the registry: the enumeration
/// report fixes the job's total, each progress report advances it, and
/// completion removes the job and registers the output file (of the
/// reported size) as an archive entry.
pub fn handle_zip_message(files: &mut FileManager, msg: &ZipMessage, output_size: usize)
    requires
        old(files).wf(),
        (*msg) matches ZipMessage::Done { path } ==> valid_archive_source(path@) && old(files).next_index < usize::MAX,
    ensures
        final(files).wf(),
        (*msg) matches ZipMessage::Started { path, num_files } ==> final(files).compressing_zips@
            == set_num_files_seq(old(files).compressing_zips@, path@, num_files) && final(files).entries@ == old(files).entries@ && final(files).next_index == old(files).next_index,
        (*msg) matches ZipMessage::Progress { path } ==> final(files).compressing_zips@
            == bump_progress_seq(old(files).compressing_zips@, path@) && final(files).entries@
            == old(files).entries@ && final(files).next_index == old(files).next_index,
        (*msg) matches ZipMessage::Done { path } ==> final(files).compressing_zips@
            == remove_job_seq(old(files).compressing_zips@, path@) && !has_job(
            final(files).compressing_zips@,
            path@,
        ) && has_path(final(files).entries@, zip_path_for_spec(path@)) && (has_path(
            old(files).entries@,
            zip_path_for_spec(path@),
        ) ==> final(files).entries@ == old(files).entries@ && final(files).next_index == old(files).next_index) && (!has_path(old(files).entries@, zip_path_for_spec(path@)) ==> final(files).entries@.len() == old(files).entries@.len() + 1 && final(files).entries@.take(
            old(files).entries@.len() as int,
        ) == old(files).entries@ && final(files).entries@.last().0 == old(files).next_index
            && final(files).entries@.last().1.path@ == zip_path_for_spec(path@) && final(files).entries@.last().1.size == output_size && final(files).entries@.last().1.is_zip == true),
{
    match msg {
        ZipMessage::Started { path, num_files } => {
            files.set_zip_num_files(path, *num_files);
        },
        ZipMessage::Progress { path } => {
            files.update_zip_compressing(path);
        },
        ZipMessage::Done { path } => {
            files.zip_compressing_done(path, output_size);
        },
    }
}

/// What the periodic refresh does about the server, given the address
/// the server is bound to and the address the machine reports now.
#[derive(Clone, Copy, Debug, PartialEq, Eq, Structural)]
pub enum RefreshAction {
    /// The address is unchanged: only tick the sessions.
    Tick,
    /// The machine's address changed: restart the server on it, and
    /// skip this tick.
    Restart,
    /// The machine reports no address: stop the server, then tick.
    StopAndTick,
}

/// Decides the refresh step from the bound and the freshly detected
/// address.
pub fn refresh_decision(current: Option<IpAddress>, fresh: Option<IpAddress>) -> (r: RefreshAction)
    ensures
        r == (match fresh {
            Some(ip) => if current == Some(ip) {
                RefreshAction::Tick
            } else {
                RefreshAction::Restart
            },
            None => RefreshAction::StopAndTick,
        }),
{
    match fresh {
        Some(ip) => {
            match current {
                Some(c) => if c == ip {
                    RefreshAction::Tick
                } else {
                    RefreshAction::Restart
                },
                None => RefreshAction::Restart,
            }
        },
        None => RefreshAction::StopAndTick,
    }
}

} // verus!
