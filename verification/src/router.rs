//! The decisions of the HTTP layer.
//!
//! The routes themselves (sockets, headers, template rendering) run
//! outside; this module computes what they serve: the listing context
//! in display order, the download route's event and lookup outcome,
//! and the attachment header value.

use vstd::prelude::*;
use vstd::string::*;
use crate::archive::{file_name_spec, file_name_of};
use crate::events::ServerMessage;
use crate::net::IpAddress;
use crate::registry::{FileInfo, FileManager, has_index, index_pos};
use crate::render::{size_string, size_string_spec};

verus! {

/// One row of the listing page.
#[derive(Debug, Clone)]
pub struct DisplayFileInfo {
    pub name: String,
    pub index: usize,
    pub size: String,
}

/// The name a path is listed under: its last component, or a
/// placeholder when the path has none.
pub open spec fn display_name_spec(p: Seq<char>) -> Seq<char> {
    if file_name_spec(p).len() == 0 {
        seq!['U', 'n', 'k', 'n', 'o', 'w', 'n']
    } else {
        file_name_spec(p)
    }
}

/// Builds the listing rows, newest entry first, each with its display
/// name and rendered size.
pub fn prepare_listing(entries: &Vec<(usize, FileInfo)>) -> (r: Vec<DisplayFileInfo>)
    ensures
        r@.len() == entries@.len(),
        forall|j: int|
            0 <= j < r@.len() ==> {
                let e = entries@[entries@.len() - 1 - j];
                (#[trigger] r@[j]).index == e.0 && r@[j].name@ == display_name_spec(e.1.path@)
                    && r@[j].size@ == size_string_spec(e.1.size as nat)
            },
{
    let n = entries.len();
    let mut r: Vec<DisplayFileInfo> = Vec::new();
    let mut j: usize = 0;
    while j < n
        invariant
            n == entries@.len(),
            j <= n,
            r@.len() == j,
            forall|k: int|
                0 <= k < j ==> {
                    let e = entries@[n - 1 - k];
                    (#[trigger] r@[k]).index == e.0 && r@[k].name@ == display_name_spec(e.1.path@)
                        && r@[k].size@ == size_string_spec(e.1.size as nat)
                },
        decreases n - j,
    {
        let e = &entries[n - 1 - j];
        let raw = file_name_of(&e.1.path);
        let name = if raw.as_str().unicode_len() == 0 {
            proof {
                reveal_strlit("Unknown");
                assert("Unknown"@ =~= seq!['U', 'n', 'k', 'n', 'o', 'w', 'n']);
            }
            String::from_str("Unknown")
        } else {
            raw
        };
        r.push(DisplayFileInfo { name, index: e.0, size: size_string(e.1.size) });
        j += 1;
    }
    r
}

/// The outcome of a download request before any I/O happens.
#[derive(Debug)]
pub struct DownloadPlan {
    /// The request event to put on the bus, if any: only a
    /// user-initiated single-file request announces itself here.
    pub request_event: Option<ServerMessage>,
    /// The entry to stream, when the index is known.
    pub file: Option<FileInfo>,
}

/// Decides a `/download/{index}/{is_single}` request: the request
/// event fires for a single-file request whether or not the lookup
/// succeeds, and the lookup's failure means the route answers
/// not-found.
pub fn plan_download(files: &FileManager, index: usize, is_single: usize, ip: IpAddress) -> (r:
    DownloadPlan)
    requires
        files.wf(),
    ensures
        r.request_event == if is_single == 1 {
            Some(ServerMessage::DownloadRequest { index, ip })
        } else {
            None::<ServerMessage>
        },
        match r.file {
            Some(f) => has_index(files.entries@, index) && f == files.entries@[index_pos(
                files.entries@,
                index,
            )].1,
            None => !has_index(files.entries@, index),
        },
{
    let request_event = if is_single == 1 {
        Some(ServerMessage::DownloadRequest { index, ip })
    } else {
        None
    };
    DownloadPlan { request_event, file: files.get(index) }
}

/// The `Content-Disposition` value of a download response for a file
/// named `name`.
pub open spec fn content_disposition_spec(name: Seq<char>) -> Seq<char> {
    seq![
        'a', 't', 't', 'a', 'c', 'h', 'm', 'e', 'n', 't', ';', ' ', 'f', 'i', 'l', 'e', 'n', 'a',
        'm', 'e', '=', '"',
    ] + name + seq!['"']
}

/// Renders the attachment header for a file name.
pub fn content_disposition(name: &String) -> (r: String)
    ensures
        r@ == content_disposition_spec(name@),
{
    proof {
        reveal_strlit("attachment; filename=\"");
        reveal_strlit("\"");
        assert("attachment; filename=\""@ =~= seq![
            'a', 't', 't', 'a', 'c', 'h', 'm', 'e', 'n', 't', ';', ' ', 'f', 'i', 'l', 'e', 'n',
            'a', 'm', 'e', '=', '"',
        ]);
        assert("\""@ =~= seq!['"']);
    }
    let mut r = String::from_str("attachment; filename=\"");
    r.append(name.as_str());
    r.append("\"");
    assert(r@ =~= content_disposition_spec(name@));
    r
}

} // verus!
