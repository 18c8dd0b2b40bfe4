//! Archive job naming and the archive event protocol.
//!
//! An archive job turns a source directory into a zip file under the
//! temporary directory, named after the source's last path component
//! with its extension replaced by `.zip`. The compression itself is
//! I/O and runs outside; this module fixes the output naming and the
//! exact sequence of events a run emits: one `Started` carrying the
//! eagerly-enumerated file count, one `Progress` per entry, one `Done`.

use vstd::prelude::*;
use vstd::string::*;

verus! {

/// One event of an archive run, tagged with the source path.
#[derive(Debug, Clone)]
pub enum ZipMessage {
    Done { path: String },
    Started { path: String, num_files: usize },
    Progress { path: String },
}

/// A path separator: both directions are honoured, as source paths may
/// come from either convention.
pub open spec fn is_sep(c: char) -> bool {
    c == '/' || c == '\\'
}

/// The position just after the last separator of `p`; 0 when `p` has
/// no separator.
pub open spec fn file_name_start(p: Seq<char>) -> int
    decreases p.len(),
{
    if p.len() == 0 {
        0
    } else if is_sep(p.last()) {
        p.len() as int
    } else {
        file_name_start(p.drop_last())
    }
}

/// The last path component of `p`: everything after the last separator.
pub open spec fn file_name_spec(p: Seq<char>) -> Seq<char> {
    p.subrange(file_name_start(p), p.len() as int)
}

/// `file_name_start` lies within bounds, everything after it is free of
/// separators, and it sits right after a separator when positive.
pub proof fn lemma_file_name_start(p: Seq<char>)
    ensures
        0 <= file_name_start(p) <= p.len(),
        forall|k: int| file_name_start(p) <= k < p.len() ==> !is_sep(p[k]),
        file_name_start(p) > 0 ==> is_sep(p[file_name_start(p) - 1]),
    decreases p.len(),
{
    if p.len() == 0 {
    } else if is_sep(p.last()) {
    } else {
        lemma_file_name_start(p.drop_last());
        assert forall|k: int| file_name_start(p) <= k < p.len() implies !is_sep(p[k]) by {
            if k < p.len() - 1 {
                assert(!is_sep(p.drop_last()[k]));
                assert(p.drop_last()[k] == p[k]);
            } else {
                assert(p[k] == p.last());
            }
        }
    }
}

/// When every character from `i` on is a non-separator, the characters
/// beyond `i` do not move the file-name start.
proof fn lemma_file_name_start_extend(p: Seq<char>, i: int)
    requires
        0 <= i <= p.len(),
        forall|k: int| i <= k < p.len() ==> !is_sep(p[k]),
    ensures
        file_name_start(p) == file_name_start(p.take(i)),
    decreases p.len() - i,
{
    if i == p.len() {
        assert(p.take(i) =~= p);
    } else {
        assert(!is_sep(p.last()));
        assert(p.drop_last() =~= p.take(p.len() - 1));
        lemma_file_name_start_extend(p.take(p.len() - 1), i);
        assert(p.take(p.len() - 1).take(i) =~= p.take(i));
    }
}

/// A name appended after a separator is its own file name.
pub proof fn lemma_file_name_after_sep(prefix: Seq<char>, name: Seq<char>)
    requires
        prefix.len() > 0,
        is_sep(prefix.last()),
        forall|k: int| 0 <= k < name.len() ==> !is_sep(name[k]),
    ensures
        file_name_spec(prefix + name) == name,
{
    let q = prefix + name;
    lemma_file_name_start_extend(q, prefix.len() as int);
    assert(q.take(prefix.len() as int) =~= prefix);
    assert(file_name_start(prefix) == prefix.len());
    assert(q.subrange(prefix.len() as int, q.len() as int) =~= name);
}

fn file_name_start_exec(s: &str) -> (r: usize)
    ensures
        r as int == file_name_start(s@),
        r <= s@.len(),
{
    let n = s.unicode_len();
    let mut i: usize = n;
    proof {
        assert(s@.take(n as int) =~= s@);
    }
    while i > 0
        invariant
            i <= n,
            n == s@.len(),
            file_name_start(s@) == file_name_start(s@.take(i as int)),
        decreases i,
    {
        let c = s.get_char(i - 1);
        if c == '/' || c == '\\' {
            proof {
                assert(s@.take(i as int).last() == s@[i - 1]);
            }
            return i;
        }
        proof {
            assert(s@.take(i as int).last() == s@[i - 1]);
            assert(s@.take(i as int).drop_last() =~= s@.take(i - 1));
        }
        i = i - 1;
    }
    proof {
        assert(s@.take(0) =~= Seq::<char>::empty());
    }
    0
}

/// The last path component of `path`, possibly empty.
pub fn file_name_of(path: &String) -> (r: String)
    ensures
        r@ == file_name_spec(path@),
{
    let s = path.as_str();
    let start = file_name_start_exec(s);
    let n = s.unicode_len();
    String::from_str(s.substring_char(start, n))
}

/// Where the extension of a bare file name begins to be cut: the
/// position of the last `'.'` at index 1 or later, or the name's length
/// when there is no such dot (a leading dot alone marks no extension).
pub open spec fn stem_end(name: Seq<char>) -> int
    decreases name.len(),
{
    if name.len() <= 1 {
        name.len() as int
    } else if name.last() == '.' {
        (name.len() - 1) as int
    } else if stem_end(name.drop_last()) == name.len() - 1 {
        name.len() as int
    } else {
        stem_end(name.drop_last())
    }
}

pub proof fn lemma_stem_end_bounds(name: Seq<char>)
    ensures
        0 <= stem_end(name) <= name.len(),
    decreases name.len(),
{
    if name.len() <= 1 {
    } else if name.last() == '.' {
    } else {
        lemma_stem_end_bounds(name.drop_last());
    }
}

/// When every character from `i` on (with `i >= 1`) is a non-dot, the
/// characters beyond `i` only shift a missing-dot answer.
proof fn lemma_stem_end_extend(name: Seq<char>, i: int)
    requires
        1 <= i <= name.len(),
        forall|k: int| i <= k < name.len() ==> name[k] != '.',
    ensures
        stem_end(name) == if stem_end(name.take(i)) == i {
            name.len() as int
        } else {
            stem_end(name.take(i))
        },
    decreases name.len() - i,
{
    lemma_stem_end_bounds(name.take(i));
    if i == name.len() {
        assert(name.take(i) =~= name);
    } else {
        assert(name.last() != '.');
        assert(name.drop_last() =~= name.take(name.len() - 1));
        lemma_stem_end_extend(name.take(name.len() - 1), i);
        assert(name.take(name.len() - 1).take(i) =~= name.take(i));
    }
}

fn stem_end_exec(s: &str) -> (r: usize)
    ensures
        r as int == stem_end(s@),
        r <= s@.len(),
{
    let n = s.unicode_len();
    proof {
        lemma_stem_end_bounds(s@);
    }
    if n <= 1 {
        return n;
    }
    let mut i: usize = n;
    proof {
        assert(s@.take(n as int) =~= s@);
    }
    while i > 1
        invariant
            1 <= i <= n,
            n == s@.len(),
            n > 1,
            stem_end(s@) == if stem_end(s@.take(i as int)) == i as int {
                n as int
            } else {
                stem_end(s@.take(i as int))
            },
        decreases i,
    {
        let c = s.get_char(i - 1);
        proof {
            assert(s@.take(i as int).last() == s@[i - 1]);
            assert(s@.take(i as int).drop_last() =~= s@.take(i - 1));
            lemma_stem_end_bounds(s@.take(i - 1));
        }
        if c == '.' {
            return i - 1;
        }
        i = i - 1;
    }
    proof {
        assert(s@.take(1int).len() == 1);
    }
    n
}

/// The output file name of an archive of `p`: the stem of `p`'s last
/// component with `.zip` appended.
pub open spec fn zip_file_name_spec(p: Seq<char>) -> Seq<char> {
    let name = file_name_spec(p);
    name.take(stem_end(name)) + seq!['.', 'z', 'i', 'p']
}

/// The temporary directory all archive outputs are written beneath.
pub open spec fn temp_dir_spec() -> Seq<char> {
    seq!['.', '/', 't', 'e', 'm', 'p']
}

/// The full output path of an archive of `p`.
pub open spec fn zip_path_for_spec(p: Seq<char>) -> Seq<char> {
    temp_dir_spec() + seq!['/'] + zip_file_name_spec(p)
}

/// A path the archive runner accepts as a source: its last component is
/// non-empty and names a real entry, not `.` or `..`.
pub open spec fn valid_archive_source(p: Seq<char>) -> bool {
    let name = file_name_spec(p);
    name.len() > 0 && name != seq!['.'] && name != seq!['.', '.']
}

/// Decides `valid_archive_source`, so callers can test a path before
/// handing it to the functions that require it.
pub fn is_valid_archive_source(path: &String) -> (r: bool)
    ensures
        r == valid_archive_source(path@),
{
    let s = path.as_str();
    let start = file_name_start_exec(s);
    let n = s.unicode_len();
    let len = n - start;
    if len == 0 {
        proof {
            assert(file_name_spec(path@).len() == 0);
        }
        false
    } else if len == 1 && s.get_char(start) == '.' {
        proof {
            assert(file_name_spec(path@) =~= seq!['.']);
        }
        false
    } else if len == 2 && s.get_char(start) == '.' && s.get_char(start + 1) == '.' {
        proof {
            assert(file_name_spec(path@) =~= seq!['.', '.']);
        }
        false
    } else {
        proof {
            assert(file_name_spec(path@).len() == len);
            if len == 1 {
                assert(file_name_spec(path@)[0] == path@[start as int]);
                assert(file_name_spec(path@) != seq!['.']);
            }
            if len == 2 {
                assert(file_name_spec(path@)[0] == path@[start as int]);
                assert(file_name_spec(path@)[1] == path@[start + 1int]);
                assert(file_name_spec(path@) != seq!['.', '.']);
            }
            assert(file_name_spec(path@) != seq!['.'] && file_name_spec(path@) != seq![
                '.',
                '.',
            ]);
        }
        true
    }
}

/// The temporary directory, as a path string.
pub fn temp_dir() -> (r: String)
    ensures
        r@ == temp_dir_spec(),
{
    proof {
        reveal_strlit("./temp");
        assert("./temp"@ =~= temp_dir_spec());
    }
    String::from_str("./temp")
}

/// The output file name (without directory) of an archive of `path`.
pub fn zip_file_name(path: &String) -> (r: String)
    ensures
        r@ == zip_file_name_spec(path@),
{
    let s = path.as_str();
    let start = file_name_start_exec(s);
    let n = s.unicode_len();
    let name = s.substring_char(start, n);
    let cut = stem_end_exec(name);
    let mut r = String::from_str(name.substring_char(0, cut));
    r.append(".zip");
    proof {
        reveal_strlit(".zip");
        assert(".zip"@ =~= seq!['.', 'z', 'i', 'p']);
        assert(r@ =~= zip_file_name_spec(path@));
    }
    r
}

/// The full output path of an archive of `path`.
pub fn zip_path_for(path: &String) -> (r: String)
    ensures
        r@ == zip_path_for_spec(path@),
{
    let mut r = temp_dir();
    r.append("/");
    let name = zip_file_name(path);
    r.append(name.as_str());
    proof {
        reveal_strlit("/");
        assert("/"@ =~= seq!['/']);
        assert(r@ =~= zip_path_for_spec(path@));
    }
    r
}

/// The file name of an archive output is the archive's file name: the
/// directory prefix contributes nothing.
pub proof fn lemma_zip_path_file_name(p: Seq<char>)
    ensures
        file_name_spec(zip_path_for_spec(p)) == zip_file_name_spec(p),
{
    let name = file_name_spec(p);
    let zname = zip_file_name_spec(p);
    lemma_file_name_start(p);
    lemma_stem_end_bounds(name);
    assert(forall|k: int| 0 <= k < name.len() ==> !is_sep(name[k])) by {
        assert(forall|k: int|
            0 <= k < name.len() ==> name[k] == p[file_name_start(p) + k] && !is_sep(
                p[file_name_start(p) + k],
            ));
    }
    assert(forall|k: int| 0 <= k < zname.len() ==> !is_sep(zname[k])) by {
        assert(forall|k: int|
            0 <= k < stem_end(name) ==> zname[k] == name[k] && !is_sep(name[k]));
        assert(!is_sep('.') && !is_sep('z') && !is_sep('i') && !is_sep('p'));
    }
    let prefix = temp_dir_spec() + seq!['/'];
    assert(prefix.last() == '/');
    assert(zip_path_for_spec(p) =~= prefix + zname);
    lemma_file_name_after_sep(prefix, zname);
}

/// The exact events one archive run emits for a source with
/// `num_files` entries: `Started` with the eager count, `num_files`
/// `Progress` events, then `Done`, all tagged with the source path.
pub open spec fn archive_events_ok(msgs: Seq<ZipMessage>, path: Seq<char>, num_files: nat) -> bool {
    &&& msgs.len() == num_files + 2
    &&& (msgs[0] matches ZipMessage::Started { path: p0, num_files: n0 } && p0@ == path && n0
        == num_files)
    &&& (forall|i: int|
        1 <= i < msgs.len() - 1 ==> ((#[trigger] msgs[i]) matches ZipMessage::Progress {
            path: pi,
        } && pi@ == path))
    &&& (msgs[msgs.len() - 1] matches ZipMessage::Done { path: pl } && pl@ == path)
}

/// Plans the event sequence of one archive run over its eagerly
/// enumerated entry count; the runner emits the planned events in
/// order around the compression work, so a source with no entries
/// still announces itself and completes immediately.
pub fn archive_event_plan(source: &String, num_files: usize) -> (msgs: Vec<ZipMessage>)
    requires
        num_files <= usize::MAX - 2,
    ensures
        archive_events_ok(msgs@, source@, num_files as nat),
{
    let mut msgs: Vec<ZipMessage> = Vec::new();
    msgs.push(ZipMessage::Started { path: source.clone(), num_files });
    let mut i: usize = 0;
    while i < num_files
        invariant
            i <= num_files,
            msgs@.len() == i + 1,
            (msgs@[0] matches ZipMessage::Started { path: p0, num_files: n0 } && p0@ == source@
                && n0 == num_files),
            forall|j: int|
                1 <= j <= i ==> ((#[trigger] msgs@[j]) matches ZipMessage::Progress { path: pj }
                    && pj@ == source@),
        decreases num_files - i,
    {
        msgs.push(ZipMessage::Progress { path: source.clone() });
        i += 1;
    }
    msgs.push(ZipMessage::Done { path: source.clone() });
    msgs
}

} // verus!
