//! The files of projects: listing and reading those of a job, and serving those of a
//! project to a browser.
//!
//! The file system says where a path really leads; what is handed out lies within the
//! directory that it was asked for in.

use vstd::prelude::*;
use vstd::slice::slice_to_vec;
use vstd::string::*;
use vstd::utf8::*;
use crate::ids::{parse_id, uuid_parse};
use crate::jobs::{job_of, project_url, store_available, SandboxJobRecord};
use crate::media::{extensionless, guess_type, guessed_type};
use crate::path::{
    components, double_dot, file_name, is_wandering, law_components_of_joined,
    law_components_of_resolved_name, law_file_name_of_joined, law_resolved_stays_inside,
    law_within_transitive, lemma_encoded_plain_name, lemma_encoded_wanders, lies_within,
    plain_name, resolve, resolved, rooted, wanders, within, PathUnit,
};
use crate::reply::{refused, require_id, Failure, StatusCode};
use crate::sort::{
    law_sorting_keeps_and_orders, lemma_counted_places, sort_stable, sorted_from, views, Ranked,
};
use crate::state::GatewayState;
use crate::text::{
    characters, joined3, law_text_order, law_text_order_is_by_bytes, lemma_encoding_concat,
    lemma_encoding_injective, stands_before, text_before,
};

verus! {

// --- Where a path leads ---

/// A path below a directory, both as they are handed to the file system.
#[derive(Debug, PartialEq, Eq)]
pub struct FileTarget {
    /// The directory that the target has to lie in.
    pub base: Vec<u8>,
    /// The path, as seen from the directory.
    pub target: Vec<u8>,
    /// The path as it was asked for.
    pub path: String,
}

impl FileTarget {
    /// Whether the target is a path as seen from a directory.
    pub open spec fn leads(self, base: Seq<u8>, path: Seq<char>) -> bool {
        &&& self.base@ == base
        &&& self.target@ == resolved(base, encode_utf8(path))
        &&& self.path@ == path
    }
}

fn target_in(base: &[u8], path: &str) -> (r: FileTarget)
    ensures
        r.leads(base@, path@),
{
    FileTarget {
        base: slice_to_vec(base),
        target: resolve(base, path.as_bytes()),
        path: path.to_owned(),
    }
}

/// What becomes of a path once the file system has said where it and its directory really
/// lead. Only what lies within the directory is handed out.
pub open spec fn guarded(
    canonical: Option<Vec<u8>>,
    base_canonical: Option<Vec<u8>>,
    missing: Seq<char>,
    base_missing: Seq<char>,
    r: Result<Vec<u8>, Failure>,
) -> bool {
    match (canonical, base_canonical) {
        (None, _) => refused(r, StatusCode::NotFound, missing),
        (Some(_), None) => refused(r, StatusCode::NotFound, base_missing),
        (Some(path), Some(base)) => if within(path@, base@) {
            r is Ok && r->Ok_0@ == path@
        } else {
            refused(r, StatusCode::Forbidden, "Forbidden"@)
        },
    }
}

fn guard(
    canonical: Option<Vec<u8>>,
    base_canonical: Option<Vec<u8>>,
    missing: &str,
    base_missing: &str,
) -> (r: Result<Vec<u8>, Failure>)
    ensures
        guarded(canonical, base_canonical, missing@, base_missing@, r),
{
    let path = match canonical {
        Some(path) => path,
        None => {
            return Err(Failure::new(StatusCode::NotFound, missing));
        },
    };
    let base = match base_canonical {
        Some(base) => base,
        None => {
            return Err(Failure::new(StatusCode::NotFound, base_missing));
        },
    };
    if lies_within(path.as_slice(), base.as_slice()) {
        Ok(path)
    } else {
        Err(Failure::new(StatusCode::Forbidden, "Forbidden"))
    }
}

/// Whatever passes the guard lies within the directory, wherever the path that was asked
/// for led; and what lies within the directory passes.
pub proof fn law_guard_keeps_inside(
    canonical: Option<Vec<u8>>,
    base_canonical: Option<Vec<u8>>,
    missing: Seq<char>,
    base_missing: Seq<char>,
    r: Result<Vec<u8>, Failure>,
)
    requires
        guarded(canonical, base_canonical, missing, base_missing, r),
    ensures
        r is Ok <==> canonical is Some && base_canonical is Some && within(
            canonical->0@,
            base_canonical->0@,
        ),
        r is Ok ==> within(r->Ok_0@, base_canonical->0@),
{
}

/// The guard hands out the path that the file system gave, and turns a request down with
/// the text for what is missing, the path before the directory, or else as forbidden.
pub proof fn law_guard_answers(
    canonical: Option<Vec<u8>>,
    base_canonical: Option<Vec<u8>>,
    missing: Seq<char>,
    base_missing: Seq<char>,
    r: Result<Vec<u8>, Failure>,
)
    requires
        guarded(canonical, base_canonical, missing, base_missing, r),
    ensures
        r is Ok ==> r->Ok_0@ == canonical->0@,
        canonical is None ==> r is Err && r->Err_0.status == StatusCode::NotFound
            && r->Err_0.message@ == missing,
        canonical is Some && base_canonical is None ==> r is Err && r->Err_0.status
            == StatusCode::NotFound && r->Err_0.message@ == base_missing,
        r is Err && canonical is Some && base_canonical is Some ==> r->Err_0.status
            == StatusCode::Forbidden && r->Err_0.message@ == "Forbidden"@,
{
}

/// A target keeps what was asked for, and leads where a path leads that is seen from the
/// directory: elsewhere where it is rooted, and behind the directory where it is not.
pub proof fn law_targets_lead_where_asked(t: FileTarget, base: Seq<u8>, path: Seq<char>)
    requires
        t.leads(base, path),
    ensures
        t.base@ == base,
        t.path@ == path,
        encode_utf8(path).len() > 0 && encode_utf8(path)[0] == 0x2f ==> t.target@ == encode_utf8(
            path,
        ),
        !(encode_utf8(path).len() > 0 && encode_utf8(path)[0] == 0x2f) && base.len() > 0
            && base.last() != 0x2f ==> t.target@ == base.push(0x2f) + encode_utf8(path),
        !(encode_utf8(path).len() > 0 && encode_utf8(path)[0] == 0x2f) && (base.len() == 0
            || base.last() == 0x2f) ==> t.target@ == base + encode_utf8(path),
{
}

// --- The files of a job ---

/// The path that a request asks for.
#[derive(Debug)]
pub struct FilePathQuery {
    pub path: Option<String>,
}

/// What becomes of a request for files of a job.
pub open spec fn files_requested(store: bool, id: Option<u128>, r: Result<u128, Failure>) -> bool {
    if !store {
        refused(r, StatusCode::ServiceUnavailable, "Database not available"@)
    } else {
        match id {
            None => refused(r, StatusCode::BadRequest, "Invalid job ID"@),
            Some(id) => r is Ok && r->Ok_0 == id,
        }
    }
}

/// Takes a request for files of a job, whose identifier was read.
pub fn files_request(state: &GatewayState, id: Option<u128>) -> (r: Result<u128, Failure>)
    ensures
        files_requested(state.store, id, r),
{
    match store_available(state) {
        Err(f) => Err(f),
        Ok(_) => require_id(id, "Invalid job ID"),
    }
}

/// Takes a request to list files of a job: the job to look up.
pub fn job_files_list_handler(state: &GatewayState, id: &str) -> (r: Result<u128, Failure>)
    ensures
        files_requested(state.store, uuid_parse(id@), r),
{
    files_request(state, parse_id(id))
}

/// The path that is listed; the project directory itself where none is given.
pub open spec fn listed_path(query: FilePathQuery) -> Seq<char> {
    match query.path {
        Some(path) => path@,
        None => ""@,
    }
}

/// The directory to list once the job was looked up.
pub fn list_target(
    found: Result<Option<SandboxJobRecord>, String>,
    query: &FilePathQuery,
) -> (r: Result<FileTarget, Failure>)
    ensures
        match found {
            Err(e) => refused(r, StatusCode::InternalServerError, e@),
            Ok(None) => refused(r, StatusCode::NotFound, "Job not found"@),
            Ok(Some(job)) => r is Ok && r->Ok_0.leads(
                encode_utf8(job.project_dir@),
                listed_path(*query),
            ),
        },
{
    match job_of(found) {
        Err(f) => Err(f),
        Ok(job) => {
            let path = match &query.path {
                Some(path) => path.as_str(),
                None => "",
            };
            Ok(target_in(job.project_dir.as_str().as_bytes(), path))
        },
    }
}

/// The directory that is read, once the file system has said where it is.
pub fn list_guard(canonical: Option<Vec<u8>>, base_canonical: Option<Vec<u8>>) -> (r: Result<
    Vec<u8>,
    Failure,
>)
    ensures
        guarded(canonical, base_canonical, "Path not found"@, "Project dir not found"@, r),
{
    guard(canonical, base_canonical, "Path not found", "Project dir not found")
}

/// What the file system says of an entry of a directory.
#[derive(Debug)]
pub struct DirEntry {
    pub name: String,
    /// Whether the entry is a directory, if that could be found out.
    pub is_dir: Option<bool>,
}

/// An entry of a directory.
#[derive(Debug, PartialEq, Eq)]
pub struct ProjectFileEntry {
    pub name: String,
    pub path: String,
    pub is_dir: bool,
}

/// The view of an entry of a directory.
pub struct ProjectFileView {
    pub name: Seq<char>,
    pub path: Seq<char>,
    pub is_dir: bool,
}

impl View for ProjectFileEntry {
    type V = ProjectFileView;

    open spec fn view(&self) -> ProjectFileView {
        ProjectFileView { name: self.name@, path: self.path@, is_dir: self.is_dir }
    }
}

impl Ranked for ProjectFileEntry {
    open spec fn precedes(a: ProjectFileView, b: ProjectFileView) -> bool {
        if a.is_dir == b.is_dir {
            text_before(a.name, b.name)
        } else {
            a.is_dir
        }
    }

    proof fn lemma_asymmetric(a: ProjectFileView, b: ProjectFileView) {
        law_text_order(a.name, b.name, a.name);
    }

    proof fn lemma_transitive(a: ProjectFileView, b: ProjectFileView, c: ProjectFileView) {
        law_text_order(a.name, b.name, c.name);
        law_text_order(c.name, b.name, a.name);
        law_text_order(a.name, c.name, b.name);
        law_text_order(b.name, c.name, a.name);
        law_text_order(c.name, a.name, b.name);
    }

    fn comes_before(&self, other: &Self) -> (r: bool) {
        if self.is_dir == other.is_dir {
            stands_before(self.name.as_str(), other.name.as_str())
        } else {
            self.is_dir
        }
    }
}

/// How many entries could be read before the first failure.
pub open spec fn readable(entries: Seq<Result<DirEntry, String>>) -> nat
    decreases entries.len(),
{
    if entries.len() == 0 || entries[0] is Err {
        0
    } else {
        1 + readable(entries.skip(1))
    }
}

/// What is told of an entry in the directory `path`. Where nobody knows whether it is a
/// directory, it counts as none.
pub open spec fn entry_told(path: Seq<char>, entry: DirEntry) -> ProjectFileView {
    ProjectFileView {
        name: entry.name@,
        path: if path.len() == 0 {
            entry.name@
        } else {
            path + "/"@ + entry.name@
        },
        is_dir: entry.is_dir == Some(true),
    }
}

/// What is told of the entries that were read before the first failure, one for one.
pub open spec fn entries_told(path: Seq<char>, entries: Seq<Result<DirEntry, String>>) -> Seq<
    ProjectFileView,
> {
    Seq::new(readable(entries), |i: int| entry_told(path, entries[i]->Ok_0))
}

proof fn lemma_readable(entries: Seq<Result<DirEntry, String>>, n: int)
    requires
        0 <= n <= entries.len(),
        forall|i: int| 0 <= i < n ==> (#[trigger] entries[i]) is Ok,
        n == entries.len() || entries[n] is Err,
    ensures
        readable(entries) == n,
    decreases n,
{
    if n > 0 {
        assert(entries[0] is Ok);
        let rest = entries.skip(1);
        assert forall|i: int| 0 <= i < n - 1 implies (#[trigger] rest[i]) is Ok by {
            assert(rest[i] == entries[i + 1]);
        }
        lemma_readable(rest, n - 1);
    }
}

/// The entries of a directory of a project.
#[derive(Debug, PartialEq, Eq)]
pub struct ProjectFilesResponse {
    pub entries: Vec<ProjectFileEntry>,
}

/// Answers with the entries of the directory `path`: directories first, and by name among
/// themselves. Reading ends with the first entry that cannot be read.
pub fn files_listed(path: &str, read: Option<Vec<Result<DirEntry, String>>>) -> (r: Result<
    ProjectFilesResponse,
    Failure,
>)
    ensures
        match read {
            None => refused(r, StatusCode::NotFound, "Cannot read directory"@),
            Some(entries) => r is Ok && sorted_from::<ProjectFileEntry>(
                entries_told(path@, entries@),
                views(r->Ok_0.entries@),
            ),
        },
{
    let found = match read {
        Some(found) => found,
        None => {
            return Err(Failure::new(StatusCode::NotFound, "Cannot read directory"));
        },
    };
    let mut entries: Vec<ProjectFileEntry> = Vec::new();
    let mut n: usize = 0;
    while n < found.len() && found[n].is_ok()
        invariant
            n <= found@.len(),
            forall|i: int| 0 <= i < n ==> (#[trigger] found@[i]) is Ok,
            views(entries@) == Seq::new(n as nat, |i: int| entry_told(path@, found@[i]->Ok_0)),
        decreases found.len() - n,
    {
        if let Ok(entry) = &found[n] {
            let ghost before = views(entries@);
            let full = if path.is_empty() {
                entry.name.clone()
            } else {
                joined3(path, "/", entry.name.as_str())
            };
            let is_dir = match entry.is_dir {
                Some(is_dir) => is_dir,
                None => false,
            };
            let told = ProjectFileEntry { name: entry.name.clone(), path: full, is_dir };
            assert(told@ == entry_told(path@, *entry));
            entries.push(told);
            assert(views(entries@) =~= before.push(told@));
        }
        n = n + 1;
    }
    proof {
        lemma_readable(found@, n as int);
        assert(views(entries@) =~= entries_told(path@, found@));
    }
    Ok(ProjectFilesResponse { entries: sort_stable(entries) })
}

/// Of the entries of a directory those count that come before the first one that could not
/// be read.
pub proof fn law_reading_ends_with_a_failure(entries: Seq<Result<DirEntry, String>>)
    ensures
        readable(entries) <= entries.len(),
        forall|k: int| 0 <= k < readable(entries) ==> (#[trigger] entries[k]) is Ok,
        readable(entries) < entries.len() ==> entries[readable(entries) as int] is Err,
    decreases entries.len(),
{
    if entries.len() > 0 && entries[0] is Ok {
        let rest = entries.skip(1);
        law_reading_ends_with_a_failure(rest);
        assert forall|k: int| 0 <= k < readable(entries) implies (#[trigger] entries[k]) is Ok by {
            if k > 0 {
                assert(rest[k - 1] == entries[k]);
            }
        }
        if readable(entries) < entries.len() {
            assert(rest[readable(rest) as int] == entries[readable(entries) as int]);
        }
    }
}

/// What is listed is what the file system said. Every entry that was read before the first
/// failure is told under its name, under the path that is listed with its name behind a
/// slash, and as a directory exactly where the file system said that it is one, whatever
/// path is listed; and nothing else is told.
pub proof fn law_listing_tells_what_was_read(
    path: Seq<char>,
    read: Seq<Result<DirEntry, String>>,
    told: Seq<ProjectFileEntry>,
)
    requires
        sorted_from::<ProjectFileEntry>(entries_told(path, read), views(told)),
    ensures
        told.len() <= read.len(),
        told.len() < read.len() ==> read[told.len() as int] is Err,
        forall|k: int|
            0 <= k < told.len() ==> (#[trigger] read[k]) is Ok && exists|i: int|
                0 <= i < told.len() && (#[trigger] told[i]).name@ == read[k]->Ok_0.name@ && (
                told[i].is_dir <==> read[k]->Ok_0.is_dir == Some(true)) && told[i].path@ == (
                if path.len() == 0 {
                    read[k]->Ok_0.name@
                } else {
                    path.push('/') + read[k]->Ok_0.name@
                }),
        forall|i: int|
            0 <= i < told.len() ==> exists|k: int|
                0 <= k < told.len() && (#[trigger] read[k]) is Ok && (#[trigger] told[i]).name@
                    == read[k]->Ok_0.name@ && (told[i].is_dir <==> read[k]->Ok_0.is_dir == Some(
                    true,
                )),
{
    let v = views(told);
    let all = entries_told(path, read);
    law_reading_ends_with_a_failure(read);
    if all.len() > 0 {
        law_sorting_keeps_and_orders::<ProjectFileEntry>(all, v, all[0]);
    } else {
        law_sorting_keeps_and_orders::<ProjectFileEntry>(
            all,
            v,
            entry_told(path, read[0]->Ok_0),
        );
    }
    reveal_strlit("/");
    assert forall|k: int| 0 <= k < told.len() implies (#[trigger] read[k]) is Ok && exists|i: int|
        0 <= i < told.len() && (#[trigger] told[i]).name@ == read[k]->Ok_0.name@ && (told[i].is_dir
            <==> read[k]->Ok_0.is_dir == Some(true)) && told[i].path@ == (if path.len() == 0 {
            read[k]->Ok_0.name@
        } else {
            path.push('/') + read[k]->Ok_0.name@
        }) by {
        let x = all[k];
        lemma_counted_places(all, x);
        lemma_counted_places(v, x);
        let i = choose|i: int| 0 <= i < v.len() && #[trigger] v[i] == x;
        assert(v[i] == told[i]@);
        assert(path + "/"@ =~= path.push('/'));
        assert(told[i].name@ == read[k]->Ok_0.name@);
    }
    assert forall|i: int| 0 <= i < told.len() implies exists|k: int|
        0 <= k < told.len() && (#[trigger] read[k]) is Ok && (#[trigger] told[i]).name@
            == read[k]->Ok_0.name@ && (told[i].is_dir <==> read[k]->Ok_0.is_dir == Some(
            true,
        )) by {
        let x = v[i];
        assert(x == told[i]@);
        lemma_counted_places(all, x);
        lemma_counted_places(v, x);
        let k = choose|k: int| 0 <= k < all.len() && #[trigger] all[k] == x;
        assert(read[k] is Ok && told[i].name@ == read[k]->Ok_0.name@);
    }
}

/// In a listing no directory stands behind a file, and among themselves directories, and
/// files, stand by the UTF-8 bytes of their names.
pub proof fn law_listing_has_directories_first(
    path: Seq<char>,
    read: Seq<Result<DirEntry, String>>,
    told: Seq<ProjectFileEntry>,
    i: int,
    j: int,
)
    requires
        sorted_from::<ProjectFileEntry>(entries_told(path, read), views(told)),
        0 <= i < j < told.len(),
    ensures
        told[j].is_dir ==> told[i].is_dir,
        told[i].is_dir == told[j].is_dir ==> told[i].name@ == told[j].name@ || exists|k: int|
            0 <= k <= encode_utf8(told[i].name@).len() && k < encode_utf8(told[j].name@).len()
                && #[trigger] encode_utf8(told[i].name@).take(k) == encode_utf8(
                told[j].name@,
            ).take(k) && (k == encode_utf8(told[i].name@).len() || encode_utf8(told[i].name@)[k]
                < encode_utf8(told[j].name@)[k]),
{
    let v = views(told);
    assert(v[i] == told[i]@ && v[j] == told[j]@);
    assert(!ProjectFileEntry::precedes(v[j], v[i]));
    law_text_order(told[i].name@, told[j].name@, told[i].name@);
    law_text_order_is_by_bytes(told[i].name@, told[j].name@);
}

/// Takes a request to read a file of a job: the job to look up.
pub fn job_files_read_handler(state: &GatewayState, id: &str) -> (r: Result<u128, Failure>)
    ensures
        files_requested(state.store, uuid_parse(id@), r),
{
    files_request(state, parse_id(id))
}

/// The file to read once the job was looked up.
pub fn read_target(
    found: Result<Option<SandboxJobRecord>, String>,
    query: &FilePathQuery,
) -> (r: Result<FileTarget, Failure>)
    ensures
        match (found, query.path) {
            (Err(e), _) => refused(r, StatusCode::InternalServerError, e@),
            (Ok(None), _) => refused(r, StatusCode::NotFound, "Job not found"@),
            (Ok(Some(_)), None) => refused(
                r,
                StatusCode::BadRequest,
                "path parameter required"@,
            ),
            (Ok(Some(job)), Some(path)) => r is Ok && r->Ok_0.leads(
                encode_utf8(job.project_dir@),
                path@,
            ),
        },
{
    match job_of(found) {
        Err(f) => Err(f),
        Ok(job) => match &query.path {
            None => Err(Failure::new(StatusCode::BadRequest, "path parameter required")),
            Some(path) => Ok(target_in(job.project_dir.as_str().as_bytes(), path.as_str())),
        },
    }
}

/// The file that is read, once the file system has said where it is.
pub fn read_guard(canonical: Option<Vec<u8>>, base_canonical: Option<Vec<u8>>) -> (r: Result<
    Vec<u8>,
    Failure,
>)
    ensures
        guarded(canonical, base_canonical, "File not found"@, "Project dir not found"@, r),
{
    guard(canonical, base_canonical, "File not found", "Project dir not found")
}

/// A file of a project, as a text.
#[derive(Debug, PartialEq, Eq)]
pub struct ProjectFileReadResponse {
    pub path: String,
    pub content: String,
}

/// What is answered once a file was read, or could not be.
pub open spec fn file_told(
    path: Seq<char>,
    content: Option<String>,
    r: Result<ProjectFileReadResponse, Failure>,
) -> bool {
    match content {
        None => refused(r, StatusCode::NotFound, "Cannot read file"@),
        Some(content) => r is Ok && r->Ok_0.path@ == path && r->Ok_0.content@ == content@,
    }
}

/// Answers with a file, under the path that was asked for.
pub fn file_read(path: String, content: Option<String>) -> (r: Result<
    ProjectFileReadResponse,
    Failure,
>)
    ensures
        file_told(path@, content, r),
{
    match content {
        Some(content) => Ok(ProjectFileReadResponse { path, content }),
        None => Err(Failure::new(StatusCode::NotFound, "Cannot read file")),
    }
}

/// What a listing tells of an entry leads back to it: the path of the entry, asked for as a
/// file to read, has the components of the directory that was listed, and the name of the
/// entry behind them.
pub proof fn law_listed_paths_lead_back(
    base: Seq<u8>,
    path: Seq<char>,
    entry: DirEntry,
    listed: FileTarget,
    read: FileTarget,
)
    requires
        plain_name(entry.name@),
        listed.leads(base, path),
        read.leads(base, entry_told(path, entry).path),
    ensures
        components(read.target@) == components(listed.target@).push(encode_utf8(entry.name@)),
        within(read.target@, listed.target@),
{
    let name = encode_utf8(entry.name@);
    let rel = encode_utf8(path);
    let dir = listed.target@;
    lemma_encoded_plain_name(entry.name@);
    assert(!name[0].separates());
    if path.len() == 0 {
        assert(path =~= Seq::<char>::empty());
        assert(rel =~= Seq::<u8>::empty());
        law_components_of_resolved_name(dir, name);
        if base.len() == 0 || base.last().separates() {
            assert(dir =~= base);
        } else {
            assert(dir =~= base.push(47u8));
        }
        assert(read.target@ =~= resolved(dir, name));
    } else {
        reveal_strlit("/");
        is_ascii_chars_encode_utf8("/"@);
        assert("/"@ =~= seq!['/']);
        assert(encode_utf8("/"@)[0] == "/"@[0] as u8);
        assert(encode_utf8("/"@) =~= seq![47u8]);
        lemma_encoding_concat(path, "/"@);
        lemma_encoding_concat(path + "/"@, entry.name@);
        if rel.len() == 0 {
            assert(rel =~= encode_utf8(Seq::<char>::empty()));
            lemma_encoding_injective(path, Seq::<char>::empty());
        }
        let full = encode_utf8(entry_told(path, entry).path);
        assert(full =~= rel.push(47u8) + name);
        assert(rooted(full) == rooted(rel)) by {
            assert(full[0] == rel[0]);
        }
        assert(dir.len() > 0);
        assert(read.target@ =~= dir.push(47u8) + name);
        law_components_of_joined(dir, 47u8, name);
        let c = components(dir);
        assert(c =~= c.push(name).subrange(0, c.len() as int));
    }
}

/// A file that was listed can be read under the path that it was listed with: where the
/// listing passed the guard and the file has its name in the directory that was listed, it
/// passes the guard as well, and what is in it is answered under that path.
pub proof fn law_listed_files_are_read(
    path: Seq<char>,
    entry: DirEntry,
    base: Vec<u8>,
    dir: Vec<u8>,
    file: Vec<u8>,
    content: String,
    listing: Result<Vec<u8>, Failure>,
    reading: Result<Vec<u8>, Failure>,
    r: Result<ProjectFileReadResponse, Failure>,
)
    requires
        plain_name(entry.name@),
        guarded(Some(dir), Some(base), "Path not found"@, "Project dir not found"@, listing),
        listing is Ok,
        file@ == resolved(dir@, encode_utf8(entry.name@)),
        guarded(Some(file), Some(base), "File not found"@, "Project dir not found"@, reading),
        file_told(entry_told(path, entry).path, Some(content), r),
    ensures
        reading is Ok,
        reading->Ok_0@ == file@,
        r is Ok,
        r->Ok_0.path@ == entry_told(path, entry).path,
        r->Ok_0.content@ == content@,
{
    lemma_encoded_plain_name(entry.name@);
    law_components_of_resolved_name(dir@, encode_utf8(entry.name@));
    law_within_transitive(file@, dir@, base@);
}

// --- Projects in the browser ---

/// A redirect: the HTTP status and the location.
#[derive(Debug, PartialEq, Eq)]
pub struct Redirect {
    pub status: u16,
    pub location: String,
}

/// `axum::response::Redirect::permanent`, its status and its location: 308, and the text it
/// was given.
#[verifier::external_body]
fn permanent_redirect(location: &str) -> (r: (u16, String))
    ensures
        r.0 == 308,
        r.1@ == location@,
{
    let redirect = axum::response::Redirect::permanent(location);
    (redirect.status_code().as_u16(), redirect.location().to_string())
}

/// Redirect `/projects/{id}` to `/projects/{id}/` so relative paths in the served HTML
/// resolve within the project namespace.
pub fn project_redirect_handler(project_id: &str) -> (r: Redirect)
    ensures
        r.status == 308,
        r.location@ == project_url(project_id@),
{
    let url = joined3("/projects/", project_id, "/");
    let (status, location) = permanent_redirect(url.as_str());
    Redirect { status, location }
}

/// A redirect leads to the path that was asked for with a slash behind it, so that what is
/// relative to it lies below the project.
pub proof fn law_redirect_adds_a_slash(project_id: Seq<char>)
    ensures
        project_url(project_id) == ("/projects/"@ + project_id).push('/'),
{
    reveal_strlit("/");
    assert(project_url(project_id) =~= ("/projects/"@ + project_id).push('/'));
}

/// `dirs::home_dir`: the home directory of the user, if the system knows one. It depends on
/// the environment of the process, so nothing is said of it.
#[verifier::external_body]
fn home_directory() -> (r: Option<Vec<u8>>) {
    dirs::home_dir().map(|home| home.into_os_string().into_encoded_bytes())
}

/// The directory of all projects: `.ironclaw/projects` as seen from the home directory, or
/// from the current one where there is no home directory.
pub open spec fn projects_root(home: Option<Seq<u8>>) -> Seq<u8> {
    let start = match home {
        Some(home) => home,
        None => encode_utf8("."@),
    };
    resolved(resolved(start, encode_utf8(".ironclaw"@)), encode_utf8("projects"@))
}

/// The directory of a project: what its identifier names in the directory of all projects.
pub open spec fn project_root(home: Option<Seq<u8>>, project_id: Seq<char>) -> Seq<u8> {
    resolved(projects_root(home), encode_utf8(project_id))
}

/// The bytes of a path that may be missing.
pub open spec fn optional_bytes(path: Option<Vec<u8>>) -> Option<Seq<u8>> {
    match path {
        Some(path) => Some(path@),
        None => None,
    }
}

/// A file of a project, as it is handed to the file system.
#[derive(Debug, PartialEq, Eq)]
pub struct ProjectTarget {
    /// The file, below the directory of the project.
    pub target: FileTarget,
    /// The directory of all projects.
    pub projects: Vec<u8>,
    /// Whether only the file system can say if the project lies in that directory.
    pub wanders: bool,
}

impl ProjectTarget {
    /// Whether this is a file of a project, for a user with this home directory.
    pub open spec fn leads(
        self,
        home: Option<Seq<u8>>,
        project_id: Seq<char>,
        path: Seq<char>,
    ) -> bool {
        &&& self.target.leads(project_root(home, project_id), path)
        &&& self.projects@ == projects_root(home)
        &&& self.wanders == wanders(project_id)
    }
}

/// A file of a project, for a user with this home directory.
pub fn project_target(home: Option<Vec<u8>>, project_id: &str, path: &str) -> (r: ProjectTarget)
    ensures
        r.leads(optional_bytes(home), project_id@, path@),
{
    let start = match home {
        Some(home) => home,
        None => slice_to_vec(".".as_bytes()),
    };
    let data = resolve(start.as_slice(), ".ironclaw".as_bytes());
    let projects = resolve(data.as_slice(), "projects".as_bytes());
    let root = resolve(projects.as_slice(), project_id.as_bytes());
    ProjectTarget {
        target: target_in(root.as_slice(), path),
        projects,
        wanders: is_wandering(characters(project_id).as_slice()),
    }
}

/// Resolves the file inside `~/.ironclaw/projects/{project_id}/`.
pub fn serve_project_file(project_id: &str, path: &str) -> (r: ProjectTarget)
    ensures
        exists|home: Option<Seq<u8>>| #[trigger] r.leads(home, project_id@, path@),
{
    let home = home_directory();
    let ghost h = optional_bytes(home);
    let r = project_target(home, project_id, path);
    assert(r.leads(h, project_id@, path@));
    r
}

/// Serve `index.html` when hitting `/projects/{project_id}/`.
pub fn project_index_handler(project_id: &str) -> (r: ProjectTarget)
    ensures
        exists|home: Option<Seq<u8>>| #[trigger] r.leads(home, project_id@, "index.html"@),
{
    serve_project_file(project_id, "index.html")
}

/// Serve any file under `/projects/{project_id}/{path}`.
pub fn project_file_handler(project_id: &str, path: &str) -> (r: ProjectTarget)
    ensures
        exists|home: Option<Seq<u8>>| #[trigger] r.leads(home, project_id@, path@),
{
    serve_project_file(project_id, path)
}

/// What becomes of a file of a project once the file system has said where it, the project
/// and the directory of all projects really are. What does not lie within the project is
/// not served, nor is a project that wandered out of the directory of all projects.
pub open spec fn serving_guarded(
    canonical: Option<Vec<u8>>,
    base_canonical: Option<Vec<u8>>,
    projects_canonical: Option<Vec<u8>>,
    wanders: bool,
    r: Result<Vec<u8>, Failure>,
) -> bool {
    match (canonical, base_canonical) {
        (Some(path), Some(base)) => if within(path@, base@) && (wanders ==> projects_canonical
            is Some
            && within(base@, projects_canonical->0@)) {
            r is Ok && r->Ok_0@ == path@
        } else {
            refused(r, StatusCode::Forbidden, "Forbidden"@)
        },
        _ => refused(r, StatusCode::NotFound, "Not found"@),
    }
}

/// The file that is served, once the file system has said where it is.
pub fn serve_guard(
    canonical: Option<Vec<u8>>,
    base_canonical: Option<Vec<u8>>,
    projects_canonical: Option<Vec<u8>>,
    wanders: bool,
) -> (r: Result<Vec<u8>, Failure>)
    ensures
        serving_guarded(canonical, base_canonical, projects_canonical, wanders, r),
{
    let inside: bool = match (&base_canonical, &projects_canonical) {
        (Some(base), Some(projects)) => lies_within(base.as_slice(), projects.as_slice()),
        _ => false,
    };
    let missing = canonical.is_none() || base_canonical.is_none();
    let r = guard(canonical, base_canonical, "Not found", "Not found");
    if missing || !wanders || inside {
        r
    } else {
        Err(Failure::new(StatusCode::Forbidden, "Forbidden"))
    }
}

/// A file as it is served.
#[derive(Debug, PartialEq, Eq)]
pub struct ServedFile {
    pub content_type: String,
    pub contents: Vec<u8>,
}

/// Answers with a file that was read, under a media type.
pub fn served_as(content_type: String, read: Option<Vec<u8>>) -> (r: Result<ServedFile, Failure>)
    ensures
        match read {
            None => refused(r, StatusCode::NotFound, "Not found"@),
            Some(contents) => {
                &&& r is Ok
                &&& r->Ok_0.content_type@ == content_type@
                &&& r->Ok_0.contents@ == contents@
            },
        },
{
    match read {
        Some(contents) => Ok(ServedFile { content_type, contents }),
        None => Err(Failure::new(StatusCode::NotFound, "Not found")),
    }
}

/// Answers with a file that was read, under the media type that its path suggests.
pub fn file_served(path: &str, read: Option<Vec<u8>>) -> (r: Result<ServedFile, Failure>)
    ensures
        match read {
            None => refused(r, StatusCode::NotFound, "Not found"@),
            Some(contents) => {
                &&& r is Ok
                &&& r->Ok_0.content_type@ == guessed_type(path@)
                &&& extensionless(path@) ==> r->Ok_0.content_type@ == "application/octet-stream"@
                &&& r->Ok_0.contents@ == contents@
            },
        },
{
    served_as(guess_type(path), read)
}

proof fn lemma_projects_root(home: Option<Seq<u8>>)
    ensures
        projects_root(home).len() > 0,
        !projects_root(home).last().separates(),
{
    reveal_strlit("projects");
    is_ascii_chars_encode_utf8("projects"@);
    let last = encode_utf8("projects"@);
    assert(last.len() == 8 && last[0] == 112 && last[7] == 115);
    assert(projects_root(home).last() == last[7]);
}

/// A project whose identifier does not wander lies in the directory of all projects: its
/// directory lies within that one, and no step behind it goes back up.
pub proof fn law_projects_stay_inside(home: Option<Seq<u8>>, project_id: Seq<char>)
    requires
        !wanders(project_id),
    ensures
        within(project_root(home, project_id), projects_root(home)),
        forall|i: int|
            components(projects_root(home)).len() <= i < components(
                project_root(home, project_id),
            ).len() ==> !double_dot(#[trigger] components(project_root(home, project_id))[i]),
{
    lemma_projects_root(home);
    lemma_encoded_wanders(project_id);
    law_resolved_stays_inside(projects_root(home), encode_utf8(project_id));
}

/// Whatever is served lies within its project, and where the identifier of the project
/// wanders, within the directory of all projects.
pub proof fn law_served_files_lie_inside(
    canonical: Option<Vec<u8>>,
    base_canonical: Option<Vec<u8>>,
    projects_canonical: Option<Vec<u8>>,
    wanders: bool,
    r: Result<Vec<u8>, Failure>,
)
    requires
        serving_guarded(canonical, base_canonical, projects_canonical, wanders, r),
    ensures
        r is Ok ==> base_canonical is Some && within(r->Ok_0@, base_canonical->0@),
        r is Ok && wanders ==> projects_canonical is Some && within(
            r->Ok_0@,
            projects_canonical->0@,
        ),
        canonical is Some && base_canonical is Some && !wanders ==> (r is Ok <==> within(
            canonical->0@,
            base_canonical->0@,
        )),
        refused(r, StatusCode::NotFound, "Not found"@) <==> canonical is None || base_canonical
            is None,
{
    if r is Ok && wanders {
        law_within_transitive(r->Ok_0@, base_canonical->0@, projects_canonical->0@);
    }
}

/// The directory of a project has the name of the project, so that a job that runs there is
/// browsed under that name.
pub proof fn law_project_root_has_its_name(home: Option<Seq<u8>>, project_id: Seq<char>)
    requires
        plain_name(project_id),
    ensures
        file_name(project_root(home, project_id)) == Some(encode_utf8(project_id)),
{
    let projects = projects_root(home);
    let name = encode_utf8(project_id);
    lemma_encoded_plain_name(project_id);
    lemma_projects_root(home);
    assert(!name[0].separates());
    assert(project_root(home, project_id) =~= projects.push(47u8) + name);
    law_file_name_of_joined(projects, 47u8, name);
}

/// A request for files of a job is taken exactly where there is a database and the
/// identifier is one, and for the job with that identifier.
pub proof fn law_file_requests(store: bool, id: Option<u128>, r: Result<u128, Failure>)
    requires
        files_requested(store, id, r),
    ensures
        r is Ok <==> store && id is Some,
        r is Ok ==> Some(r->Ok_0) == id,
        r is Err ==> r->Err_0.status == (if store {
            StatusCode::BadRequest
        } else {
            StatusCode::ServiceUnavailable
        }) && r->Err_0.message@ == (if store {
            "Invalid job ID"@
        } else {
            "Database not available"@
        }),
{
}

/// What is listed is what the query names, and the project directory where it names
/// nothing.
pub proof fn law_listings_start_where_asked(query: FilePathQuery)
    ensures
        query.path is Some ==> listed_path(query) == query.path->0@,
        query.path is None ==> listed_path(query).len() == 0,
{
    reveal_strlit("");
}

/// A file that was read is answered as it is, under the path that was asked for, and one
/// that was not read is not found.
pub proof fn law_files_are_told_as_they_are(
    path: Seq<char>,
    content: Option<String>,
    r: Result<ProjectFileReadResponse, Failure>,
)
    requires
        file_told(path, content, r),
    ensures
        r is Ok <==> content is Some,
        r is Ok ==> r->Ok_0.content@ == content->0@ && r->Ok_0.path@ == path,
        r is Err ==> r->Err_0.status == StatusCode::NotFound && r->Err_0.message@
            == "Cannot read file"@,
{
}

proof fn lemma_project_steps()
    ensures
        encode_utf8(".ironclaw"@).len() > 0,
        !encode_utf8(".ironclaw"@)[0].separates(),
        !encode_utf8(".ironclaw"@).last().separates(),
        encode_utf8("projects"@).len() > 0,
        !encode_utf8("projects"@)[0].separates(),
        encode_utf8("."@).len() > 0,
        !encode_utf8("."@).last().separates(),
        encode_utf8("/"@) == seq![0x2fu8],
{
    reveal_strlit(".ironclaw");
    reveal_strlit("projects");
    reveal_strlit(".");
    reveal_strlit("/");
    is_ascii_chars_encode_utf8(".ironclaw"@);
    is_ascii_chars_encode_utf8("projects"@);
    is_ascii_chars_encode_utf8("."@);
    is_ascii_chars_encode_utf8("/"@);
    let data = encode_utf8(".ironclaw"@);
    assert(data.len() == 9 && data[0] == ".ironclaw"@[0] as u8 && data[8] == ".ironclaw"@[8] as u8);
    let last = encode_utf8("projects"@);
    assert(last.len() == 8 && last[0] == "projects"@[0] as u8);
    let here = encode_utf8("."@);
    assert(here.len() == 1 && here[0] == "."@[0] as u8);
    assert(encode_utf8("/"@)[0] == "/"@[0] as u8);
    assert(encode_utf8("/"@) =~= seq![0x2fu8]);
}

/// Projects lie under the home directory, in `.ironclaw/projects`, and under the current
/// directory where there is no home directory; each lies there under its identifier.
pub proof fn law_projects_lie_under_home(home: Seq<u8>, project_id: Seq<char>)
    requires
        home.len() > 0,
        home.last() != 0x2f,
        !(encode_utf8(project_id).len() > 0 && encode_utf8(project_id)[0] == 0x2f),
    ensures
        projects_root(Some(home)) == home + encode_utf8("/.ironclaw/projects"@),
        projects_root(None) == encode_utf8("./.ironclaw/projects"@),
        project_root(Some(home), project_id) == projects_root(Some(home)).push(0x2f) + encode_utf8(
            project_id,
        ),
        project_root(None, project_id) == projects_root(None).push(0x2f) + encode_utf8(project_id),
{
    lemma_project_steps();
    lemma_projects_root(Some(home));
    lemma_projects_root(None);
    let s = "/"@;
    let data = ".ironclaw"@;
    let last = "projects"@;
    assert("/.ironclaw/projects"@ =~= s + data + s + last && "./.ironclaw/projects"@ =~= "."@ + (s
        + data + s + last)) by {
        reveal_strlit(".ironclaw");
        reveal_strlit("projects");
        reveal_strlit(".");
        reveal_strlit("/");
        reveal_strlit("/.ironclaw/projects");
        reveal_strlit("./.ironclaw/projects");
    }
    lemma_encoding_concat(s, data);
    lemma_encoding_concat(s + data, s);
    lemma_encoding_concat(s + data + s, last);
    lemma_encoding_concat("."@, s + data + s + last);
    let d = encode_utf8(data);
    let l = encode_utf8(last);
    let slash = seq![0x2fu8];
    assert(encode_utf8("/.ironclaw/projects"@) == slash + d + slash + l);
    assert forall|start: Seq<u8>|
        start.len() > 0 && !start.last().separates() implies #[trigger] resolved(
        resolved(start, d),
        l,
    ) == start + (slash + d + slash + l) by {
        let first = start.push(0x2f) + d;
        assert(resolved(start, d) == first);
        assert(first.last() == d.last());
        assert(first.push(0x2f) + l =~= start + (slash + d + slash + l));
    }
    assert(projects_root(Some(home)) == resolved(resolved(home, d), l));
    assert(projects_root(None) == resolved(resolved(encode_utf8("."@), d), l));
}

/// A file of a project is sought in the directory of the project, and the file system is
/// asked about the directory of all projects exactly where the identifier has a slash in
/// front or two dots among its segments.
pub proof fn law_project_files_are_sought_in_the_project(
    t: ProjectTarget,
    home: Option<Seq<u8>>,
    project_id: Seq<char>,
    path: Seq<char>,
)
    requires
        t.leads(home, project_id, path),
    ensures
        t.target.base@ == project_root(home, project_id),
        t.target.path@ == path,
        t.target.target@ == resolved(t.target.base@, encode_utf8(path)),
        t.projects@ == projects_root(home),
        t.wanders <==> wanders(project_id),
{
}

/// What is served is the file that the file system gave; where it and its project are
/// there, the only refusal is that it is forbidden.
pub proof fn law_serving_answers(
    canonical: Option<Vec<u8>>,
    base_canonical: Option<Vec<u8>>,
    projects_canonical: Option<Vec<u8>>,
    wanders: bool,
    r: Result<Vec<u8>, Failure>,
)
    requires
        serving_guarded(canonical, base_canonical, projects_canonical, wanders, r),
    ensures
        r is Ok ==> r->Ok_0@ == canonical->0@,
        r is Ok <==> canonical is Some && base_canonical is Some && within(
            canonical->0@,
            base_canonical->0@,
        ) && (!wanders || projects_canonical is Some && within(
            base_canonical->0@,
            projects_canonical->0@,
        )),
        r is Err && canonical is Some && base_canonical is Some ==> r->Err_0.status
            == StatusCode::Forbidden && r->Err_0.message@ == "Forbidden"@,
        r is Err && (canonical is None || base_canonical is None) ==> r->Err_0.status
            == StatusCode::NotFound && r->Err_0.message@ == "Not found"@,
{
}

/// A path that may be missing is seen as missing exactly where it is, and else byte for
/// byte.
pub proof fn law_optional_paths(path: Option<Vec<u8>>)
    ensures
        path is Some <==> optional_bytes(path) is Some,
        path is Some ==> optional_bytes(path) == Some(path->0@),
{
}

} // verus!
