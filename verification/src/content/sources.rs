//! What is sent for what stands on disk.
use vstd::prelude::*;

use crate::content;
use crate::content::laws;
use crate::content::laws::Tally;
use crate::content::tree;
use crate::content::tree::Standing;
use crate::content::{
    ArchiveEntry, ArchiveFormat, ArchiveWriter, ContentError, ContentKind, ContentSource, DiskEntry,
    DiskKind, EntryPlan,
};
use crate::text;

verus! {

/// The archive has the file of the given handle under the given path.
pub open spec fn has_file(entries: Seq<ArchiveEntry>, path: Seq<char>, handle: u64) -> bool {
    exists|i: int|
        0 <= i < entries.len() && (#[trigger] entries[i]).archive_path@ == path
            && entries[i].disk_file == Some(handle) && !entries[i].is_dir
}

/// The archive has a directory under the given path.
pub open spec fn has_directory(entries: Seq<ArchiveEntry>, path: Seq<char>) -> bool {
    exists|i: int|
        0 <= i < entries.len() && (#[trigger] entries[i]).archive_path@ == path
            && entries[i].is_dir && entries[i].disk_file is None
}

proof fn lemma_entry_view(entries: Seq<ArchiveEntry>, i: int)
    requires
        0 <= i < entries.len(),
    ensures
        content::entry_views(entries).len() == entries.len(),
        content::entry_views(entries)[i] == entries[i]@,
{
}

proof fn lemma_archive_has_file(
    root: Seq<char>,
    children: Seq<DiskEntry>,
    entries: Seq<ArchiveEntry>,
    names: Seq<Seq<char>>,
    handle: u64,
)
    requires
        content::entry_views(entries) == content::archive_entries(root, children),
    ensures
        tree::stands(children, names, Standing::File { handle }) ==> has_file(
            entries,
            text::joined(seq![root] + names, "/"@),
            handle,
        ),
{
    if tree::stands(children, names, Standing::File { handle }) {
        let at = tree::archive_holds_every_file(root, children, names, handle);
        lemma_entry_view(entries, at);
        assert(entries[at].archive_path@ == text::joined(seq![root] + names, "/"@));
    }
}

proof fn lemma_archive_has_directory(
    root: Seq<char>,
    children: Seq<DiskEntry>,
    entries: Seq<ArchiveEntry>,
    names: Seq<Seq<char>>,
)
    requires
        content::entry_views(entries) == content::archive_entries(root, children),
    ensures
        tree::stands(children, names, Standing::BareDirectory) ==> has_directory(
            entries,
            text::joined(seq![root] + names, "/"@) + "/"@,
        ),
{
    let what = Standing::BareDirectory;
    if tree::stands(children, names, what) {
        tree::walk_reports_everything(root, children, names, what);
        let found = content::listing(root, Seq::empty(), children, children.len()).entries;
        let entry = tree::own_entry(root, names, what);
        let at = choose|at: int| 0 <= at < found.len() && found[at] == entry;
        lemma_entry_view(entries, at);
        assert(entries[at].archive_path@ == entry.archive_path);
    }
}

/// Every file of a directory is in its archive, under its own path and with its own content,
/// and so is every directory of which nothing is sent.
pub proof fn scan_finds_every_file(
    root: &str,
    children: Vec<DiskEntry>,
    names: Seq<Seq<char>>,
    handle: u64,
    res: Result<(Vec<ArchiveEntry>, Vec<String>, u64), ContentError>,
)
    requires
        call_ensures(content::scan_directory_for_zip, (root, &children), res),
    ensures
        res matches Ok((entries, _, _)) ==> {
            &&& tree::stands(children@, names, Standing::File { handle }) ==> has_file(
                entries@,
                text::joined(seq![root@] + names, "/"@),
                handle,
            )
            &&& tree::stands(children@, names, Standing::BareDirectory) ==> has_directory(
                entries@,
                text::joined(seq![root@] + names, "/"@) + "/"@,
            )
        },
{
    if let Ok((entries, _, _)) = res {
        lemma_archive_has_file(root@, children@, entries@, names, handle);
        lemma_archive_has_directory(root@, children@, entries@, names);
    }
}

/// Nothing is in an archive but the files of the directory, each with its own content, and
/// directories without content.
pub proof fn scan_invents_nothing(
    root: &str,
    children: Vec<DiskEntry>,
    i: int,
    res: Result<(Vec<ArchiveEntry>, Vec<String>, u64), ContentError>,
)
    requires
        call_ensures(content::scan_directory_for_zip, (root, &children), res),
    ensures
        res matches Ok((entries, _, _)) ==> (0 <= i < entries@.len() ==> {
            &&& entries@[i].is_dir <==> entries@[i].disk_file is None
            &&& entries@[i].disk_file matches Some(handle) ==> exists|names: Seq<Seq<char>>|
                #[trigger] tree::stands(children@, names, Standing::File { handle })
                    && entries@[i].archive_path@ == text::joined(seq![root@] + names, "/"@)
        }),
{
    if let Ok((entries, _, _)) = res {
        if 0 <= i < entries@.len() {
            lemma_entry_view(entries@, i);
            tree::archive_holds_nothing_else(root@, children@, i);
            laws::archive_skips_nothing(root@, children@, i);
            laws::archive_stays_below_root(root@, children@, i);
        }
    }
}

/// The size of a directory is that of its files together, and it can be sent as long as that
/// number fits in 64 bits; everything that is left out is warned of, once.
pub proof fn scan_adds_up(
    root: &str,
    children: Vec<DiskEntry>,
    res: Result<(Vec<ArchiveEntry>, Vec<String>, u64), ContentError>,
)
    requires
        call_ensures(content::scan_directory_for_zip, (root, &children), res),
    ensures
        res is Ok <==> laws::tree_tally(children@, children@.len(), Tally::Bytes) <= u64::MAX,
        res matches Err(error) ==> error == ContentError::TooLarge,
        res matches Ok((entries, warnings, size)) ==> {
            &&& size == laws::tree_tally(children@, children@.len(), Tally::Bytes)
            &&& warnings@.len() == laws::tree_tally(children@, children@.len(), Tally::Skipped)
            &&& entries@.len() > 0
        },
{
    laws::listing_accounts_for_tree(root@, children@, Tally::Bytes);
    laws::listing_accounts_for_tree(root@, children@, Tally::Skipped);
    laws::archive_is_never_empty(root@, children@);
    if let Ok((entries, warnings, _)) = res {
        assert(text::views(warnings@).len() == warnings@.len());
        assert(content::entry_views(entries@).len() == entries@.len());
    }
}

/// Everything that is left out of an archive is warned of, under its own path and with the
/// reason why.
pub proof fn scan_warns_of_what_is_left_out(
    root: &str,
    children: Vec<DiskEntry>,
    names: Seq<Seq<char>>,
    res: Result<(Vec<ArchiveEntry>, Vec<String>, u64), ContentError>,
)
    requires
        call_ensures(content::scan_directory_for_zip, (root, &children), res),
    ensures
        res matches Ok((_, warnings, _)) ==> {
            &&& tree::stands(children@, names, Standing::Symlink) ==> text::views(
                warnings@,
            ).contains("Skipping symlink "@ + text::joined(names, "/"@))
            &&& tree::stands(children@, names, Standing::Other) ==> text::views(
                warnings@,
            ).contains("Skipping unsupported entry "@ + text::joined(names, "/"@))
        },
{
    if tree::stands(children@, names, Standing::Symlink) {
        tree::walk_reports_everything(root@, children@, names, Standing::Symlink);
    }
    if tree::stands(children@, names, Standing::Other) {
        tree::walk_reports_everything(root@, children@, names, Standing::Other);
    }
}

/// A file is sent under its own name, with its own size, and without warnings.
pub proof fn file_is_sent_as_it_is(
    path: String,
    name: String,
    handle: u64,
    size: u64,
    format: ArchiveFormat,
    res: Result<ContentSource, ContentError>,
)
    requires
        call_ensures(
            ContentSource::inspect,
            (path, Some(name), &DiskKind::File { handle, size }, format),
            res,
        ),
    ensures
        res matches Ok(content) && content.kind == (ContentKind::File { size })
            && content.input_size == size && content.path@ == path@ && content.display_name@
            == name@ && content.download_name@ == name@ && content.warnings@.len() == 0,
{
    assert(text::optional(Some(name)) == Some(name@));
}

/// A directory is sent as an archive that has its name, with every file of it under the name of
/// the directory.
pub proof fn directory_is_sent_as_archive(
    path: String,
    name: String,
    children: Vec<DiskEntry>,
    format: ArchiveFormat,
    names: Seq<Seq<char>>,
    handle: u64,
    res: Result<ContentSource, ContentError>,
)
    requires
        call_ensures(
            ContentSource::inspect,
            (path, Some(name), &DiskKind::Directory { children }, format),
            res,
        ),
    ensures
        res is Ok <==> laws::tree_tally(children@, children@.len(), Tally::Bytes) <= u64::MAX,
        res matches Err(error) ==> error == ContentError::TooLarge,
        res matches Ok(content) ==> {
            &&& content.path@ == path@
            &&& content.display_name@ == name@
            &&& content.download_name@ == name@ + "-beam.zip"@
            &&& content.input_size == laws::tree_tally(children@, children@.len(), Tally::Bytes)
            &&& content.kind matches ContentKind::DirectoryZip { entries } && (tree::stands(
                children@,
                names,
                Standing::File { handle },
            ) ==> has_file(entries@, text::joined(seq![name@] + names, "/"@), handle))
        },
{
    assert(text::optional(Some(name)) == Some(name@));
    laws::listing_accounts_for_tree(name@, children@, Tally::Bytes);
    if let Ok(content) = res {
        if let ContentKind::DirectoryZip { entries } = content.kind {
            lemma_archive_has_file(name@, children@, entries@, names, handle);
        }
    }
}

/// A path without a last component is sent under the name of the program.
pub proof fn nameless_path_has_a_name(
    path: String,
    disk: DiskKind,
    format: ArchiveFormat,
    res: Result<ContentSource, ContentError>,
)
    requires
        call_ensures(ContentSource::inspect, (path, None, &disk, format), res),
    ensures
        res matches Ok(content) ==> content.display_name@ == "beam"@,
{
    assert(text::optional(None) == None::<Seq<char>>);
}

/// A link and what is neither a file nor a directory are not sent, and the sender is told so.
pub proof fn only_files_and_directories_are_sent(
    path: String,
    name: Option<String>,
    disk: DiskKind,
    format: ArchiveFormat,
    res: Result<ContentSource, ContentError>,
)
    requires
        call_ensures(ContentSource::inspect, (path, name, &disk, format), res),
    ensures
        disk is Symlink <==> res == Err::<ContentSource, ContentError>(ContentError::Symlink),
        disk is Other <==> res == Err::<ContentSource, ContentError>(ContentError::Unsupported),
{
}

/// What a content says of itself: its length is known for a file only, and only of a file can a
/// part be sent.
pub proof fn content_describes_itself(
    content: ContentSource,
    length: Option<u64>,
    ranges: bool,
    label: &'static str,
    size: u64,
    shown: &str,
    saved: &str,
)
    requires
        call_ensures(ContentSource::content_length, (&content,), length),
        call_ensures(ContentSource::supports_range, (&content,), ranges),
        call_ensures(ContentSource::kind_label, (&content,), label),
        call_ensures(ContentSource::input_size, (&content,), size),
        call_ensures(ContentSource::display_name, (&content,), shown),
        call_ensures(ContentSource::download_name, (&content,), saved),
    ensures
        length is Some <==> content.kind is File,
        content.kind matches ContentKind::File { size: own } ==> length == Some(own),
        ranges <==> content.kind is File,
        label@ == if content.kind is File {
            "file"@
        } else {
            "zip archive"@
        },
        size == content.input_size,
        shown@ == content.display_name@,
        saved@ == content.download_name@,
{
}

/// A file gets into the archive with its own content, a directory without any.
pub proof fn entries_are_written_as_they_are(entry: ArchiveEntry, plan: EntryPlan)
    requires
        call_ensures(content::entry_plan, (&entry,), plan),
    ensures
        entry.is_dir <==> plan is EmptyDirectory,
        !entry.is_dir && entry.disk_file is Some ==> plan == EntryPlan::DeflatedFile(
            entry.disk_file->Some_0,
        ),
        plan is Skip <==> !entry.is_dir && entry.disk_file is None,
{
}

/// A chunk that arrived is counted; one that did not ends the stream.
pub proof fn delivered_chunks_are_counted(
    total: u64,
    chunk: u64,
    delivered: bool,
    res: Result<u64, &'static str>,
)
    requires
        total + chunk <= u64::MAX,
        call_ensures(content::forward_chunk, (total, chunk, delivered), res),
    ensures
        res is Ok <==> delivered,
        res matches Ok(sum) ==> sum == total + chunk,
        res matches Err(reason) ==> reason@ == "client disconnected"@,
{
}

/// An archive is sent if and only if all of it was written and delivered; the number of bytes
/// is the one that was delivered.
pub proof fn archive_succeeds_as_a_whole<E>(
    sent: Result<u64, E>,
    writer: ArchiveWriter<E>,
    res: Result<u64, E>,
)
    requires
        call_ensures(content::archive_outcome::<E>, (sent, writer), res),
    ensures
        res is Ok <==> sent is Ok && writer is Finished,
        res matches Ok(count) ==> sent == Ok::<u64, E>(count),
        writer matches ArchiveWriter::Crashed(error) ==> res == Err::<u64, E>(error),
        !(writer is Crashed) && sent is Err ==> res == sent,
        writer matches ArchiveWriter::Failed(error) ==> (sent is Ok ==> res == Err::<u64, E>(
            error,
        )),
{
}

/// The path of an entry is the names on the way to it with slashes between them, and a slash
/// behind the name of a directory.
pub proof fn paths_are_made_of_names(
    root: &str,
    names: Vec<String>,
    file: String,
    directory: String,
)
    requires
        call_ensures(content::to_archive_path, (root, &names, false), file),
        call_ensures(content::to_archive_path, (root, &names, true), directory),
    ensures
        file@ == text::joined(seq![root@] + text::views(names@), "/"@),
        directory@ == file@ + "/"@,
        names@.len() == 0 ==> file@ == root@,
{
    if names@.len() == 0 {
        assert(seq![root@] + text::views(names@) =~= seq![root@]);
        assert(text::joined(seq![root@], "/"@) == root@);
    }
}

/// Content is called by the name of its path.
pub proof fn content_has_the_name_of_its_path(
    file_name: Option<String>,
    res: String,
    content: ContentSource,
    path: &str,
    warnings: &Vec<String>,
)
    requires
        call_ensures(content::file_name_string, (file_name,), res),
        call_ensures(ContentSource::path, (&content,), path),
        call_ensures(ContentSource::warnings, (&content,), warnings),
    ensures
        file_name matches Some(name) ==> res@ == name@,
        file_name is None ==> res@ == "beam"@,
        path@ == content.path@,
        *warnings == content.warnings,
{
    if let Some(name) = file_name {
        assert(text::optional(file_name) == Some(name@));
    } else {
        assert(text::optional(file_name) == None::<Seq<char>>);
    }
}

/// What cannot be sent is explained.
pub proof fn errors_are_explained(error: ContentError, message: &'static str)
    requires
        call_ensures(ContentError::message, (&error,), message),
    ensures
        error == ContentError::Symlink ==> message@ == "Beam does not send symlinks directly in v1"@,
        error == ContentError::Unsupported ==> message@
            == "Beam only supports regular files and directories in v1"@,
{
}

} // verus!
