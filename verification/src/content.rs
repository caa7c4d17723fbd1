//! What is sent: one file, or a directory as an archive.
pub mod laws;
pub mod sources;
pub mod tree;

use vstd::prelude::*;

use crate::text;

verus! {

#[derive(Clone, Copy, Debug, PartialEq, Eq, Structural)]
pub enum ArchiveFormat {
    Zip,
}

/// What stands on disk at a path. A file carries the handle by which the reader of the disk
/// finds it again.
pub enum DiskKind {
    File { size: u64, handle: u64 },
    Directory { children: Vec<DiskEntry> },
    Symlink,
    Other,
}

/// An entry of a directory on disk: its name as bytes, by which entries are ordered, and as
/// text.
pub struct DiskEntry {
    pub raw_name: Vec<u8>,
    pub name: String,
    pub kind: DiskKind,
}

/// An entry of an archive. A file has the handle of its content on disk.
#[derive(Clone, Debug)]
pub struct ArchiveEntry {
    pub archive_path: String,
    pub disk_file: Option<u64>,
    pub is_dir: bool,
}

/// An archive entry in specifications.
pub struct EntryView {
    pub archive_path: Seq<char>,
    pub disk_file: Option<u64>,
    pub is_dir: bool,
}

impl View for ArchiveEntry {
    type V = EntryView;

    open spec fn view(&self) -> EntryView {
        EntryView {
            archive_path: self.archive_path@,
            disk_file: self.disk_file,
            is_dir: self.is_dir,
        }
    }
}

#[derive(Clone, Debug)]
pub enum ContentKind {
    File { size: u64 },
    DirectoryZip { entries: Vec<ArchiveEntry> },
}

#[derive(Clone, Debug)]
pub struct ContentSource {
    pub path: String,
    pub display_name: String,
    pub download_name: String,
    pub input_size: u64,
    pub kind: ContentKind,
    pub warnings: Vec<String>,
}

/// Why a path cannot be sent.
#[derive(Clone, Copy, Debug, PartialEq, Eq, Structural)]
pub enum ContentError {
    Symlink,
    Unsupported,
    TooLarge,
}

impl ContentError {
    pub fn message(&self) -> (res: &'static str)
        ensures
            res@ == (match self {
                ContentError::Symlink => "Beam does not send symlinks directly in v1"@,
                ContentError::Unsupported =>
                    "Beam only supports regular files and directories in v1"@,
                ContentError::TooLarge => "the directory is too large to be sent"@,
            }),
    {
        match self {
            ContentError::Symlink => "Beam does not send symlinks directly in v1",
            ContentError::Unsupported => "Beam only supports regular files and directories in v1",
            ContentError::TooLarge => "the directory is too large to be sent",
        }
    }
}

/// The byte strings are in lexicographic order.
pub open spec fn bytes_in_order(a: Seq<u8>, b: Seq<u8>) -> bool
    decreases a.len(),
{
    a.len() == 0 || (b.len() > 0 && (a[0] < b[0] || (a[0] == b[0] && bytes_in_order(
        a.skip(1),
        b.skip(1),
    ))))
}

/// The positions in `order` with `x` behind every one whose entry does not come after the
/// entry at `x`.
pub open spec fn placed(children: Seq<DiskEntry>, order: Seq<int>, x: int) -> Seq<int>
    decreases order.len(),
{
    if order.len() == 0 || bytes_in_order(
        children[order.last()].raw_name@,
        children[x].raw_name@,
    ) {
        order.push(x)
    } else {
        placed(children, order.drop_last(), x).push(order.last())
    }
}

/// The positions of the first `n` entries, ordered by name; entries of one name stay in the
/// order in which they came.
pub open spec fn name_order(children: Seq<DiskEntry>, n: nat) -> Seq<int>
    decreases n,
{
    if n == 0 {
        Seq::empty()
    } else {
        placed(children, name_order(children, (n - 1) as nat), n - 1)
    }
}

/// The path in an archive: the root and the names below it, separated by slashes, with a
/// slash at the end for a directory.
pub open spec fn archive_path(root: Seq<char>, names: Seq<Seq<char>>, is_dir: bool) -> Seq<char> {
    let path = text::joined(seq![root] + names, "/"@);
    if is_dir {
        path + "/"@
    } else {
        path
    }
}

/// What a walk through a directory finds: the archive entries, a warning for each entry that
/// is skipped, the size of all files, and whether anything is sent at all.
pub struct Listing {
    pub entries: Seq<EntryView>,
    pub warnings: Seq<Seq<char>>,
    pub size: nat,
    pub has_content: bool,
}

/// The warning for an entry that is skipped.
pub open spec fn skip_warning(reason: Seq<char>, names: Seq<Seq<char>>) -> Seq<char> {
    reason + text::joined(names, "/"@)
}

/// What a walk finds in the first `n` entries, in the order of their names, of a directory
/// that lies at `names` below the root: files are sent, directories are walked and stand in
/// the archive themselves where nothing below them is sent, symlinks and everything else are
/// skipped with a warning.
pub open spec fn listing(
    root: Seq<char>,
    names: Seq<Seq<char>>,
    children: Seq<DiskEntry>,
    n: nat,
) -> Listing
    decreases children, n,
{
    if n == 0 {
        Listing { entries: Seq::empty(), warnings: Seq::empty(), size: 0, has_content: false }
    } else {
        let before = listing(root, names, children, (n - 1) as nat);
        let i = name_order(children, children.len())[n - 1];
        if 0 <= i < children.len() {
            let child = children[i];
            let below = names.push(child.name@);
            match child.kind {
                DiskKind::File { size, handle } => Listing {
                    entries: before.entries.push(
                        EntryView {
                            archive_path: archive_path(root, below, false),
                            disk_file: Some(handle),
                            is_dir: false,
                        },
                    ),
                    warnings: before.warnings,
                    size: before.size + size as nat,
                    has_content: true,
                },
                DiskKind::Directory { children: inner } => {
                    let found = listing(root, below, inner@, inner@.len());
                    Listing {
                        entries: if found.has_content {
                            before.entries + found.entries
                        } else {
                            (before.entries + found.entries).push(
                                EntryView {
                                    archive_path: archive_path(root, below, true),
                                    disk_file: None,
                                    is_dir: true,
                                },
                            )
                        },
                        warnings: before.warnings + found.warnings,
                        size: before.size + found.size,
                        has_content: true,
                    }
                },
                DiskKind::Symlink => Listing {
                    warnings: before.warnings.push(skip_warning("Skipping symlink "@, below)),
                    ..before
                },
                DiskKind::Other => Listing {
                    warnings: before.warnings.push(
                        skip_warning("Skipping unsupported entry "@, below),
                    ),
                    ..before
                },
            }
        } else {
            before
        }
    }
}

/// The views of a sequence of archive entries.
pub open spec fn entry_views(entries: Seq<ArchiveEntry>) -> Seq<EntryView> {
    entries.map_values(|entry: ArchiveEntry| entry@)
}

/// What stands in the archive of a directory with the given entries: what the walk finds, and
/// the directory itself where that is nothing.
pub open spec fn archive_entries(root: Seq<char>, children: Seq<DiskEntry>) -> Seq<EntryView> {
    let found = listing(root, Seq::empty(), children, children.len()).entries;
    if found.len() == 0 {
        seq![EntryView { archive_path: root + "/"@, disk_file: None, is_dir: true }]
    } else {
        found
    }
}

fn in_order(a: &Vec<u8>, b: &Vec<u8>) -> (res: bool)
    ensures
        res == bytes_in_order(a@, b@),
{
    let mut i: usize = 0;
    assert(a@.skip(0) =~= a@);
    assert(b@.skip(0) =~= b@);
    while i < a.len()
        invariant
            i <= a@.len(),
            i <= b@.len(),
            bytes_in_order(a@.skip(i as int), b@.skip(i as int)) == bytes_in_order(a@, b@),
        decreases a@.len() - i,
    {
        if i >= b.len() || a[i] > b[i] {
            return false;
        }
        if a[i] < b[i] {
            return true;
        }
        assert(a@.skip(i as int).skip(1) =~= a@.skip(i + 1));
        assert(b@.skip(i as int).skip(1) =~= b@.skip(i + 1));
        i = i + 1;
    }
    true
}

/// The positions in `order` as integers.
spec fn positions(order: Seq<usize>) -> Seq<int> {
    order.map_values(|i: usize| i as int)
}

proof fn lemma_placed(children: Seq<DiskEntry>, order: Seq<int>, x: int, at: int)
    requires
        0 <= at <= order.len(),
        forall|k: int|
            at <= k < order.len() ==> !bytes_in_order(
                children[#[trigger] order[k]].raw_name@,
                children[x].raw_name@,
            ),
        at > 0 ==> bytes_in_order(children[order[at - 1]].raw_name@, children[x].raw_name@),
    ensures
        placed(children, order, x) == order.insert(at, x),
    decreases order.len(),
{
    if at < order.len() {
        let front = order.drop_last();
        assert(order[order.len() - 1] == order.last());
        lemma_placed(children, front, x, at);
        assert(order.insert(at, x) =~= front.insert(at, x).push(order.last()));
    } else {
        assert(order.insert(at, x) =~= order.push(x));
    }
}

/// Ordering keeps the positions in range and their number.
proof fn lemma_name_order_range(children: Seq<DiskEntry>, n: nat)
    requires
        n <= children.len(),
    ensures
        name_order(children, n).len() == n,
        forall|k: int| 0 <= k < n ==> 0 <= #[trigger] name_order(children, n)[k] < n,
    decreases n,
{
    if n > 0 {
        let before = name_order(children, (n - 1) as nat);
        lemma_name_order_range(children, (n - 1) as nat);
        lemma_placed_range(children, before, n - 1, n as int);
    }
}

proof fn lemma_placed_range(children: Seq<DiskEntry>, order: Seq<int>, x: int, bound: int)
    requires
        0 <= x < bound,
        forall|k: int| 0 <= k < order.len() ==> 0 <= #[trigger] order[k] < bound,
    ensures
        placed(children, order, x).len() == order.len() + 1,
        forall|k: int|
            0 <= k <= order.len() ==> 0 <= #[trigger] placed(children, order, x)[k] < bound,
    decreases order.len(),
{
    if !(order.len() == 0 || bytes_in_order(
        children[order.last()].raw_name@,
        children[x].raw_name@,
    )) {
        assert(order[order.len() - 1] == order.last());
        lemma_placed_range(children, order.drop_last(), x, bound);
    }
}

/// The positions of the entries, ordered by name.
fn sorted_positions(children: &Vec<DiskEntry>) -> (res: Vec<usize>)
    ensures
        positions(res@) == name_order(children@, children@.len()),
{
    let mut order: Vec<usize> = Vec::new();
    let mut n: usize = 0;
    assert(positions(order@) =~= name_order(children@, 0));
    while n < children.len()
        invariant
            n <= children@.len(),
            positions(order@) == name_order(children@, n as nat),
            order@.len() == n,
        decreases children@.len() - n,
    {
        proof {
            lemma_name_order_range(children@, n as nat);
        }
        let mut at: usize = order.len();
        while at > 0 && !in_order(&children[order[at - 1]].raw_name, &children[n].raw_name)
            invariant
                at <= order@.len() == n,
                n < children@.len(),
                positions(order@) == name_order(children@, n as nat),
                forall|k: int|
                    0 <= k < n ==> 0 <= #[trigger] name_order(children@, n as nat)[k] < n,
                forall|k: int|
                    0 <= k < n ==> positions(order@)[k] == order@[k] as int,
                forall|k: int|
                    at <= k < order@.len() ==> !bytes_in_order(
                        children@[#[trigger] positions(order@)[k]].raw_name@,
                        children@[n as int].raw_name@,
                    ),
            decreases at,
        {
            assert(positions(order@)[at - 1] == name_order(children@, n as nat)[at - 1]);
            at = at - 1;
        }
        proof {
            lemma_placed(children@, positions(order@), n as int, at as int);
            assert(positions(order@.insert(at as int, n)) =~= positions(order@).insert(
                at as int,
                n as int,
            ));
        }
        order.insert(at, n);
        n = n + 1;
    }
    order
}

fn below(names: &Vec<String>, name: &String) -> (res: Vec<String>)
    ensures
        text::views(res@) == text::views(names@).push(name@),
{
    let mut out: Vec<String> = Vec::new();
    let mut i: usize = 0;
    while i < names.len()
        invariant
            i <= names@.len(),
            text::views(out@) == text::views(names@).take(i as int),
        decreases names@.len() - i,
    {
        let ghost before = out@;
        out.push(names[i].clone());
        assert(text::views(out@) =~= text::views(before).push(names@[i as int]@));
        assert(text::views(names@).take(i + 1) =~= text::views(names@).take(i as int).push(
            names@[i as int]@,
        ));
        i = i + 1;
    }
    let ghost before = out@;
    assert(text::views(names@).take(i as int) =~= text::views(names@));
    out.push(name.clone());
    assert(text::views(out@) =~= text::views(before).push(name@));
    out
}

/// The path in an archive.
pub fn to_archive_path(root_name: &str, names: &Vec<String>, is_dir: bool) -> (res: String)
    ensures
        res@ == archive_path(root_name@, text::views(names@), is_dir),
{
    let mut parts: Vec<String> = Vec::new();
    parts.push(root_name.to_string());
    let mut i: usize = 0;
    assert(text::views(parts@) =~= seq![root_name@] + text::views(names@).take(0));
    while i < names.len()
        invariant
            i <= names@.len(),
            text::views(parts@) == seq![root_name@] + text::views(names@).take(i as int),
        decreases names@.len() - i,
    {
        let ghost before = parts@;
        parts.push(names[i].clone());
        assert(text::views(parts@) =~= text::views(before).push(names@[i as int]@));
        assert(text::views(parts@) =~= seq![root_name@] + text::views(names@).take(i + 1));
        i = i + 1;
    }
    assert(text::views(names@).take(i as int) =~= text::views(names@));
    let mut joined = text::join(&parts, "/");
    if is_dir {
        joined.append("/");
    }
    joined
}

fn warning_for(reason: &str, names: &Vec<String>) -> (res: String)
    ensures
        res@ == skip_warning(reason@, text::views(names@)),
{
    let mut out = reason.to_string();
    out.append(text::join(names, "/").as_str());
    out
}

proof fn lemma_size_grows(
    root: Seq<char>,
    names: Seq<Seq<char>>,
    children: Seq<DiskEntry>,
    a: nat,
    b: nat,
)
    requires
        a <= b,
    ensures
        listing(root, names, children, a).size <= listing(root, names, children, b).size,
    decreases b,
{
    if a < b {
        lemma_size_grows(root, names, children, a, (b - 1) as nat);
    }
}

/// Adds to the lists what a walk through a directory finds.
fn visit_directory(
    root_name: &str,
    names: &Vec<String>,
    children: &Vec<DiskEntry>,
    entries: &mut Vec<ArchiveEntry>,
    warnings: &mut Vec<String>,
    input_size: &mut u64,
) -> (res: Result<bool, ContentError>)
    ensures
        ({
            let found = listing(root_name@, text::views(names@), children@, children@.len());
            &&& res is Ok <==> *old(input_size) + found.size <= u64::MAX
            &&& res matches Err(error) ==> error == ContentError::TooLarge
            &&& res matches Ok(has_content) ==> {
                &&& has_content == found.has_content
                &&& entry_views(final(entries)@) == entry_views(old(entries)@) + found.entries
                &&& text::views(final(warnings)@) == text::views(old(warnings)@) + found.warnings
                &&& *final(input_size) == *old(input_size) + found.size
            }
        }),
    decreases children,
{
    let ghost start = *input_size;
    let ghost root = root_name@;
    let ghost here = text::views(names@);
    let order = sorted_positions(children);
    let mut has_content = false;
    let mut k: usize = 0;
    proof {
        lemma_name_order_range(children@, children@.len());
        assert(entry_views(entries@) =~= entry_views(old(entries)@) + listing(
            root,
            here,
            children@,
            0,
        ).entries);
        assert(text::views(warnings@) =~= text::views(old(warnings)@) + listing(
            root,
            here,
            children@,
            0,
        ).warnings);
    }
    while k < order.len()
        invariant
            root == root_name@,
            here == text::views(names@),
            k <= order@.len() == children@.len(),
            positions(order@) == name_order(children@, children@.len()),
            forall|j: int|
                0 <= j < children@.len() ==> 0 <= #[trigger] name_order(
                    children@,
                    children@.len(),
                )[j] < children@.len(),
            has_content == listing(root, here, children@, k as nat).has_content,
            entry_views(entries@) == entry_views(old(entries)@) + listing(
                root,
                here,
                children@,
                k as nat,
            ).entries,
            text::views(warnings@) == text::views(old(warnings)@) + listing(
                root,
                here,
                children@,
                k as nat,
            ).warnings,
            *input_size == start + listing(root, here, children@, k as nat).size,
            start == *old(input_size),
        decreases order@.len() - k,
    {
        let i: usize = order[k];
        proof {
            assert(positions(order@)[k as int] == i as int);
            lemma_size_grows(root, here, children@, (k + 1) as nat, children@.len());
        }
        let child = &children[i];
        let path = below(names, &child.name);
        let ghost before = listing(root, here, children@, k as nat);
        let ghost after = listing(root, here, children@, (k + 1) as nat);
        let ghost old_entries = entries@;
        let ghost old_warnings = warnings@;
        match &child.kind {
            DiskKind::File { size, handle } => {
                if *size > u64::MAX - *input_size {
                    return Err(ContentError::TooLarge);
                }
                *input_size = *input_size + *size;
                entries.push(
                    ArchiveEntry {
                        archive_path: to_archive_path(root_name, &path, false),
                        disk_file: Some(*handle),
                        is_dir: false,
                    },
                );
                has_content = true;
                assert(entry_views(entries@) =~= entry_views(old_entries).push(
                    after.entries.last(),
                ));
                assert(entry_views(entries@) =~= entry_views(old(entries)@) + after.entries);
            },
            DiskKind::Directory { children: inner } => {
                let child_has_content = match visit_directory(
                    root_name,
                    &path,
                    inner,
                    entries,
                    warnings,
                    input_size,
                ) {
                    Ok(found) => found,
                    Err(error) => return Err(error),
                };
                let ghost found = listing(root, here.push(child.name@), inner@, inner@.len());
                let ghost mid = entries@;
                if !child_has_content {
                    entries.push(
                        ArchiveEntry {
                            archive_path: to_archive_path(root_name, &path, true),
                            disk_file: None,
                            is_dir: true,
                        },
                    );
                    assert(entry_views(entries@) =~= entry_views(mid).push(after.entries.last()));
                }
                has_content = true;
                assert(entry_views(entries@) =~= entry_views(old(entries)@) + after.entries);
                assert(text::views(warnings@) =~= text::views(old(warnings)@) + after.warnings);
            },
            DiskKind::Symlink => {
                warnings.push(warning_for("Skipping symlink ", &path));
                assert(text::views(warnings@) =~= text::views(old_warnings).push(
                    after.warnings.last(),
                ));
                assert(text::views(warnings@) =~= text::views(old(warnings)@) + after.warnings);
            },
            DiskKind::Other => {
                warnings.push(warning_for("Skipping unsupported entry ", &path));
                assert(text::views(warnings@) =~= text::views(old_warnings).push(
                    after.warnings.last(),
                ));
                assert(text::views(warnings@) =~= text::views(old(warnings)@) + after.warnings);
            },
        }
        k = k + 1;
    }
    Ok(has_content)
}

/// The archive entries of a directory, the warnings for what is skipped, and the size of its
/// files.
pub fn scan_directory_for_zip(root_name: &str, children: &Vec<DiskEntry>) -> (res: Result<
    (Vec<ArchiveEntry>, Vec<String>, u64),
    ContentError,
>)
    ensures
        ({
            let found = listing(root_name@, Seq::empty(), children@, children@.len());
            &&& res is Ok <==> found.size <= u64::MAX
            &&& res matches Err(error) ==> error == ContentError::TooLarge
            &&& res matches Ok((entries, warnings, size)) ==> {
                &&& entry_views(entries@) == archive_entries(root_name@, children@)
                &&& text::views(warnings@) == found.warnings
                &&& size == found.size
            }
        }),
{
    let mut entries: Vec<ArchiveEntry> = Vec::new();
    let mut warnings: Vec<String> = Vec::new();
    let mut input_size: u64 = 0;
    let names: Vec<String> = Vec::new();
    assert(text::views(names@) =~= Seq::<Seq<char>>::empty());
    assert(text::views(warnings@) =~= Seq::<Seq<char>>::empty());
    assert(entry_views(entries@) =~= Seq::<EntryView>::empty());
    let ghost found = listing(root_name@, Seq::empty(), children@, children@.len());
    match visit_directory(
        root_name,
        &names,
        children,
        &mut entries,
        &mut warnings,
        &mut input_size,
    ) {
        Ok(_) => {},
        Err(error) => return Err(error),
    }
    assert(Seq::<Seq<char>>::empty() + found.warnings =~= found.warnings);
    assert(Seq::<EntryView>::empty() + found.entries =~= found.entries);
    if entries.is_empty() {
        let mut path = root_name.to_string();
        path.append("/");
        entries.push(ArchiveEntry { archive_path: path, disk_file: None, is_dir: true });
        assert(entry_views(entries@) =~= archive_entries(root_name@, children@));
    } else {
        assert(entry_views(entries@).len() > 0);
    }
    Ok((entries, warnings, input_size))
}

/// The name of a path, `beam` where it has none.
pub fn file_name_string(file_name: Option<String>) -> (res: String)
    ensures
        res@ == source_name(text::optional(file_name)),
{
    match file_name {
        Some(name) => name,
        None => "beam".to_string(),
    }
}

/// The name under which a path is shown.
pub open spec fn source_name(file_name: Option<Seq<char>>) -> Seq<char> {
    match file_name {
        Some(name) => name,
        None => "beam"@,
    }
}

impl ContentSource {
    /// A regular file of the given name and size, without warnings.
    pub open spec fn is_file(self, path: Seq<char>, name: Seq<char>, size: u64) -> bool {
        &&& self.path@ == path
        &&& self.display_name@ == name
        &&& self.download_name@ == name
        &&& self.input_size == size
        &&& self.kind == ContentKind::File { size }
        &&& self.warnings@.len() == 0
    }

    /// The archive of a directory of the given name with the given entries.
    pub open spec fn is_archive(
        self,
        path: Seq<char>,
        name: Seq<char>,
        children: Seq<DiskEntry>,
    ) -> bool {
        let found = listing(name, Seq::empty(), children, children.len());
        &&& self.path@ == path
        &&& self.display_name@ == name
        &&& self.download_name@ == name + "-beam.zip"@
        &&& self.input_size == found.size
        &&& self.kind matches ContentKind::DirectoryZip { entries } && entry_views(entries@)
            == archive_entries(name, children)
        &&& text::views(self.warnings@) == found.warnings
    }

    /// The content at a path with the given last component, from what stands on disk there.
    pub fn inspect(
        path: String,
        file_name: Option<String>,
        disk: &DiskKind,
        archive_format: ArchiveFormat,
    ) -> (res: Result<ContentSource, ContentError>)
        ensures
            match *disk {
                DiskKind::File { size, .. } => res matches Ok(content) && content.is_file(
                    path@,
                    source_name(text::optional(file_name)),
                    size,
                ),
                DiskKind::Directory { children } => {
                    let name = source_name(text::optional(file_name));
                    if listing(name, Seq::empty(), children@, children@.len()).size <= u64::MAX {
                        res matches Ok(content) && content.is_archive(path@, name, children@)
                    } else {
                        res == Err::<ContentSource, ContentError>(ContentError::TooLarge)
                    }
                },
                DiskKind::Symlink => res == Err::<ContentSource, ContentError>(
                    ContentError::Symlink,
                ),
                DiskKind::Other => res == Err::<ContentSource, ContentError>(
                    ContentError::Unsupported,
                ),
            },
    {
        match disk {
            DiskKind::Symlink => Err(ContentError::Symlink),
            DiskKind::File { size, .. } => {
                let name = file_name_string(file_name);
                Ok(
                    ContentSource {
                        path,
                        display_name: name.clone(),
                        download_name: name,
                        input_size: *size,
                        kind: ContentKind::File { size: *size },
                        warnings: Vec::new(),
                    },
                )
            },
            DiskKind::Directory { children } => match archive_format {
                ArchiveFormat::Zip => {
                    let root_name = file_name_string(file_name);
                    match scan_directory_for_zip(root_name.as_str(), children) {
                        Ok((entries, warnings, input_size)) => {
                            let mut download_name = root_name.clone();
                            download_name.append("-beam.zip");
                            Ok(
                                ContentSource {
                                    path,
                                    display_name: root_name,
                                    download_name,
                                    input_size,
                                    kind: ContentKind::DirectoryZip { entries },
                                    warnings,
                                },
                            )
                        },
                        Err(error) => Err(error),
                    }
                },
            },
            DiskKind::Other => Err(ContentError::Unsupported),
        }
    }

    pub fn path(&self) -> (res: &str)
        ensures
            res@ == self.path@,
    {
        self.path.as_str()
    }

    pub fn display_name(&self) -> (res: &str)
        ensures
            res@ == self.display_name@,
    {
        self.display_name.as_str()
    }

    pub fn download_name(&self) -> (res: &str)
        ensures
            res@ == self.download_name@,
    {
        self.download_name.as_str()
    }

    pub fn input_size(&self) -> (res: u64)
        ensures
            res == self.input_size,
    {
        self.input_size
    }

    /// The length of the download, known for a file only.
    pub open spec fn length(self) -> Option<u64> {
        match self.kind {
            ContentKind::File { size } => Some(size),
            ContentKind::DirectoryZip { .. } => None,
        }
    }

    pub fn content_length(&self) -> (res: Option<u64>)
        ensures
            res == self.length(),
    {
        match &self.kind {
            ContentKind::File { size } => Some(*size),
            ContentKind::DirectoryZip { .. } => None,
        }
    }

    /// How the kind of content is called.
    pub open spec fn label(self) -> Seq<char> {
        match self.kind {
            ContentKind::File { .. } => "file"@,
            ContentKind::DirectoryZip { .. } => "zip archive"@,
        }
    }

    pub fn kind_label(&self) -> (res: &'static str)
        ensures
            res@ == self.label(),
    {
        match &self.kind {
            ContentKind::File { .. } => "file",
            ContentKind::DirectoryZip { .. } => "zip archive",
        }
    }

    pub fn warnings(&self) -> (res: &Vec<String>)
        ensures
            *res == self.warnings,
    {
        &self.warnings
    }

    pub fn supports_range(&self) -> (res: bool)
        ensures
            res == (self.kind is File),
    {
        match &self.kind {
            ContentKind::File { .. } => true,
            ContentKind::DirectoryZip { .. } => false,
        }
    }
}

/// The reason given where a range of a directory archive is asked for.
pub const RANGE_UNSUPPORTED: &'static str = "range requests are not supported for directory archives";

/// The reason given where the receiver of a stream has gone away.
pub const CLIENT_DISCONNECTED: &'static str = "client disconnected";

/// What is streamed for a request.
#[derive(Debug)]
pub enum StreamPlan {
    /// The file from its first to its last byte.
    WholeFile,
    /// The given number of bytes of the file, from the given position on.
    FileRange { start: u64, length: u64 },
    /// The archive, written while it is sent.
    Archive,
    /// Nothing, for the given reason.
    Refused { reason: &'static str },
}

impl ContentSource {
    /// What is streamed for the whole content, or for `range` of it (its start and length).
    pub fn stream_plan(&self, range: Option<(u64, u64)>) -> (res: StreamPlan)
        ensures
            match (self.kind, range) {
                (ContentKind::File { .. }, None) => res == StreamPlan::WholeFile,
                (ContentKind::File { .. }, Some((start, length))) => res
                    == (StreamPlan::FileRange { start, length }),
                (ContentKind::DirectoryZip { .. }, None) => res == StreamPlan::Archive,
                (ContentKind::DirectoryZip { .. }, Some(_)) => res == (StreamPlan::Refused {
                    reason: RANGE_UNSUPPORTED,
                }),
            },
    {
        match (&self.kind, range) {
            (ContentKind::File { .. }, None) => StreamPlan::WholeFile,
            (ContentKind::File { .. }, Some((start, length))) => StreamPlan::FileRange {
                start,
                length,
            },
            (ContentKind::DirectoryZip { .. }, None) => StreamPlan::Archive,
            (ContentKind::DirectoryZip { .. }, Some(_)) => StreamPlan::Refused {
                reason: RANGE_UNSUPPORTED,
            },
        }
    }
}

/// The bytes sent after another chunk, or why the stream ends: the receiver has gone away.
pub fn forward_chunk(total: u64, chunk: u64, delivered: bool) -> (res: Result<u64, &'static str>)
    requires
        total + chunk <= u64::MAX,
    ensures
        delivered ==> res == Ok::<u64, &'static str>((total + chunk) as u64),
        !delivered ==> res == Err::<u64, &'static str>(CLIENT_DISCONNECTED),
{
    if delivered {
        Ok(total + chunk)
    } else {
        Err(CLIENT_DISCONNECTED)
    }
}

/// How an entry gets into the archive.
#[derive(Clone, Copy, Debug, PartialEq, Eq, Structural)]
pub enum EntryPlan {
    /// Stored, without content.
    EmptyDirectory,
    /// Deflated, with the content of the file of this handle.
    DeflatedFile(u64),
    /// Not at all.
    Skip,
}

/// How an entry gets into the archive.
pub open spec fn planned(entry: EntryView) -> EntryPlan {
    if entry.is_dir {
        EntryPlan::EmptyDirectory
    } else {
        match entry.disk_file {
            Some(handle) => EntryPlan::DeflatedFile(handle),
            None => EntryPlan::Skip,
        }
    }
}

pub fn entry_plan(entry: &ArchiveEntry) -> (res: EntryPlan)
    ensures
        res == planned(entry@),
{
    if entry.is_dir {
        EntryPlan::EmptyDirectory
    } else {
        match entry.disk_file {
            Some(handle) => EntryPlan::DeflatedFile(handle),
            None => EntryPlan::Skip,
        }
    }
}

/// How the writer of an archive ended.
pub enum ArchiveWriter<E> {
    Finished,
    Failed(E),
    /// It did not run to its end.
    Crashed(E),
}

/// What a transfer of an archive comes to, from what was sent and how the writer ended: a
/// failure to send is reported before a failure to write, a crash before both.
pub fn archive_outcome<E>(sent: Result<u64, E>, writer: ArchiveWriter<E>) -> (res: Result<u64, E>)
    ensures
        match writer {
            ArchiveWriter::Finished => res == sent,
            ArchiveWriter::Failed(error) => res == (if sent is Err {
                sent
            } else {
                Err(error)
            }),
            ArchiveWriter::Crashed(error) => res == Err::<u64, E>(error),
        },
{
    match writer {
        ArchiveWriter::Finished => sent,
        ArchiveWriter::Failed(error) => match sent {
            Err(first) => Err(first),
            Ok(_) => Err(error),
        },
        ArchiveWriter::Crashed(error) => Err(error),
    }
}

} // verus!
