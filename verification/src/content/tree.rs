//! What an archive owes to the directory tree that it is made of.
use vstd::prelude::*;

use crate::content;
use crate::content::laws;
use crate::content::{
    ContentSource, DiskEntry, DiskKind, EntryPlan, EntryView, Listing, StreamPlan,
};
use crate::text;

verus! {

/// What can stand at a path of a directory tree without anything to be sent below it.
pub ghost enum Standing {
    File { handle: u64 },
    /// A directory with nothing in it but what is skipped.
    BareDirectory,
    Symlink,
    Other,
}

/// The entry is skipped.
pub open spec fn is_skipped(child: DiskEntry) -> bool {
    child.kind is Symlink || child.kind is Other
}

/// What stands on disk is the given thing.
pub open spec fn is_kind(kind: DiskKind, what: Standing) -> bool {
    match what {
        Standing::File { handle } => kind matches DiskKind::File { handle: own, .. } && own
            == handle,
        Standing::BareDirectory => kind matches DiskKind::Directory { children } && forall|i: int|
            0 <= i < children@.len() ==> is_skipped(#[trigger] children@[i]),
        Standing::Symlink => kind is Symlink,
        Standing::Other => kind is Other,
    }
}

/// The given thing stands in the directory tree at the path of the names.
pub open spec fn stands(children: Seq<DiskEntry>, names: Seq<Seq<char>>, what: Standing) -> bool
    decreases names.len(),
{
    &&& names.len() > 0
    &&& exists|i: int|
        0 <= i < children.len() && (#[trigger] children[i]).name@ == names[0] && if names.len()
            == 1 {
            is_kind(children[i].kind, what)
        } else {
            children[i].kind matches DiskKind::Directory { children: inner } && stands(
                inner@,
                names.skip(1),
                what,
            )
        }
}

/// The names lead from the entry, which has the first of them, to the given thing.
spec fn leads_to(child: DiskEntry, names: Seq<Seq<char>>, what: Standing) -> bool {
    &&& names.len() > 0
    &&& child.name@ == names[0]
    &&& if names.len() == 1 {
        is_kind(child.kind, what)
    } else {
        child.kind matches DiskKind::Directory { children } && stands(
            children@,
            names.skip(1),
            what,
        )
    }
}

proof fn lemma_way(children: Seq<DiskEntry>, names: Seq<Seq<char>>, what: Standing) -> (i: int)
    requires
        stands(children, names, what),
    ensures
        0 <= i < children.len(),
        leads_to(children[i], names, what),
{
    choose|i: int| 0 <= i < children.len() && leads_to(#[trigger] children[i], names, what)
}

proof fn lemma_stands(
    children: Seq<DiskEntry>,
    i: int,
    names: Seq<Seq<char>>,
    what: Standing,
)
    requires
        0 <= i < children.len(),
        leads_to(children[i], names, what),
    ensures
        stands(children, names, what),
{
    assert(children[i].name@ == names[0]);
}

/// The names behind one another, with slashes between them.
pub open spec fn slashed(names: Seq<Seq<char>>) -> Seq<char> {
    text::joined(names, "/"@)
}

/// The archive entry of a file or a bare directory at the path of the names.
pub open spec fn own_entry(root: Seq<char>, names: Seq<Seq<char>>, what: Standing) -> EntryView {
    match what {
        Standing::File { handle } => EntryView {
            archive_path: slashed(seq![root] + names),
            disk_file: Some(handle),
            is_dir: false,
        },
        _ => EntryView {
            archive_path: slashed(seq![root] + names) + "/"@,
            disk_file: None,
            is_dir: true,
        },
    }
}

/// The warning for a thing at the path of the names that is skipped.
pub open spec fn own_warning(names: Seq<Seq<char>>, what: Standing) -> Seq<char> {
    if what is Symlink {
        "Skipping symlink "@ + slashed(names)
    } else {
        "Skipping unsupported entry "@ + slashed(names)
    }
}

/// A walk reports the thing at the path of the names: what is sent as an entry, everything else
/// as a warning.
pub open spec fn reports(
    found: Listing,
    root: Seq<char>,
    names: Seq<Seq<char>>,
    what: Standing,
) -> bool {
    if what is File || what is BareDirectory {
        found.entries.contains(own_entry(root, names, what))
    } else {
        found.warnings.contains(own_warning(names, what))
    }
}

proof fn lemma_walk_reaches_all(children: Seq<DiskEntry>, n: nat, x: int) -> (k: int)
    requires
        0 <= x < n <= children.len(),
    ensures
        0 <= k < n,
        content::name_order(children, n)[k] == x,
    decreases n,
{
    laws::walk_follows_name_order(children, n);
    laws::walk_follows_name_order(children, (n - 1) as nat);
    let before = content::name_order(children, (n - 1) as nat);
    let at = laws::lemma_placed_is_inserted(children, before, n - 1);
    if x == n - 1 {
        at
    } else {
        let k = lemma_walk_reaches_all(children, (n - 1) as nat, x);
        if k < at {
            k
        } else {
            k + 1
        }
    }
}

proof fn lemma_walk_grows(
    root: Seq<char>,
    prefix: Seq<Seq<char>>,
    children: Seq<DiskEntry>,
    a: nat,
    b: nat,
)
    requires
        a <= b,
    ensures
        content::listing(root, prefix, children, a).entries.is_prefix_of(
            content::listing(root, prefix, children, b).entries,
        ),
        content::listing(root, prefix, children, a).warnings.is_prefix_of(
            content::listing(root, prefix, children, b).warnings,
        ),
    decreases b,
{
    if a < b {
        lemma_walk_grows(root, prefix, children, a, (b - 1) as nat);
    }
}

/// Nothing is sent of a directory that holds nothing but what is skipped.
proof fn lemma_bare_walk(
    root: Seq<char>,
    prefix: Seq<Seq<char>>,
    children: Seq<DiskEntry>,
    n: nat,
)
    requires
        n <= children.len(),
    ensures
        content::listing(root, prefix, children, n).has_content <==> exists|k: int|
            0 <= k < n && !is_skipped(
                children[#[trigger] content::name_order(children, children.len())[k]],
            ),
    decreases n,
{
    if n > 0 {
        content::lemma_name_order_range(children, children.len());
        lemma_bare_walk(root, prefix, children, (n - 1) as nat);
        let order = content::name_order(children, children.len());
        let child = children[order[n - 1]];
        if content::listing(root, prefix, children, (n - 1) as nat).has_content {
            let k = choose|k: int| 0 <= k < n - 1 && !is_skipped(children[#[trigger] order[k]]);
            assert(!is_skipped(children[order[k]]));
        }
    }
}

proof fn lemma_bare(root: Seq<char>, prefix: Seq<Seq<char>>, children: Seq<DiskEntry>)
    ensures
        content::listing(root, prefix, children, children.len()).has_content <==> exists|i: int|
            0 <= i < children.len() && !is_skipped(#[trigger] children[i]),
{
    lemma_bare_walk(root, prefix, children, children.len());
    content::lemma_name_order_range(children, children.len());
    let order = content::name_order(children, children.len());
    if exists|i: int| 0 <= i < children.len() && !is_skipped(#[trigger] children[i]) {
        let i = choose|i: int| 0 <= i < children.len() && !is_skipped(#[trigger] children[i]);
        let k = lemma_walk_reaches_all(children, children.len(), i);
        assert(!is_skipped(children[order[k]]));
    }
}

proof fn lemma_path_of(root: Seq<char>, prefix: Seq<Seq<char>>, names: Seq<Seq<char>>)
    requires
        names.len() > 0,
    ensures
        prefix.push(names[0]) + names.skip(1) == prefix + names,
        names.len() == 1 ==> prefix.push(names[0]) == prefix + names,
{
    assert(prefix.push(names[0]) + names.skip(1) =~= prefix + names);
    if names.len() == 1 {
        assert(prefix.push(names[0]) =~= prefix + names);
    }
}

proof fn lemma_last(found: Seq<EntryView>, entry: EntryView)
    ensures
        found.push(entry).contains(entry),
{
    assert(found.push(entry)[found.len() as int] == entry);
}

proof fn lemma_prefix_holds<T>(a: Seq<T>, b: Seq<T>, x: T)
    requires
        a.is_prefix_of(b),
        a.contains(x),
    ensures
        b.contains(x),
{
    let i = choose|i: int| 0 <= i < a.len() && a[i] == x;
    assert(b[i] == x);
}

proof fn lemma_back_holds<T>(a: Seq<T>, b: Seq<T>, x: T)
    requires
        b.contains(x),
    ensures
        (a + b).contains(x),
{
    let i = choose|i: int| 0 <= i < b.len() && b[i] == x;
    assert((a + b)[a.len() + i] == x);
}

/// The walk reports the thing to which one of its entries leads.
proof fn lemma_walk_reports(
    root: Seq<char>,
    prefix: Seq<Seq<char>>,
    children: Seq<DiskEntry>,
    k: int,
    names: Seq<Seq<char>>,
    what: Standing,
)
    requires
        0 <= k < children.len(),
        leads_to(
            children[content::name_order(children, children.len())[k]],
            names,
            what,
        ),
    ensures
        reports(
            content::listing(root, prefix, children, children.len()),
            root,
            prefix + names,
            what,
        ),
    decreases children,
{
    content::lemma_name_order_range(children, children.len());
    let order = content::name_order(children, children.len());
    let child = children[order[k]];
    let below = prefix.push(child.name@);
    let before = content::listing(root, prefix, children, k as nat);
    let after = content::listing(root, prefix, children, (k + 1) as nat);
    let all = content::listing(root, prefix, children, children.len());
    lemma_path_of(root, prefix, names);
    lemma_walk_grows(root, prefix, children, (k + 1) as nat, children.len());
    let entry = own_entry(root, prefix + names, what);
    let warning = own_warning(prefix + names, what);
    match child.kind {
        DiskKind::File { handle, .. } => {
            lemma_last(before.entries, entry);
            lemma_prefix_holds(after.entries, all.entries, entry);
        },
        DiskKind::Directory { children: inner } => {
            let found = content::listing(root, below, inner@, inner@.len());
            if names.len() == 1 {
                lemma_bare(root, below, inner@);
                lemma_last(before.entries + found.entries, entry);
                lemma_prefix_holds(after.entries, all.entries, entry);
            } else {
                let rest = names.skip(1);
                let i = lemma_way(inner@, rest, what);
                let j = lemma_walk_reaches_all(inner@, inner@.len(), i);
                assert(decreases_to!(children => child));
                lemma_walk_reports(root, below, inner@, j, rest, what);
                assert(below + rest == prefix + names);
                if what is File || what is BareDirectory {
                    lemma_back_holds(before.entries, found.entries, entry);
                    lemma_prefix_holds(before.entries + found.entries, after.entries, entry);
                    lemma_prefix_holds(after.entries, all.entries, entry);
                } else {
                    lemma_back_holds(before.warnings, found.warnings, warning);
                    lemma_prefix_holds(after.warnings, all.warnings, warning);
                }
            }
        },
        DiskKind::Symlink => {
            assert(after.warnings[before.warnings.len() as int] == warning);
            lemma_prefix_holds(after.warnings, all.warnings, warning);
        },
        DiskKind::Other => {
            assert(after.warnings[before.warnings.len() as int] == warning);
            lemma_prefix_holds(after.warnings, all.warnings, warning);
        },
    }
}

/// The walk through a directory tree reports everything that stands in it, each thing under its
/// own path: a file with its own content, a bare directory as such, and a warning for what is
/// skipped.
pub proof fn walk_reports_everything(
    root: Seq<char>,
    children: Seq<DiskEntry>,
    names: Seq<Seq<char>>,
    what: Standing,
)
    requires
        stands(children, names, what),
    ensures
        reports(
            content::listing(root, Seq::empty(), children, children.len()),
            root,
            names,
            what,
        ),
{
    let i = lemma_way(children, names, what);
    let k = lemma_walk_reaches_all(children, children.len(), i);
    lemma_walk_reports(root, Seq::empty(), children, k, names, what);
    assert(Seq::<Seq<char>>::empty() + names =~= names);
}

/// Every file of a directory tree is in the archive, under its own path and with its own
/// content, and it is written there.
pub proof fn archive_holds_every_file(
    root: Seq<char>,
    children: Seq<DiskEntry>,
    names: Seq<Seq<char>>,
    handle: u64,
) -> (at: int)
    requires
        stands(children, names, Standing::File { handle }),
    ensures
        0 <= at < content::archive_entries(root, children).len(),
        content::archive_entries(root, children)[at].archive_path == text::joined(
            seq![root] + names,
            "/"@,
        ),
        content::archive_entries(root, children)[at].disk_file == Some(handle),
        !content::archive_entries(root, children)[at].is_dir,
        content::planned(content::archive_entries(root, children)[at])
            == EntryPlan::DeflatedFile(handle),
{
    let what = Standing::File { handle };
    walk_reports_everything(root, children, names, what);
    let entries = content::listing(root, Seq::empty(), children, children.len()).entries;
    let entry = own_entry(root, names, what);
    let at = choose|at: int| 0 <= at < entries.len() && entries[at] == entry;
    at
}

/// The entry of the archive comes from the directory tree.
pub open spec fn comes_from(
    root: Seq<char>,
    prefix: Seq<Seq<char>>,
    children: Seq<DiskEntry>,
    entry: EntryView,
) -> bool {
    exists|names: Seq<Seq<char>>, what: Standing|
        (what is File || what is BareDirectory) && #[trigger] stands(children, names, what) && entry
            == own_entry(root, prefix + names, what)
}

/// The warning comes from the directory tree.
pub open spec fn warns_of(
    prefix: Seq<Seq<char>>,
    children: Seq<DiskEntry>,
    warning: Seq<char>,
) -> bool {
    exists|names: Seq<Seq<char>>, what: Standing|
        (what is Symlink || what is Other) && #[trigger] stands(children, names, what) && warning
            == own_warning(prefix + names, what)
}

proof fn lemma_stands_here(
    children: Seq<DiskEntry>,
    i: int,
    prefix: Seq<Seq<char>>,
    what: Standing,
)
    requires
        0 <= i < children.len(),
        is_kind(children[i].kind, what),
    ensures
        stands(children, seq![children[i].name@], what),
        prefix + seq![children[i].name@] == prefix.push(children[i].name@),
{
    lemma_stands(children, i, seq![children[i].name@], what);
    assert(prefix + seq![children[i].name@] =~= prefix.push(children[i].name@));
}

proof fn lemma_stands_below(
    children: Seq<DiskEntry>,
    i: int,
    inner: Seq<DiskEntry>,
    prefix: Seq<Seq<char>>,
    rest: Seq<Seq<char>>,
    what: Standing,
)
    requires
        0 <= i < children.len(),
        children[i].kind matches DiskKind::Directory { children: own } && own@ == inner,
        stands(inner, rest, what),
    ensures
        stands(children, seq![children[i].name@] + rest, what),
        prefix + (seq![children[i].name@] + rest) == prefix.push(children[i].name@) + rest,
{
    let names = seq![children[i].name@] + rest;
    assert(names.skip(1) =~= rest);
    lemma_stands(children, i, names, what);
    assert(prefix + names =~= prefix.push(children[i].name@) + rest);
}

proof fn lemma_walk_invents_nothing(
    root: Seq<char>,
    prefix: Seq<Seq<char>>,
    children: Seq<DiskEntry>,
    n: nat,
)
    requires
        n <= children.len(),
    ensures
        forall|i: int|
            0 <= i < content::listing(root, prefix, children, n).entries.len() ==> comes_from(
                root,
                prefix,
                children,
                #[trigger] content::listing(root, prefix, children, n).entries[i],
            ),
        forall|i: int|
            0 <= i < content::listing(root, prefix, children, n).warnings.len() ==> warns_of(
                prefix,
                children,
                #[trigger] content::listing(root, prefix, children, n).warnings[i],
            ),
    decreases children, n,
{
    if n > 0 {
        content::lemma_name_order_range(children, children.len());
        lemma_walk_invents_nothing(root, prefix, children, (n - 1) as nat);
        let at = content::name_order(children, children.len())[n - 1];
        let child = children[at];
        let below = prefix.push(child.name@);
        let before = content::listing(root, prefix, children, (n - 1) as nat);
        let after = content::listing(root, prefix, children, n);
        match child.kind {
            DiskKind::File { handle, .. } => {
                lemma_stands_here(children, at, prefix, Standing::File { handle });
                let entry = own_entry(root, below, Standing::File { handle });
                assert(comes_from(root, prefix, children, entry));
                assert forall|i: int| 0 <= i < after.entries.len() implies comes_from(
                    root,
                    prefix,
                    children,
                    #[trigger] after.entries[i],
                ) by {
                    if i < before.entries.len() {
                        assert(after.entries[i] == before.entries[i]);
                    }
                }
            },
            DiskKind::Directory { children: inner } => {
                let found = content::listing(root, below, inner@, inner@.len());
                assert(decreases_to!(children => child));
                lemma_walk_invents_nothing(root, below, inner@, inner@.len());
                lemma_bare(root, below, inner@);
                assert forall|i: int| 0 <= i < after.entries.len() implies comes_from(
                    root,
                    prefix,
                    children,
                    #[trigger] after.entries[i],
                ) by {
                    let j = i - before.entries.len();
                    if j < 0 {
                        assert(after.entries[i] == before.entries[i]);
                    } else if j < found.entries.len() {
                        assert(after.entries[i] == found.entries[j]);
                        let (rest, what) = choose|rest: Seq<Seq<char>>, what: Standing|
                            (what is File || what is BareDirectory) && #[trigger] stands(
                                inner@,
                                rest,
                                what,
                            ) && found.entries[j] == own_entry(root, below + rest, what);
                        lemma_stands_below(children, at, inner@, prefix, rest, what);
                    } else {
                        lemma_stands_here(children, at, prefix, Standing::BareDirectory);
                    }
                }
                assert forall|i: int| 0 <= i < after.warnings.len() implies warns_of(
                    prefix,
                    children,
                    #[trigger] after.warnings[i],
                ) by {
                    let j = i - before.warnings.len();
                    if j < 0 {
                        assert(after.warnings[i] == before.warnings[i]);
                    } else {
                        assert(after.warnings[i] == found.warnings[j]);
                        let (rest, what) = choose|rest: Seq<Seq<char>>, what: Standing|
                            (what is Symlink || what is Other) && #[trigger] stands(
                                inner@,
                                rest,
                                what,
                            ) && found.warnings[j] == own_warning(below + rest, what);
                        lemma_stands_below(children, at, inner@, prefix, rest, what);
                    }
                }
            },
            _ => {
                let what = if child.kind is Symlink {
                    Standing::Symlink
                } else {
                    Standing::Other
                };
                lemma_stands_here(children, at, prefix, what);
                assert(warns_of(prefix, children, own_warning(below, what)));
                assert forall|i: int| 0 <= i < after.warnings.len() implies warns_of(
                    prefix,
                    children,
                    #[trigger] after.warnings[i],
                ) by {
                    if i < before.warnings.len() {
                        assert(after.warnings[i] == before.warnings[i]);
                    }
                }
            },
        }
    }
}

/// A file in an archive has the path and the content of one and the same file of the directory
/// tree; a directory in it is a bare directory of the tree, or the root of a tree of which
/// nothing else is sent.
pub proof fn archive_holds_nothing_else(root: Seq<char>, children: Seq<DiskEntry>, i: int)
    requires
        0 <= i < content::archive_entries(root, children).len(),
    ensures
        content::archive_entries(root, children)[i].disk_file matches Some(handle) ==> exists|
            names: Seq<Seq<char>>,
        | #[trigger]
            stands(children, names, Standing::File { handle }) && content::archive_entries(
                root,
                children,
            )[i].archive_path == text::joined(seq![root] + names, "/"@),
        content::archive_entries(root, children)[i].is_dir ==> (content::archive_entries(
            root,
            children,
        )[i].archive_path == root + "/"@ && forall|k: int|
            0 <= k < children.len() ==> is_skipped(#[trigger] children[k])) || exists|
            names: Seq<Seq<char>>,
        | #[trigger]
            stands(children, names, Standing::BareDirectory) && content::archive_entries(
                root,
                children,
            )[i].archive_path == text::joined(seq![root] + names, "/"@) + "/"@,
{
    let found = content::listing(root, Seq::empty(), children, children.len());
    lemma_walk_invents_nothing(root, Seq::empty(), children, children.len());
    if found.entries.len() == 0 {
        lemma_bare(root, Seq::empty(), children);
        if found.has_content {
            let k = choose|k: int| 0 <= k < children.len() && !is_skipped(#[trigger] children[k]);
            lemma_something_is_sent(root, children, k);
        }
    } else {
        let entry = found.entries[i];
        let (names, what) = choose|names: Seq<Seq<char>>, what: Standing|
            (what is File || what is BareDirectory) && #[trigger] stands(children, names, what)
                && entry == own_entry(root, Seq::empty() + names, what);
        assert(Seq::<Seq<char>>::empty() + names =~= names);
        if let Some(handle) = entry.disk_file {
            assert(what == Standing::File { handle });
            assert(stands(children, names, Standing::File { handle }));
        } else {
            assert(what == Standing::BareDirectory);
            assert(stands(children, names, Standing::BareDirectory));
        }
    }
}

proof fn lemma_something_stands(child: DiskEntry) -> (res: (Seq<Seq<char>>, Standing))
    requires
        !is_skipped(child),
    ensures
        res.1 is File || res.1 is BareDirectory,
        leads_to(child, res.0, res.1),
    decreases child,
{
    let here = seq![child.name@];
    match child.kind {
        DiskKind::File { handle, .. } => (here, Standing::File { handle }),
        DiskKind::Directory { children } => {
            if forall|i: int| 0 <= i < children@.len() ==> is_skipped(#[trigger] children@[i]) {
                (here, Standing::BareDirectory)
            } else {
                let i = choose|i: int|
                    0 <= i < children@.len() && !is_skipped(#[trigger] children@[i]);
                let (rest, what) = lemma_something_stands(children@[i]);
                let names = here + rest;
                assert(names.skip(1) =~= rest);
                lemma_stands(children@, i, rest, what);
                (names, what)
            }
        },
        _ => (here, Standing::Other),
    }
}

proof fn lemma_something_is_sent(root: Seq<char>, children: Seq<DiskEntry>, k: int)
    requires
        0 <= k < children.len(),
        !is_skipped(children[k]),
    ensures
        content::listing(root, Seq::empty(), children, children.len()).entries.len() > 0,
{
    let (names, what) = lemma_something_stands(children[k]);
    lemma_stands(children, k, names, what);
    walk_reports_everything(root, children, names, what);
}

/// A warning names something that stands in the directory tree and is skipped, and why it is.
pub proof fn warnings_name_what_is_skipped(root: Seq<char>, children: Seq<DiskEntry>, i: int)
    requires
        0 <= i < content::listing(root, Seq::empty(), children, children.len()).warnings.len(),
    ensures
        ({
            let warning = content::listing(
                root,
                Seq::empty(),
                children,
                children.len(),
            ).warnings[i];
            exists|names: Seq<Seq<char>>|
                (#[trigger] stands(children, names, Standing::Symlink) && warning
                    == "Skipping symlink "@ + text::joined(names, "/"@)) || (stands(
                    children,
                    names,
                    Standing::Other,
                ) && warning == "Skipping unsupported entry "@ + text::joined(names, "/"@))
        }),
{
    lemma_walk_invents_nothing(root, Seq::empty(), children, children.len());
    let warning = content::listing(root, Seq::empty(), children, children.len()).warnings[i];
    let (names, what) = choose|names: Seq<Seq<char>>, what: Standing|
        (what is Symlink || what is Other) && #[trigger] stands(children, names, what) && warning
            == own_warning(Seq::empty() + names, what);
    assert(Seq::<Seq<char>>::empty() + names =~= names);
    assert(stands(children, names, Standing::Symlink) || stands(children, names, Standing::Other));
}

/// Names are ordered by their first byte that differs, and a name comes before those that it
/// begins.
pub proof fn names_are_ordered_bytewise(
    start: Seq<u8>,
    x: u8,
    y: u8,
    a: Seq<u8>,
    b: Seq<u8>,
)
    requires
        x < y,
    ensures
        content::bytes_in_order(start + seq![x] + a, start + seq![y] + b),
        !content::bytes_in_order(start + seq![y] + b, start + seq![x] + a),
        content::bytes_in_order(start, start + a),
        a.len() > 0 ==> !content::bytes_in_order(start + a, start),
    decreases start.len(),
{
    let first = start + seq![x] + a;
    let second = start + seq![y] + b;
    if start.len() > 0 {
        let rest = start.skip(1);
        names_are_ordered_bytewise(rest, x, y, a, b);
        assert(first.skip(1) =~= rest + seq![x] + a);
        assert(second.skip(1) =~= rest + seq![y] + b);
        assert((start + a).skip(1) =~= rest + a);
    } else {
        assert(first[0] == x && second[0] == y);
    }
}

/// Of two files in one directory, the one whose name comes first in the order of the bytes
/// comes first in the archive.
pub proof fn archive_follows_names(
    root: Seq<char>,
    children: Seq<DiskEntry>,
    i: int,
    j: int,
    first: u64,
    second: u64,
) -> (res: (int, int))
    requires
        0 <= i < children.len(),
        0 <= j < children.len(),
        is_kind(children[i].kind, Standing::File { handle: first }),
        is_kind(children[j].kind, Standing::File { handle: second }),
        !content::bytes_in_order(children[j].raw_name@, children[i].raw_name@),
    ensures
        0 <= res.0 < res.1 < content::archive_entries(root, children).len(),
        content::archive_entries(root, children)[res.0].disk_file == Some(first),
        content::archive_entries(root, children)[res.0].archive_path == root + "/"@
            + children[i].name@,
        content::archive_entries(root, children)[res.1].disk_file == Some(second),
        content::archive_entries(root, children)[res.1].archive_path == root + "/"@
            + children[j].name@,
{
    let order = content::name_order(children, children.len());
    laws::walk_follows_name_order(children, children.len());
    let a = lemma_walk_reaches_all(children, children.len(), i);
    let b = lemma_walk_reaches_all(children, children.len(), j);
    assert(a < b) by {
        if b <= a {
            assert(content::bytes_in_order(
                children[order[b]].raw_name@,
                children[order[a]].raw_name@,
            ));
        }
    }
    let none = Seq::<Seq<char>>::empty();
    let p = content::listing(root, none, children, a as nat).entries.len() as int;
    let q = content::listing(root, none, children, b as nat).entries.len() as int;
    lemma_walk_grows(root, none, children, (a + 1) as nat, b as nat);
    lemma_walk_grows(root, none, children, (a + 1) as nat, children.len());
    lemma_walk_grows(root, none, children, (b + 1) as nat, children.len());
    lemma_short_path(root, children[i].name@);
    lemma_short_path(root, children[j].name@);
    let all = content::listing(root, none, children, children.len()).entries;
    assert(content::listing(root, none, children, (a + 1) as nat).entries[p] == all[p]);
    assert(content::listing(root, none, children, (b + 1) as nat).entries[q] == all[q]);
    (p, q)
}

proof fn lemma_short_path(root: Seq<char>, name: Seq<char>)
    ensures
        content::archive_path(root, Seq::empty().push(name), false) == root + "/"@ + name,
{
    let parts = seq![root] + Seq::<Seq<char>>::empty().push(name);
    assert(parts.drop_last() =~= seq![root]);
    assert(parts.last() == name);
    assert(text::joined(seq![root], "/"@) == root);
}

/// The names of the entries differ, byte for byte.
pub open spec fn names_differ(children: Seq<DiskEntry>) -> bool {
    forall|i: int, j: int|
        0 <= i < j < children.len() ==> (#[trigger] children[i]).raw_name@ != (
        #[trigger] children[j]).raw_name@
}

/// The entries in the order in which they are walked.
spec fn walked(children: Seq<DiskEntry>) -> Seq<DiskEntry> {
    content::name_order(children, children.len()).map_values(|i: int| children[i])
}

proof fn lemma_order_is_strict(a: Seq<u8>, b: Seq<u8>)
    requires
        content::bytes_in_order(a, b),
        content::bytes_in_order(b, a),
    ensures
        a == b,
    decreases a.len(),
{
    if a.len() > 0 && b.len() > 0 {
        lemma_order_is_strict(a.skip(1), b.skip(1));
        assert(a =~= seq![a[0]] + a.skip(1));
        assert(b =~= seq![b[0]] + b.skip(1));
    } else {
        assert(a =~= b);
    }
}

proof fn lemma_walked(children: Seq<DiskEntry>)
    requires
        names_differ(children),
    ensures
        walked(children).len() == children.len(),
        forall|x: DiskEntry| walked(children).contains(x) <==> children.contains(x),
        forall|i: int, j: int|
            0 <= i < j < children.len() ==> content::bytes_in_order(
                (#[trigger] walked(children)[i]).raw_name@,
                (#[trigger] walked(children)[j]).raw_name@,
            ) && walked(children)[i].raw_name@ != walked(children)[j].raw_name@,
{
    laws::walk_follows_name_order(children, children.len());
    let order = content::name_order(children, children.len());
    let list = walked(children);
    assert forall|x: DiskEntry| list.contains(x) <==> children.contains(x) by {
        if list.contains(x) {
            let k = choose|k: int| 0 <= k < list.len() && list[k] == x;
            assert(children[order[k]] == x);
        }
        if children.contains(x) {
            let i = choose|i: int| 0 <= i < children.len() && children[i] == x;
            let k = lemma_walk_reaches_all(children, children.len(), i);
            assert(list[k] == x);
        }
    }
    assert forall|i: int, j: int| 0 <= i < j < children.len() implies content::bytes_in_order(
        (#[trigger] list[i]).raw_name@,
        (#[trigger] list[j]).raw_name@,
    ) && list[i].raw_name@ != list[j].raw_name@ by {
        let a = order[i];
        let b = order[j];
        assert(a != b);
        if a < b {
            assert(children[a].raw_name@ != children[b].raw_name@);
        } else {
            assert(children[b].raw_name@ != children[a].raw_name@);
        }
    }
}

/// Two sequences in strict order with the same elements begin alike.
proof fn lemma_same_start(a: Seq<DiskEntry>, b: Seq<DiskEntry>, n: nat)
    requires
        n <= a.len(),
        a.len() == b.len(),
        forall|x: DiskEntry| a.contains(x) <==> b.contains(x),
        forall|i: int, j: int|
            0 <= i < j < a.len() ==> content::bytes_in_order(
                (#[trigger] a[i]).raw_name@,
                (#[trigger] a[j]).raw_name@,
            ) && a[i].raw_name@ != a[j].raw_name@,
        forall|i: int, j: int|
            0 <= i < j < b.len() ==> content::bytes_in_order(
                (#[trigger] b[i]).raw_name@,
                (#[trigger] b[j]).raw_name@,
            ) && b[i].raw_name@ != b[j].raw_name@,
    ensures
        forall|k: int| 0 <= k < n ==> a[k] == b[k],
    decreases n,
{
    if n > 0 {
        lemma_same_start(a, b, (n - 1) as nat);
        let last = n - 1;
        assert(a.contains(a[last]) && b.contains(b[last]));
        let i = choose|i: int| 0 <= i < b.len() && b[i] == a[last];
        let j = choose|j: int| 0 <= j < a.len() && a[j] == b[last];
        if i < last {
            assert(a[i] == a[last]);
            assert(a[i].raw_name@ != a[last].raw_name@);
        }
        if j < last {
            assert(b[j] == b[last]);
            assert(b[j].raw_name@ != b[last].raw_name@);
        }
        if i > last && j > last {
            assert(content::bytes_in_order(b[last].raw_name@, b[i].raw_name@));
            assert(content::bytes_in_order(a[last].raw_name@, a[j].raw_name@));
            lemma_order_is_strict(a[last].raw_name@, b[last].raw_name@);
            assert(b[last].raw_name@ != b[i].raw_name@);
        }
    }
}

proof fn lemma_same_walk(
    root: Seq<char>,
    a: Seq<DiskEntry>,
    b: Seq<DiskEntry>,
    n: nat,
)
    requires
        n <= a.len(),
        walked(a) == walked(b),
        a.len() == b.len(),
    ensures
        content::listing(root, Seq::empty(), a, n) == content::listing(root, Seq::empty(), b, n),
    decreases n,
{
    if n > 0 {
        lemma_same_walk(root, a, b, (n - 1) as nat);
        content::lemma_name_order_range(a, a.len());
        content::lemma_name_order_range(b, b.len());
        assert(walked(a)[n - 1] == a[content::name_order(a, a.len())[n - 1]]);
        assert(walked(b)[n - 1] == b[content::name_order(b, b.len())[n - 1]]);
    }
}

/// In whatever order the disk lists the entries of a directory, the archive is the same, and so
/// are the warnings.
pub proof fn disk_order_does_not_matter(root: Seq<char>, a: Seq<DiskEntry>, b: Seq<DiskEntry>)
    requires
        names_differ(a),
        names_differ(b),
        a.len() == b.len(),
        forall|x: DiskEntry| a.contains(x) <==> b.contains(x),
    ensures
        content::archive_entries(root, a) == content::archive_entries(root, b),
        content::listing(root, Seq::empty(), a, a.len()).warnings == content::listing(
            root,
            Seq::empty(),
            b,
            b.len(),
        ).warnings,
{
    lemma_walked(a);
    lemma_walked(b);
    assert forall|x: DiskEntry| walked(a).contains(x) <==> walked(b).contains(x) by {
        assert(walked(a).contains(x) <==> a.contains(x));
        assert(walked(b).contains(x) <==> b.contains(x));
    }
    lemma_same_start(walked(a), walked(b), a.len());
    assert(walked(a) =~= walked(b));
    lemma_same_walk(root, a, b, a.len());
}

/// A whole file is sent from its first byte to its last, a part of it as it was asked for, and
/// an archive as a whole only.
pub proof fn stream_is_what_was_asked_for(
    content: ContentSource,
    range: Option<(u64, u64)>,
    plan: StreamPlan,
)
    requires
        call_ensures(ContentSource::stream_plan, (&content, range), plan),
    ensures
        plan is WholeFile <==> content.kind is File && range is None,
        plan matches StreamPlan::FileRange { start, length } ==> content.kind is File && range
            == Some((start, length)),
        content.kind is File && range is Some ==> plan is FileRange,
        plan is Archive <==> content.kind is DirectoryZip && range is None,
        plan is Refused <==> content.kind is DirectoryZip && range is Some,
        plan matches StreamPlan::Refused { reason } ==> reason@
            == "range requests are not supported for directory archives"@,
{
}

} // verus!
