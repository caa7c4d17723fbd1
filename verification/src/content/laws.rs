//! What holds of every archive.
use vstd::prelude::*;

use crate::content;
use crate::content::{DiskEntry, DiskKind, EntryPlan, EntryView, Listing};
use crate::text;

verus! {

/// An archive has at least one entry.
pub proof fn archive_is_never_empty(root: Seq<char>, children: Seq<DiskEntry>)
    ensures
        content::archive_entries(root, children).len() > 0,
{
}

proof fn lemma_joined_starts(root: Seq<char>, names: Seq<Seq<char>>)
    requires
        names.len() > 0,
    ensures
        text::starts_with(text::joined(seq![root] + names, "/"@), root + "/"@),
    decreases names.len(),
{
    let parts = seq![root] + names;
    assert(parts.drop_last() =~= seq![root] + names.drop_last());
    let prefix = root + "/"@;
    if names.len() == 1 {
        assert(parts.drop_last() =~= seq![root]);
        assert(text::joined(seq![root], "/"@) == root);
        assert(text::joined(parts, "/"@).subrange(0, prefix.len() as int) =~= prefix);
    } else {
        lemma_joined_starts(root, names.drop_last());
        let front = text::joined(parts.drop_last(), "/"@);
        assert(text::joined(parts, "/"@).subrange(0, prefix.len() as int) =~= front.subrange(
            0,
            prefix.len() as int,
        ));
    }
}

/// The entry lies below the root; it is a directory with a slash at its end, or a file that
/// is found on disk.
pub open spec fn is_below(root: Seq<char>, entry: EntryView) -> bool {
    &&& text::starts_with(entry.archive_path, root + "/"@)
    &&& entry.is_dir <==> entry.disk_file is None
    &&& entry.is_dir ==> text::ends_with(entry.archive_path, "/"@)
}

proof fn lemma_path_is_below(root: Seq<char>, names: Seq<Seq<char>>, file: Option<u64>)
    requires
        names.len() > 0,
    ensures
        is_below(
            root,
            EntryView {
                archive_path: content::archive_path(root, names, file is None),
                disk_file: file,
                is_dir: file is None,
            },
        ),
{
    lemma_joined_starts(root, names);
    let path = text::joined(seq![root] + names, "/"@);
    let prefix = root + "/"@;
    assert((path + "/"@).subrange(0, prefix.len() as int) =~= path.subrange(
        0,
        prefix.len() as int,
    ));
    assert((path + "/"@).subrange(path.len() as int, (path + "/"@).len() as int) =~= "/"@);
}

/// Nothing in an archive lies outside of its root directory.
pub proof fn archive_stays_below_root(root: Seq<char>, children: Seq<DiskEntry>, i: int)
    requires
        0 <= i < content::archive_entries(root, children).len(),
    ensures
        is_below(root, content::archive_entries(root, children)[i]),
{
    lemma_listing_below(root, Seq::empty(), children, children.len());
    let path = root + "/"@;
    assert(path.subrange(0, path.len() as int) =~= path);
    assert(path.subrange(root.len() as int, path.len() as int) =~= "/"@);
}

proof fn lemma_listing_below(
    root: Seq<char>,
    names: Seq<Seq<char>>,
    children: Seq<DiskEntry>,
    n: nat,
)
    ensures
        forall|i: int|
            0 <= i < content::listing(root, names, children, n).entries.len() ==> is_below(
                root,
                #[trigger] content::listing(root, names, children, n).entries[i],
            ),
    decreases children, n,
{
    if n > 0 {
        let before = content::listing(root, names, children, (n - 1) as nat).entries;
        lemma_listing_below(root, names, children, (n - 1) as nat);
        let at = content::name_order(children, children.len())[n - 1];
        if 0 <= at < children.len() {
            let child = children[at];
            let below = names.push(child.name@);
            let all = content::listing(root, names, children, n).entries;
            match child.kind {
                DiskKind::File { size, handle } => {
                    lemma_path_is_below(root, below, Some(handle));
                    assert forall|i: int| 0 <= i < all.len() implies is_below(
                        root,
                        #[trigger] all[i],
                    ) by {
                        if i < before.len() {
                            assert(all[i] == before[i]);
                        }
                    }
                },
                DiskKind::Directory { children: inner } => {
                    let found = content::listing(root, below, inner@, inner@.len()).entries;
                    lemma_listing_below(root, below, inner@, inner@.len());
                    lemma_path_is_below(root, below, None);
                    assert forall|i: int| 0 <= i < all.len() implies is_below(
                        root,
                        #[trigger] all[i],
                    ) by {
                        if i < before.len() {
                            assert(all[i] == before[i]);
                        } else if i < before.len() + found.len() {
                            assert(all[i] == found[i - before.len()]);
                        }
                    }
                },
                _ => {},
            }
        }
    }
}

/// What is counted in a directory tree.
pub enum Tally {
    Files,
    Bytes,
    Skipped,
}

/// The count for one entry and everything below it.
pub open spec fn tally_of(child: DiskEntry, what: Tally) -> nat
    decreases child, 0nat,
{
    match child.kind {
        DiskKind::File { size, .. } => match what {
            Tally::Files => 1,
            Tally::Bytes => size as nat,
            Tally::Skipped => 0,
        },
        DiskKind::Directory { children } => tree_tally(children@, children@.len(), what),
        DiskKind::Symlink => if what is Skipped {
            1
        } else {
            0
        },
        DiskKind::Other => if what is Skipped {
            1
        } else {
            0
        },
    }
}

/// The count for the first `n` entries of a directory and everything below them, in the order
/// in which the disk gave them.
pub open spec fn tree_tally(children: Seq<DiskEntry>, n: nat, what: Tally) -> nat
    decreases children, n,
{
    if n == 0 || n > children.len() {
        0
    } else {
        tree_tally(children, (n - 1) as nat, what) + tally_of(children[n - 1], what)
    }
}

/// The number of files among archive entries.
pub open spec fn file_count(entries: Seq<EntryView>) -> nat
    decreases entries.len(),
{
    if entries.len() == 0 {
        0
    } else {
        file_count(entries.drop_last()) + if entries.last().is_dir {
            0nat
        } else {
            1nat
        }
    }
}

/// What a listing says of a count.
pub open spec fn listed(found: Listing, what: Tally) -> nat {
    match what {
        Tally::Files => file_count(found.entries),
        Tally::Bytes => found.size,
        Tally::Skipped => found.warnings.len(),
    }
}

spec fn order_tally(children: Seq<DiskEntry>, order: Seq<int>, what: Tally) -> nat
    decreases order.len(),
{
    if order.len() == 0 {
        0
    } else {
        order_tally(children, order.drop_last(), what) + tally_of(children[order.last()], what)
    }
}

proof fn lemma_file_count_adds(a: Seq<EntryView>, b: Seq<EntryView>)
    ensures
        file_count(a + b) == file_count(a) + file_count(b),
    decreases b.len(),
{
    if b.len() > 0 {
        lemma_file_count_adds(a, b.drop_last());
        assert((a + b).drop_last() =~= a + b.drop_last());
    } else {
        assert(a + b =~= a);
    }
}

proof fn lemma_placed_tally(children: Seq<DiskEntry>, order: Seq<int>, x: int, what: Tally)
    ensures
        order_tally(children, content::placed(children, order, x), what) == order_tally(
            children,
            order,
            what,
        ) + tally_of(children[x], what),
    decreases order.len(),
{
    if order.len() == 0 || content::bytes_in_order(
        children[order.last()].raw_name@,
        children[x].raw_name@,
    ) {
        assert(order.push(x).drop_last() =~= order);
    } else {
        let front = content::placed(children, order.drop_last(), x);
        lemma_placed_tally(children, order.drop_last(), x, what);
        assert(front.push(order.last()).drop_last() =~= front);
    }
}

proof fn lemma_order_tally(children: Seq<DiskEntry>, n: nat, what: Tally)
    requires
        n <= children.len(),
    ensures
        order_tally(children, content::name_order(children, n), what) == tree_tally(children, n, what),
    decreases n,
{
    if n > 0 {
        lemma_order_tally(children, (n - 1) as nat, what);
        lemma_placed_tally(children, content::name_order(children, (n - 1) as nat), n - 1, what);
    }
}

proof fn lemma_listed(
    root: Seq<char>,
    names: Seq<Seq<char>>,
    children: Seq<DiskEntry>,
    n: nat,
    what: Tally,
)
    requires
        n <= children.len(),
    ensures
        listed(content::listing(root, names, children, n), what) == order_tally(
            children,
            content::name_order(children, children.len()).take(n as int),
            what,
        ),
    decreases children, n,
{
    let order = content::name_order(children, children.len());
    content::lemma_name_order_range(children, children.len());
    if n > 0 {
        lemma_listed(root, names, children, (n - 1) as nat, what);
        assert(order.take(n as int).drop_last() =~= order.take(n - 1));
        let before = content::listing(root, names, children, (n - 1) as nat);
        let after = content::listing(root, names, children, n);
        let child = children[order[n - 1]];
        let below = names.push(child.name@);
        match child.kind {
            DiskKind::File { .. } => {
                assert(after.entries.drop_last() =~= before.entries);
            },
            DiskKind::Directory { children: inner } => {
                lemma_listed(root, below, inner@, inner@.len(), what);
                lemma_order_tally(inner@, inner@.len(), what);
                content::lemma_name_order_range(inner@, inner@.len());
                assert(content::name_order(inner@, inner@.len()).take(inner@.len() as int) =~= content::name_order(
                    inner@,
                    inner@.len(),
                ));
                let found = content::listing(root, below, inner@, inner@.len());
                lemma_file_count_adds(before.entries, found.entries);
                if !found.has_content {
                    assert(after.entries.drop_last() =~= before.entries + found.entries);
                }
            },
            _ => {},
        }
    }
}

/// The walk loses nothing and invents nothing: it lists as many files as the directory tree
/// holds, adds up their sizes, and warns once for each entry that it skips.
pub proof fn listing_accounts_for_tree(root: Seq<char>, children: Seq<DiskEntry>, what: Tally)
    ensures
        listed(content::listing(root, Seq::empty(), children, children.len()), what) == tree_tally(
            children,
            children.len(),
            what,
        ),
{
    lemma_listed(root, Seq::empty(), children, children.len(), what);
    lemma_order_tally(children, children.len(), what);
    content::lemma_name_order_range(children, children.len());
    assert(content::name_order(children, children.len()).take(children.len() as int) =~= content::name_order(
        children,
        children.len(),
    ));
}

proof fn lemma_order_is_total(a: Seq<u8>, b: Seq<u8>)
    ensures
        content::bytes_in_order(a, b) || content::bytes_in_order(b, a),
    decreases a.len(),
{
    if a.len() > 0 && b.len() > 0 && a[0] == b[0] {
        lemma_order_is_total(a.skip(1), b.skip(1));
    }
}

proof fn lemma_order_is_transitive(a: Seq<u8>, b: Seq<u8>, c: Seq<u8>)
    requires
        content::bytes_in_order(a, b),
        content::bytes_in_order(b, c),
    ensures
        content::bytes_in_order(a, c),
    decreases a.len(),
{
    if a.len() > 0 && a[0] == b[0] && b[0] == c[0] {
        lemma_order_is_transitive(a.skip(1), b.skip(1), c.skip(1));
    }
}

proof fn lemma_placed_is_sorted(children: Seq<DiskEntry>, order: Seq<int>, x: int)
    requires
        forall|i: int, j: int|
            0 <= i <= j < order.len() ==> content::bytes_in_order(
                children[#[trigger] order[i]].raw_name@,
                children[#[trigger] order[j]].raw_name@,
            ),
    ensures
        content::placed(children, order, x).len() == order.len() + 1,
        forall|i: int, j: int|
            0 <= i <= j <= order.len() ==> content::bytes_in_order(
                children[#[trigger] content::placed(children, order, x)[i]].raw_name@,
                children[#[trigger] content::placed(children, order, x)[j]].raw_name@,
            ),
        forall|i: int|
            0 <= i <= order.len() ==> (#[trigger] content::placed(children, order, x)[i] == x
                || exists|k: int| 0 <= k < order.len() && order[k] == content::placed(children, order, x)[i]),
    decreases order.len(),
{
    let key = children[x].raw_name@;
    lemma_order_is_total(key, key);
    if order.len() == 0 {
    } else if content::bytes_in_order(children[order.last()].raw_name@, key) {
        assert(order.last() == order[order.len() - 1]);
        assert forall|i: int| 0 <= i < order.len() implies content::bytes_in_order(
            children[#[trigger] order[i]].raw_name@,
            key,
        ) by {
            lemma_order_is_transitive(
                children[order[i]].raw_name@,
                children[order[order.len() - 1]].raw_name@,
                key,
            );
        }
    } else {
        let front = order.drop_last();
        let last = order.last();
        assert(last == order[order.len() - 1]);
        lemma_placed_is_sorted(children, front, x);
        lemma_order_is_total(children[last].raw_name@, key);
        lemma_order_is_total(children[last].raw_name@, children[last].raw_name@);
        let inner = content::placed(children, front, x);
        assert forall|i: int| 0 <= i < inner.len() implies content::bytes_in_order(
            children[#[trigger] inner[i]].raw_name@,
            children[last].raw_name@,
        ) by {
            if inner[i] != x {
                let k = choose|k: int| 0 <= k < front.len() && front[k] == inner[i];
                assert(order[k] == inner[i]);
                assert(content::bytes_in_order(
                    children[order[k]].raw_name@,
                    children[order[order.len() - 1]].raw_name@,
                ));
            }
        }
        let all = content::placed(children, order, x);
        assert(all == inner.push(last));
        assert forall|i: int| 0 <= i <= order.len() implies (#[trigger] all[i] == x || exists|k: int|
            0 <= k < order.len() && order[k] == all[i]) by {
            if i < inner.len() {
                assert(all[i] == inner[i]);
                if inner[i] != x {
                    let k = choose|k: int| 0 <= k < front.len() && front[k] == inner[i];
                    assert(order[k] == all[i]);
                }
            } else {
                assert(order[order.len() - 1] == all[i]);
            }
        }
    }
}

pub(crate) proof fn lemma_placed_is_inserted(children: Seq<DiskEntry>, order: Seq<int>, x: int) -> (at: int)
    ensures
        0 <= at <= order.len(),
        content::placed(children, order, x) == order.insert(at, x),
    decreases order.len(),
{
    if order.len() == 0 || content::bytes_in_order(
        children[order.last()].raw_name@,
        children[x].raw_name@,
    ) {
        assert(order.insert(order.len() as int, x) =~= order.push(x));
        order.len() as int
    } else {
        let at = lemma_placed_is_inserted(children, order.drop_last(), x);
        assert(order.insert(at, x) =~= order.drop_last().insert(at, x).push(order.last()));
        at
    }
}

/// The entries of a directory are walked in the order of their names, each of them once.
pub proof fn walk_follows_name_order(children: Seq<DiskEntry>, n: nat)
    requires
        n <= children.len(),
    ensures
        content::name_order(children, n).len() == n,
        content::name_order(children, n).no_duplicates(),
        forall|k: int| 0 <= k < n ==> 0 <= #[trigger] content::name_order(children, n)[k] < n,
        forall|i: int, j: int|
            0 <= i <= j < n ==> content::bytes_in_order(
                children[#[trigger] content::name_order(children, n)[i]].raw_name@,
                children[#[trigger] content::name_order(children, n)[j]].raw_name@,
            ),
    decreases n,
{
    if n > 0 {
        walk_follows_name_order(children, (n - 1) as nat);
        let before = content::name_order(children, (n - 1) as nat);
        lemma_placed_is_sorted(children, before, n - 1);
        content::lemma_name_order_range(children, n);
        let at = lemma_placed_is_inserted(children, before, n - 1);
        let after = content::name_order(children, n);
        assert(after == before.insert(at, n - 1));
        assert forall|i: int, j: int| 0 <= i < j < n implies after[i] != after[j] by {
            let a = if i < at {
                i
            } else {
                i - 1
            };
            let b = if j < at {
                j
            } else {
                j - 1
            };
            if i != at {
                assert(after[i] == before[a]);
            }
            if j != at {
                assert(after[j] == before[b]);
            }
        }
    }
}

/// No entry that the walk found is left out of the archive.
pub proof fn archive_skips_nothing(root: Seq<char>, children: Seq<DiskEntry>, i: int)
    requires
        0 <= i < content::archive_entries(root, children).len(),
    ensures
        content::planned(content::archive_entries(root, children)[i]) != EntryPlan::Skip,
{
    archive_stays_below_root(root, children, i);
}

/// The name is one component of a path, and so are the names below it; no two entries of one
/// directory have the same name.
pub open spec fn is_clear(child: DiskEntry) -> bool
    decreases child, 0nat,
{
    &&& !child.name@.contains('/')
    &&& match child.kind {
        DiskKind::Directory { children } => names_are_clear(children@),
        _ => true,
    }
}

/// The names in a directory tree tell its entries apart.
pub open spec fn names_are_clear(children: Seq<DiskEntry>) -> bool
    decreases children, 1nat,
{
    &&& forall|i: int, j: int|
        0 <= i < j < children.len() ==> (#[trigger] children[i]).name@ != (
        #[trigger] children[j]).name@
    &&& forall|i: int| 0 <= i < children.len() ==> is_clear(#[trigger] children[i])
}

/// `path` is `base` or lies below it.
spec fn belongs(path: Seq<char>, base: Seq<char>) -> bool {
    path == base || text::starts_with(path, base + "/"@)
}

spec fn base_of(root: Seq<char>, names: Seq<Seq<char>>) -> Seq<char> {
    text::joined(seq![root] + names, "/"@)
}

proof fn lemma_base_grows(root: Seq<char>, names: Seq<Seq<char>>, name: Seq<char>)
    ensures
        base_of(root, names.push(name)) == base_of(root, names) + "/"@ + name,
{
    let parts = seq![root] + names.push(name);
    assert(parts.drop_last() =~= seq![root] + names);
    assert(parts.last() == name);
}

proof fn lemma_below_belongs(path: Seq<char>, root: Seq<char>, names: Seq<Seq<char>>, name: Seq<char>)
    requires
        belongs(path, base_of(root, names.push(name))),
    ensures
        text::starts_with(path, base_of(root, names) + "/"@),
{
    lemma_base_grows(root, names, name);
    let base = base_of(root, names) + "/"@;
    let longer = base_of(root, names.push(name));
    if path == longer {
        assert(path.subrange(0, base.len() as int) =~= base);
    } else {
        let prefix = longer + "/"@;
        assert(path.subrange(0, prefix.len() as int) == prefix);
        assert(path.subrange(0, base.len() as int) =~= prefix.subrange(0, base.len() as int));
        assert(prefix.subrange(0, base.len() as int) =~= base);
    }
}

proof fn lemma_no_belonging_to_two(
    path: Seq<char>,
    root: Seq<char>,
    names: Seq<Seq<char>>,
    a: Seq<char>,
    b: Seq<char>,
)
    requires
        belongs(path, base_of(root, names.push(a))),
        belongs(path, base_of(root, names.push(b))),
        !a.contains('/'),
        !b.contains('/'),
    ensures
        a == b,
{
    reveal_strlit("/");
    lemma_base_grows(root, names, a);
    lemma_base_grows(root, names, b);
    let base = base_of(root, names) + "/"@;
    lemma_component_is_read(path, base, a);
    lemma_component_is_read(path, base, b);
    if a.len() < b.len() {
        assert(b[a.len() as int] == path[(base.len() + a.len()) as int]);
        assert(b.contains('/'));
    } else if b.len() < a.len() {
        assert(a[b.len() as int] == path[(base.len() + b.len()) as int]);
        assert(a.contains('/'));
    } else {
        assert(a =~= b);
    }
}

proof fn lemma_component_is_read(path: Seq<char>, base: Seq<char>, name: Seq<char>)
    requires
        belongs(path, base + name),
    ensures
        path.len() >= base.len() + name.len(),
        forall|i: int| 0 <= i < name.len() ==> path[base.len() + i] == #[trigger] name[i],
        path.len() > base.len() + name.len() ==> path[(base.len() + name.len()) as int] == '/',
{
    reveal_strlit("/");
    if path == base + name {
    } else {
        let prefix = base + name + "/"@;
        let front = path.subrange(0, prefix.len() as int);
        assert(front == prefix);
        assert forall|i: int| 0 <= i < name.len() implies path[base.len() + i]
            == #[trigger] name[i] by {
            assert(front[base.len() + i] == prefix[base.len() + i]);
        }
        assert(front[(base.len() + name.len()) as int] == prefix[(base.len() + name.len()) as int]);
    }
}

/// The name of the entry that is walked at position `k`.
spec fn walked_name(children: Seq<DiskEntry>, k: int) -> Seq<char> {
    children[content::name_order(children, children.len())[k]].name@
}

proof fn lemma_empty_walk(
    root: Seq<char>,
    names: Seq<Seq<char>>,
    children: Seq<DiskEntry>,
    n: nat,
)
    ensures
        !content::listing(root, names, children, n).has_content ==> content::listing(
            root,
            names,
            children,
            n,
        ).entries.len() == 0,
    decreases n,
{
    if n > 0 {
        lemma_empty_walk(root, names, children, (n - 1) as nat);
    }
}

/// What a walk finds belongs to the entries that it has walked, and no path comes twice.
proof fn lemma_walk_is_distinct(
    root: Seq<char>,
    names: Seq<Seq<char>>,
    children: Seq<DiskEntry>,
    n: nat,
)
    requires
        n <= children.len(),
        names_are_clear(children),
    ensures
        forall|i: int|
            0 <= i < content::listing(root, names, children, n).entries.len() ==> exists|k: int|
                0 <= k < n && belongs(
                    (#[trigger] content::listing(
                        root,
                        names,
                        children,
                        n,
                    ).entries[i]).archive_path,
                    base_of(root, names.push(#[trigger] walked_name(children, k))),
                ),
        forall|i: int, j: int|
            0 <= i < j < content::listing(root, names, children, n).entries.len() ==> (
            #[trigger] content::listing(root, names, children, n).entries[i]).archive_path != (
            #[trigger] content::listing(root, names, children, n).entries[j]).archive_path,
    decreases children, n,
{
    if n > 0 {
        let last = n - 1;
        let order = content::name_order(children, children.len());
        walk_follows_name_order(children, children.len());
        lemma_walk_is_distinct(root, names, children, last as nat);
        let before = content::listing(root, names, children, last as nat).entries;
        let after = content::listing(root, names, children, n).entries;
        let child = children[order[last]];
        assert(is_clear(child));
        let below = names.push(child.name@);
        let own = base_of(root, below);
        assert(walked_name(children, last) == child.name@);
        assert(before.len() <= after.len());
        assert forall|i: int| 0 <= i < before.len() implies after[i] == before[i] by {}
        match child.kind {
            DiskKind::Directory { children: inner } => {
                lemma_walk_is_distinct(root, below, inner@, inner@.len());
                lemma_empty_walk(root, below, inner@, inner@.len());
                let found = content::listing(root, below, inner@, inner@.len()).entries;
                assert forall|i: int| before.len() <= i < after.len() implies belongs(
                    (#[trigger] after[i]).archive_path,
                    own,
                ) by {
                    let at = i - before.len();
                    if at < found.len() {
                        assert(after[i] == found[at]);
                        let k = choose|k: int|
                            0 <= k < inner@.len() && belongs(
                                found[at].archive_path,
                                base_of(root, below.push(#[trigger] walked_name(inner@, k))),
                            );
                        lemma_below_belongs(
                            found[at].archive_path,
                            root,
                            below,
                            walked_name(inner@, k),
                        );
                    } else {
                        let path = after[i].archive_path;
                        assert(path == own + "/"@);
                        assert(path.subrange(0, path.len() as int) =~= path);
                    }
                }
                assert forall|i: int, j: int| before.len() <= i < j < after.len() implies (
                #[trigger] after[i]).archive_path != (#[trigger] after[j]).archive_path by {
                    assert(after[i] == found[i - before.len()]);
                    if j - before.len() < found.len() {
                        assert(after[j] == found[j - before.len()]);
                    }
                }
            },
            _ => {
                assert forall|i: int| before.len() <= i < after.len() implies belongs(
                    (#[trigger] after[i]).archive_path,
                    own,
                ) by {}
            },
        }
        assert forall|i: int| 0 <= i < after.len() implies exists|k: int|
            0 <= k < n && belongs(
                (#[trigger] after[i]).archive_path,
                base_of(root, names.push(#[trigger] walked_name(children, k))),
            ) by {
            if i < before.len() {
                assert(after[i] == before[i]);
                let k = choose|k: int|
                    0 <= k < last && belongs(
                        before[i].archive_path,
                        base_of(root, names.push(#[trigger] walked_name(children, k))),
                    );
                assert(belongs(
                    after[i].archive_path,
                    base_of(root, names.push(walked_name(children, k))),
                ));
            } else {
                assert(belongs(
                    after[i].archive_path,
                    base_of(root, names.push(walked_name(children, last))),
                ));
            }
        }
        assert forall|i: int, j: int| 0 <= i < j < after.len() implies (
        #[trigger] after[i]).archive_path != (#[trigger] after[j]).archive_path by {
            if j < before.len() {
                assert(after[i] == before[i] && after[j] == before[j]);
            } else if i < before.len() {
                assert(after[i] == before[i]);
                let k = choose|k: int|
                    0 <= k < last && belongs(
                        before[i].archive_path,
                        base_of(root, names.push(#[trigger] walked_name(children, k))),
                    );
                let a = order[k];
                let b = order[last];
                assert(a != b);
                assert(children[a].name@ != children[b].name@) by {
                    if a < b {
                        assert(children[a].name@ != children[b].name@);
                    } else {
                        assert(children[b].name@ != children[a].name@);
                    }
                }
                assert(is_clear(children[a]));
                if after[i].archive_path == after[j].archive_path {
                    lemma_no_belonging_to_two(
                        after[j].archive_path,
                        root,
                        names,
                        children[a].name@,
                        child.name@,
                    );
                }
            }
        }
    }
}

/// No entry of an archive takes the place of another: where the names in the directory tree
/// tell its entries apart, all paths in the archive differ.
pub proof fn archive_paths_differ(root: Seq<char>, children: Seq<DiskEntry>, i: int, j: int)
    requires
        names_are_clear(children),
        0 <= i < j < content::archive_entries(root, children).len(),
    ensures
        content::archive_entries(root, children)[i].archive_path != content::archive_entries(
            root,
            children,
        )[j].archive_path,
{
    lemma_walk_is_distinct(root, Seq::empty(), children, children.len());
}

} // verus!
