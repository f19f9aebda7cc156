//! The rows of a local directory listing: directories first, then files,
//! each group by name.

use vstd::prelude::*;
use vstd::utf8::encode_utf8;
use crate::text::octal;
use crate::text::octal_digits;
use crate::timestamps::format_timestamp;
use crate::timestamps::modified_text;
use crate::units::render_size;
use crate::units::size_text;

verus! {

/// One row of a local directory listing.
#[derive(Debug, PartialEq, Eq)]
pub struct FileEntry {
    pub name: String,
    pub entry_type: String,
    pub size: String,
    pub last_modified: String,
    pub permissions: String,
    pub owner: String,
    pub group: String,
}

/// A row as plain values.
pub struct FileEntryView {
    pub name: Seq<char>,
    pub entry_type: Seq<char>,
    pub size: Seq<char>,
    pub last_modified: Seq<char>,
    pub permissions: Seq<char>,
    pub owner: Seq<char>,
    pub group: Seq<char>,
}

impl View for FileEntry {
    type V = FileEntryView;

    open spec fn view(&self) -> FileEntryView {
        FileEntryView {
            name: self.name@,
            entry_type: self.entry_type@,
            size: self.size@,
            last_modified: self.last_modified@,
            permissions: self.permissions@,
            owner: self.owner@,
            group: self.group@,
        }
    }
}

/// The size column of a listing: the number, a space, the unit.
pub fn format_size(size: u64) -> (s: String)
    ensures
        s@ == size_text(size as nat, seq![' ']),
{
    proof {
        reveal_strlit(" ");
    }
    assert(" "@ =~= seq![' ']);
    render_size(size, " ")
}

/// What the file system tells of the access rights of an entry.
#[derive(Debug, Clone, Copy, PartialEq, Eq, Structural)]
pub enum LocalPermissions {
    /// The mode bits, where the system has them.
    Mode(u32),
    /// Whether the entry is read-only, where that is all the system tells.
    ReadOnly(bool),
}

/// What the file system tells of one entry.
#[derive(Debug, Clone, Copy, PartialEq, Eq, Structural)]
pub struct LocalMetadata {
    pub is_dir: bool,
    pub is_file: bool,
    pub len: u64,
    /// Seconds from the start of 1970 to the last modification, if known.
    pub modified_secs: Option<u64>,
    pub permissions: LocalPermissions,
}

/// One entry of a local directory as it was read.
#[derive(Debug)]
pub struct LocalItem {
    pub name: String,
    pub metadata: LocalMetadata,
}

impl LocalItem {
    /// A copy of the entry.
    pub fn duplicate(&self) -> (copy: LocalItem)
        ensures
            copy == *self,
    {
        LocalItem { name: self.name.clone(), metadata: self.metadata }
    }
}

/// The text of the access rights.
pub open spec fn permissions_text(permissions: LocalPermissions) -> Seq<char> {
    match permissions {
        LocalPermissions::Mode(mode) => octal_digits((mode & 0o777) as nat),
        LocalPermissions::ReadOnly(true) => "r--"@,
        LocalPermissions::ReadOnly(false) => "rw-"@,
    }
}

/// The row for one entry.
pub open spec fn local_entry(item: LocalItem) -> FileEntryView {
    FileEntryView {
        name: item.name@,
        entry_type: if item.metadata.is_dir {
            "directory"@
        } else {
            "file"@
        },
        size: if item.metadata.is_file {
            size_text(item.metadata.len as nat, seq![' '])
        } else {
            "-"@
        },
        last_modified: match item.metadata.modified_secs {
            Some(secs) => modified_text(secs),
            None => "-"@,
        },
        permissions: permissions_text(item.metadata.permissions),
        owner: Seq::empty(),
        group: Seq::empty(),
    }
}

/// Whether the bytes of `a` from position `i` on come before those of `b`
/// in the order of a dictionary.
pub open spec fn bytes_less_from(a: Seq<u8>, b: Seq<u8>, i: int) -> bool
    decreases a.len() - i,
{
    if i < 0 || i >= a.len() {
        i < b.len()
    } else if i >= b.len() {
        false
    } else {
        a[i] < b[i] || (a[i] == b[i] && bytes_less_from(a, b, i + 1))
    }
}

/// Whether the name `a` comes before the name `b`: by their bytes, in the
/// order of a dictionary.
pub open spec fn name_before(a: Seq<char>, b: Seq<char>) -> bool {
    bytes_less_from(encode_utf8(a), encode_utf8(b), 0)
}

/// Whether entry `a` has to stand before entry `b`: a directory before
/// anything that is none; among directories, and among the rest, the
/// smaller name first.
pub open spec fn sorts_before(a: LocalItem, b: LocalItem) -> bool {
    if a.metadata.is_dir == b.metadata.is_dir {
        name_before(a.name@, b.name@)
    } else {
        a.metadata.is_dir
    }
}

/// A sorted list with one more entry in its place: behind every entry that
/// it does not have to stand before.
pub open spec fn insert_sorted(sorted: Seq<LocalItem>, item: LocalItem) -> Seq<LocalItem>
    decreases sorted.len(),
{
    if sorted.len() == 0 {
        seq![item]
    } else if sorts_before(item, sorted.last()) {
        insert_sorted(sorted.drop_last(), item).push(sorted.last())
    } else {
        sorted.push(item)
    }
}

/// The entries in the order of the listing; entries that neither have to
/// stand before the other keep the order in which they were read.
pub open spec fn sorted_items(items: Seq<LocalItem>) -> Seq<LocalItem>
    decreases items.len(),
{
    if items.len() == 0 {
        Seq::empty()
    } else {
        insert_sorted(sorted_items(items.drop_last()), items.last())
    }
}

/// The rows of the listing of the given entries.
pub open spec fn local_listing(items: Seq<LocalItem>) -> Seq<FileEntryView> {
    Seq::new(items.len(), |i: int| local_entry(sorted_items(items)[i]))
}

/// The rows as plain values.
pub open spec fn entry_views(entries: Seq<FileEntry>) -> Seq<FileEntryView> {
    Seq::new(entries.len(), |i: int| entries[i]@)
}

/// Whether the name `a` comes before the name `b`.
pub fn name_comes_before(a: &str, b: &str) -> (before: bool)
    ensures
        before == name_before(a@, b@),
{
    let x = a.as_bytes_vec();
    let y = b.as_bytes_vec();
    let mut i: usize = 0;
    while i < x.len() && i < y.len()
        invariant
            i <= x.len(),
            i <= y.len(),
            x@ == encode_utf8(a@),
            y@ == encode_utf8(b@),
            bytes_less_from(x@, y@, 0) == bytes_less_from(x@, y@, i as int),
        decreases x.len() - i,
    {
        if x[i] < y[i] {
            return true;
        }
        if x[i] > y[i] {
            return false;
        }
        i += 1;
    }
    i < y.len()
}

/// Whether entry `a` has to stand before entry `b`.
pub fn comes_before(a: &LocalItem, b: &LocalItem) -> (before: bool)
    ensures
        before == sorts_before(*a, *b),
{
    if a.metadata.is_dir == b.metadata.is_dir {
        name_comes_before(a.name.as_str(), b.name.as_str())
    } else {
        a.metadata.is_dir
    }
}

proof fn lemma_insert_at(sorted: Seq<LocalItem>, item: LocalItem, at: int)
    requires
        0 <= at <= sorted.len(),
        forall|j: int| at <= j < sorted.len() ==> sorts_before(item, #[trigger] sorted[j]),
        at > 0 ==> !sorts_before(item, sorted[at - 1]),
    ensures
        insert_sorted(sorted, item) == sorted.insert(at, item),
    decreases sorted.len() - at,
{
    if at == sorted.len() {
        if sorted.len() > 0 {
            assert(sorted.last() == sorted[at - 1]);
        }
        assert(sorted.insert(at, item) =~= sorted.push(item));
        if sorted.len() == 0 {
            assert(sorted.push(item) =~= seq![item]);
        }
    } else {
        let front = sorted.drop_last();
        assert(sorts_before(item, sorted[sorted.len() - 1]));
        assert forall|j: int| at <= j < front.len() implies sorts_before(
            item,
            #[trigger] front[j],
        ) by {
            assert(front[j] == sorted[j]);
        }
        if at > 0 {
            assert(front[at - 1] == sorted[at - 1]);
        }
        lemma_insert_at(front, item, at);
        assert(front.insert(at, item).push(sorted.last()) =~= sorted.insert(at, item));
    }
}

/// Puts the entries into the order of the listing.
pub fn sort_items(items: &Vec<LocalItem>) -> (sorted: Vec<LocalItem>)
    ensures
        sorted@ == sorted_items(items@),
        sorted.len() == items.len(),
{
    let mut sorted: Vec<LocalItem> = Vec::new();
    let mut i: usize = 0;
    assert(items@.subrange(0, 0) =~= Seq::<LocalItem>::empty());
    while i < items.len()
        invariant
            i <= items.len(),
            sorted.len() == i,
            sorted@ == sorted_items(items@.subrange(0, i as int)),
        decreases items.len() - i,
    {
        let item = items[i].duplicate();
        let mut at: usize = sorted.len();
        while at > 0 && comes_before(&item, &sorted[at - 1])
            invariant
                at <= sorted.len(),
                forall|j: int| at <= j < sorted.len() ==> sorts_before(item, #[trigger] sorted@[j]),
            decreases at,
        {
            at -= 1;
        }
        proof {
            lemma_insert_at(sorted@, item, at as int);
            assert(items@.subrange(0, i + 1).drop_last() =~= items@.subrange(0, i as int));
            assert(items@.subrange(0, i + 1).last() == items@[i as int]);
        }
        sorted.insert(at, item);
        i += 1;
    }
    assert(items@.subrange(0, i as int) =~= items@);
    sorted
}

/// Makes the row for one entry.
pub fn make_local_entry(item: &LocalItem) -> (entry: FileEntry)
    ensures
        entry@ == local_entry(*item),
{
    proof {
        reveal_strlit("");
    }
    let entry_type = if item.metadata.is_dir {
        String::from_str("directory")
    } else {
        String::from_str("file")
    };
    let size = if item.metadata.is_file {
        format_size(item.metadata.len)
    } else {
        String::from_str("-")
    };
    let last_modified = match item.metadata.modified_secs {
        Some(secs) => format_timestamp(secs),
        None => String::from_str("-"),
    };
    let permissions = match item.metadata.permissions {
        LocalPermissions::Mode(mode) => octal((mode & 0o777) as u64),
        LocalPermissions::ReadOnly(true) => String::from_str("r--"),
        LocalPermissions::ReadOnly(false) => String::from_str("rw-"),
    };
    let owner = String::from_str("");
    let group = String::from_str("");
    assert(owner@ =~= Seq::<char>::empty());
    FileEntry {
        name: item.name.clone(),
        entry_type,
        size,
        last_modified,
        permissions,
        owner,
        group,
    }
}

/// Makes the rows of a local directory listing from the entries as they
/// were read: directories first, each group by name.
pub fn list_local_directory(items: &Vec<LocalItem>) -> (entries: Vec<FileEntry>)
    ensures
        entry_views(entries@) == local_listing(items@),
{
    let sorted = sort_items(items);
    let mut entries: Vec<FileEntry> = Vec::new();
    let mut i: usize = 0;
    while i < sorted.len()
        invariant
            i <= sorted.len(),
            entries.len() == i,
            forall|j: int| 0 <= j < i ==> (#[trigger] entries@[j])@ == local_entry(sorted@[j]),
        decreases sorted.len() - i,
    {
        let entry = make_local_entry(&sorted[i]);
        entries.push(entry);
        i += 1;
    }
    assert(entry_views(entries@) =~= local_listing(items@));
    entries
}

proof fn lemma_bytes_order(a: Seq<u8>, b: Seq<u8>, c: Seq<u8>, i: int)
    requires
        0 <= i,
    ensures
        bytes_less_from(a, b, i) ==> !bytes_less_from(b, a, i),
        bytes_less_from(a, c, i) ==> bytes_less_from(a, b, i) || bytes_less_from(b, c, i),
    decreases a.len() - i,
{
    if i < a.len() {
        lemma_bytes_order(a, b, c, i + 1);
    }
}

/// The order of the listing is a strict one: of two entries at most one
/// has to stand before the other, and an entry that has to stand before a
/// second one stands before every third one or lets it stand before the
/// second.
pub proof fn lemma_sorts_before_is_strict(a: LocalItem, b: LocalItem, c: LocalItem)
    ensures
        sorts_before(a, b) ==> !sorts_before(b, a),
        sorts_before(a, c) ==> sorts_before(a, b) || sorts_before(b, c),
{
    lemma_bytes_order(encode_utf8(a.name@), encode_utf8(b.name@), encode_utf8(c.name@), 0);
}

/// Whether no entry of the list stands behind one that it has to stand
/// before.
pub open spec fn in_listing_order(items: Seq<LocalItem>) -> bool {
    forall|i: int, j: int|
        0 <= i < j < items.len() ==> !sorts_before(#[trigger] items[j], #[trigger] items[i])
}

proof fn lemma_insert_position(sorted: Seq<LocalItem>, item: LocalItem) -> (at: int)
    ensures
        0 <= at <= sorted.len(),
        insert_sorted(sorted, item) == sorted.insert(at, item),
        forall|j: int| at <= j < sorted.len() ==> sorts_before(item, #[trigger] sorted[j]),
        at > 0 ==> !sorts_before(item, sorted[at - 1]),
    decreases sorted.len(),
{
    if sorted.len() == 0 {
        assert(sorted.insert(0, item) =~= seq![item]);
        0
    } else if sorts_before(item, sorted.last()) {
        let front = sorted.drop_last();
        let at = lemma_insert_position(front, item);
        assert(front.insert(at, item).push(sorted.last()) =~= sorted.insert(at, item));
        assert forall|j: int| at <= j < sorted.len() implies sorts_before(
            item,
            #[trigger] sorted[j],
        ) by {
            if j < front.len() {
                assert(front[j] == sorted[j]);
            }
        }
        if at > 0 {
            assert(front[at - 1] == sorted[at - 1]);
        }
        at
    } else {
        assert(sorted.insert(sorted.len() as int, item) =~= sorted.push(item));
        sorted.len() as int
    }
}

proof fn lemma_insert_keeps_order(sorted: Seq<LocalItem>, item: LocalItem)
    requires
        in_listing_order(sorted),
    ensures
        in_listing_order(insert_sorted(sorted, item)),
        insert_sorted(sorted, item).len() == sorted.len() + 1,
        insert_sorted(sorted, item).to_multiset() == sorted.to_multiset().insert(item),
{
    broadcast use vstd::seq_lib::to_multiset_insert;

    let at = lemma_insert_position(sorted, item);
    let after = sorted.insert(at, item);
    assert forall|i: int, j: int| 0 <= i < j < after.len() implies !sorts_before(
        #[trigger] after[j],
        #[trigger] after[i],
    ) by {
        if j == at {
            assert(after[j] == item);
            assert(after[i] == sorted[i]);
            if i < at - 1 {
                lemma_sorts_before_is_strict(item, sorted[at - 1], sorted[i]);
                assert(!sorts_before(sorted[at - 1], sorted[i]));
            }
        } else if i == at {
            assert(after[i] == item);
            assert(after[j] == sorted[j - 1]);
            assert(sorts_before(item, sorted[j - 1]));
            lemma_sorts_before_is_strict(item, sorted[j - 1], item);
        } else {
            let i0 = if i < at { i } else { i - 1 };
            let j0 = if j < at { j } else { j - 1 };
            assert(after[i] == sorted[i0]);
            assert(after[j] == sorted[j0]);
        }
    }
}

/// The listing holds the entries that were read, each as often as it was
/// read, and in an order in which no entry stands behind one that it has to
/// stand before.
pub proof fn lemma_listing_is_sorted(items: Seq<LocalItem>)
    ensures
        sorted_items(items).len() == items.len(),
        sorted_items(items).to_multiset() == items.to_multiset(),
        in_listing_order(sorted_items(items)),
    decreases items.len(),
{
    broadcast use vstd::seq_lib::to_multiset_build;

    if items.len() == 0 {
        assert(sorted_items(items) =~= items);
    } else {
        lemma_listing_is_sorted(items.drop_last());
        lemma_insert_keeps_order(sorted_items(items.drop_last()), items.last());
        assert(items.drop_last().push(items.last()) =~= items);
    }
}

} // verus!
