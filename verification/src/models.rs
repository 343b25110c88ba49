//! Data models for discovered archives: file entries, sorting and the
//! inventory that holds them.

use vstd::prelude::*;
use vstd::multiset::Multiset;
use vstd::std_specs::convert::FromSpec;

use core::cmp::Ordering;
use crate::operations::{format_size, human_size_of, BA2FileInfo};
use crate::text::{dec_str, lex_cmp, str_cmp, u32_to_string};

verus! {

/// One archive in the inventory.
#[derive(Debug, Clone, PartialEq, Eq)]
pub struct FileEntry {
    /// File name, without the path.
    pub file_name: String,
    /// File size in bytes.
    pub file_size: u64,
    /// Number of files contained in the archive.
    pub num_files: u32,
    /// Name of the parent directory, the mod folder.
    pub dir_name: String,
    /// Full path to the file.
    pub full_path: String,
    /// Whether the file appears to be corrupted.
    pub is_bad: bool,
}

/// Sorting criteria for file entries.
#[derive(Debug, Clone, Copy, PartialEq, Eq, Structural)]
pub enum SortBy {
    /// By file name, alphabetically.
    Name,
    /// By file size, smallest first.
    Size,
    /// By contained file count, fewest first.
    FileCount,
    /// By mod folder name, alphabetically.
    ModName,
}

/// Three-way comparison of two integers.
pub open spec fn cmp_int(a: int, b: int) -> Ordering {
    if a < b {
        Ordering::Less
    } else if a > b {
        Ordering::Greater
    } else {
        Ordering::Equal
    }
}

/// How two entries compare under a sorting criterion, in its natural
/// ascending direction.
pub open spec fn compare_spec(a: FileEntry, b: FileEntry, sort_by: SortBy) -> Ordering {
    match sort_by {
        SortBy::Name => lex_cmp(a.file_name@, b.file_name@),
        SortBy::Size => cmp_int(a.file_size as int, b.file_size as int),
        SortBy::FileCount => cmp_int(a.num_files as int, b.num_files as int),
        SortBy::ModName => lex_cmp(a.dir_name@, b.dir_name@),
    }
}

/// `a` may stand before `b` when sorting by the given criterion and
/// direction.
pub open spec fn le_entry(a: FileEntry, b: FileEntry, sort_by: SortBy, reverse: bool) -> bool {
    if reverse {
        compare_spec(a, b, sort_by) != Ordering::Less
    } else {
        compare_spec(a, b, sort_by) != Ordering::Greater
    }
}

/// Swapping the arguments of the lexicographic comparison flips its
/// answer.
pub proof fn lemma_lex_cmp_flip(a: Seq<char>, b: Seq<char>)
    ensures
        lex_cmp(b, a) == (match lex_cmp(a, b) {
            Ordering::Less => Ordering::Greater,
            Ordering::Equal => Ordering::Equal,
            Ordering::Greater => Ordering::Less,
        }),
    decreases a.len(),
{
    if a.len() > 0 && b.len() > 0 && (a[0] as u32) == (b[0] as u32) {
        lemma_lex_cmp_flip(a.drop_first(), b.drop_first());
    }
}

/// The lexicographic comparison is transitive in its non-strict form.
pub proof fn lemma_lex_cmp_trans(a: Seq<char>, b: Seq<char>, c: Seq<char>)
    requires
        lex_cmp(a, b) != Ordering::Greater,
        lex_cmp(b, c) != Ordering::Greater,
    ensures
        lex_cmp(a, c) != Ordering::Greater,
    decreases a.len(),
{
    if a.len() == 0 {
    } else {
        assert(b.len() > 0);
        assert(c.len() > 0);
        if (a[0] as u32) == (b[0] as u32) && (b[0] as u32) == (c[0] as u32) {
            lemma_lex_cmp_trans(a.drop_first(), b.drop_first(), c.drop_first());
        }
    }
}

/// One of two entries may always stand before the other: the order is
/// total.
pub proof fn lemma_le_entry_total(a: FileEntry, b: FileEntry, sort_by: SortBy, reverse: bool)
    ensures
        le_entry(a, b, sort_by, reverse) || le_entry(b, a, sort_by, reverse),
{
    match sort_by {
        SortBy::Name => lemma_lex_cmp_flip(a.file_name@, b.file_name@),
        SortBy::ModName => lemma_lex_cmp_flip(a.dir_name@, b.dir_name@),
        _ => (),
    }
}

/// The entry order is transitive.
pub proof fn lemma_le_entry_trans(
    a: FileEntry,
    b: FileEntry,
    c: FileEntry,
    sort_by: SortBy,
    reverse: bool,
)
    requires
        le_entry(a, b, sort_by, reverse),
        le_entry(b, c, sort_by, reverse),
    ensures
        le_entry(a, c, sort_by, reverse),
{
    if reverse {
        match sort_by {
            SortBy::Name => {
                lemma_lex_cmp_flip(a.file_name@, b.file_name@);
                lemma_lex_cmp_flip(b.file_name@, c.file_name@);
                lemma_lex_cmp_trans(c.file_name@, b.file_name@, a.file_name@);
                lemma_lex_cmp_flip(a.file_name@, c.file_name@);
            },
            SortBy::ModName => {
                lemma_lex_cmp_flip(a.dir_name@, b.dir_name@);
                lemma_lex_cmp_flip(b.dir_name@, c.dir_name@);
                lemma_lex_cmp_trans(c.dir_name@, b.dir_name@, a.dir_name@);
                lemma_lex_cmp_flip(a.dir_name@, c.dir_name@);
            },
            _ => (),
        }
    } else {
        match sort_by {
            SortBy::Name => lemma_lex_cmp_trans(a.file_name@, b.file_name@, c.file_name@),
            SortBy::ModName => lemma_lex_cmp_trans(a.dir_name@, b.dir_name@, c.dir_name@),
            _ => (),
        }
    }
}

/// Sequences that compare equal lexicographically are the same
/// sequence.
proof fn lemma_lex_eq(a: Seq<char>, b: Seq<char>)
    requires
        lex_cmp(a, b) == Ordering::Equal,
    ensures
        a == b,
    decreases a.len(),
{
    if a.len() == 0 {
        assert(b.len() == 0);
        assert(a =~= b);
    } else {
        assert(b.len() > 0);
        lemma_lex_eq(a.drop_first(), b.drop_first());
        vstd::utf8::char_u32_cast(a[0], a[0] as u32);
        vstd::utf8::char_u32_cast(b[0], b[0] as u32);
        assert(a[0] == b[0]);
        assert(a.len() == b.len());
        assert forall|i: int| 0 <= i < a.len() implies a[i] == b[i] by {
            if i > 0 {
                assert(a[i] == a.drop_first()[i - 1]);
                assert(b[i] == b.drop_first()[i - 1]);
            }
        }
        assert(a =~= b);
    }
}

/// Every sequence compares equal to itself.
proof fn lemma_lex_refl(s: Seq<char>)
    ensures
        lex_cmp(s, s) == Ordering::Equal,
    decreases s.len(),
{
    if s.len() > 0 {
        lemma_lex_refl(s.drop_first());
    }
}

/// Entries whose keys compare equal compare alike against any third
/// entry, on either side.
proof fn lemma_compare_equal_subst(a: FileEntry, b: FileEntry, c: FileEntry, sort_by: SortBy)
    requires
        compare_spec(b, c, sort_by) == Ordering::Equal,
    ensures
        compare_spec(a, b, sort_by) == compare_spec(a, c, sort_by),
        compare_spec(b, a, sort_by) == compare_spec(c, a, sort_by),
{
    match sort_by {
        SortBy::Name => lemma_lex_eq(b.file_name@, c.file_name@),
        SortBy::ModName => lemma_lex_eq(b.dir_name@, c.dir_name@),
        _ => (),
    }
}

/// Key equality is symmetric.
proof fn lemma_compare_equal_sym(x: FileEntry, y: FileEntry, sort_by: SortBy)
    requires
        compare_spec(x, y, sort_by) == Ordering::Equal,
    ensures
        compare_spec(y, x, sort_by) == Ordering::Equal,
{
    lemma_compare_equal_subst(y, x, y, sort_by);
    match sort_by {
        SortBy::Name => lemma_lex_refl(y.file_name@),
        SortBy::ModName => lemma_lex_refl(y.dir_name@),
        _ => (),
    }
}

/// `perm` witnesses that `sorted` is a stable rearrangement of
/// `original`: it maps each position of the result to the position its
/// entry came from, one-to-one, and entries whose keys compare equal
/// keep their original relative order.
pub open spec fn stable_perm(
    original: Seq<FileEntry>,
    sorted: Seq<FileEntry>,
    perm: Seq<int>,
    sort_by: SortBy,
) -> bool {
    &&& sorted.len() == original.len()
    &&& perm.len() == sorted.len()
    &&& forall|i: int| 0 <= i < perm.len() ==> 0 <= #[trigger] perm[i] < original.len()
    &&& forall|i: int| 0 <= i < perm.len() ==> sorted[i] == original[#[trigger] perm[i]]
    &&& forall|i: int, j: int| 0 <= i < j < perm.len() ==> #[trigger] perm[i] != #[trigger] perm[j]
    &&& forall|i: int, j: int|
        0 <= i < j < sorted.len() && compare_spec(
            #[trigger] sorted[i],
            #[trigger] sorted[j],
            sort_by,
        ) == Ordering::Equal ==> perm[i] < perm[j]
}

impl FileEntry {
    /// Create a new entry.
    pub fn new(
        file_name: String,
        file_size: u64,
        num_files: u32,
        dir_name: String,
        full_path: String,
        is_bad: bool,
    ) -> (r: FileEntry)
        ensures
            r == (FileEntry { file_name, file_size, num_files, dir_name, full_path, is_bad }),
    {
        FileEntry { file_name, file_size, num_files, dir_name, full_path, is_bad }
    }

    /// A human-readable rendering of the file size.
    pub fn size_display(&self) -> (r: String)
        ensures
            r@ == human_size_of(self.file_size),
    {
        format_size(self.file_size)
    }

    /// The file name, for display.
    pub fn name_display(&self) -> (r: &str)
        ensures
            r@ == self.file_name@,
    {
        self.file_name.as_str()
    }

    /// The contained file count, for display.
    pub fn file_count_display(&self) -> (r: String)
        ensures
            r@ == dec_str(self.num_files as nat),
    {
        u32_to_string(self.num_files)
    }

    /// The mod folder name, for display.
    pub fn mod_display(&self) -> (r: &str)
        ensures
            r@ == self.dir_name@,
    {
        self.dir_name.as_str()
    }

    /// Whether this entry is marked as bad.
    pub fn is_corrupted(&self) -> (r: bool)
        ensures
            r == self.is_bad,
    {
        self.is_bad
    }

    /// Compare two entries under a sorting criterion, ascending.
    pub fn compare(&self, other: &FileEntry, sort_by: SortBy) -> (r: Ordering)
        ensures
            r == compare_spec(*self, *other, sort_by),
    {
        match sort_by {
            SortBy::Name => str_cmp(self.file_name.as_str(), other.file_name.as_str()),
            SortBy::Size => cmp_u64(self.file_size, other.file_size),
            SortBy::FileCount => cmp_u64(self.num_files as u64, other.num_files as u64),
            SortBy::ModName => str_cmp(self.dir_name.as_str(), other.dir_name.as_str()),
        }
    }

    /// The default ordering of entries: by file size, largest first.
    pub fn cmp(&self, other: &FileEntry) -> (r: Ordering)
        ensures
            r == cmp_int(other.file_size as int, self.file_size as int),
    {
        cmp_u64(other.file_size, self.file_size)
    }

    /// The default ordering of entries, as a partial comparison.
    pub fn partial_cmp(&self, other: &FileEntry) -> (r: Option<Ordering>)
        ensures
            r == Some(cmp_int(other.file_size as int, self.file_size as int)),
    {
        Some(self.cmp(other))
    }
}

/// Three-way comparison of two machine integers.
fn cmp_u64(a: u64, b: u64) -> (r: Ordering)
    ensures
        r == cmp_int(a as int, b as int),
{
    if a < b {
        Ordering::Less
    } else if a > b {
        Ordering::Greater
    } else {
        Ordering::Equal
    }
}

/// Convert a scan result into a file entry, field for field.
impl From<BA2FileInfo> for FileEntry {
    fn from(info: BA2FileInfo) -> (r: FileEntry) {
        FileEntry {
            file_name: info.file_name,
            file_size: info.file_size,
            num_files: info.num_files,
            dir_name: info.dir_name,
            full_path: info.full_path,
            is_bad: info.is_bad,
        }
    }
}

impl vstd::std_specs::convert::FromSpecImpl<BA2FileInfo> for FileEntry {
    open spec fn obeys_from_spec() -> bool {
        true
    }

    open spec fn from_spec(info: BA2FileInfo) -> FileEntry {
        FileEntry {
            file_name: info.file_name,
            file_size: info.file_size,
            num_files: info.num_files,
            dir_name: info.dir_name,
            full_path: info.full_path,
            is_bad: info.is_bad,
        }
    }
}

/// The inventory: an ordered collection of file entries.
#[derive(Debug, Clone)]
pub struct FileEntryList {
    entries: Vec<FileEntry>,
}

impl View for FileEntryList {
    type V = Seq<FileEntry>;

    closed spec fn view(&self) -> Seq<FileEntry> {
        self.entries@
    }
}

/// The sum of the file sizes of the entries, unbounded.
pub open spec fn total_size_spec(s: Seq<FileEntry>) -> int
    decreases s.len(),
{
    if s.len() == 0 {
        0
    } else {
        total_size_spec(s.drop_last()) + s.last().file_size
    }
}

/// The sum of the contained file counts of the entries, unbounded.
pub open spec fn total_file_count_spec(s: Seq<FileEntry>) -> int
    decreases s.len(),
{
    if s.len() == 0 {
        0
    } else {
        total_file_count_spec(s.drop_last()) + s.last().num_files
    }
}

/// The entries of a sequence that are marked bad.
pub open spec fn bad_entries(s: Seq<FileEntry>) -> Seq<FileEntry> {
    s.filter(|e: FileEntry| e.is_bad)
}

/// The entries of a sequence that are not marked bad.
pub open spec fn good_entries(s: Seq<FileEntry>) -> Seq<FileEntry> {
    s.filter(|e: FileEntry| !e.is_bad)
}

impl FileEntryList {
    /// Create a new empty list.
    pub fn new() -> (r: FileEntryList)
        ensures
            r@ == Seq::<FileEntry>::empty(),
    {
        FileEntryList { entries: Vec::new() }
    }

    /// Create a list from a vector of entries.
    pub fn from_vec(entries: Vec<FileEntry>) -> (r: FileEntryList)
        ensures
            r@ == entries@,
    {
        FileEntryList { entries }
    }

    /// Create a list from scan results, converting each in order.
    pub fn from_scan_results(results: Vec<BA2FileInfo>) -> (r: FileEntryList)
        ensures
            r@.len() == results@.len(),
            forall|i: int|
                0 <= i < results@.len() ==> r@[i] == FileEntry::from_spec(results@[i]),
    {
        let mut entries: Vec<FileEntry> = Vec::new();
        let mut remaining = results;
        let ghost all = remaining@;
        while remaining.len() > 0
            invariant
                all.len() == entries@.len() + remaining@.len(),
                remaining@ == all.skip(entries@.len() as int),
                forall|k: int|
                    0 <= k < entries@.len() ==> entries@[k] == FileEntry::from_spec(all[k]),
            decreases remaining@.len(),
        {
            let ghost done: int = entries@.len() as int;
            let info = remaining.remove(0);
            proof {
                assert(info == all[done]);
                assert(remaining@ =~= all.skip(done + 1));
            }
            entries.push(FileEntry::from(info));
        }
        FileEntryList { entries }
    }

    /// Append an entry at the end.
    pub fn push(&mut self, entry: FileEntry)
        ensures
            final(self)@ == old(self)@.push(entry),
    {
        self.entries.push(entry);
    }

    /// The number of entries.
    pub fn len(&self) -> (r: usize)
        ensures
            r == self@.len(),
    {
        self.entries.len()
    }

    /// Whether the list holds no entries.
    pub fn is_empty(&self) -> (r: bool)
        ensures
            r == (self@.len() == 0),
    {
        self.entries.is_empty()
    }

    /// All entries, in order.
    pub fn entries(&self) -> (r: &Vec<FileEntry>)
        ensures
            r@ == self@,
    {
        &self.entries
    }

    /// Mutable access to all entries, for callers that edit in place.
    pub fn entries_mut(&mut self) -> (r: &mut Vec<FileEntry>)
        ensures
            r@ == old(self)@,
            final(self)@ == final(r)@,
    {
        &mut self.entries
    }

    /// The entry at an index, if the index is in range.
    pub fn get(&self, index: usize) -> (r: Option<&FileEntry>)
        ensures
            index < self@.len() ==> (r matches Some(e) && *e == self@[index as int]),
            index >= self@.len() ==> r is None,
    {
        if index < self.entries.len() {
            Some(&self.entries[index])
        } else {
            None
        }
    }

    /// Remove and return the entry at an index; out-of-range indices
    /// leave the list unchanged and return nothing.
    pub fn remove(&mut self, index: usize) -> (r: Option<FileEntry>)
        ensures
            index < old(self)@.len() ==> {
                &&& r == Some(old(self)@[index as int])
                &&& final(self)@ == old(self)@.remove(index as int)
            },
            index >= old(self)@.len() ==> {
                &&& r is None
                &&& final(self)@ == old(self)@
            },
    {
        if index < self.entries.len() {
            Some(self.entries.remove(index))
        } else {
            None
        }
    }

    /// Sort the entries by a criterion; `reverse` flips the direction.
    /// The result is a stable reordering of the same entries in which
    /// every pair stands in order: a one-to-one position map witnesses
    /// where each entry came from, and entries whose keys compare equal
    /// keep their original relative order.
    pub fn sort_by(&mut self, sort_by: SortBy, reverse: bool)
        ensures
            final(self)@.len() == old(self)@.len(),
            final(self)@.to_multiset() == old(self)@.to_multiset(),
            forall|i: int, j: int|
                0 <= i < j < final(self)@.len() ==> le_entry(
                    #[trigger] final(self)@[i],
                    #[trigger] final(self)@[j],
                    sort_by,
                    reverse,
                ),
            exists|perm: Seq<int>| stable_perm(old(self)@, final(self)@, perm, sort_by),
    {
        let ghost orig = self.entries@;
        let mut sorted: Vec<FileEntry> = Vec::new();
        let ghost mut idxs: Seq<int> = Seq::empty();
        proof {
            broadcast use vstd::seq_lib::group_to_multiset_ensures;

            assert(sorted@.to_multiset() =~= Multiset::<FileEntry>::empty());
            assert(orig.to_multiset() =~= sorted@.to_multiset().add(self.entries@.to_multiset()));
            assert(self.entries@ =~= orig.skip(0));
        }
        while self.entries.len() > 0
            invariant
                orig.to_multiset() == sorted@.to_multiset().add(self.entries@.to_multiset()),
                orig.len() == sorted@.len() + self.entries@.len(),
                self.entries@ == orig.skip(sorted@.len() as int),
                idxs.len() == sorted@.len(),
                forall|i: int| 0 <= i < idxs.len() ==> 0 <= #[trigger] idxs[i] < sorted@.len(),
                forall|i: int| 0 <= i < idxs.len() ==> sorted@[i] == orig[#[trigger] idxs[i]],
                forall|i: int, j: int|
                    0 <= i < j < idxs.len() ==> #[trigger] idxs[i] != #[trigger] idxs[j],
                forall|i: int, j: int|
                    0 <= i < j < sorted@.len() ==> le_entry(
                        #[trigger] sorted@[i],
                        #[trigger] sorted@[j],
                        sort_by,
                        reverse,
                    ),
                forall|i: int, j: int|
                    0 <= i < j < sorted@.len() && compare_spec(
                        #[trigger] sorted@[i],
                        #[trigger] sorted@[j],
                        sort_by,
                    ) == Ordering::Equal ==> idxs[i] < idxs[j],
            decreases self.entries@.len(),
        {
            proof {
                broadcast use vstd::seq_lib::group_to_multiset_ensures;

            }
            let ghost k: int = sorted@.len() as int;
            let ghost pre_pop = self.entries@;
            let x = self.entries.remove(0);
            proof {
                assert(x == orig[k]);
                assert(self.entries@ =~= pre_pop.remove(0));
                assert(self.entries@ =~= orig.skip(k + 1));
                assert(self.entries@.to_multiset() =~= pre_pop.to_multiset().remove(x));
                assert(pre_pop.to_multiset().contains(x)) by {
                    assert(pre_pop.contains(x));
                }
                assert(pre_pop.to_multiset() =~= self.entries@.to_multiset().insert(x));
            }
            let mut p: usize = 0;
            while p < sorted.len() && entry_le(&sorted[p], &x, sort_by, reverse)
                invariant
                    p <= sorted@.len(),
                    forall|k2: int|
                        0 <= k2 < p ==> le_entry(#[trigger] sorted@[k2], x, sort_by, reverse),
                decreases sorted@.len() - p,
            {
                p = p + 1;
            }
            let ghost pre_ins = sorted@;
            let ghost pre_idxs = idxs;
            sorted.insert(p, x);
            proof {
                broadcast use vstd::seq_lib::group_to_multiset_ensures;

                idxs = pre_idxs.insert(p as int, k);
                assert(sorted@ =~= pre_ins.insert(p as int, x));
                assert forall|i: int| 0 <= i < sorted@.len() implies #[trigger] sorted@[i] == (
                if i < p {
                    pre_ins[i]
                } else if i == p {
                    x
                } else {
                    pre_ins[i - 1]
                }) by {
                    assert(sorted@[i] == pre_ins.insert(p as int, x)[i]);
                }
                assert forall|i: int| 0 <= i < idxs.len() implies #[trigger] idxs[i] == (
                if i < p {
                    pre_idxs[i]
                } else if i == p {
                    k
                } else {
                    pre_idxs[i - 1]
                }) by {
                    assert(idxs[i] == pre_idxs.insert(p as int, k)[i]);
                }
                lemma_to_multiset_insert(pre_ins, p as int, x);
                if p < pre_ins.len() {
                    lemma_le_entry_total(pre_ins[p as int], x, sort_by, reverse);
                }
                assert forall|i: int, j: int|
                    0 <= i < j < sorted@.len() implies le_entry(
                    #[trigger] sorted@[i],
                    #[trigger] sorted@[j],
                    sort_by,
                    reverse,
                ) by {
                    if j < p {
                    } else if i < p && j == p {
                    } else if i < p && j > p {
                        assert(sorted@[j] == pre_ins[j - 1]);
                    } else if i == p {
                        assert(sorted@[j] == pre_ins[j - 1]);
                        if j - 1 > p {
                            lemma_le_entry_trans(
                                x,
                                pre_ins[p as int],
                                pre_ins[j - 1],
                                sort_by,
                                reverse,
                            );
                        }
                    } else {
                        assert(sorted@[i] == pre_ins[i - 1]);
                        assert(sorted@[j] == pre_ins[j - 1]);
                    }
                }
                assert forall|j: int| p <= j < pre_ins.len() implies compare_spec(
                    x,
                    #[trigger] pre_ins[j],
                    sort_by,
                ) != Ordering::Equal by {
                    if compare_spec(x, pre_ins[j], sort_by) == Ordering::Equal {
                        lemma_compare_equal_sym(x, pre_ins[j], sort_by);
                        if j > p {
                            assert(le_entry(pre_ins[p as int], pre_ins[j], sort_by, reverse));
                            lemma_compare_equal_subst(pre_ins[p as int], pre_ins[j], x, sort_by);
                        }
                        assert(le_entry(pre_ins[p as int], x, sort_by, reverse));
                    }
                }
                assert forall|i: int, j: int|
                    0 <= i < j < sorted@.len() && compare_spec(
                        #[trigger] sorted@[i],
                        #[trigger] sorted@[j],
                        sort_by,
                    ) == Ordering::Equal implies idxs[i] < idxs[j] by {
                    if j < p {
                    } else if i < p && j == p {
                        assert(idxs[i] == pre_idxs[i as int]);
                        assert(idxs[j] == k);
                    } else if i == p {
                        assert(sorted@[j] == pre_ins[j - 1]);
                        assert(compare_spec(x, pre_ins[j - 1], sort_by) == Ordering::Equal);
                    } else if i < p && j > p {
                        assert(sorted@[i] == pre_ins[i as int]);
                        assert(sorted@[j] == pre_ins[j - 1]);
                    } else {
                        assert(sorted@[i] == pre_ins[i - 1]);
                        assert(sorted@[j] == pre_ins[j - 1]);
                    }
                }
            }
        }
        proof {
            broadcast use vstd::seq_lib::group_to_multiset_ensures;

            assert(self.entries@.to_multiset() =~= Multiset::<FileEntry>::empty());
            assert(orig.to_multiset() =~= sorted@.to_multiset());
            assert(stable_perm(orig, sorted@, idxs, sort_by));
        }
        self.entries = sorted;
    }

    /// The total size of all entries, saturating at the largest `u64`.
    pub fn total_size(&self) -> (r: u64)
        ensures
            r == (if total_size_spec(self@) <= u64::MAX {
                total_size_spec(self@)
            } else {
                u64::MAX as int
            }),
    {
        let mut sum: u64 = 0;
        let mut i: usize = 0;
        proof {
            assert(self@.take(0) =~= Seq::<FileEntry>::empty());
        }
        while i < self.entries.len()
            invariant
                i <= self@.len(),
                sum == (if total_size_spec(self@.take(i as int)) <= u64::MAX {
                    total_size_spec(self@.take(i as int))
                } else {
                    u64::MAX as int
                }),
                total_size_spec(self@.take(i as int)) >= 0,
            decreases self@.len() - i,
        {
            proof {
                lemma_total_size_nonneg(self@.take(i + 1));
                assert(self@.take(i + 1).drop_last() =~= self@.take(i as int));
                assert(self@.take(i + 1).last() == self@[i as int]);
            }
            let size = self.entries[i].file_size;
            if sum <= u64::MAX - size {
                sum = sum + size;
            } else {
                sum = u64::MAX;
            }
            i = i + 1;
        }
        proof {
            assert(self@.take(self@.len() as int) =~= self@);
        }
        sum
    }

    /// The total number of contained files across all entries,
    /// saturating at the largest `u32`.
    pub fn total_file_count(&self) -> (r: u32)
        ensures
            r == (if total_file_count_spec(self@) <= u32::MAX {
                total_file_count_spec(self@)
            } else {
                u32::MAX as int
            }),
    {
        let mut sum: u32 = 0;
        let mut i: usize = 0;
        proof {
            assert(self@.take(0) =~= Seq::<FileEntry>::empty());
        }
        while i < self.entries.len()
            invariant
                i <= self@.len(),
                sum == (if total_file_count_spec(self@.take(i as int)) <= u32::MAX {
                    total_file_count_spec(self@.take(i as int))
                } else {
                    u32::MAX as int
                }),
                total_file_count_spec(self@.take(i as int)) >= 0,
            decreases self@.len() - i,
        {
            proof {
                lemma_total_file_count_nonneg(self@.take(i + 1));
                assert(self@.take(i + 1).drop_last() =~= self@.take(i as int));
                assert(self@.take(i + 1).last() == self@[i as int]);
            }
            let count = self.entries[i].num_files;
            if sum <= u32::MAX - count {
                sum = sum + count;
            } else {
                sum = u32::MAX;
            }
            i = i + 1;
        }
        proof {
            assert(self@.take(self@.len() as int) =~= self@);
        }
        sum
    }

    /// The number of entries marked bad.
    pub fn bad_file_count(&self) -> (r: usize)
        ensures
            r == bad_entries(self@).len(),
    {
        let mut count: usize = 0;
        let mut i: usize = 0;
        proof {
            assert(self@.take(0) =~= Seq::<FileEntry>::empty());
            assert(bad_entries(self@.take(0)) =~= Seq::<FileEntry>::empty());
        }
        while i < self.entries.len()
            invariant
                i <= self@.len(),
                count == bad_entries(self@.take(i as int)).len(),
                count <= i,
            decreases self@.len() - i,
        {
            proof {
                reveal(Seq::filter);
                assert(self@.take(i + 1).drop_last() =~= self@.take(i as int));
                assert(self@.take(i + 1).last() == self@[i as int]);
                assert(bad_entries(self@.take(i + 1)) == (if self@[i as int].is_bad {
                    bad_entries(self@.take(i as int)).push(self@[i as int])
                } else {
                    bad_entries(self@.take(i as int))
                }));
            }
            if self.entries[i].is_bad {
                count = count + 1;
            }
            i = i + 1;
        }
        proof {
            assert(self@.take(self@.len() as int) =~= self@);
        }
        count
    }

    /// Drop the entries marked bad, keeping the good ones in order.
    pub fn filter_bad_files(&mut self)
        ensures
            final(self)@ == good_entries(old(self)@),
    {
        let mut kept: Vec<FileEntry> = Vec::new();
        let ghost all = self.entries@;
        let mut i: usize = 0;
        proof {
            assert(all.take(0) =~= Seq::<FileEntry>::empty());
            assert(good_entries(all.take(0)) =~= Seq::<FileEntry>::empty());
        }
        while i < self.entries.len()
            invariant
                i <= all.len(),
                self.entries@ == all,
                kept@ == good_entries(all.take(i as int)),
            decreases all.len() - i,
        {
            proof {
                reveal(Seq::filter);
                assert(all.take(i + 1).drop_last() =~= all.take(i as int));
                assert(all.take(i + 1).last() == all[i as int]);
            }
            if !self.entries[i].is_bad {
                let copied = clone_entry(&self.entries[i]);
                kept.push(copied);
            }
            i = i + 1;
        }
        proof {
            assert(all.take(all.len() as int) =~= all);
        }
        self.entries = kept;
    }

    /// The indices of the entries marked bad, ascending.
    pub fn bad_file_indices(&self) -> (r: Vec<usize>)
        ensures
            forall|k: int|
                0 <= k < r@.len() ==> (#[trigger] r@[k] < self@.len()
                    && self@[r@[k] as int].is_bad),
            forall|i: int|
                0 <= i < self@.len() && (#[trigger] self@[i]).is_bad ==> r@.contains(i as usize),
            forall|k1: int, k2: int| 0 <= k1 < k2 < r@.len() ==> r@[k1] < r@[k2],
    {
        let mut out: Vec<usize> = Vec::new();
        let mut i: usize = 0;
        while i < self.entries.len()
            invariant
                i <= self@.len(),
                forall|k: int|
                    0 <= k < out@.len() ==> (#[trigger] out@[k] < i && self@[out@[k] as int].is_bad),
                forall|j: int|
                    0 <= j < i && (#[trigger] self@[j]).is_bad ==> out@.contains(j as usize),
                forall|k1: int, k2: int| 0 <= k1 < k2 < out@.len() ==> out@[k1] < out@[k2],
            decreases self@.len() - i,
        {
            if self.entries[i].is_bad {
                let ghost pre = out@;
                out.push(i);
                proof {
                    assert forall|j: int|
                        0 <= j < i + 1 && (#[trigger] self@[j]).is_bad implies out@.contains(
                        j as usize,
                    ) by {
                        if j < i {
                            assert(pre.contains(j as usize));
                            let w = choose|w: int| 0 <= w < pre.len() && pre[w] == j as usize;
                            assert(out@[w] == j as usize);
                        } else {
                            assert(out@[out@.len() - 1] == i as usize);
                        }
                    }
                }
            }
            i = i + 1;
        }
        out
    }
}

/// Inserting an element anywhere adds exactly it to the multiset of the
/// sequence.
proof fn lemma_to_multiset_insert(s: Seq<FileEntry>, p: int, x: FileEntry)
    requires
        0 <= p <= s.len(),
    ensures
        s.insert(p, x).to_multiset() == s.to_multiset().insert(x),
{
    broadcast use vstd::seq_lib::group_to_multiset_ensures;

    let inserted = s.insert(p, x);
    assert(inserted.remove(p) =~= s);
    assert(inserted[p] == x);
    assert(inserted.remove(p).to_multiset() =~= inserted.to_multiset().remove(x));
    assert(inserted.to_multiset().contains(x)) by {
        assert(inserted.contains(x));
    }
    assert(inserted.to_multiset() =~= s.to_multiset().insert(x));
}

/// The summed sizes are never negative.
proof fn lemma_total_size_nonneg(s: Seq<FileEntry>)
    ensures
        total_size_spec(s) >= 0,
    decreases s.len(),
{
    if s.len() > 0 {
        lemma_total_size_nonneg(s.drop_last());
    }
}

/// The summed file counts are never negative.
proof fn lemma_total_file_count_nonneg(s: Seq<FileEntry>)
    ensures
        total_file_count_spec(s) >= 0,
    decreases s.len(),
{
    if s.len() > 0 {
        lemma_total_file_count_nonneg(s.drop_last());
    }
}

/// Copy an entry field by field.
fn clone_entry(e: &FileEntry) -> (r: FileEntry)
    ensures
        r == *e,
{
    FileEntry {
        file_name: e.file_name.clone(),
        file_size: e.file_size,
        num_files: e.num_files,
        dir_name: e.dir_name.clone(),
        full_path: e.full_path.clone(),
        is_bad: e.is_bad,
    }
}

/// Three-way comparison used while sorting, as a boolean.
fn entry_le(a: &FileEntry, b: &FileEntry, sort_by: SortBy, reverse: bool) -> (r: bool)
    ensures
        r == le_entry(*a, *b, sort_by, reverse),
{
    let ord = a.compare(b, sort_by);
    if reverse {
        match ord {
            Ordering::Less => false,
            _ => true,
        }
    } else {
        match ord {
            Ordering::Greater => false,
            _ => true,
        }
    }
}

} // verus!
