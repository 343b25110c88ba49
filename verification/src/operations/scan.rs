//! The scanning core: turn listed directory contents into an inventory.
//!
//! The driver enumerates the immediate subdirectories of the scan root
//! (the mod folders) and the files directly inside each, reading each
//! file's size and its leading header bytes; this module applies the
//! extension, postfix and ignore filters, parses the headers, and
//! assembles the inventory. A file whose header does not parse is kept
//! and marked bad: scanning never aborts on a single bad archive.

use vstd::prelude::*;

use crate::ba2::{header_parse_ok, le_u32_at, BA2Header};
use crate::config::{ignored_file_spec, AppConfig};
use crate::operations::path::{extension_of, path_extension};
use crate::operations::BA2FileInfo;
use crate::text::{contains_seq, lower_of, lowercase, str_contains, str_eq};

verus! {

/// Progress update for scanning operations.
#[derive(Debug, Clone, PartialEq, Eq)]
pub enum ScanProgress {
    /// Scanning started.
    Started {
        /// Total number of mod folders to scan.
        total_dirs: usize,
    },
    /// A mod folder is being scanned.
    ScanningFolder {
        /// Name of the folder.
        folder: String,
        /// Current folder index.
        current: usize,
        /// Total number of folders.
        total: usize,
    },
    /// An archive was found.
    FoundBA2 {
        /// Name of the archive file.
        file_name: String,
    },
    /// Scanning finished.
    Complete {
        /// Total number of archives discovered.
        total_files: usize,
    },
}

/// One file found directly inside a mod folder, as the driver lists it.
#[derive(Debug, Clone, PartialEq, Eq)]
pub struct FileCandidate {
    /// File name, without the path.
    pub file_name: String,
    /// Full path to the file.
    pub full_path: String,
    /// File size in bytes; zero when the size could not be read.
    pub file_size: u64,
    /// The leading bytes of the file, enough to hold a header, or
    /// `None` when the file could not be read.
    pub header_bytes: Option<Vec<u8>>,
}

/// One mod folder and the files directly inside it.
#[derive(Debug, Clone, PartialEq, Eq)]
pub struct FolderCandidates {
    /// Name of the folder.
    pub dir_name: String,
    /// The files inside it, in listing order.
    pub files: Vec<FileCandidate>,
}

/// The file name matches some configured postfix, case-insensitively.
pub open spec fn matches_postfix_spec(name: Seq<char>, postfixes: Seq<String>) -> bool {
    exists|i: int|
        0 <= i < postfixes.len() && contains_seq(lower_of(name), lower_of(
            (#[trigger] postfixes[i])@,
        ))
}

/// A candidate passes all filters: the archive extension, the postfix
/// allow-list, and the ignore deny-list.
pub open spec fn candidate_kept(c: FileCandidate, config: AppConfig) -> bool {
    &&& extension_of(c.full_path@) == Some("ba2"@)
    &&& matches_postfix_spec(c.file_name@, config.extraction.postfixes@)
    &&& !ignored_file_spec(config, c.full_path@)
}

/// The inventory entry built from a kept candidate: header fields when
/// its header parses, a zero count and the bad mark when it does not.
pub open spec fn entry_of(c: FileCandidate, dir_name: String) -> BA2FileInfo {
    BA2FileInfo {
        file_name: c.file_name,
        file_size: c.file_size,
        num_files: (match c.header_bytes {
            Some(b) => if header_parse_ok(b@) {
                le_u32_at(b@, 12) as u32
            } else {
                0
            },
            None => 0,
        }),
        dir_name: dir_name,
        full_path: c.full_path,
        is_bad: (match c.header_bytes {
            Some(b) => !header_parse_ok(b@),
            None => true,
        }),
    }
}

/// The inventory entries of one folder: its kept candidates, in listing
/// order, each carried over with its header reading.
pub open spec fn scan_folder_spec(
    files: Seq<FileCandidate>,
    dir_name: String,
    config: AppConfig,
) -> Seq<BA2FileInfo>
    decreases files.len(),
{
    if files.len() == 0 {
        Seq::empty()
    } else {
        (if candidate_kept(files[0], config) {
            seq![entry_of(files[0], dir_name)]
        } else {
            Seq::empty()
        }) + scan_folder_spec(files.drop_first(), dir_name, config)
    }
}

/// The whole inventory: the entries of each folder, folder by folder.
pub open spec fn scan_spec(folders: Seq<FolderCandidates>, config: AppConfig) -> Seq<BA2FileInfo>
    decreases folders.len(),
{
    if folders.len() == 0 {
        Seq::empty()
    } else {
        scan_folder_spec(folders[0].files@, folders[0].dir_name, config) + scan_spec(
            folders.drop_first(),
            config,
        )
    }
}

/// Scanning one more candidate extends a folder's entries by that
/// candidate's contribution.
proof fn lemma_scan_folder_push(
    files: Seq<FileCandidate>,
    c: FileCandidate,
    dir_name: String,
    config: AppConfig,
)
    ensures
        scan_folder_spec(files.push(c), dir_name, config) == scan_folder_spec(
            files,
            dir_name,
            config,
        ) + (if candidate_kept(c, config) {
            seq![entry_of(c, dir_name)]
        } else {
            Seq::<BA2FileInfo>::empty()
        }),
    decreases files.len(),
{
    let tail = (if candidate_kept(c, config) {
        seq![entry_of(c, dir_name)]
    } else {
        Seq::<BA2FileInfo>::empty()
    });
    if files.len() == 0 {
        assert(files.push(c).drop_first() =~= files);
        assert(scan_folder_spec(files.push(c), dir_name, config) =~= scan_folder_spec(
            files,
            dir_name,
            config,
        ) + tail);
    } else {
        assert(files.push(c).drop_first() =~= files.drop_first().push(c));
        assert(files.push(c)[0] == files[0]);
        lemma_scan_folder_push(files.drop_first(), c, dir_name, config);
        assert(scan_folder_spec(files.push(c), dir_name, config) =~= scan_folder_spec(
            files,
            dir_name,
            config,
        ) + tail);
    }
}

/// Scanning one more folder extends the inventory by that folder's
/// entries.
proof fn lemma_scan_push(folders: Seq<FolderCandidates>, f: FolderCandidates, config: AppConfig)
    ensures
        scan_spec(folders.push(f), config) == scan_spec(folders, config) + scan_folder_spec(
            f.files@,
            f.dir_name,
            config,
        ),
    decreases folders.len(),
{
    if folders.len() == 0 {
        assert(folders.push(f).drop_first() =~= folders);
        assert(scan_spec(folders.push(f), config) =~= scan_spec(folders, config)
            + scan_folder_spec(f.files@, f.dir_name, config));
    } else {
        assert(folders.push(f).drop_first() =~= folders.drop_first().push(f));
        assert(folders.push(f)[0] == folders[0]);
        lemma_scan_push(folders.drop_first(), f, config);
        assert(scan_spec(folders.push(f), config) =~= scan_spec(folders, config)
            + scan_folder_spec(f.files@, f.dir_name, config));
    }
}

/// A folder's scan yields exactly its kept candidates, in listing
/// order, each carried over into its entry: files whose names match no
/// postfix, or that are ignored, are absent, and nothing else is.
pub proof fn lemma_scan_folder_filter_map(
    files: Seq<FileCandidate>,
    dir_name: String,
    config: AppConfig,
)
    ensures
        scan_folder_spec(files, dir_name, config) == files.filter(
            |c: FileCandidate| candidate_kept(c, config),
        ).map_values(|c: FileCandidate| entry_of(c, dir_name)),
    decreases files.len(),
{
    reveal(Seq::filter);
    if files.len() == 0 {
        assert(scan_folder_spec(files, dir_name, config) =~~= files.filter(
            |c: FileCandidate| candidate_kept(c, config),
        ).map_values(|c: FileCandidate| entry_of(c, dir_name)));
    } else {
        let init = files.drop_last();
        let last = files.last();
        lemma_scan_folder_filter_map(init, dir_name, config);
        lemma_scan_folder_push(init, last, dir_name, config);
        assert(init.push(last) =~= files);
        let kept = |c: FileCandidate| candidate_kept(c, config);
        let build = |c: FileCandidate| entry_of(c, dir_name);
        if candidate_kept(last, config) {
            assert(files.filter(kept) == init.filter(kept).push(last));
            assert(init.filter(kept).push(last).map_values(build) =~~= init.filter(
                kept,
            ).map_values(build).push(entry_of(last, dir_name)));
            assert(scan_folder_spec(files, dir_name, config) =~~= files.filter(kept).map_values(
                build,
            ));
        } else {
            assert(files.filter(kept) == init.filter(kept));
            assert(scan_folder_spec(files, dir_name, config) =~~= files.filter(kept).map_values(
                build,
            ));
        }
    }
}

/// Which of two folders is scanned first does not matter: the scans of
/// both orders carry the same entries, as a multiset.
pub proof fn lemma_scan_order_irrelevant(
    f1: FolderCandidates,
    f2: FolderCandidates,
    config: AppConfig,
)
    ensures
        scan_spec(seq![f1, f2], config).to_multiset() == scan_spec(
            seq![f2, f1],
            config,
        ).to_multiset(),
{
    broadcast use vstd::seq_lib::group_to_multiset_ensures;

    let s1 = scan_folder_spec(f1.files@, f1.dir_name, config);
    let s2 = scan_folder_spec(f2.files@, f2.dir_name, config);
    assert(seq![f1, f2].drop_first() =~= seq![f2]);
    assert(seq![f2].drop_first() =~= Seq::<FolderCandidates>::empty());
    assert(seq![f2, f1].drop_first() =~= seq![f1]);
    assert(seq![f1].drop_first() =~= Seq::<FolderCandidates>::empty());
    assert(seq![f1][0] == f1);
    assert(seq![f2][0] == f2);
    assert(seq![f1, f2][0] == f1);
    assert(seq![f2, f1][0] == f2);
    assert(scan_spec(Seq::<FolderCandidates>::empty(), config) =~= Seq::<BA2FileInfo>::empty());
    assert(scan_spec(seq![f1], config) =~= s1);
    assert(scan_spec(seq![f2], config) =~= s2);
    assert(scan_spec(seq![f1, f2], config) =~= s1 + s2);
    assert(scan_spec(seq![f2, f1], config) =~= s2 + s1);
    lemma_to_multiset_add_commutes(s1, s2);
}

/// Concatenating in either order yields the same multiset.
proof fn lemma_to_multiset_add_commutes(s1: Seq<BA2FileInfo>, s2: Seq<BA2FileInfo>)
    ensures
        (s1 + s2).to_multiset() == (s2 + s1).to_multiset(),
    decreases s2.len(),
{
    broadcast use vstd::seq_lib::group_to_multiset_ensures;

    if s2.len() == 0 {
        assert(s1 + s2 =~= s1);
        assert(s2 + s1 =~= s1);
    } else {
        let x = s2.last();
        assert(s1 + s2 =~= (s1 + s2.drop_last()).push(x));
        lemma_to_multiset_add_commutes(s1, s2.drop_last());
        lemma_to_multiset_insert_anywhere(s2.drop_last() + s1, s2.drop_last().len() as int, x);
        assert((s2.drop_last() + s1).insert(s2.drop_last().len() as int, x) =~= s2 + s1);
        assert(((s1 + s2.drop_last()).push(x)).to_multiset() =~= (s1
            + s2.drop_last()).to_multiset().insert(x));
    }
}

/// Inserting an element anywhere adds exactly it to the multiset.
proof fn lemma_to_multiset_insert_anywhere(s: Seq<BA2FileInfo>, p: int, x: BA2FileInfo)
    requires
        0 <= p <= s.len(),
    ensures
        s.insert(p, x).to_multiset() == s.to_multiset().insert(x),
{
    broadcast use vstd::seq_lib::group_to_multiset_ensures;

    let inserted = s.insert(p, x);
    assert(inserted.remove(p) =~= s);
    assert(inserted[p] == x);
    assert(inserted.remove(p).to_multiset() =~= inserted.to_multiset().remove(x));
    assert(inserted.to_multiset().contains(x)) by {
        assert(inserted.contains(x));
    }
    assert(inserted.to_multiset() =~= s.to_multiset().insert(x));
}

/// Check the postfix allow-list: the lowercased file name must contain
/// some lowercased postfix.
fn matches_postfix(file_name: &str, postfixes: &Vec<String>) -> (r: bool)
    ensures
        r == matches_postfix_spec(file_name@, postfixes@),
{
    let name_lower = lowercase(file_name);
    let mut i: usize = 0;
    while i < postfixes.len()
        invariant
            i <= postfixes@.len(),
            name_lower@ == lower_of(file_name@),
            forall|k: int|
                0 <= k < i ==> !contains_seq(lower_of(file_name@), lower_of(
                    (#[trigger] postfixes@[k])@,
                )),
        decreases postfixes@.len() - i,
    {
        let postfix_lower = lowercase(postfixes[i].as_str());
        if str_contains(name_lower.as_str(), postfix_lower.as_str()) {
            return true;
        }
        i = i + 1;
    }
    false
}

/// Scan one mod folder: apply the filters to each listed file and build
/// the entries of the inventory, marking unreadable headers bad rather
/// than failing.
pub fn scan_mod_folder(folder: &FolderCandidates, config: &AppConfig) -> (r: Vec<BA2FileInfo>)
    ensures
        r@ == scan_folder_spec(folder.files@, folder.dir_name, *config),
{
    let mut out: Vec<BA2FileInfo> = Vec::new();
    let mut i: usize = 0;
    proof {
        assert(folder.files@.take(0) =~= Seq::<FileCandidate>::empty());
    }
    while i < folder.files.len()
        invariant
            i <= folder.files@.len(),
            out@ == scan_folder_spec(folder.files@.take(i as int), folder.dir_name, *config),
        decreases folder.files@.len() - i,
    {
        let c = &folder.files[i];
        let ext_ok = match path_extension(c.full_path.as_str()) {
            Some(ext) => str_eq(ext.as_str(), "ba2"),
            None => false,
        };
        let keep = ext_ok && matches_postfix(c.file_name.as_str(), &config.extraction.postfixes)
            && !config.should_ignore_file(c.full_path.as_str());
        if keep {
            let (num_files, is_bad) = match &c.header_bytes {
                Some(bytes) => {
                    match BA2Header::parse_from_reader(bytes.as_slice(), c.full_path.as_str()) {
                        Ok(header) => (header.file_count, false),
                        Err(_) => (0u32, true),
                    }
                },
                None => (0u32, true),
            };
            let entry = BA2FileInfo {
                file_name: c.file_name.clone(),
                file_size: c.file_size,
                num_files,
                dir_name: folder.dir_name.clone(),
                full_path: c.full_path.clone(),
                is_bad,
            };
            proof {
                assert(entry == entry_of(folder.files@[i as int], folder.dir_name));
            }
            out.push(entry);
        }
        proof {
            lemma_scan_folder_push(
                folder.files@.take(i as int),
                folder.files@[i as int],
                folder.dir_name,
                *config,
            );
            assert(folder.files@.take(i as int).push(folder.files@[i as int]) =~= folder.files@
                .take(i + 1));
            assert(out@ =~= scan_folder_spec(folder.files@.take(i + 1), folder.dir_name, *config));
        }
        i = i + 1;
    }
    proof {
        assert(folder.files@.take(folder.files@.len() as int) =~= folder.files@);
    }
    out
}

/// Scan the candidates of every mod folder and flatten the results into
/// one inventory, in folder order.
pub fn scan_candidates(folders: &Vec<FolderCandidates>, config: &AppConfig) -> (r: Vec<
    BA2FileInfo,
>)
    ensures
        r@ == scan_spec(folders@, *config),
{
    let mut out: Vec<BA2FileInfo> = Vec::new();
    let mut i: usize = 0;
    proof {
        assert(folders@.take(0) =~= Seq::<FolderCandidates>::empty());
    }
    while i < folders.len()
        invariant
            i <= folders@.len(),
            out@ == scan_spec(folders@.take(i as int), *config),
        decreases folders@.len() - i,
    {
        let mut found = scan_mod_folder(&folders[i], config);
        out.append(&mut found);
        proof {
            lemma_scan_push(folders@.take(i as int), folders@[i as int], *config);
            assert(folders@.take(i as int).push(folders@[i as int]) =~= folders@.take(i + 1));
            assert(out@ =~= scan_spec(folders@.take(i + 1), *config));
        }
        i = i + 1;
    }
    proof {
        assert(folders@.take(folders@.len() as int) =~= folders@);
    }
    out
}

} // verus!
