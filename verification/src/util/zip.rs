//! Expansion of an archive: what becomes of each of its entries.

use crate::util::text::chars_of;
use vstd::prelude::*;
use vstd::string::StrSliceExecFns;
use vstd::string::StringExecFns;

verus! {

/// What the agent reads of one entry of an archive.
#[derive(Debug, PartialEq)]
pub struct ArchiveEntry {
    /// Name of the entry as the archive gives it.
    pub name: String,
    /// The name made safe: a relative path that stays below the directory
    /// it is joined to.
    pub sanitized_name: String,
    /// File permissions kept with the entry, if any.
    pub unix_mode: Option<u32>,
}

/// An `ArchiveEntry` as text.
pub struct ArchiveEntryModel {
    pub name: Seq<char>,
    pub sanitized_name: Seq<char>,
    pub unix_mode: Option<u32>,
}

impl DeepView for ArchiveEntry {
    type V = ArchiveEntryModel;

    open spec fn deep_view(&self) -> ArchiveEntryModel {
        ArchiveEntryModel {
            name: self.name@,
            sanitized_name: self.sanitized_name@,
            unix_mode: self.unix_mode,
        }
    }
}

/// What an entry becomes on disk.
#[derive(Clone, Copy, Debug, PartialEq, Eq, Structural)]
pub enum EntryKind {
    /// A directory, created with those above it.
    Directory,
    /// A file, written in full, after the directories above it are
    /// created.
    File,
}

/// The expansion of one entry.
#[derive(Debug, PartialEq)]
pub struct EntryPlan {
    pub kind: EntryKind,
    /// Where the entry goes.
    pub path: String,
    /// Directory of `path`.
    pub parent: String,
    /// Permissions to set on `path` once it is written, if the entry
    /// carries any.
    pub mode: Option<u32>,
}

/// An `EntryPlan` as text.
pub struct EntryPlanModel {
    pub kind: EntryKind,
    pub path: Seq<char>,
    pub parent: Seq<char>,
    pub mode: Option<u32>,
}

impl DeepView for EntryPlan {
    type V = EntryPlanModel;

    open spec fn deep_view(&self) -> EntryPlanModel {
        EntryPlanModel {
            kind: self.kind,
            path: self.path@,
            parent: self.parent@,
            mode: self.mode,
        }
    }
}

/// Index of the last `c` in `s`, or -1 if there is none.
pub open spec fn last_index(s: Seq<char>, c: char) -> int
    decreases s.len(),
{
    if s.len() == 0 {
        -1
    } else if s.last() == c {
        s.len() - 1
    } else {
        last_index(s.drop_last(), c)
    }
}

/// The directory of a path: what stands before its last `/`.
pub open spec fn parent_of(path: Seq<char>) -> Seq<char> {
    if last_index(path, '/') >= 0 {
        path.take(last_index(path, '/'))
    } else {
        Seq::empty()
    }
}

/// Whether an entry stands for a directory: its name ends in `/`.
pub open spec fn is_directory(name: Seq<char>) -> bool {
    name.len() > 0 && name.last() == '/'
}

/// The expansion of `entry` below `base_dir`.
pub open spec fn entry_plan(base_dir: Seq<char>, entry: ArchiveEntryModel) -> EntryPlanModel {
    EntryPlanModel {
        kind: if is_directory(entry.name) {
            EntryKind::Directory
        } else {
            EntryKind::File
        },
        path: base_dir + "/"@ + entry.sanitized_name,
        parent: parent_of(base_dir + "/"@ + entry.sanitized_name),
        mode: entry.unix_mode,
    }
}

/// The expansions of `entries` below `base_dir`, in order.
pub open spec fn entry_plans(base_dir: Seq<char>, entries: Seq<ArchiveEntryModel>) -> Seq<
    EntryPlanModel,
> {
    Seq::new(entries.len(), |i: int| entry_plan(base_dir, entries[i]))
}

fn parent_path(path: &str) -> (r: String)
    ensures
        r@ == parent_of(path@),
{
    let chars = chars_of(path);
    let mut i: usize = chars.len();
    assert(chars@.take(i as int) == chars@);
    while i > 0 && chars[i - 1] != '/'
        invariant
            i <= chars.len(),
            chars@ == path@,
            last_index(chars@, '/') == last_index(chars@.take(i as int), '/'),
        decreases i,
    {
        assert(chars@.take(i as int).drop_last() == chars@.take(i - 1));
        i -= 1;
    }
    if i == 0 {
        assert(chars@.take(0).len() == 0);
        return String::new();
    }
    assert(chars@.take(i as int).last() == '/');
    path.substring_char(0, i - 1).to_owned()
}

/// Plans the expansion of one entry of an archive below `base_dir`.
pub fn unzip_file(base_dir: &str, entry: &ArchiveEntry) -> (r: EntryPlan)
    ensures
        r.deep_view() == entry_plan(base_dir@, entry.deep_view()),
{
    let name = chars_of(entry.name.as_str());
    let kind = if name.len() > 0 && name[name.len() - 1] == '/' {
        EntryKind::Directory
    } else {
        EntryKind::File
    };
    let mut path = base_dir.to_owned();
    path.append("/");
    path.append(entry.sanitized_name.as_str());
    let parent = parent_path(path.as_str());
    EntryPlan { kind, path, parent, mode: entry.unix_mode }
}

/// Plans the expansion of an archive into `target_dir_path`: one plan for
/// each entry, in the order of the archive.
pub fn unzip_to(target_dir_path: &str, entries: &Vec<ArchiveEntry>) -> (r: Vec<EntryPlan>)
    ensures
        r.deep_view() == entry_plans(target_dir_path@, entries.deep_view()),
{
    let mut r: Vec<EntryPlan> = Vec::new();
    let mut i: usize = 0;
    while i < entries.len()
        invariant
            i <= entries.len(),
            r.len() == i,
            forall|j: int|
                0 <= j < i ==> (#[trigger] r@[j]).deep_view() == entry_plan(
                    target_dir_path@,
                    entries@[j].deep_view(),
                ),
        decreases entries.len() - i,
    {
        r.push(unzip_file(target_dir_path, &entries[i]));
        i += 1;
    }
    assert(r.deep_view() =~= entry_plans(target_dir_path@, entries.deep_view()));
    r
}

} // verus!
