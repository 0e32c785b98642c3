//! The state of unfinished downloads: for each artifact that is being
//! fetched, the validator of the content that the partial file came from.

use crate::config::DOWNLOAD_CONFIG_FILE_NAME;
use crate::util::text::str_eq;
use vstd::prelude::*;

verus! {

/// The validator recorded for one version of one artifact.
#[derive(Debug, PartialEq)]
pub struct FileMd5Info {
    pub name: String,
    pub version: String,
    pub md5: String,
}

/// A `FileMd5Info` as text.
pub struct FileMd5Model {
    pub name: Seq<char>,
    pub version: Seq<char>,
    pub md5: Seq<char>,
}

impl DeepView for FileMd5Info {
    type V = FileMd5Model;

    open spec fn deep_view(&self) -> FileMd5Model {
        FileMd5Model { name: self.name@, version: self.version@, md5: self.md5@ }
    }
}

/// What the store persists.
#[derive(Debug, PartialEq)]
pub struct DownloadData {
    pub files: Vec<FileMd5Info>,
}

impl DeepView for DownloadData {
    type V = Seq<FileMd5Model>;

    open spec fn deep_view(&self) -> Seq<FileMd5Model> {
        self.files.deep_view()
    }
}

/// Whether a record is the one of `name` in `version`.
pub open spec fn is_for(record: FileMd5Model, name: Seq<char>, version: Seq<char>) -> bool {
    record.name == name && record.version == version
}

/// No two records are for the same version of the same artifact.
pub open spec fn unique_keys(files: Seq<FileMd5Model>) -> bool {
    forall|i: int, j: int|
        0 <= i < j < files.len() ==> !is_for(files[i], files[j].name, files[j].version)
}

/// Index of the first record for `name` in `version`, or the number of
/// records if there is none.
pub open spec fn key_index(files: Seq<FileMd5Model>, name: Seq<char>, version: Seq<char>) -> int
    decreases files.len(),
{
    if files.len() == 0 || is_for(files[0], name, version) {
        0
    } else {
        1 + key_index(files.drop_first(), name, version)
    }
}

/// The validator recorded for `name` in `version`.
pub open spec fn validator_of(
    files: Seq<FileMd5Model>,
    name: Seq<char>,
    version: Seq<char>,
) -> Option<Seq<char>> {
    let i = key_index(files, name, version);
    if i < files.len() {
        Some(files[i].md5)
    } else {
        None
    }
}

/// The records without the first one for `name` in `version`.
pub open spec fn without_key(
    files: Seq<FileMd5Model>,
    name: Seq<char>,
    version: Seq<char>,
) -> Seq<FileMd5Model> {
    let i = key_index(files, name, version);
    if i < files.len() {
        files.remove(i)
    } else {
        files
    }
}

/// The records once `md5` is recorded for `name` in `version`: an earlier
/// record for them gives way, the new one comes last.
pub open spec fn with_record(
    files: Seq<FileMd5Model>,
    name: Seq<char>,
    version: Seq<char>,
    md5: Seq<char>,
) -> Seq<FileMd5Model> {
    without_key(files, name, version).push(FileMd5Model { name, version, md5 })
}

/// The records of unfinished downloads and the file they are kept in.
pub struct DownloadConfig {
    file_name: String,
    data: DownloadData,
}

/// A `DownloadConfig` as text.
pub struct DownloadConfigModel {
    pub file_name: Seq<char>,
    pub files: Seq<FileMd5Model>,
}

impl DeepView for DownloadConfig {
    type V = DownloadConfigModel;

    closed spec fn deep_view(&self) -> DownloadConfigModel {
        DownloadConfigModel { file_name: self.file_name@, files: self.data.files.deep_view() }
    }
}

fn find_key(files: &Vec<FileMd5Info>, name: &str, version: &str) -> (i: usize)
    ensures
        i == key_index(files.deep_view(), name@, version@),
        i <= files.len(),
        i < files.len() ==> is_for(files.deep_view()[i as int], name@, version@),
        forall|j: int| 0 <= j < i ==> !is_for(#[trigger] files.deep_view()[j], name@, version@),
{
    let ghost all = files.deep_view();
    let mut i: usize = 0;
    assert(all.skip(0) == all);
    while i < files.len() && !(str_eq(files[i].name.as_str(), name) && str_eq(
        files[i].version.as_str(),
        version,
    ))
        invariant
            i <= files.len(),
            all == files.deep_view(),
            key_index(all, name@, version@) == i + key_index(all.skip(i as int), name@, version@),
            forall|j: int| 0 <= j < i ==> !is_for(#[trigger] all[j], name@, version@),
        decreases files.len() - i,
    {
        assert(all.skip(i as int).drop_first() == all.skip(i + 1));
        i += 1;
    }
    i
}

fn keys_differ(files: &Vec<FileMd5Info>) -> (r: bool)
    ensures
        r == unique_keys(files.deep_view()),
{
    let ghost all = files.deep_view();
    let mut j: usize = 0;
    while j < files.len()
        invariant
            j <= files.len(),
            all == files.deep_view(),
            forall|a: int, b: int| 0 <= a < b < j ==> !is_for(all[a], all[b].name, all[b].version),
        decreases files.len() - j,
    {
        let i = find_key(files, files[j].name.as_str(), files[j].version.as_str());
        if i < j {
            assert(is_for(all[i as int], all[j as int].name, all[j as int].version));
            return false;
        }
        j += 1;
    }
    true
}

/// Removing one record leaves the others distinct.
proof fn lemma_remove_at_keeps_unique(files: Seq<FileMd5Model>, i: int)
    requires
        unique_keys(files),
        0 <= i < files.len(),
    ensures
        unique_keys(files.remove(i)),
{
    let after = files.remove(i);
    assert forall|a: int, b: int| 0 <= a < b < after.len() implies !is_for(
        after[a],
        after[b].name,
        after[b].version,
    ) by {
        let a0 = if a < i { a } else { a + 1 };
        let b0 = if b < i { b } else { b + 1 };
        assert(after[a] == files[a0]);
        assert(after[b] == files[b0]);
    }
}

impl DownloadConfig {
    /// The store's invariant: at most one record for each version of each
    /// artifact.
    pub open spec fn wf(&self) -> bool {
        unique_keys(self.deep_view().files)
    }

    /// An empty store kept in `file_name`.
    pub fn create_default_config(file_name: &str) -> (r: Self)
        ensures
            r.wf(),
            r.deep_view().file_name == file_name@,
            r.deep_view().files.len() == 0,
    {
        DownloadConfig { file_name: file_name.to_owned(), data: DownloadData { files: Vec::new() } }
    }

    /// An empty store kept in the agent's usual file.
    pub fn new() -> (r: Self)
        ensures
            r.wf(),
            r.deep_view().file_name == DOWNLOAD_CONFIG_FILE_NAME@,
            r.deep_view().files.len() == 0,
    {
        Self::create_default_config(DOWNLOAD_CONFIG_FILE_NAME)
    }

    /// The store kept in `file_name` with the content `data`; `None` if two
    /// of its records are for the same version of the same artifact.
    pub fn from(file_name: &str, data: DownloadData) -> (r: Option<Self>)
        ensures
            unique_keys(data.deep_view()) <==> r is Some,
            r matches Some(c) ==> c.wf() && c.deep_view().file_name == file_name@
                && c.deep_view().files == data.deep_view(),
    {
        if keys_differ(&data.files) {
            Some(DownloadConfig { file_name: file_name.to_owned(), data })
        } else {
            None
        }
    }

    /// What the store holds.
    pub fn get_data(&self) -> (r: &DownloadData)
        ensures
            r.deep_view() == self.deep_view().files,
    {
        &self.data
    }

    /// The file the store is kept in.
    pub fn file_name(&self) -> (r: &str)
        ensures
            r@ == self.deep_view().file_name,
    {
        self.file_name.as_str()
    }

    /// Records `md5_value` as the validator of `app_name` in `app_version`,
    /// in place of what was recorded for them before.
    pub fn put(&mut self, app_name: &str, app_version: &str, md5_value: &str)
        requires
            old(self).wf(),
        ensures
            final(self).wf(),
            final(self).deep_view().file_name == old(self).deep_view().file_name,
            final(self).deep_view().files == with_record(
                old(self).deep_view().files,
                app_name@,
                app_version@,
                md5_value@,
            ),
    {
        let ghost before = self.data.files.deep_view();
        let record = FileMd5Info {
            name: app_name.to_owned(),
            version: app_version.to_owned(),
            md5: md5_value.to_owned(),
        };
        let i = find_key(&self.data.files, app_name, app_version);
        if i < self.data.files.len() {
            self.data.files.remove(i);
            proof {
                lemma_remove_at_keeps_unique(before, i as int);
            }
        }
        let ghost middle = self.data.files.deep_view();
        assert(middle == without_key(before, app_name@, app_version@));
        assert(forall|j: int| 0 <= j < middle.len() ==> !is_for(
            #[trigger] middle[j],
            app_name@,
            app_version@,
        )) by {
            assert forall|j: int| 0 <= j < middle.len() implies !is_for(
                #[trigger] middle[j],
                app_name@,
                app_version@,
            ) by {
                if i < before.len() {
                    let j0 = if j < i { j } else { j + 1 };
                    assert(middle[j] == before[j0]);
                    if j0 > i {
                        assert(!is_for(before[i as int], before[j0].name, before[j0].version));
                    }
                }
            }
        }
        self.data.files.push(record);
        assert(self.data.files.deep_view() == middle.push(record.deep_view()));
    }

    /// The record for `app_name` in `app_version`, if there is one.
    pub fn get(self, app_name: &str, app_version: &str) -> (r: Option<FileMd5Info>)
        ensures
            match validator_of(self.deep_view().files, app_name@, app_version@) {
                Some(md5) => r.deep_view() == Some(
                    FileMd5Model { name: app_name@, version: app_version@, md5 },
                ),
                None => r is None,
            },
    {
        let i = find_key(&self.data.files, app_name, app_version);
        let mut files = self.data.files;
        if i < files.len() {
            let ghost all = files.deep_view();
            let record = files.remove(i);
            assert(record.deep_view() == all[i as int]);
            Some(record)
        } else {
            None
        }
    }

    /// Forgets what is recorded for `app_name` in `app_version`.
    pub fn remove(&mut self, app_name: &str, app_version: &str)
        requires
            old(self).wf(),
        ensures
            final(self).wf(),
            final(self).deep_view().file_name == old(self).deep_view().file_name,
            final(self).deep_view().files == without_key(
                old(self).deep_view().files,
                app_name@,
                app_version@,
            ),
    {
        let ghost before = self.data.files.deep_view();
        let i = find_key(&self.data.files, app_name, app_version);
        if i < self.data.files.len() {
            self.data.files.remove(i);
            proof {
                lemma_remove_at_keeps_unique(before, i as int);
            }
            assert(self.data.files.deep_view() == before.remove(i as int));
        }
    }
}

/// `key_index` is the least index of a record for the key, or the number
/// of records.
pub proof fn lemma_key_index(files: Seq<FileMd5Model>, name: Seq<char>, version: Seq<char>)
    ensures
        0 <= key_index(files, name, version) <= files.len(),
        key_index(files, name, version) < files.len() ==> is_for(
            files[key_index(files, name, version)],
            name,
            version,
        ),
        forall|j: int|
            0 <= j < key_index(files, name, version) ==> !is_for(
                #[trigger] files[j],
                name,
                version,
            ),
    decreases files.len(),
{
    if files.len() > 0 && !is_for(files[0], name, version) {
        let rest = files.drop_first();
        lemma_key_index(rest, name, version);
        assert forall|j: int| 0 <= j < key_index(files, name, version) implies !is_for(
            #[trigger] files[j],
            name,
            version,
        ) by {
            if j > 0 {
                assert(files[j] == rest[j - 1]);
            }
        }
    }
}

/// The least index of a record for the key is `key_index`.
pub proof fn lemma_key_index_is(
    files: Seq<FileMd5Model>,
    name: Seq<char>,
    version: Seq<char>,
    i: int,
)
    requires
        0 <= i <= files.len(),
        i < files.len() ==> is_for(files[i], name, version),
        forall|j: int| 0 <= j < i ==> !is_for(#[trigger] files[j], name, version),
    ensures
        key_index(files, name, version) == i,
{
    lemma_key_index(files, name, version);
    let k = key_index(files, name, version);
    if k < i {
        assert(!is_for(files[k], name, version));
    }
}

/// What was recorded last for an artifact is what is found for it.
pub proof fn lemma_put_then_get(
    files: Seq<FileMd5Model>,
    name: Seq<char>,
    version: Seq<char>,
    md5: Seq<char>,
)
    requires
        unique_keys(files),
    ensures
        validator_of(with_record(files, name, version, md5), name, version) == Some(md5),
{
    lemma_key_index(files, name, version);
    let i = key_index(files, name, version);
    let mid = without_key(files, name, version);
    let after = with_record(files, name, version, md5);
    assert forall|j: int| 0 <= j < mid.len() implies !is_for(
        #[trigger] after[j],
        name,
        version,
    ) by {
        if i < files.len() {
            let j0 = if j < i { j } else { j + 1 };
            assert(mid[j] == files[j0]);
            if j0 > i {
                assert(!is_for(files[i], files[j0].name, files[j0].version));
            }
        }
    }
    lemma_key_index_is(after, name, version, mid.len() as int);
}

/// Recording a validator for one artifact leaves what is found for every
/// other one as it was.
pub proof fn lemma_put_keeps_others(
    files: Seq<FileMd5Model>,
    name: Seq<char>,
    version: Seq<char>,
    md5: Seq<char>,
    other_name: Seq<char>,
    other_version: Seq<char>,
)
    requires
        !(other_name == name && other_version == version),
    ensures
        validator_of(with_record(files, name, version, md5), other_name, other_version)
            == validator_of(files, other_name, other_version),
{
    lemma_key_index(files, name, version);
    lemma_key_index(files, other_name, other_version);
    let i = key_index(files, name, version);
    let k = key_index(files, other_name, other_version);
    let mid = without_key(files, name, version);
    let after = with_record(files, name, version, md5);
    let k1 = if k == files.len() {
        after.len() as int
    } else if i < files.len() && i < k {
        k - 1
    } else {
        k
    };
    assert(k != i || i == files.len());
    assert forall|j: int| 0 <= j < k1 implies !is_for(
        #[trigger] after[j],
        other_name,
        other_version,
    ) by {
        if j < mid.len() {
            if i < files.len() {
                let j0 = if j < i { j } else { j + 1 };
                assert(after[j] == files[j0]);
            } else {
                assert(after[j] == files[j]);
            }
        }
    }
    if k < files.len() {
        assert(after[k1] == files[k]);
    }
    lemma_key_index_is(after, other_name, other_version, k1);
}

/// Once a download's record is removed, nothing is found for it.
pub proof fn lemma_remove_then_get(files: Seq<FileMd5Model>, name: Seq<char>, version: Seq<char>)
    requires
        unique_keys(files),
    ensures
        validator_of(without_key(files, name, version), name, version) is None,
{
    lemma_key_index(files, name, version);
    let i = key_index(files, name, version);
    let mid = without_key(files, name, version);
    assert forall|j: int| 0 <= j < mid.len() implies !is_for(#[trigger] mid[j], name, version) by {
        if i < files.len() {
            let j0 = if j < i { j } else { j + 1 };
            assert(mid[j] == files[j0]);
            if j0 > i {
                assert(!is_for(files[i], files[j0].name, files[j0].version));
            }
        }
    }
    lemma_key_index_is(mid, name, version, mid.len() as int);
}

/// Forgetting a download leaves the records distinct.
pub proof fn lemma_remove_keeps_unique(
    files: Seq<FileMd5Model>,
    name: Seq<char>,
    version: Seq<char>,
)
    requires
        unique_keys(files),
    ensures
        unique_keys(without_key(files, name, version)),
{
    lemma_key_index(files, name, version);
    if key_index(files, name, version) < files.len() {
        lemma_remove_at_keeps_unique(files, key_index(files, name, version));
    }
}

/// Recording a validator leaves the records distinct.
pub proof fn lemma_put_keeps_unique(
    files: Seq<FileMd5Model>,
    name: Seq<char>,
    version: Seq<char>,
    md5: Seq<char>,
)
    requires
        unique_keys(files),
    ensures
        unique_keys(with_record(files, name, version, md5)),
{
    lemma_remove_keeps_unique(files, name, version);
    lemma_remove_then_get(files, name, version);
    let mid = without_key(files, name, version);
    let after = with_record(files, name, version, md5);
    lemma_key_index(mid, name, version);
    assert forall|a: int, b: int| 0 <= a < b < after.len() implies !is_for(
        after[a],
        after[b].name,
        after[b].version,
    ) by {
        assert(after[a] == mid[a]);
        if b < mid.len() {
            assert(after[b] == mid[b]);
        }
    }
}

} // verus!
