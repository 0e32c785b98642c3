//! Requests to the distribution platform and the reading of its answers.

use crate::config::{REST_API_APPS, REST_API_INSTALLERS, ROOT_PATH_APP};
use crate::download_config::{
    lemma_put_keeps_unique, lemma_put_then_get, lemma_remove_keeps_unique,
    lemma_remove_then_get, unique_keys, validator_of, with_record, without_key, DownloadConfig,
    FileMd5Model,
};
use crate::util::net::InterfaceAddr;
use crate::util::os::OSInfo;
use crate::util::text::{
    after_first, before_first, chars_after_first, chars_before_first, chars_of, decimal,
    is_digit, lacks, lemma_after_first_split, lemma_before_first_whole, lemma_decimal_digits,
    lemma_parse_decimal, parse_u64, parse_unsigned, str_eq, strip_range, stripped, trimmed,
    u64_to_string,
};
use vstd::prelude::*;
use vstd::string::StrSliceExecFns;
use vstd::string::StringExecFns;

verus! {

/// A managed unit as the distribution platform describes it.
#[derive(Clone, Debug)]
pub struct InstallerInfo {
    /// Root URL of the platform; absent in what the platform itself sends.
    pub url: Option<String>,
    /// Token that identifies this unit to the platform.
    pub installer_token: String,
    pub app_name: String,
    pub app_version: String,
    pub app_file_name: String,
    pub app_run_port: u32,
    pub jdk_name: String,
    pub jdk_version: String,
    pub jdk_file_name: String,
}

/// An `InstallerInfo` as text.
pub struct InstallerInfoModel {
    pub url: Option<Seq<char>>,
    pub installer_token: Seq<char>,
    pub app_name: Seq<char>,
    pub app_version: Seq<char>,
    pub app_file_name: Seq<char>,
    pub app_run_port: u32,
    pub jdk_name: Seq<char>,
    pub jdk_version: Seq<char>,
    pub jdk_file_name: Seq<char>,
}

impl DeepView for InstallerInfo {
    type V = InstallerInfoModel;

    open spec fn deep_view(&self) -> InstallerInfoModel {
        InstallerInfoModel {
            url: self.url.deep_view(),
            installer_token: self.installer_token@,
            app_name: self.app_name@,
            app_version: self.app_version@,
            app_file_name: self.app_file_name@,
            app_run_port: self.app_run_port,
            jdk_name: self.jdk_name@,
            jdk_version: self.jdk_version@,
            jdk_file_name: self.jdk_file_name@,
        }
    }
}

/// Directory of the download cache that holds `version` of artifact `name`.
pub open spec fn cache_dir(name: Seq<char>, version: Seq<char>) -> Seq<char> {
    ROOT_PATH_APP@ + "/"@ + name + "/"@ + version
}

/// Place of a finished download in the cache.
pub open spec fn cache_file(name: Seq<char>, version: Seq<char>, file_name: Seq<char>) -> Seq<
    char,
> {
    cache_dir(name, version) + "/"@ + file_name
}

/// Place of an unfinished download in the cache.
pub open spec fn part_file(name: Seq<char>, version: Seq<char>, file_name: Seq<char>) -> Seq<
    char,
> {
    cache_file(name, version, file_name) + ".part"@
}

/// Address from which the platform at `root_url` serves an artifact for a
/// host of the given system and architecture.
pub open spec fn artifact_url(
    root_url: Seq<char>,
    name: Seq<char>,
    version: Seq<char>,
    target_os: Seq<char>,
    target_arch: Seq<char>,
) -> Seq<char> {
    root_url + "/"@ + REST_API_APPS@ + "?appName="@ + name + "&version="@ + version
        + "&targetOs="@ + target_os + "&arch="@ + target_arch
}

/// Value of the `Range` header that asks for everything from byte `from` on.
pub open spec fn range_from(from: u64) -> Seq<char> {
    "bytes="@ + decimal(from as nat) + "-"@
}

/// The directory of the cache for one version of an artifact.
pub fn cache_dir_path(name: &str, version: &str) -> (r: String)
    ensures
        r@ == cache_dir(name@, version@),
{
    let mut r = ROOT_PATH_APP.to_owned();
    r.append("/");
    r.append(name);
    r.append("/");
    r.append(version);
    r
}

/// Where the cache holds a finished download.
pub fn cache_file_path(name: &str, version: &str, file_name: &str) -> (r: String)
    ensures
        r@ == cache_file(name@, version@, file_name@),
{
    let mut r = cache_dir_path(name, version);
    r.append("/");
    r.append(file_name);
    r
}

/// Where the cache holds a download that is under way.
pub fn part_file_path(name: &str, version: &str, file_name: &str) -> (r: String)
    ensures
        r@ == part_file(name@, version@, file_name@),
{
    let mut r = cache_file_path(name, version, file_name);
    r.append(".part");
    r
}

fn artifact_address(
    root_url: &str,
    name: &str,
    version: &str,
    target_os: &str,
    target_arch: &str,
) -> (r: String)
    ensures
        r@ == artifact_url(root_url@, name@, version@, target_os@, target_arch@),
{
    let mut r = root_url.to_owned();
    r.append("/");
    r.append(REST_API_APPS);
    r.append("?appName=");
    r.append(name);
    r.append("&version=");
    r.append(version);
    r.append("&targetOs=");
    r.append(target_os);
    r.append("&arch=");
    r.append(target_arch);
    r
}

/// What the cache holds of one artifact.
#[derive(Clone, Copy, Debug, PartialEq, Eq)]
pub struct CacheProbe {
    /// Whether the finished file exists.
    pub finished: bool,
    /// Size of the partial file, if one exists.
    pub partial_size: Option<u64>,
}

/// A request for an artifact and the places its answer goes to.
#[derive(Debug, PartialEq)]
pub struct ArtifactRequest {
    pub url: String,
    /// Value of the `Range` header, when a partial file is to be continued.
    pub range: Option<String>,
    /// Value of the `If-Range` header: the validator of the partial file.
    pub if_range: Option<String>,
    /// Directory to create before anything is written.
    pub dir: String,
    pub part_path: String,
    pub final_path: String,
    /// Number of bytes that the partial file already holds.
    pub downloaded_size: u64,
}

/// An `ArtifactRequest` as text.
pub struct ArtifactRequestModel {
    pub url: Seq<char>,
    pub range: Option<Seq<char>>,
    pub if_range: Option<Seq<char>>,
    pub dir: Seq<char>,
    pub part_path: Seq<char>,
    pub final_path: Seq<char>,
    pub downloaded_size: u64,
}

impl DeepView for ArtifactRequest {
    type V = ArtifactRequestModel;

    open spec fn deep_view(&self) -> ArtifactRequestModel {
        ArtifactRequestModel {
            url: self.url@,
            range: self.range.deep_view(),
            if_range: self.if_range.deep_view(),
            dir: self.dir@,
            part_path: self.part_path@,
            final_path: self.final_path@,
            downloaded_size: self.downloaded_size,
        }
    }
}

/// How a wanted artifact is to be had.
#[derive(Debug, PartialEq)]
pub enum DownloadPlan {
    /// The finished file is in the cache, at `path`: nothing is fetched.
    Cached { path: String },
    /// The artifact, or the rest of it, is to be fetched.
    Fetch { request: ArtifactRequest },
}

/// A `DownloadPlan` as text.
pub enum DownloadPlanModel {
    Cached { path: Seq<char> },
    Fetch { request: ArtifactRequestModel },
}

impl DeepView for DownloadPlan {
    type V = DownloadPlanModel;

    open spec fn deep_view(&self) -> DownloadPlanModel {
        match self {
            DownloadPlan::Cached { path } => DownloadPlanModel::Cached { path: path@ },
            DownloadPlan::Fetch { request } => DownloadPlanModel::Fetch {
                request: request.deep_view(),
            },
        }
    }
}

/// The plan for an artifact, given what the cache holds of it and the
/// validators recorded for unfinished downloads.
///
/// A finished file is used as it is. A partial file is continued from its
/// end, on condition that the content still has the recorded validator.
/// Otherwise the whole artifact is requested.
pub open spec fn download_plan(
    root_url: Seq<char>,
    name: Seq<char>,
    version: Seq<char>,
    file_name: Seq<char>,
    target_os: Seq<char>,
    target_arch: Seq<char>,
    probe: CacheProbe,
    files: Seq<FileMd5Model>,
) -> DownloadPlanModel {
    if probe.finished {
        DownloadPlanModel::Cached { path: cache_file(name, version, file_name) }
    } else {
        DownloadPlanModel::Fetch {
            request: ArtifactRequestModel {
                url: artifact_url(root_url, name, version, target_os, target_arch),
                range: match probe.partial_size {
                    Some(size) => Some(range_from(size)),
                    None => None,
                },
                if_range: match probe.partial_size {
                    Some(_) => validator_of(files, name, version),
                    None => None,
                },
                dir: cache_dir(name, version),
                part_path: part_file(name, version, file_name),
                final_path: cache_file(name, version, file_name),
                downloaded_size: match probe.partial_size {
                    Some(size) => size,
                    None => 0,
                },
            },
        }
    }
}

/// Plans how to bring `app_file_name`, version `app_version` of artifact
/// `app_name`, into the download cache.
///
/// `probe` says what the cache holds of it, `records` what is known of
/// unfinished downloads, `os_info` for which host the platform at
/// `root_url` is asked.
pub fn download(
    root_url: &str,
    app_name: &str,
    app_version: &str,
    app_file_name: &str,
    os_info: &OSInfo,
    probe: CacheProbe,
    records: DownloadConfig,
) -> (r: DownloadPlan)
    ensures
        r.deep_view() == download_plan(
            root_url@,
            app_name@,
            app_version@,
            app_file_name@,
            os_info.target_os@,
            os_info.target_arch@,
            probe,
            records.deep_view().files,
        ),
{
    let final_path = cache_file_path(app_name, app_version, app_file_name);
    if probe.finished {
        return DownloadPlan::Cached { path: final_path };
    }
    let mut range: Option<String> = None;
    let mut if_range: Option<String> = None;
    let mut downloaded_size: u64 = 0;
    match probe.partial_size {
        Some(size) => {
            downloaded_size = size;
            let mut value = "bytes=".to_owned();
            value.append(u64_to_string(size).as_str());
            value.append("-");
            range = Some(value);
            match records.get(app_name, app_version) {
                Some(record) => {
                    if_range = Some(record.md5);
                },
                None => {},
            }
        },
        None => {},
    }
    DownloadPlan::Fetch {
        request: ArtifactRequest {
            url: artifact_address(
                root_url,
                app_name,
                app_version,
                os_info.target_os.as_str(),
                os_info.target_arch.as_str(),
            ),
            range,
            if_range,
            dir: cache_dir_path(app_name, app_version),
            part_path: part_file_path(app_name, app_version, app_file_name),
            final_path,
            downloaded_size,
        },
    }
}

/// What the agent reads of the platform's answer to a request for an
/// artifact: the status and the headers that matter, as text.
#[derive(Debug, PartialEq)]
pub struct ResponseHead {
    pub status: u16,
    pub content_length: Option<String>,
    pub etag: Option<String>,
    pub content_range: Option<String>,
    pub accept_ranges: Option<String>,
}

/// A `ResponseHead` as text.
pub struct ResponseHeadModel {
    pub status: u16,
    pub content_length: Option<Seq<char>>,
    pub etag: Option<Seq<char>>,
    pub content_range: Option<Seq<char>>,
    pub accept_ranges: Option<Seq<char>>,
}

impl DeepView for ResponseHead {
    type V = ResponseHeadModel;

    open spec fn deep_view(&self) -> ResponseHeadModel {
        ResponseHeadModel {
            status: self.status,
            content_length: self.content_length.deep_view(),
            etag: self.etag.deep_view(),
            content_range: self.content_range.deep_view(),
            accept_ranges: self.accept_ranges.deep_view(),
        }
    }
}

/// How the body of an answer goes into the partial file.
#[derive(Clone, Copy, Debug, PartialEq, Eq, Structural)]
pub enum WriteMode {
    /// The body replaces what the file held.
    Truncate,
    /// The body follows what the file holds.
    Append,
}

/// What to do with the body of an answer.
#[derive(Debug, PartialEq)]
pub struct Transfer {
    pub mode: WriteMode,
    /// Size of the whole artifact, for the progress display; 0 if unknown.
    pub total_size: u64,
    /// Part of the whole that the display shows as done from the start.
    pub progress: u64,
    /// Validator to record before the first byte is written.
    pub validator: Option<String>,
}

/// A `Transfer` as text.
pub struct TransferModel {
    pub mode: WriteMode,
    pub total_size: u64,
    pub progress: u64,
    pub validator: Option<Seq<char>>,
}

impl DeepView for Transfer {
    type V = TransferModel;

    open spec fn deep_view(&self) -> TransferModel {
        TransferModel {
            mode: self.mode,
            total_size: self.total_size,
            progress: self.progress,
            validator: self.validator.deep_view(),
        }
    }
}

/// Why an artifact could not be had.
#[derive(Clone, Copy, Debug, PartialEq, Eq, Structural)]
pub enum DownloadError {
    /// The platform has no such artifact. Asking again will not help
    /// unless another version is asked for.
    NotFound,
    /// The platform answered with a status the agent has no use for.
    UnexpectedStatus(u16),
}

/// The number a header holds; 0 where the header is absent or holds none.
pub open spec fn number_or_zero(value: Option<Seq<char>>) -> u64 {
    match value {
        Some(text) => match parse_unsigned(text, u64::MAX as nat) {
            Some(n) => n as u64,
            None => 0,
        },
        None => 0,
    }
}

/// Size of the whole content according to a `Content-Range` header such as
/// `bytes 5-9/10`: the number between its first and second `/`.
pub open spec fn range_total(value: Option<Seq<char>>) -> u64 {
    match value {
        Some(text) => match after_first(text, '/') {
            Some(rest) => number_or_zero(Some(before_first(rest, '/'))),
            None => 0,
        },
        None => 0,
    }
}

/// The validator in an `ETag` header: the header without the whitespace
/// around it and without the quotes around that. A blank header holds none.
pub open spec fn validator_in(etag: Option<Seq<char>>) -> Option<Seq<char>> {
    match etag {
        Some(text) => if trimmed(text).len() > 0 {
            Some(stripped(trimmed(text), Some('"')))
        } else {
            None
        },
        None => None,
    }
}

/// What an answer asks of the agent, when the partial file holds
/// `downloaded_size` bytes.
///
/// Status 200 brings the whole content: it replaces the partial file, and
/// its validator is to be recorded first. Status 206 brings the rest: it is
/// appended. Status 404 and every other status bring nothing.
pub open spec fn transfer_for(head: ResponseHeadModel, downloaded_size: u64) -> Result<
    TransferModel,
    DownloadError,
> {
    if head.status == 200 {
        Ok(
            TransferModel {
                mode: WriteMode::Truncate,
                total_size: number_or_zero(head.content_length),
                progress: 0,
                validator: validator_in(head.etag),
            },
        )
    } else if head.status == 206 {
        Ok(
            TransferModel {
                mode: WriteMode::Append,
                total_size: range_total(head.content_range),
                progress: if head.accept_ranges == Some("bytes"@) && downloaded_size > 0 {
                    downloaded_size
                } else {
                    0
                },
                validator: None,
            },
        )
    } else if head.status == 404 {
        Err(DownloadError::NotFound)
    } else {
        Err(DownloadError::UnexpectedStatus(head.status))
    }
}

fn header_number(value: &Option<String>) -> (r: u64)
    ensures
        r == number_or_zero(value.deep_view()),
{
    match value {
        Some(text) => {
            let chars = chars_of(text.as_str());
            match parse_u64(&chars) {
                Some(n) => n,
                None => 0,
            }
        },
        None => 0,
    }
}

fn header_range_total(value: &Option<String>) -> (r: u64)
    ensures
        r == range_total(value.deep_view()),
{
    match value {
        Some(text) => {
            let chars = chars_of(text.as_str());
            match chars_after_first(&chars, '/') {
                Some(rest) => {
                    let total = chars_before_first(&rest, '/');
                    match parse_u64(&total) {
                        Some(n) => n,
                        None => 0,
                    }
                },
                None => 0,
            }
        },
        None => 0,
    }
}

fn header_validator(etag: &Option<String>) -> (r: Option<String>)
    ensures
        r.deep_view() == validator_in(etag.deep_view()),
{
    match etag {
        Some(text) => {
            let chars = chars_of(text.as_str());
            let n = chars.len();
            assert(chars@.subrange(0, n as int) == chars@);
            let (a, b) = strip_range(&chars, 0, n, None);
            if a == b {
                return None;
            }
            let (c, d) = strip_range(&chars, a, b, Some('"'));
            Some(text.as_str().substring_char(c, d).to_owned())
        },
        None => None,
    }
}

/// Reads the platform's answer to a request for an artifact.
pub fn receive(head: &ResponseHead, downloaded_size: u64) -> (r: Result<Transfer, DownloadError>)
    ensures
        match transfer_for(head.deep_view(), downloaded_size) {
            Ok(transfer) => r matches Ok(t) && t.deep_view() == transfer,
            Err(e) => r matches Err(x) && x == e,
        },
{
    if head.status == 200 {
        Ok(
            Transfer {
                mode: WriteMode::Truncate,
                total_size: header_number(&head.content_length),
                progress: 0,
                validator: header_validator(&head.etag),
            },
        )
    } else if head.status == 206 {
        let resumable = match &head.accept_ranges {
            Some(value) => str_eq(value.as_str(), "bytes"),
            None => false,
        };
        Ok(
            Transfer {
                mode: WriteMode::Append,
                total_size: header_range_total(&head.content_range),
                progress: if resumable && downloaded_size > 0 {
                    downloaded_size
                } else {
                    0
                },
                validator: None,
            },
        )
    } else if head.status == 404 {
        Err(DownloadError::NotFound)
    } else {
        Err(DownloadError::UnexpectedStatus(head.status))
    }
}

/// Records what must be known before the first byte of a transfer is
/// written: the validator of the content that is about to arrive.
pub fn begin(records: &mut DownloadConfig, app_name: &str, app_version: &str, transfer: &Transfer)
    requires
        old(records).wf(),
    ensures
        final(records).wf(),
        final(records).deep_view().file_name == old(records).deep_view().file_name,
        final(records).deep_view().files == match transfer.deep_view().validator {
            Some(validator) => with_record(
                old(records).deep_view().files,
                app_name@,
                app_version@,
                validator,
            ),
            None => old(records).deep_view().files,
        },
{
    match &transfer.validator {
        Some(validator) => {
            records.put(app_name, app_version, validator.as_str());
        },
        None => {},
    }
}

/// Forgets the record of a download once its file is finished.
pub fn finish(records: &mut DownloadConfig, app_name: &str, app_version: &str)
    requires
        old(records).wf(),
    ensures
        final(records).wf(),
        final(records).deep_view().file_name == old(records).deep_view().file_name,
        final(records).deep_view().files == without_key(
            old(records).deep_view().files,
            app_name@,
            app_version@,
        ),
{
    records.remove(app_name, app_version);
}

/// One step of taking in the body of an answer.
#[derive(Clone, Copy, Debug, PartialEq, Eq, Structural)]
pub enum TransferStep {
    /// Record the validator of the content that is about to arrive.
    RecordValidator,
    /// Write the body to the partial file, to its end.
    WriteBody,
    /// Give the partial file the name of the finished file.
    RenameToFinal,
    /// Forget what is recorded for the download.
    ForgetRecord,
}

/// The steps of a transfer, in order. A validator is recorded before the
/// first byte is written, so that a transfer that is cut short can be
/// resumed under it; the record goes once the file is finished.
pub open spec fn steps_of(transfer: TransferModel) -> Seq<TransferStep> {
    let rest = seq![
        TransferStep::WriteBody,
        TransferStep::RenameToFinal,
        TransferStep::ForgetRecord,
    ];
    if transfer.validator is Some {
        seq![TransferStep::RecordValidator] + rest
    } else {
        rest
    }
}

/// Lists the steps of a transfer, in order.
pub fn transfer_steps(transfer: &Transfer) -> (r: Vec<TransferStep>)
    ensures
        r@ == steps_of(transfer.deep_view()),
{
    let mut r: Vec<TransferStep> = Vec::new();
    if transfer.validator.is_some() {
        r.push(TransferStep::RecordValidator);
    }
    r.push(TransferStep::WriteBody);
    r.push(TransferStep::RenameToFinal);
    r.push(TransferStep::ForgetRecord);
    assert(r@ =~= steps_of(transfer.deep_view()));
    r
}

/// The two files that the cache may hold of one artifact, by content.
pub struct CacheSlot {
    pub finished: Option<Seq<u8>>,
    pub partial: Option<Seq<u8>>,
}

/// What a look at the cache shows of a slot.
pub open spec fn probe_of(slot: CacheSlot) -> CacheProbe {
    CacheProbe {
        finished: slot.finished is Some,
        partial_size: match slot.partial {
            Some(bytes) => Some(bytes.len() as u64),
            None => None,
        },
    }
}

/// Content of the partial file once `body` has been written to it.
pub open spec fn written(partial: Option<Seq<u8>>, mode: WriteMode, body: Seq<u8>) -> Seq<u8> {
    match (mode, partial) {
        (WriteMode::Append, Some(bytes)) => bytes + body,
        _ => body,
    }
}

/// What the agent keeps of one artifact: its slot in the cache and the
/// records of unfinished downloads.
pub struct Kept {
    pub slot: CacheSlot,
    pub files: Seq<FileMd5Model>,
}

/// What is kept after one step of the transfer of `body` for `name` in
/// `version`.
pub open spec fn after_transfer_step(
    kept: Kept,
    step: TransferStep,
    name: Seq<char>,
    version: Seq<char>,
    transfer: TransferModel,
    body: Seq<u8>,
) -> Kept {
    match step {
        TransferStep::RecordValidator => Kept {
            files: match transfer.validator {
                Some(validator) => with_record(kept.files, name, version, validator),
                None => kept.files,
            },
            ..kept
        },
        TransferStep::WriteBody => Kept {
            slot: CacheSlot {
                partial: Some(written(kept.slot.partial, transfer.mode, body)),
                ..kept.slot
            },
            ..kept
        },
        TransferStep::RenameToFinal => Kept {
            slot: CacheSlot { finished: kept.slot.partial, partial: None },
            ..kept
        },
        TransferStep::ForgetRecord => Kept {
            files: without_key(kept.files, name, version),
            ..kept
        },
    }
}

/// What is kept after `steps` of a transfer, in order.
pub open spec fn after_transfer_steps(
    kept: Kept,
    steps: Seq<TransferStep>,
    name: Seq<char>,
    version: Seq<char>,
    transfer: TransferModel,
    body: Seq<u8>,
) -> Kept
    decreases steps.len(),
{
    if steps.len() == 0 {
        kept
    } else {
        after_transfer_step(
            after_transfer_steps(kept, steps.drop_last(), name, version, transfer, body),
            steps.last(),
            name,
            version,
            transfer,
            body,
        )
    }
}

/// What is kept once a transfer has run to its end.
pub open spec fn completed(
    kept: Kept,
    name: Seq<char>,
    version: Seq<char>,
    transfer: TransferModel,
    body: Seq<u8>,
) -> Kept {
    after_transfer_steps(kept, steps_of(transfer), name, version, transfer, body)
}

/// One run of a plan to its end: what is kept after it, and the path it
/// hands back, where the platform answers with `head` and `body`. `None`
/// where the answer brings nothing; nothing is changed then.
pub open spec fn acquired(
    plan: DownloadPlanModel,
    kept: Kept,
    name: Seq<char>,
    version: Seq<char>,
    head: ResponseHeadModel,
    body: Seq<u8>,
) -> Option<(Kept, Seq<char>)> {
    match plan {
        DownloadPlanModel::Cached { path } => Some((kept, path)),
        DownloadPlanModel::Fetch { request } => match transfer_for(head, request.downloaded_size) {
            Ok(transfer) => Some(
                (completed(kept, name, version, transfer, body), request.final_path),
            ),
            Err(_) => None,
        },
    }
}

/// Taking one step more of a transfer.
pub proof fn lemma_after_transfer_steps_next(
    kept: Kept,
    steps: Seq<TransferStep>,
    k: int,
    name: Seq<char>,
    version: Seq<char>,
    transfer: TransferModel,
    body: Seq<u8>,
)
    requires
        0 <= k < steps.len(),
    ensures
        after_transfer_steps(kept, steps.take(k + 1), name, version, transfer, body)
            == after_transfer_step(
            after_transfer_steps(kept, steps.take(k), name, version, transfer, body),
            steps[k],
            name,
            version,
            transfer,
            body,
        ),
{
    assert(steps.take(k + 1).drop_last() == steps.take(k));
    assert(steps.take(k + 1).last() == steps[k]);
}

/// A transfer that runs to its end leaves the finished file, made of what
/// was written, no partial file and no record of the download.
pub proof fn lemma_completed(
    kept: Kept,
    name: Seq<char>,
    version: Seq<char>,
    transfer: TransferModel,
    body: Seq<u8>,
)
    requires
        unique_keys(kept.files),
    ensures
        completed(kept, name, version, transfer, body).slot == (CacheSlot {
            finished: Some(written(kept.slot.partial, transfer.mode, body)),
            partial: None,
        }),
        validator_of(completed(kept, name, version, transfer, body).files, name, version) is None,
        unique_keys(completed(kept, name, version, transfer, body).files),
{
    let steps = steps_of(transfer);
    assert(steps.take(0) == Seq::<TransferStep>::empty());
    lemma_after_transfer_steps_next(kept, steps, 0, name, version, transfer, body);
    lemma_after_transfer_steps_next(kept, steps, 1, name, version, transfer, body);
    lemma_after_transfer_steps_next(kept, steps, 2, name, version, transfer, body);
    if steps.len() == 4 {
        lemma_after_transfer_steps_next(kept, steps, 3, name, version, transfer, body);
    }
    assert(steps.take(steps.len() as int) == steps);
    let recorded = match transfer.validator {
        Some(validator) => with_record(kept.files, name, version, validator),
        None => kept.files,
    };
    if transfer.validator is Some {
        lemma_put_keeps_unique(kept.files, name, version, transfer.validator->0);
    }
    lemma_remove_then_get(recorded, name, version);
    lemma_remove_keeps_unique(recorded, name, version);
}

/// The validator is on record while the body is written.
///
/// A transfer with a validator is stopped after `k` of its steps: after
/// the first and before the last, so before, in the middle of or after the
/// writing. The download is then on record under that validator.
pub proof fn lemma_recorded_while_written(
    kept: Kept,
    name: Seq<char>,
    version: Seq<char>,
    transfer: TransferModel,
    body: Seq<u8>,
    k: int,
)
    requires
        unique_keys(kept.files),
        transfer.validator is Some,
        1 <= k < steps_of(transfer).len(),
    ensures
        validator_of(
            after_transfer_steps(
                kept,
                steps_of(transfer).take(k),
                name,
                version,
                transfer,
                body,
            ).files,
            name,
            version,
        ) == transfer.validator,
{
    let steps = steps_of(transfer);
    assert(steps.take(0) == Seq::<TransferStep>::empty());
    lemma_after_transfer_steps_next(kept, steps, 0, name, version, transfer, body);
    lemma_after_transfer_steps_next(kept, steps, 1, name, version, transfer, body);
    lemma_after_transfer_steps_next(kept, steps, 2, name, version, transfer, body);
    lemma_put_then_get(kept.files, name, version, transfer.validator->0);
}

/// Once an artifact has been acquired, acquiring it again fetches nothing
/// and hands back the same path, whatever was recorded meanwhile.
pub proof fn lemma_acquire_twice(
    root_url: Seq<char>,
    name: Seq<char>,
    version: Seq<char>,
    file_name: Seq<char>,
    target_os: Seq<char>,
    target_arch: Seq<char>,
    kept: Kept,
    head: ResponseHeadModel,
    body: Seq<u8>,
    files_after: Seq<FileMd5Model>,
)
    requires
        unique_keys(kept.files),
        acquired(
            download_plan(
                root_url,
                name,
                version,
                file_name,
                target_os,
                target_arch,
                probe_of(kept.slot),
                kept.files,
            ),
            kept,
            name,
            version,
            head,
            body,
        ) is Some,
    ensures
        ({
            let first = acquired(
                download_plan(
                    root_url,
                    name,
                    version,
                    file_name,
                    target_os,
                    target_arch,
                    probe_of(kept.slot),
                    kept.files,
                ),
                kept,
                name,
                version,
                head,
                body,
            )->0;
            download_plan(
                root_url,
                name,
                version,
                file_name,
                target_os,
                target_arch,
                probe_of(first.0.slot),
                files_after,
            ) == (DownloadPlanModel::Cached { path: first.1 })
        }),
{
    let plan = download_plan(
        root_url,
        name,
        version,
        file_name,
        target_os,
        target_arch,
        probe_of(kept.slot),
        kept.files,
    );
    if let DownloadPlanModel::Fetch { request } = plan {
        let transfer = transfer_for(head, request.downloaded_size)->Ok_0;
        lemma_completed(kept, name, version, transfer, body);
    }
}

/// Resuming gives the whole artifact.
///
/// The cache holds the first `n` bytes of `content` as a partial file. The
/// agent then asks for the bytes from `n` on, under the recorded validator.
/// When the platform answers with status 206, the rest of the content and a
/// `Content-Range` that ends in `/` and the content's size, the finished
/// file is `content`, byte for byte what a download from nothing gives, the
/// size shown as the whole is the content's, and the record of the
/// download is gone.
pub proof fn lemma_resume_yields_whole(
    root_url: Seq<char>,
    name: Seq<char>,
    version: Seq<char>,
    file_name: Seq<char>,
    target_os: Seq<char>,
    target_arch: Seq<char>,
    files: Seq<FileMd5Model>,
    content: Seq<u8>,
    n: nat,
    head: ResponseHeadModel,
    range: Seq<char>,
    fresh_head: ResponseHeadModel,
)
    requires
        unique_keys(files),
        n <= content.len() <= u64::MAX,
        head.status == 206,
        lacks(range, '/'),
        head.content_range == Some(range + seq!['/'] + decimal(content.len())),
        fresh_head.status == 200,
    ensures
        ({
            let partial = Kept {
                slot: CacheSlot { finished: None, partial: Some(content.take(n as int)) },
                files,
            };
            let nothing = Kept { slot: CacheSlot { finished: None, partial: None }, files };
            let whole = CacheSlot { finished: Some(content), partial: None };
            let path = cache_file(name, version, file_name);
            let plan = download_plan(
                root_url,
                name,
                version,
                file_name,
                target_os,
                target_arch,
                probe_of(partial.slot),
                files,
            );
            let fresh = download_plan(
                root_url,
                name,
                version,
                file_name,
                target_os,
                target_arch,
                probe_of(nothing.slot),
                files,
            );
            &&& plan matches DownloadPlanModel::Fetch { request }
            &&& request.range == Some(range_from(n as u64))
            &&& request.if_range == validator_of(files, name, version)
            &&& transfer_for(head, n as u64) matches Ok(transfer)
            &&& transfer.total_size == content.len()
            &&& acquired(plan, partial, name, version, head, content.skip(n as int)) matches Some(
                resumed,
            )
            &&& resumed.0.slot == whole
            &&& resumed.1 == path
            &&& validator_of(resumed.0.files, name, version) is None
            &&& acquired(fresh, nothing, name, version, fresh_head, content) matches Some(anew)
            &&& anew.0.slot == whole
            &&& anew.1 == path
        }),
{
    let total = decimal(content.len());
    lemma_after_first_split(range, '/', total);
    lemma_decimal_digits(content.len());
    assert(lacks(total, '/')) by {
        assert forall|i: int| 0 <= i < total.len() implies #[trigger] total[i] != '/' by {
            assert(is_digit(total[i]));
        }
    }
    lemma_before_first_whole(total, '/');
    lemma_parse_decimal(content.len(), u64::MAX as nat);
    assert(content.take(n as int) + content.skip(n as int) == content);
    let partial = Kept {
        slot: CacheSlot { finished: None, partial: Some(content.take(n as int)) },
        files,
    };
    let nothing = Kept { slot: CacheSlot { finished: None, partial: None }, files };
    lemma_completed(
        partial,
        name,
        version,
        transfer_for(head, n as u64)->Ok_0,
        content.skip(n as int),
    );
    lemma_completed(nothing, name, version, transfer_for(fresh_head, 0)->Ok_0, content);
}

/// One member of the object that a request carries as its body.
#[derive(Debug, PartialEq)]
pub struct Field {
    pub name: String,
    pub value: String,
}

impl DeepView for Field {
    type V = (Seq<char>, Seq<char>);

    open spec fn deep_view(&self) -> (Seq<char>, Seq<char>) {
        (self.name@, self.value@)
    }
}

/// A request to the platform about a managed unit.
#[derive(Debug, PartialEq)]
pub struct RemoteRequest {
    pub url: String,
    /// Members of the JSON object to send; empty for a request without body.
    pub fields: Vec<Field>,
}

/// A `RemoteRequest` as text.
pub struct RemoteRequestModel {
    pub url: Seq<char>,
    pub fields: Seq<(Seq<char>, Seq<char>)>,
}

impl DeepView for RemoteRequest {
    type V = RemoteRequestModel;

    open spec fn deep_view(&self) -> RemoteRequestModel {
        RemoteRequestModel { url: self.url@, fields: self.fields.deep_view() }
    }
}

/// Address of the platform's endpoint for managed units.
pub open spec fn installers_url(root_url: Seq<char>) -> Seq<char> {
    root_url + "/"@ + REST_API_INSTALLERS@
}

/// Address of one managed unit at the platform.
pub open spec fn installer_url(root_url: Seq<char>, installer_token: Seq<char>) -> Seq<char> {
    installers_url(root_url) + "/"@ + installer_token
}

/// The request that registers a unit: a POST to the endpoint for managed
/// units.
pub open spec fn registration(
    root_url: Seq<char>,
    registration_token: Seq<char>,
    app_run_port: u32,
    server_token: Seq<char>,
    ip_address: Seq<char>,
    os_type: Seq<char>,
    os_version: Seq<char>,
    target_arch: Seq<char>,
    target_os: Seq<char>,
) -> RemoteRequestModel {
    RemoteRequestModel {
        url: installers_url(root_url),
        fields: seq![
            ("registrationToken"@, registration_token),
            ("serverToken"@, server_token),
            ("ip"@, ip_address),
            ("appRunPort"@, decimal(app_run_port as nat)),
            ("osType"@, os_type),
            ("osVersion"@, os_version),
            ("arch"@, target_arch),
            ("targetOs"@, target_os),
        ],
    }
}

/// The request that asks for the latest description of a unit: a PUT to
/// the endpoint for managed units. The host is named by its hardware
/// address.
pub open spec fn update_request(
    root_url: Seq<char>,
    installer_token: Seq<char>,
    mac_address: Seq<char>,
    ip_address: Seq<char>,
    os_type: Seq<char>,
    os_version: Seq<char>,
    target_arch: Seq<char>,
    target_os: Seq<char>,
) -> RemoteRequestModel {
    RemoteRequestModel {
        url: installers_url(root_url),
        fields: seq![
            ("installerToken"@, installer_token),
            ("serverToken"@, mac_address),
            ("ip"@, ip_address),
            ("osType"@, os_type),
            ("osVersion"@, os_version),
            ("arch"@, target_arch),
            ("targetOs"@, target_os),
        ],
    }
}

fn field(name: &str, value: &str) -> (r: Field)
    ensures
        r.deep_view() == (name@, value@),
{
    Field { name: name.to_owned(), value: value.to_owned() }
}

fn installers_address(root_url: &str) -> (r: String)
    ensures
        r@ == installers_url(root_url@),
{
    let mut r = root_url.to_owned();
    r.append("/");
    r.append(REST_API_INSTALLERS);
    r
}

/// Builds the request that registers a unit on `app_run_port` with the
/// platform at `root_url`, for the host that `server_token`,
/// `interface_addr` and `os_info` describe.
pub fn register_installer(
    root_url: &str,
    registration_token: &str,
    app_run_port: u32,
    server_token: &str,
    interface_addr: &InterfaceAddr,
    os_info: &OSInfo,
) -> (r: RemoteRequest)
    ensures
        r.deep_view() == registration(
            root_url@,
            registration_token@,
            app_run_port,
            server_token@,
            interface_addr.ip_address@,
            os_info.os_type@,
            os_info.version@,
            os_info.target_arch@,
            os_info.target_os@,
        ),
{
    let port = u64_to_string(app_run_port as u64);
    let mut fields: Vec<Field> = Vec::new();
    fields.push(field("registrationToken", registration_token));
    fields.push(field("serverToken", server_token));
    fields.push(field("ip", interface_addr.ip_address.as_str()));
    fields.push(field("appRunPort", port.as_str()));
    fields.push(field("osType", os_info.os_type.as_str()));
    fields.push(field("osVersion", os_info.version.as_str()));
    fields.push(field("arch", os_info.target_arch.as_str()));
    fields.push(field("targetOs", os_info.target_os.as_str()));
    let r = RemoteRequest { url: installers_address(root_url), fields };
    assert(r.deep_view().fields =~= registration(
        root_url@,
        registration_token@,
        app_run_port,
        server_token@,
        interface_addr.ip_address@,
        os_info.os_type@,
        os_info.version@,
        os_info.target_arch@,
        os_info.target_os@,
    ).fields);
    r
}

/// Builds the request that asks the platform at `root_url` for the latest
/// description of the unit known by `token`.
pub fn update_installer(
    root_url: &str,
    token: &str,
    interface_addr: &InterfaceAddr,
    os_info: &OSInfo,
) -> (r: RemoteRequest)
    ensures
        r.deep_view() == update_request(
            root_url@,
            token@,
            interface_addr.mac_address@,
            interface_addr.ip_address@,
            os_info.os_type@,
            os_info.version@,
            os_info.target_arch@,
            os_info.target_os@,
        ),
{
    let mut fields: Vec<Field> = Vec::new();
    fields.push(field("installerToken", token));
    fields.push(field("serverToken", interface_addr.mac_address.as_str()));
    fields.push(field("ip", interface_addr.ip_address.as_str()));
    fields.push(field("osType", os_info.os_type.as_str()));
    fields.push(field("osVersion", os_info.version.as_str()));
    fields.push(field("arch", os_info.target_arch.as_str()));
    fields.push(field("targetOs", os_info.target_os.as_str()));
    let r = RemoteRequest { url: installers_address(root_url), fields };
    assert(r.deep_view().fields =~= update_request(
        root_url@,
        token@,
        interface_addr.mac_address@,
        interface_addr.ip_address@,
        os_info.os_type@,
        os_info.version@,
        os_info.target_arch@,
        os_info.target_os@,
    ).fields);
    r
}

/// Builds the request that removes the unit known by `installer_token`
/// from the platform at `root_url`: a DELETE without body.
pub fn unregister_installer(root_url: &str, installer_token: &str) -> (r: RemoteRequest)
    ensures
        r.deep_view().url == installer_url(root_url@, installer_token@),
        r.deep_view().fields.len() == 0,
{
    let mut url = installers_address(root_url);
    url.append("/");
    url.append(installer_token);
    RemoteRequest { url, fields: Vec::new() }
}

/// Why the platform did not do what it was asked.
#[derive(Clone, Copy, Debug, PartialEq, Eq, Structural)]
pub enum RemoteError {
    /// The platform rejected what was sent and says why in its answer.
    Validation,
    /// The answer holds no description of a unit where one was due.
    InvalidBody,
    /// The platform knows no unit by the token.
    NotFound,
    /// The platform answered with a status the agent has no use for.
    UnexpectedStatus(u16),
}

/// What the body of an answer about a unit holds.
#[derive(Clone, Copy, Debug, PartialEq, Eq, Structural)]
pub enum AnswerBody {
    /// The description of the unit.
    Description,
    /// The messages with which the platform rejects what was sent.
    Rejection,
    /// Nothing that the agent reads.
    Unread,
}

/// What to read from the body of an answer of status `status`, where
/// `expected` is the status of success.
pub fn answer_body(expected: u16, status: u16) -> (r: AnswerBody)
    ensures
        r == if status == expected {
            AnswerBody::Description
        } else if status == 422 {
            AnswerBody::Rejection
        } else {
            AnswerBody::Unread
        },
{
    if status == expected {
        AnswerBody::Description
    } else if status == 422 {
        AnswerBody::Rejection
    } else {
        AnswerBody::Unread
    }
}

/// What an answer to a request for a unit's description amounts to, where
/// `expected` is the status of success and `body` the description read
/// from the answer, if one could be read.
///
/// On success the description is handed back with the platform's URL
/// filled in.
pub open spec fn description_in(
    expected: u16,
    root_url: Seq<char>,
    status: u16,
    body: Option<InstallerInfoModel>,
) -> Result<InstallerInfoModel, RemoteError> {
    if status == expected {
        match body {
            Some(info) => Ok(InstallerInfoModel { url: Some(root_url), ..info }),
            None => Err(RemoteError::InvalidBody),
        }
    } else if status == 422 {
        Err(RemoteError::Validation)
    } else {
        Err(RemoteError::UnexpectedStatus(status))
    }
}

fn read_description(expected: u16, root_url: &str, status: u16, body: Option<InstallerInfo>) -> (r:
    Result<InstallerInfo, RemoteError>)
    ensures
        match description_in(expected, root_url@, status, body.deep_view()) {
            Ok(info) => r matches Ok(i) && i.deep_view() == info,
            Err(e) => r matches Err(x) && x == e,
        },
{
    if status == expected {
        match body {
            Some(info) => {
                let mut info = info;
                info.url = Some(root_url.to_owned());
                Ok(info)
            },
            None => Err(RemoteError::InvalidBody),
        }
    } else if status == 422 {
        Err(RemoteError::Validation)
    } else {
        Err(RemoteError::UnexpectedStatus(status))
    }
}

/// Reads the platform's answer to a registration: status 201 with the
/// description of the new unit.
pub fn read_registration(root_url: &str, status: u16, body: Option<InstallerInfo>) -> (r: Result<
    InstallerInfo,
    RemoteError,
>)
    ensures
        match description_in(201, root_url@, status, body.deep_view()) {
            Ok(info) => r matches Ok(i) && i.deep_view() == info,
            Err(e) => r matches Err(x) && x == e,
        },
{
    read_description(201, root_url, status, body)
}

/// Reads the platform's answer to a request for the latest description of
/// a unit: status 200 with the description.
pub fn read_update(root_url: &str, status: u16, body: Option<InstallerInfo>) -> (r: Result<
    InstallerInfo,
    RemoteError,
>)
    ensures
        match description_in(200, root_url@, status, body.deep_view()) {
            Ok(info) => r matches Ok(i) && i.deep_view() == info,
            Err(e) => r matches Err(x) && x == e,
        },
{
    read_description(200, root_url, status, body)
}

/// Reads the platform's answer to the removal of a unit: status 204.
pub fn read_unregistration(status: u16) -> (r: Result<(), RemoteError>)
    ensures
        r == if status == 204 {
            Ok::<(), RemoteError>(())
        } else if status == 404 {
            Err(RemoteError::NotFound)
        } else {
            Err(RemoteError::UnexpectedStatus(status))
        },
{
    if status == 204 {
        Ok(())
    } else if status == 404 {
        Err(RemoteError::NotFound)
    } else {
        Err(RemoteError::UnexpectedStatus(status))
    }
}

/// The messages with which the platform rejects one member of what was
/// sent, or, under the name `globalErrors`, the whole of it.
#[derive(Debug, PartialEq)]
pub struct FieldErrors {
    pub field: String,
    pub messages: Vec<String>,
}

impl DeepView for FieldErrors {
    type V = (Seq<char>, Seq<Seq<char>>);

    open spec fn deep_view(&self) -> (Seq<char>, Seq<Seq<char>>) {
        (self.field@, self.messages.deep_view())
    }
}

/// Whether messages filed under `field` are about the whole request.
pub open spec fn is_global(field: Seq<char>) -> bool {
    field == "globalErrors"@
}

/// The messages that are about the whole request, or those that are not,
/// in the order in which they were filed.
pub open spec fn messages_of(errors: Seq<(Seq<char>, Seq<Seq<char>>)>, global: bool) -> Seq<
    Seq<char>,
>
    decreases errors.len(),
{
    if errors.len() == 0 {
        Seq::empty()
    } else if is_global(errors.last().0) == global {
        messages_of(errors.drop_last(), global) + errors.last().1
    } else {
        messages_of(errors.drop_last(), global)
    }
}

/// The line that reports message number `n`.
pub open spec fn error_line(n: nat, message: Seq<char>) -> Seq<char> {
    "> [ERROR]: "@ + decimal(n) + ". "@ + message + "\n"@
}

/// The lines that report `messages`, numbered from 1.
pub open spec fn error_lines(messages: Seq<Seq<char>>) -> Seq<char>
    decreases messages.len(),
{
    if messages.len() == 0 {
        Seq::empty()
    } else {
        error_lines(messages.drop_last()) + error_line(messages.len(), messages.last())
    }
}

/// The report of a rejection: first the messages about single members,
/// then those about the whole request.
pub open spec fn error_report(errors: Seq<(Seq<char>, Seq<Seq<char>>)>) -> Seq<char> {
    error_lines(messages_of(errors, false) + messages_of(errors, true))
}

fn collect_messages<'a>(errors: &'a Vec<FieldErrors>, global: bool, out: &mut Vec<&'a String>)
    ensures
        final(out).deep_view() == old(out).deep_view() + messages_of(errors.deep_view(), global),
{
    let ghost all = errors.deep_view();
    let ghost start = out.deep_view();
    let mut i: usize = 0;
    assert(all.take(0) == Seq::<(Seq<char>, Seq<Seq<char>>)>::empty());
    assert(start + Seq::<Seq<char>>::empty() == start);
    while i < errors.len()
        invariant
            i <= errors.len(),
            all == errors.deep_view(),
            out.deep_view() == start + messages_of(all.take(i as int), global),
        decreases errors.len() - i,
    {
        let entry = &errors[i];
        let ghost done = messages_of(all.take(i as int), global);
        assert(all.take(i + 1).drop_last() == all.take(i as int));
        assert(all.take(i + 1).last() == entry.deep_view());
        if str_eq(entry.field.as_str(), "globalErrors") == global {
            let ghost messages = entry.messages.deep_view();
            let mut j: usize = 0;
            assert(messages.take(0) == Seq::<Seq<char>>::empty());
            assert(done + Seq::<Seq<char>>::empty() == done);
            while j < entry.messages.len()
                invariant
                    j <= entry.messages.len(),
                    messages == entry.messages.deep_view(),
                    out.deep_view() == start + (done + messages.take(j as int)),
                decreases entry.messages.len() - j,
            {
                let ghost before = out.deep_view();
                out.push(&entry.messages[j]);
                assert(out.deep_view() == before.push(messages[j as int]));
                assert(messages.take(j + 1) == messages.take(j as int).push(messages[j as int]));
                assert(start + (done + messages.take(j as int)).push(messages[j as int]) == (start
                    + (done + messages.take(j as int))).push(messages[j as int]));
                assert((done + messages.take(j as int)).push(messages[j as int]) == done
                    + messages.take(j as int).push(messages[j as int]));
                j += 1;
            }
            assert(messages.take(j as int) == messages);
        }
        i += 1;
    }
    assert(all.take(i as int) == all);
}

/// Writes the report of a rejection, one line for each message.
pub fn print_errors(errors: &Vec<FieldErrors>) -> (r: String)
    ensures
        r@ == error_report(errors.deep_view()),
{
    let mut ordered: Vec<&String> = Vec::new();
    collect_messages(errors, false, &mut ordered);
    collect_messages(errors, true, &mut ordered);
    let ghost messages = ordered.deep_view();
    assert(messages == messages_of(errors.deep_view(), false) + messages_of(
        errors.deep_view(),
        true,
    )) by {
        assert(Seq::<Seq<char>>::empty() + messages_of(errors.deep_view(), false) == messages_of(
            errors.deep_view(),
            false,
        ));
    }
    let mut r = String::new();
    let mut k: usize = 0;
    assert(messages.take(0) == Seq::<Seq<char>>::empty());
    while k < ordered.len()
        invariant
            k <= ordered.len(),
            messages == ordered.deep_view(),
            r@ == error_lines(messages.take(k as int)),
        decreases ordered.len() - k,
    {
        let ghost before = r@;
        assert(messages.take(k + 1).drop_last() == messages.take(k as int));
        assert(messages.take(k + 1).last() == ordered@[k as int]@);
        r.append("> [ERROR]: ");
        r.append(u64_to_string(k as u64 + 1).as_str());
        r.append(". ");
        r.append(ordered[k].as_str());
        r.append("\n");
        assert(r@ == before + error_line((k + 1) as nat, ordered@[k as int]@));
        k += 1;
    }
    assert(messages.take(k as int) == messages);
    r
}

} // verus!
