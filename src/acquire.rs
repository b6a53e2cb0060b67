use vstd::prelude::*;

use crate::archive::{archive_names_of, extract_binary, extraction, first_binary_from, not_found_message};
use crate::convert::is_separator;
use crate::log::Level;
use crate::text::concat;

verus! {

/// Operating system the binary is fetched for.
#[derive(Clone, Copy, Debug, PartialEq, Eq, Structural)]
pub enum TargetOs {
    MacOs,
    Windows,
    Linux,
    Other,
}

/// Processor architecture the binary is fetched for.
#[derive(Clone, Copy, Debug, PartialEq, Eq, Structural)]
pub enum TargetArch {
    Aarch64,
    X86_64,
    Other,
}

pub open spec fn download_base() -> Seq<char> {
    "https://assets.randynamic.org/pandocx/"@
}

/// The archive to download for a platform. Archives are published for macOS
/// on arm64 and on x86_64 and for Windows on x86_64; for every other pair there
/// is none.
pub open spec fn download_url_of(os: TargetOs, arch: TargetArch) -> Option<Seq<char>> {
    match (os, arch) {
        (TargetOs::MacOs, TargetArch::Aarch64) => Some(
            download_base() + "pandoc-3.8-arm64-macOS.zip"@,
        ),
        (TargetOs::MacOs, TargetArch::X86_64) => Some(
            download_base() + "pandoc-3.8-x86_64-macOS.zip"@,
        ),
        (TargetOs::Windows, TargetArch::X86_64) => Some(
            download_base() + "pandoc-3.8-windows-x86_64.zip"@,
        ),
        _ => None,
    }
}

/// The download URL of the binary's archive for a platform.
pub fn get_pandoc_download_url(os: TargetOs, arch: TargetArch) -> (r: Option<String>)
    ensures
        match r {
            Some(u) => download_url_of(os, arch) == Some(u@),
            None => download_url_of(os, arch) is None,
        },
{
    let base = "https://assets.randynamic.org/pandocx/";
    match (os, arch) {
        (TargetOs::MacOs, TargetArch::Aarch64) => Some(concat(base, "pandoc-3.8-arm64-macOS.zip")),
        (TargetOs::MacOs, TargetArch::X86_64) => Some(concat(base, "pandoc-3.8-x86_64-macOS.zip")),
        (TargetOs::Windows, TargetArch::X86_64) => Some(
            concat(base, "pandoc-3.8-windows-x86_64.zip"),
        ),
        _ => None,
    }
}

/// `name` inside directory `dir`.
pub open spec fn joined_path(dir: Seq<char>, name: Seq<char>) -> Seq<char> {
    if dir.len() == 0 || is_separator(dir.last()) {
        dir + name
    } else {
        dir + "/"@ + name
    }
}

/// Where the binary is installed in the storage directory.
pub open spec fn binary_path_of(dir: Seq<char>) -> Seq<char> {
    joined_path(dir, "pandoc"@)
}

/// Where the downloaded archive is kept until it is unpacked.
pub open spec fn archive_path_of(dir: Seq<char>) -> Seq<char> {
    joined_path(dir, "pandoc.zip"@)
}

/// `name` inside directory `dir`.
pub fn join_path(dir: &str, name: &str) -> (r: String)
    ensures
        r@ == joined_path(dir@, name@),
{
    let n = dir.unicode_len();
    if n == 0 {
        return name.to_owned();
    }
    let c = dir.get_char(n - 1);
    if c == '/' || c == '\\' {
        concat(dir, name)
    } else {
        concat(dir, "/").concat(name)
    }
}

/// Where the binary is installed in the storage directory `dir`.
pub fn pandoc_binary_path(dir: &str) -> (r: String)
    ensures
        r@ == binary_path_of(dir@),
{
    join_path(dir, "pandoc")
}

/// The installed binary, if the storage directory is known and a file stands
/// at the binary's place in it.
pub fn check_pandoc_exists(storage_dir: Option<String>, binary_present: bool) -> (r: Option<
    String,
>)
    ensures
        r is Some <==> storage_dir is Some && binary_present,
        r is Some ==> r->0@ == binary_path_of(storage_dir->0@),
{
    match storage_dir {
        Some(dir) => {
            if binary_present {
                Some(pandoc_binary_path(dir.as_str()))
            } else {
                None
            }
        },
        None => None,
    }
}

/// Bytes received so far, and the size the server announced (0 if none).
#[derive(Clone, Copy, Debug, PartialEq, Eq, Structural)]
pub struct Meter {
    pub downloaded: u64,
    pub total: u64,
}

/// Share of the announced size received, in whole percent, held at 100 when
/// more than the announced size arrives; 0 when no size was announced.
pub open spec fn percent_of(downloaded: u64, total: u64) -> u64 {
    if total == 0 {
        0
    } else if downloaded >= total {
        100
    } else {
        ((downloaded as int * 100) / (total as int)) as u64
    }
}

/// Progress of a download as shown to the user.
#[derive(Clone, Debug)]
pub struct DownloadProgress<S> {
    pub downloaded: u64,
    pub total: u64,
    pub percentage: u64,
    pub status: S,
}

pub open spec fn progress_view(p: DownloadProgress<String>) -> DownloadProgress<Seq<char>> {
    DownloadProgress {
        downloaded: p.downloaded,
        total: p.total,
        percentage: p.percentage,
        status: p.status@,
    }
}

/// The meter after a chunk of `len` bytes; the count saturates.
pub open spec fn meter_after(m: Meter, len: u64) -> Meter {
    Meter {
        downloaded: if m.downloaded as int + len as int > u64::MAX as int {
            u64::MAX
        } else {
            (m.downloaded + len) as u64
        },
        total: m.total,
    }
}

pub open spec fn report_of(m: Meter, status: Seq<char>) -> DownloadProgress<Seq<char>> {
    DownloadProgress {
        downloaded: m.downloaded,
        total: m.total,
        percentage: percent_of(m.downloaded, m.total),
        status,
    }
}

/// The report once every byte is in: full, whatever size was announced.
pub open spec fn final_report_of(m: Meter, status: Seq<char>) -> DownloadProgress<Seq<char>> {
    DownloadProgress { downloaded: m.downloaded, total: m.total, percentage: 100, status }
}

pub open spec fn start_report() -> DownloadProgress<Seq<char>> {
    DownloadProgress { downloaded: 0, total: 0, percentage: 0, status: "Starting download..."@ }
}

/// Share of `total` that `downloaded` is, in whole percent.
pub fn percentage(downloaded: u64, total: u64) -> (r: u64)
    ensures
        r == percent_of(downloaded, total),
        r <= 100,
{
    if total == 0 {
        0
    } else if downloaded >= total {
        100
    } else {
        let d = downloaded as u128;
        let t = total as u128;
        assert(d * 100 < t * 100) by (nonlinear_arith)
            requires
                d < t,
        ;
        let q = (d * 100) / t;
        assert((d as int * 100) / (t as int) < 100) by (nonlinear_arith)
            requires
                (d as int) < (t as int),
                (t as int) > 0,
        ;
        q as u64
    }
}

impl Meter {
    /// The meter after a chunk of `len` bytes.
    pub fn advance(self, len: u64) -> (r: Meter)
        ensures
            r == meter_after(self, len),
            r.downloaded >= self.downloaded,
    {
        let downloaded = if self.downloaded > u64::MAX - len {
            u64::MAX
        } else {
            self.downloaded + len
        };
        Meter { downloaded, total: self.total }
    }

    /// The progress report for the bytes received so far.
    pub fn report(&self, status: &str) -> (r: DownloadProgress<String>)
        ensures
            progress_view(r) == report_of(*self, status@),
    {
        DownloadProgress {
            downloaded: self.downloaded,
            total: self.total,
            percentage: percentage(self.downloaded, self.total),
            status: status.to_owned(),
        }
    }

    /// The progress report once the transfer has ended.
    pub fn final_report(&self, status: &str) -> (r: DownloadProgress<String>)
        ensures
            progress_view(r) == final_report_of(*self, status@),
    {
        DownloadProgress {
            downloaded: self.downloaded,
            total: self.total,
            percentage: 100,
            status: status.to_owned(),
        }
    }
}

/// Why an acquisition failed.
#[derive(Clone, Debug)]
pub enum Failure<S> {
    NoPlatformBinary,
    Filesystem(S),
    Network(S),
    Archive(S),
}

/// Where an acquisition stands.
#[derive(Debug)]
pub enum Phase<S> {
    Idle,
    Locating,
    Probing { dir: S },
    Requesting { dir: S, url: S },
    Receiving { dir: S, url: S, meter: Meter },
    Extracting { dir: S, meter: Meter },
    Installing { dir: S, meter: Meter },
    Done(Result<S, Failure<S>>),
}

/// What the host reports back after carrying out an action.
#[derive(Debug)]
pub enum Event<S, B> {
    /// Start resolving the binary.
    Begin,
    /// The storage directory, created if needed, or why it could not be.
    StorageReady(Result<S, S>),
    /// Whether a file stands where the binary is installed.
    Probed(bool),
    /// The server answered the download request.
    Responded { success: bool, status: S, content_length: Option<u64> },
    /// The download request could not be sent.
    RequestFailed(S),
    /// A chunk of this many bytes was written to the archive file.
    Received(u64),
    /// A chunk of the response could not be read.
    ReadFailed(S),
    /// The archive file could not be created, written or flushed.
    WriteFailed(S),
    /// The response has ended and the archive file is complete.
    TransferDone,
    /// The archive file's bytes, or why it could not be read.
    ArchiveLoaded(Result<B, S>),
    /// Whether the binary was written and made executable.
    Installed(Result<(), S>),
}

/// What the host is asked to do.
#[derive(Clone, Debug)]
pub enum Action<S, B> {
    LocateStorage,
    CheckFile(S),
    Log(Level, S),
    Progress(DownloadProgress<S>),
    Fetch { url: S, archive_path: S },
    LoadArchive(S),
    WriteExecutable { path: S, contents: B },
    RemoveFile(S),
}

pub type PhaseView = Phase<Seq<char>>;

pub type EventView = Event<Seq<char>, Seq<u8>>;

pub type ActionView = Action<Seq<char>, Seq<u8>>;

pub open spec fn failure_view(f: Failure<String>) -> Failure<Seq<char>> {
    match f {
        Failure::NoPlatformBinary => Failure::NoPlatformBinary,
        Failure::Filesystem(m) => Failure::Filesystem(m@),
        Failure::Network(m) => Failure::Network(m@),
        Failure::Archive(m) => Failure::Archive(m@),
    }
}

pub open spec fn phase_view(p: Phase<String>) -> PhaseView {
    match p {
        Phase::Idle => Phase::Idle,
        Phase::Locating => Phase::Locating,
        Phase::Probing { dir } => Phase::Probing { dir: dir@ },
        Phase::Requesting { dir, url } => Phase::Requesting { dir: dir@, url: url@ },
        Phase::Receiving { dir, url, meter } => Phase::Receiving { dir: dir@, url: url@, meter },
        Phase::Extracting { dir, meter } => Phase::Extracting { dir: dir@, meter },
        Phase::Installing { dir, meter } => Phase::Installing { dir: dir@, meter },
        Phase::Done(Ok(p)) => Phase::Done(Ok(p@)),
        Phase::Done(Err(f)) => Phase::Done(Err(failure_view(f))),
    }
}

pub open spec fn event_view(e: Event<String, Vec<u8>>) -> EventView {
    match e {
        Event::Begin => Event::Begin,
        Event::StorageReady(Ok(d)) => Event::StorageReady(Ok(d@)),
        Event::StorageReady(Err(m)) => Event::StorageReady(Err(m@)),
        Event::Probed(b) => Event::Probed(b),
        Event::Responded { success, status, content_length } => Event::Responded {
            success,
            status: status@,
            content_length,
        },
        Event::RequestFailed(m) => Event::RequestFailed(m@),
        Event::Received(n) => Event::Received(n),
        Event::ReadFailed(m) => Event::ReadFailed(m@),
        Event::WriteFailed(m) => Event::WriteFailed(m@),
        Event::TransferDone => Event::TransferDone,
        Event::ArchiveLoaded(Ok(b)) => Event::ArchiveLoaded(Ok(b@)),
        Event::ArchiveLoaded(Err(m)) => Event::ArchiveLoaded(Err(m@)),
        Event::Installed(Ok(())) => Event::Installed(Ok(())),
        Event::Installed(Err(m)) => Event::Installed(Err(m@)),
    }
}

pub open spec fn action_view(a: Action<String, Vec<u8>>) -> ActionView {
    match a {
        Action::LocateStorage => Action::LocateStorage,
        Action::CheckFile(p) => Action::CheckFile(p@),
        Action::Log(l, m) => Action::Log(l, m@),
        Action::Progress(p) => Action::Progress(progress_view(p)),
        Action::Fetch { url, archive_path } => Action::Fetch {
            url: url@,
            archive_path: archive_path@,
        },
        Action::LoadArchive(p) => Action::LoadArchive(p@),
        Action::WriteExecutable { path, contents } => Action::WriteExecutable {
            path: path@,
            contents: contents@,
        },
        Action::RemoveFile(p) => Action::RemoveFile(p@),
    }
}

pub open spec fn actions_view(v: Seq<Action<String, Vec<u8>>>) -> Seq<ActionView> {
    v.map_values(|a: Action<String, Vec<u8>>| action_view(a))
}

/// The message under which a failure is logged and returned.
pub open spec fn failure_text(f: Failure<Seq<char>>) -> Seq<char> {
    match f {
        Failure::NoPlatformBinary => "No pandoc binary available for your system"@,
        Failure::Filesystem(m) => m,
        Failure::Network(m) => m,
        Failure::Archive(m) => m,
    }
}

/// Ending in failure: the archive file, if one may exist, is removed, and the
/// failure is logged.
pub open spec fn failed(f: Failure<Seq<char>>, archive: Option<Seq<char>>) -> (
    PhaseView,
    Seq<ActionView>,
) {
    (
        Phase::Done(Err(f)),
        match archive {
            Some(a) => seq![Action::RemoveFile(a), Action::Log(Level::Error, failure_text(f))],
            None => seq![Action::Log(Level::Error, failure_text(f))],
        },
    )
}

/// The next phase and the actions asked for, after `e` in phase `p`, on a
/// host of the given platform. An event that does not fit the phase changes
/// nothing.
pub open spec fn next(os: TargetOs, arch: TargetArch, p: PhaseView, e: EventView) -> (
    PhaseView,
    Seq<ActionView>,
) {
    match (p, e) {
        (Phase::Idle, Event::Begin) => (Phase::Locating, seq![Action::LocateStorage]),
        (Phase::Locating, Event::StorageReady(Err(m))) => failed(Failure::Filesystem(m), None),
        (Phase::Locating, Event::StorageReady(Ok(dir))) => (
            Phase::Probing { dir },
            seq![Action::CheckFile(binary_path_of(dir))],
        ),
        (Phase::Probing { dir }, Event::Probed(present)) => if present {
            (Phase::Done(Ok(binary_path_of(dir))), seq![])
        } else {
            match download_url_of(os, arch) {
                None => failed(Failure::NoPlatformBinary, None),
                Some(url) => (
                    Phase::Requesting { dir, url },
                    seq![
                        Action::Log(Level::Info, "Downloading from: "@ + url),
                        Action::Progress(start_report()),
                        Action::Fetch { url, archive_path: archive_path_of(dir) },
                    ],
                ),
            }
        },
        (Phase::Requesting { dir, url }, Event::RequestFailed(m)) => failed(
            Failure::Network("Failed to start download from "@ + url + ": "@ + m),
            Some(archive_path_of(dir)),
        ),
        (
            Phase::Requesting { dir, url },
            Event::Responded { success, status, content_length },
        ) => if success {
            (
                Phase::Receiving {
                    dir,
                    url,
                    meter: Meter {
                        downloaded: 0,
                        total: match content_length {
                            Some(n) => n,
                            None => 0,
                        },
                    },
                },
                seq![],
            )
        } else {
            failed(
                Failure::Network(
                    "Download failed with HTTP status: "@ + status + " from URL: "@ + url,
                ),
                Some(archive_path_of(dir)),
            )
        },
        (Phase::Receiving { dir, url, meter }, Event::Received(n)) => (
            Phase::Receiving { dir, url, meter: meter_after(meter, n) },
            seq![Action::Progress(report_of(meter_after(meter, n), "Downloading..."@))],
        ),
        (Phase::Receiving { dir, url, meter }, Event::ReadFailed(m)) => failed(
            Failure::Network("Failed to read chunk: "@ + m),
            Some(archive_path_of(dir)),
        ),
        (Phase::Receiving { dir, url, meter }, Event::WriteFailed(m)) => failed(
            Failure::Filesystem(m),
            Some(archive_path_of(dir)),
        ),
        (Phase::Receiving { dir, url, meter }, Event::TransferDone) => (
            Phase::Extracting { dir, meter },
            seq![
                Action::Progress(final_report_of(meter, "Extracting..."@)),
                Action::LoadArchive(archive_path_of(dir)),
            ],
        ),
        (Phase::Extracting { dir, meter }, Event::ArchiveLoaded(Err(m))) => failed(
            Failure::Archive("Failed to open zip file: "@ + m),
            Some(archive_path_of(dir)),
        ),
        (Phase::Extracting { dir, meter }, Event::ArchiveLoaded(Ok(bytes))) => match extraction(
            bytes,
        ) {
            Err(m) => failed(Failure::Archive(m), Some(archive_path_of(dir))),
            Ok(data) => (
                Phase::Installing { dir, meter },
                seq![Action::WriteExecutable { path: binary_path_of(dir), contents: data }],
            ),
        },
        (Phase::Installing { dir, meter }, Event::Installed(Err(m))) => (
            Phase::Done(Err(Failure::Filesystem(m))),
            seq![Action::RemoveFile(binary_path_of(dir))] + failed(
                Failure::Filesystem(m),
                Some(archive_path_of(dir)),
            ).1,
        ),
        (Phase::Installing { dir, meter }, Event::Installed(Ok(()))) => (
            Phase::Done(Ok(binary_path_of(dir))),
            seq![
                Action::RemoveFile(archive_path_of(dir)),
                Action::Progress(final_report_of(meter, "Complete!"@)),
            ],
        ),
        _ => (p, seq![]),
    }
}

impl Failure<String> {
    /// The message under which the failure is logged and returned.
    pub fn message(&self) -> (r: String)
        ensures
            r@ == failure_text(failure_view(*self)),
    {
        match self {
            Failure::NoPlatformBinary => String::from_str(
                "No pandoc binary available for your system",
            ),
            Failure::Filesystem(m) => m.clone(),
            Failure::Network(m) => m.clone(),
            Failure::Archive(m) => m.clone(),
        }
    }
}

pub open spec fn opt_view(o: Option<String>) -> Option<Seq<char>> {
    match o {
        Some(s) => Some(s@),
        None => None,
    }
}

fn fail(f: Failure<String>, archive: Option<String>) -> (r: (
    Phase<String>,
    Vec<Action<String, Vec<u8>>>,
))
    ensures
        (phase_view(r.0), actions_view(r.1@)) == failed(failure_view(f), opt_view(archive)),
{
    let ghost want = failed(failure_view(f), opt_view(archive));
    let text = f.message();
    let mut actions: Vec<Action<String, Vec<u8>>> = Vec::new();
    match archive {
        Some(a) => {
            actions.push(Action::RemoveFile(a));
        },
        None => {},
    }
    actions.push(Action::Log(Level::Error, text));
    assert(actions_view(actions@) =~= want.1);
    (Phase::Done(Err(f)), actions)
}

fn no_actions() -> (r: Vec<Action<String, Vec<u8>>>)
    ensures
        actions_view(r@) == Seq::<ActionView>::empty(),
{
    let v: Vec<Action<String, Vec<u8>>> = Vec::new();
    assert(actions_view(v@) =~= Seq::<ActionView>::empty());
    v
}

fn progress_action(p: DownloadProgress<String>) -> (r: Action<String, Vec<u8>>)
    ensures
        action_view(r) == Action::<Seq<char>, Seq<u8>>::Progress(progress_view(p)),
{
    Action::Progress(p)
}

/// One transition of the acquisition: the next phase and the actions asked for.
fn transition(os: TargetOs, arch: TargetArch, phase: Phase<String>, event: Event<String, Vec<u8>>) -> (r: (
    Phase<String>,
    Vec<Action<String, Vec<u8>>>,
))
    ensures
        (phase_view(r.0), actions_view(r.1@)) == next(
            os,
            arch,
            phase_view(phase),
            event_view(event),
        ),
{
    match phase {
        Phase::Idle => match event {
            Event::Begin => {
                let mut v = Vec::new();
                v.push(Action::LocateStorage);
                assert(actions_view(v@) =~= seq![Action::LocateStorage]);
                (Phase::Locating, v)
            },
            _ => (Phase::Idle, no_actions()),
        },
        Phase::Locating => match event {
            Event::StorageReady(Ok(dir)) => {
                let mut v = Vec::new();
                v.push(Action::CheckFile(pandoc_binary_path(dir.as_str())));
                assert(actions_view(v@) =~= seq![Action::CheckFile(binary_path_of(dir@))]);
                (Phase::Probing { dir }, v)
            },
            Event::StorageReady(Err(m)) => fail(Failure::Filesystem(m), None),
            _ => (Phase::Locating, no_actions()),
        },
        Phase::Probing { dir } => match event {
            Event::Probed(present) => {
                if present {
                    (Phase::Done(Ok(pandoc_binary_path(dir.as_str()))), no_actions())
                } else {
                    match get_pandoc_download_url(os, arch) {
                        None => fail(Failure::NoPlatformBinary, None),
                        Some(url) => {
                            let mut v = Vec::new();
                            v.push(
                                Action::Log(Level::Info, concat("Downloading from: ", url.as_str())),
                            );
                            v.push(
                                progress_action(
                                    DownloadProgress {
                                        downloaded: 0,
                                        total: 0,
                                        percentage: 0,
                                        status: String::from_str("Starting download..."),
                                    },
                                ),
                            );
                            v.push(
                                Action::Fetch {
                                    url: url.clone(),
                                    archive_path: join_path(dir.as_str(), "pandoc.zip"),
                                },
                            );
                            assert(actions_view(v@) =~= next(
                                os,
                                arch,
                                Phase::Probing { dir: dir@ },
                                Event::Probed(false),
                            ).1);
                            (Phase::Requesting { dir, url }, v)
                        },
                    }
                }
            },
            _ => (Phase::Probing { dir }, no_actions()),
        },
        Phase::Requesting { dir, url } => match event {
            Event::RequestFailed(m) => {
                let text = concat("Failed to start download from ", url.as_str()).concat(
                    ": ",
                ).concat(m.as_str());
                fail(Failure::Network(text), Some(join_path(dir.as_str(), "pandoc.zip")))
            },
            Event::Responded { success, status, content_length } => {
                if success {
                    let total = match content_length {
                        Some(n) => n,
                        None => 0,
                    };
                    (
                        Phase::Receiving { dir, url, meter: Meter { downloaded: 0, total } },
                        no_actions(),
                    )
                } else {
                    let text = concat("Download failed with HTTP status: ", status.as_str()).concat(
                        " from URL: ",
                    ).concat(url.as_str());
                    fail(Failure::Network(text), Some(join_path(dir.as_str(), "pandoc.zip")))
                }
            },
            _ => (Phase::Requesting { dir, url }, no_actions()),
        },
        Phase::Receiving { dir, url, meter } => match event {
            Event::Received(n) => {
                let m2 = meter.advance(n);
                let mut v = Vec::new();
                v.push(progress_action(m2.report("Downloading...")));
                assert(actions_view(v@) =~= seq![
                    Action::Progress(report_of(meter_after(meter, n), "Downloading..."@)),
                ]);
                (Phase::Receiving { dir, url, meter: m2 }, v)
            },
            Event::ReadFailed(m) => fail(
                Failure::Network(concat("Failed to read chunk: ", m.as_str())),
                Some(join_path(dir.as_str(), "pandoc.zip")),
            ),
            Event::WriteFailed(m) => fail(
                Failure::Filesystem(m),
                Some(join_path(dir.as_str(), "pandoc.zip")),
            ),
            Event::TransferDone => {
                let mut v = Vec::new();
                v.push(progress_action(meter.final_report("Extracting...")));
                v.push(Action::LoadArchive(join_path(dir.as_str(), "pandoc.zip")));
                assert(actions_view(v@) =~= seq![
                    Action::Progress(final_report_of(meter, "Extracting..."@)),
                    Action::LoadArchive(archive_path_of(dir@)),
                ]);
                (Phase::Extracting { dir, meter }, v)
            },
            _ => (Phase::Receiving { dir, url, meter }, no_actions()),
        },
        Phase::Extracting { dir, meter } => match event {
            Event::ArchiveLoaded(Err(m)) => fail(
                Failure::Archive(concat("Failed to open zip file: ", m.as_str())),
                Some(join_path(dir.as_str(), "pandoc.zip")),
            ),
            Event::ArchiveLoaded(Ok(bytes)) => match extract_binary(&bytes) {
                Err(m) => fail(Failure::Archive(m), Some(join_path(dir.as_str(), "pandoc.zip"))),
                Ok(data) => {
                    let mut v = Vec::new();
                    v.push(
                        Action::WriteExecutable {
                            path: pandoc_binary_path(dir.as_str()),
                            contents: data,
                        },
                    );
                    assert(actions_view(v@) =~= seq![
                        Action::WriteExecutable { path: binary_path_of(dir@), contents: data@ },
                    ]);
                    (Phase::Installing { dir, meter }, v)
                },
            },
            _ => (Phase::Extracting { dir, meter }, no_actions()),
        },
        Phase::Installing { dir, meter } => match event {
            Event::Installed(Err(m)) => {
                let (p, mut rest) = fail(
                    Failure::Filesystem(m),
                    Some(join_path(dir.as_str(), "pandoc.zip")),
                );
                let mut v = Vec::new();
                v.push(Action::RemoveFile(pandoc_binary_path(dir.as_str())));
                let ghost head = v@;
                let ghost tail = rest@;
                v.append(&mut rest);
                assert(v@ =~= head + tail);
                assert(actions_view(v@) =~= seq![Action::RemoveFile(binary_path_of(dir@))]
                    + actions_view(tail));
                (p, v)
            },
            Event::Installed(Ok(())) => {
                let mut v = Vec::new();
                v.push(Action::RemoveFile(join_path(dir.as_str(), "pandoc.zip")));
                v.push(progress_action(meter.final_report("Complete!")));
                assert(actions_view(v@) =~= seq![
                    Action::RemoveFile(archive_path_of(dir@)),
                    Action::Progress(final_report_of(meter, "Complete!"@)),
                ]);
                (Phase::Done(Ok(pandoc_binary_path(dir.as_str()))), v)
            },
            _ => (Phase::Installing { dir, meter }, no_actions()),
        },
        Phase::Done(result) => (Phase::Done(result), no_actions()),
    }
}

/// What a finished acquisition reports to the host.
#[derive(Debug)]
pub struct PandocDownloadResult {
    pub success: bool,
    pub pandoc_path: Option<String>,
    pub error: Option<String>,
}

/// One resolution of the conversion binary: finds an installed copy or
/// downloads and installs one, through actions that the host carries out and
/// events that it reports back.
pub struct Acquisition {
    pub os: TargetOs,
    pub arch: TargetArch,
    pub phase: Phase<String>,
}

impl Acquisition {
    /// A resolution for a host of the given platform, not yet begun.
    pub fn new(os: TargetOs, arch: TargetArch) -> (r: Acquisition)
        ensures
            r.os == os,
            r.arch == arch,
            phase_view(r.phase) == Phase::<Seq<char>>::Idle,
    {
        Acquisition { os, arch, phase: Phase::Idle }
    }

    /// Takes in what the host reports and returns what it must do next.
    pub fn step(&mut self, event: Event<String, Vec<u8>>) -> (r: Vec<Action<String, Vec<u8>>>)
        ensures
            final(self).os == old(self).os,
            final(self).arch == old(self).arch,
            (phase_view(final(self).phase), actions_view(r@)) == next(
                old(self).os,
                old(self).arch,
                phase_view(old(self).phase),
                event_view(event),
            ),
    {
        let mut phase = Phase::Idle;
        core::mem::swap(&mut self.phase, &mut phase);
        let (p, actions) = transition(self.os, self.arch, phase, event);
        self.phase = p;
        actions
    }

    /// The result once the resolution has ended: the installed binary's path,
    /// or the failure's message.
    pub fn outcome(&self) -> (r: Option<Result<PandocDownloadResult, String>>)
        ensures
            match phase_view(self.phase) {
                Phase::Done(Ok(p)) => r is Some && r->0 is Ok && r->0->Ok_0.success
                    && r->0->Ok_0.error is None && r->0->Ok_0.pandoc_path is Some
                    && r->0->Ok_0.pandoc_path->0@ == p,
                Phase::Done(Err(f)) => r is Some && r->0 is Err && r->0->Err_0@ == failure_text(f),
                _ => r is None,
            },
    {
        match &self.phase {
            Phase::Done(Ok(p)) => Some(
                Ok(PandocDownloadResult { success: true, pandoc_path: Some(p.clone()), error: None }),
            ),
            Phase::Done(Err(f)) => Some(Err(f.message())),
            _ => None,
        }
    }
}

/// The phase reached and every action asked for, in order, after `events`
/// from phase `p`.
pub open spec fn run(os: TargetOs, arch: TargetArch, p: PhaseView, events: Seq<EventView>) -> (
    PhaseView,
    Seq<ActionView>,
)
    decreases events.len(),
{
    if events.len() == 0 {
        (p, seq![])
    } else {
        let first = next(os, arch, p, events[0]);
        let rest = run(os, arch, first.0, events.drop_first());
        (rest.0, first.1 + rest.1)
    }
}

/// The events of a resolution that finds the binary already installed in `dir`.
pub open spec fn found_installed(dir: Seq<char>) -> Seq<EventView> {
    seq![Event::Begin, Event::StorageReady(Ok(dir)), Event::Probed(true)]
}

/// The events of a resolution that finds no binary in `dir`.
pub open spec fn found_nothing(dir: Seq<char>) -> Seq<EventView> {
    seq![Event::Begin, Event::StorageReady(Ok(dir)), Event::Probed(false)]
}

pub open spec fn is_fetch(a: ActionView) -> bool {
    a is Fetch
}

/// When the binary is already installed, a resolution asks only to locate the
/// storage directory and to look at the binary's place, downloads nothing, and
/// ends with that place; so resolving again gives the same path.
pub proof fn lemma_installed_binary_resolves_without_download(
    os: TargetOs,
    arch: TargetArch,
    dir: Seq<char>,
)
    ensures
        run(os, arch, Phase::Idle, found_installed(dir)) == (
            Phase::<Seq<char>>::Done(Ok(binary_path_of(dir))),
            seq![Action::<Seq<char>, Seq<u8>>::LocateStorage, Action::CheckFile(binary_path_of(dir))],
        ),
        forall|i: int|
            0 <= i < run(os, arch, Phase::Idle, found_installed(dir)).1.len() ==> !is_fetch(
                #[trigger] run(os, arch, Phase::Idle, found_installed(dir)).1[i],
            ),
{
    let evs = found_installed(dir);
    assert(evs.drop_first() =~= seq![Event::StorageReady(Ok(dir)), Event::Probed(true)]);
    assert(evs.drop_first().drop_first() =~= seq![Event::Probed(true)]);
    assert(evs.drop_first().drop_first().drop_first() =~= Seq::<EventView>::empty());
    reveal_with_fuel(run, 4);
    let acts: Seq<ActionView> = seq![Action::LocateStorage, Action::CheckFile(binary_path_of(dir))];
    assert(run(os, arch, Phase::Idle, evs).1 =~= acts);
}

proof fn lemma_step_never_fetches(os: TargetOs, arch: TargetArch, p: PhaseView, e: EventView)
    requires
        download_url_of(os, arch) is None,
    ensures
        forall|i: int|
            0 <= i < next(os, arch, p, e).1.len() ==> !is_fetch(#[trigger] next(os, arch, p, e).1[i]),
{
}

/// On a platform for which no archive is published, no run of a resolution,
/// whatever the host reports, ever asks for a download.
pub proof fn lemma_unsupported_platform_never_fetches(
    os: TargetOs,
    arch: TargetArch,
    p: PhaseView,
    events: Seq<EventView>,
)
    requires
        download_url_of(os, arch) is None,
    ensures
        forall|i: int|
            0 <= i < run(os, arch, p, events).1.len() ==> !is_fetch(
                #[trigger] run(os, arch, p, events).1[i],
            ),
    decreases events.len(),
{
    if events.len() > 0 {
        let first = next(os, arch, p, events[0]);
        lemma_step_never_fetches(os, arch, p, events[0]);
        lemma_unsupported_platform_never_fetches(os, arch, first.0, events.drop_first());
        let rest = run(os, arch, first.0, events.drop_first());
        assert forall|i: int| 0 <= i < run(os, arch, p, events).1.len() implies !is_fetch(
            #[trigger] run(os, arch, p, events).1[i],
        ) by {
            if i < first.1.len() {
                assert(run(os, arch, p, events).1[i] == first.1[i]);
            } else {
                assert(run(os, arch, p, events).1[i] == rest.1[i - first.1.len()]);
            }
        }
    }
}

/// On a platform for which no archive is published, a resolution that finds
/// no installed binary fails as such.
pub proof fn lemma_unsupported_platform_fails(os: TargetOs, arch: TargetArch, dir: Seq<char>)
    requires
        download_url_of(os, arch) is None,
    ensures
        run(os, arch, Phase::Idle, found_nothing(dir)).0 == Phase::<Seq<char>>::Done(
            Err(Failure::NoPlatformBinary),
        ),
{
    let evs = found_nothing(dir);
    assert(evs.drop_first() =~= seq![Event::StorageReady(Ok(dir)), Event::Probed(false)]);
    assert(evs.drop_first().drop_first() =~= seq![Event::Probed(false)]);
    assert(evs.drop_first().drop_first().drop_first() =~= Seq::<EventView>::empty());
    reveal_with_fuel(run, 4);
}

/// The fewest bytes that any later progress report can show from phase `p`.
pub open spec fn progress_floor(p: PhaseView) -> u64 {
    match p {
        Phase::Receiving { dir, url, meter } => meter.downloaded,
        Phase::Extracting { dir, meter } => meter.downloaded,
        Phase::Installing { dir, meter } => meter.downloaded,
        Phase::Done(_) => u64::MAX,
        _ => 0,
    }
}

pub open spec fn reports_at_least(acts: Seq<ActionView>, f: u64) -> bool {
    forall|i: int| 0 <= i < acts.len() && #[trigger] acts[i] is Progress ==> acts[i]->Progress_0.downloaded >= f
}

pub open spec fn reports_at_most(acts: Seq<ActionView>, f: u64) -> bool {
    forall|i: int| 0 <= i < acts.len() && #[trigger] acts[i] is Progress ==> acts[i]->Progress_0.downloaded <= f
}

/// The byte counts of the progress reports among `acts` never decrease.
pub open spec fn reports_ordered(acts: Seq<ActionView>) -> bool {
    forall|i: int, j: int|
        0 <= i < j < acts.len() && #[trigger] acts[i] is Progress && #[trigger] acts[j] is Progress
            ==> acts[i]->Progress_0.downloaded <= acts[j]->Progress_0.downloaded
}

proof fn lemma_step_progress(os: TargetOs, arch: TargetArch, p: PhaseView, e: EventView)
    ensures
        progress_floor(p) <= progress_floor(next(os, arch, p, e).0),
        reports_at_least(next(os, arch, p, e).1, progress_floor(p)),
        reports_at_most(next(os, arch, p, e).1, progress_floor(next(os, arch, p, e).0)),
        reports_ordered(next(os, arch, p, e).1),
{
}

/// Along any run of a resolution, the byte counts of the progress reports
/// never decrease.
pub proof fn lemma_progress_never_decreases(
    os: TargetOs,
    arch: TargetArch,
    p: PhaseView,
    events: Seq<EventView>,
)
    ensures
        reports_ordered(run(os, arch, p, events).1),
        reports_at_least(run(os, arch, p, events).1, progress_floor(p)),
    decreases events.len(),
{
    if events.len() > 0 {
        let first = next(os, arch, p, events[0]);
        lemma_step_progress(os, arch, p, events[0]);
        lemma_progress_never_decreases(os, arch, first.0, events.drop_first());
        let rest = run(os, arch, first.0, events.drop_first());
        let all = run(os, arch, p, events).1;
        assert(all == first.1 + rest.1);
        assert forall|i: int| 0 <= i < all.len() && #[trigger] all[i] is Progress implies all[
            i
        ]->Progress_0.downloaded >= progress_floor(p) by {
            if i >= first.1.len() {
                assert(all[i] == rest.1[i - first.1.len()]);
            }
        }
        assert forall|i: int, j: int|
            0 <= i < j < all.len() && #[trigger] all[i] is Progress && #[trigger] all[j] is Progress
                implies all[i]->Progress_0.downloaded <= all[j]->Progress_0.downloaded by {
            if j < first.1.len() {
            } else if i < first.1.len() {
                assert(all[j] == rest.1[j - first.1.len()]);
            } else {
                assert(all[i] == rest.1[i - first.1.len()]);
                assert(all[j] == rest.1[j - first.1.len()]);
            }
        }
    }
}

/// Installing ends with a progress report at 100 percent that counts every
/// byte received.
pub proof fn lemma_completion_reports_full(
    os: TargetOs,
    arch: TargetArch,
    dir: Seq<char>,
    meter: Meter,
)
    ensures
        next(os, arch, Phase::Installing { dir, meter }, Event::Installed(Ok(()))).1.last()
            == Action::<Seq<char>, Seq<u8>>::Progress(
            DownloadProgress {
                downloaded: meter.downloaded,
                total: meter.total,
                percentage: 100,
                status: "Complete!"@,
            },
        ),
{
}

/// An archive without the binary ends the resolution in an archive failure;
/// the archive file is removed and nothing is installed.
pub proof fn lemma_missing_binary_removes_archive(
    os: TargetOs,
    arch: TargetArch,
    dir: Seq<char>,
    meter: Meter,
    bytes: Seq<u8>,
)
    requires
        archive_names_of(bytes) is Ok,
        first_binary_from(archive_names_of(bytes)->Ok_0, 0) is None,
    ensures
        next(os, arch, Phase::Extracting { dir, meter }, Event::ArchiveLoaded(Ok(bytes))) == (
            Phase::<Seq<char>>::Done(Err(Failure::Archive(not_found_message()))),
            seq![
                Action::<Seq<char>, Seq<u8>>::RemoveFile(archive_path_of(dir)),
                Action::Log(Level::Error, not_found_message()),
            ],
        ),
{
}

/// Phase `p` belongs to a resolution in storage directory `d`: it works in
/// `d`, or has ended, successfully only with the binary's place in `d`.
pub open spec fn works_in(p: PhaseView, d: Seq<char>) -> bool {
    match p {
        Phase::Probing { dir } => dir == d,
        Phase::Requesting { dir, url } => dir == d,
        Phase::Receiving { dir, url, meter } => dir == d,
        Phase::Extracting { dir, meter } => dir == d,
        Phase::Installing { dir, meter } => dir == d,
        Phase::Done(Ok(x)) => x == binary_path_of(d),
        Phase::Done(Err(_)) => true,
        _ => false,
    }
}

proof fn lemma_run_stays_in_dir(
    os: TargetOs,
    arch: TargetArch,
    p: PhaseView,
    d: Seq<char>,
    events: Seq<EventView>,
)
    requires
        works_in(p, d),
    ensures
        works_in(run(os, arch, p, events).0, d),
    decreases events.len(),
{
    if events.len() > 0 {
        let first = next(os, arch, p, events[0]);
        assert(works_in(first.0, d));
        lemma_run_stays_in_dir(os, arch, first.0, d, events.drop_first());
    }
}

/// A resolution that succeeds reports the binary's place in the storage
/// directory, whether it found the binary there or installed it; so
/// resolving again after an install reports the same path.
pub proof fn lemma_resolution_reports_storage_path(
    os: TargetOs,
    arch: TargetArch,
    d: Seq<char>,
    events: Seq<EventView>,
)
    requires
        events.len() >= 2,
        events[0] == Event::<Seq<char>, Seq<u8>>::Begin,
        events[1] == Event::<Seq<char>, Seq<u8>>::StorageReady(Ok(d)),
    ensures
        run(os, arch, Phase::Idle, events).0 is Done && run(os, arch, Phase::Idle, events).0->Done_0
            is Ok ==> run(os, arch, Phase::Idle, events).0->Done_0->Ok_0 == binary_path_of(d),
{
    let rest = events.drop_first();
    assert(rest[0] == events[1]);
    let p2: PhaseView = Phase::Probing { dir: d };
    assert(next(os, arch, Phase::Locating, rest[0]).0 == p2);
    assert(run(os, arch, Phase::Locating, rest).0 == run(os, arch, p2, rest.drop_first()).0);
    assert(run(os, arch, Phase::Idle, events).0 == run(os, arch, Phase::Locating, rest).0);
    lemma_run_stays_in_dir(os, arch, p2, d, rest.drop_first());
}

/// When the binary cannot be written or made executable, the resolution
/// fails and removes both the binary's place and the archive, so nothing is
/// left installed.
pub proof fn lemma_failed_install_leaves_nothing(
    os: TargetOs,
    arch: TargetArch,
    dir: Seq<char>,
    meter: Meter,
    m: Seq<char>,
)
    ensures
        next(os, arch, Phase::Installing { dir, meter }, Event::Installed(Err(m))) == (
            Phase::<Seq<char>>::Done(Err(Failure::Filesystem(m))),
            seq![
                Action::<Seq<char>, Seq<u8>>::RemoveFile(binary_path_of(dir)),
                Action::RemoveFile(archive_path_of(dir)),
                Action::Log(Level::Error, m),
            ],
        ),
{
    let got = next(os, arch, Phase::Installing { dir, meter }, Event::Installed(Err(m))).1;
    assert(got =~= seq![
        Action::<Seq<char>, Seq<u8>>::RemoveFile(binary_path_of(dir)),
        Action::RemoveFile(archive_path_of(dir)),
        Action::Log(Level::Error, m),
    ]);
}

} // verus!
