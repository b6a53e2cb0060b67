use std::io::Write;

use pandocx::acquire::{
    check_pandoc_exists, get_pandoc_download_url, join_path, pandoc_binary_path, percentage,
    Acquisition, Action, DownloadProgress, Event, Failure, Meter, Phase, TargetArch, TargetOs,
};
use pandocx::archive::{extract_binary, find_binary_entry};
use pandocx::log::Level;

type Act = Action<String, Vec<u8>>;

fn zip_of(entries: &[(&str, &[u8])]) -> Vec<u8> {
    let mut w = zip::ZipWriter::new(std::io::Cursor::new(Vec::new()));
    for (name, data) in entries {
        w.start_file(*name, zip::write::SimpleFileOptions::default()).unwrap();
        w.write_all(data).unwrap();
    }
    w.finish().unwrap().into_inner()
}

fn progress(acts: &[Act]) -> Vec<DownloadProgress<String>> {
    acts.iter()
        .filter_map(|a| match a {
            Action::Progress(p) => Some(p.clone()),
            _ => None,
        })
        .collect()
}

fn has_fetch(acts: &[Act]) -> bool {
    acts.iter().any(|a| matches!(a, Action::Fetch { .. }))
}

#[test]
fn download_urls_per_platform() {
    let base = "https://assets.randynamic.org/pandocx/";
    assert_eq!(
        get_pandoc_download_url(TargetOs::MacOs, TargetArch::Aarch64).unwrap(),
        format!("{}pandoc-3.8-arm64-macOS.zip", base)
    );
    assert_eq!(
        get_pandoc_download_url(TargetOs::MacOs, TargetArch::X86_64).unwrap(),
        format!("{}pandoc-3.8-x86_64-macOS.zip", base)
    );
    assert_eq!(
        get_pandoc_download_url(TargetOs::Windows, TargetArch::X86_64).unwrap(),
        format!("{}pandoc-3.8-windows-x86_64.zip", base)
    );
    assert_eq!(get_pandoc_download_url(TargetOs::Linux, TargetArch::X86_64), None);
    assert_eq!(get_pandoc_download_url(TargetOs::Windows, TargetArch::Aarch64), None);
    assert_eq!(get_pandoc_download_url(TargetOs::Windows, TargetArch::Other), None);
    assert_eq!(get_pandoc_download_url(TargetOs::MacOs, TargetArch::Other), None);
    assert_eq!(get_pandoc_download_url(TargetOs::Other, TargetArch::Aarch64), None);
}

#[test]
fn storage_paths() {
    assert_eq!(join_path("/data/pandocx", "pandoc.zip"), "/data/pandocx/pandoc.zip");
    assert_eq!(join_path("/data/pandocx/", "pandoc"), "/data/pandocx/pandoc");
    assert_eq!(join_path("", "pandoc"), "pandoc");
    assert_eq!(pandoc_binary_path("C:\\AppData\\pandocx"), "C:\\AppData\\pandocx/pandoc");
    assert_eq!(
        check_pandoc_exists(Some("/d".to_string()), true).as_deref(),
        Some("/d/pandoc")
    );
    assert_eq!(check_pandoc_exists(Some("/d".to_string()), false), None);
    assert_eq!(check_pandoc_exists(None, true), None);
}

#[test]
fn percentages() {
    assert_eq!(percentage(50, 200), 25);
    assert_eq!(percentage(1, 3), 33);
    assert_eq!(percentage(200, 200), 100);
    assert_eq!(percentage(300, 200), 100);
    assert_eq!(percentage(5, 0), 0);
    assert_eq!(percentage(u64::MAX - 1, u64::MAX), 99);
    let m = Meter { downloaded: u64::MAX - 1, total: 0 }.advance(10);
    assert_eq!(m.downloaded, u64::MAX);
}

#[test]
fn installed_binary_resolves_twice_without_download() {
    for _ in 0..2 {
        let mut acq = Acquisition::new(TargetOs::Linux, TargetArch::X86_64);
        let mut acts = acq.step(Event::Begin);
        assert!(matches!(acts.as_slice(), [Action::LocateStorage]));
        acts = acq.step(Event::StorageReady(Ok("/data/pandocx".to_string())));
        assert!(matches!(acts.as_slice(), [Action::CheckFile(p)] if p == "/data/pandocx/pandoc"));
        acts = acq.step(Event::Probed(true));
        assert!(acts.is_empty());
        let r = acq.outcome().unwrap().unwrap();
        assert!(r.success);
        assert_eq!(r.pandoc_path.as_deref(), Some("/data/pandocx/pandoc"));
        assert_eq!(r.error, None);
    }
}

#[test]
fn unsupported_platform_fails_without_request() {
    let mut acq = Acquisition::new(TargetOs::Linux, TargetArch::X86_64);
    let mut all = acq.step(Event::Begin);
    all.extend(acq.step(Event::StorageReady(Ok("/d".to_string()))));
    all.extend(acq.step(Event::Probed(false)));
    assert!(!has_fetch(&all));
    assert!(matches!(acq.phase, Phase::Done(Err(Failure::NoPlatformBinary))));
    assert_eq!(acq.outcome().unwrap().unwrap_err(), "No pandoc binary available for your system");
    assert!(matches!(all.last(), Some(Action::Log(Level::Error, m)) if m == "No pandoc binary available for your system"));
}

#[test]
fn unsupported_pairs_on_supported_systems_fail_without_request() {
    for (os, arch) in [(TargetOs::Windows, TargetArch::Aarch64), (TargetOs::MacOs, TargetArch::Other)] {
        let mut acq = Acquisition::new(os, arch);
        let all = start_download(&mut acq);
        assert!(!has_fetch(&all));
        assert!(progress(&all).is_empty());
        assert!(matches!(acq.phase, Phase::Done(Err(Failure::NoPlatformBinary))));
    }
}

#[test]
fn storage_failure_is_fatal() {
    let mut acq = Acquisition::new(TargetOs::MacOs, TargetArch::Aarch64);
    acq.step(Event::Begin);
    let acts = acq.step(Event::StorageReady(Err("Failed to create app data directory: denied".to_string())));
    assert!(matches!(acts.as_slice(), [Action::Log(Level::Error, _)]));
    assert_eq!(acq.outcome().unwrap().unwrap_err(), "Failed to create app data directory: denied");
}

fn start_download(acq: &mut Acquisition) -> Vec<Act> {
    acq.step(Event::Begin);
    acq.step(Event::StorageReady(Ok("/d".to_string())));
    acq.step(Event::Probed(false))
}

#[test]
fn download_and_install_reports_growing_progress() {
    let mut acq = Acquisition::new(TargetOs::MacOs, TargetArch::Aarch64);
    let mut all = start_download(&mut acq);
    assert!(matches!(&all[0], Action::Log(Level::Info, m) if m == "Downloading from: https://assets.randynamic.org/pandocx/pandoc-3.8-arm64-macOS.zip"));
    assert!(matches!(&all[2], Action::Fetch { url, archive_path } if url.ends_with("arm64-macOS.zip") && archive_path == "/d/pandoc.zip"));
    all.extend(acq.step(Event::Responded { success: true, status: "200 OK".to_string(), content_length: Some(400) }));
    all.extend(acq.step(Event::Received(100)));
    all.extend(acq.step(Event::Received(0)));
    all.extend(acq.step(Event::Received(300)));
    all.extend(acq.step(Event::TransferDone));
    let archive = zip_of(&[("pandoc-3.8/README", b"readme"), ("pandoc-3.8/bin/pandoc", b"\x7fELF binary")]);
    let acts = acq.step(Event::ArchiveLoaded(Ok(archive)));
    assert!(matches!(acts.as_slice(), [Action::WriteExecutable { path, contents }] if path == "/d/pandoc" && contents == b"\x7fELF binary"));
    all.extend(acts);
    let acts = acq.step(Event::Installed(Ok(())));
    assert!(matches!(&acts[0], Action::RemoveFile(p) if p == "/d/pandoc.zip"));
    all.extend(acts);
    let reports = progress(&all);
    let counts: Vec<u64> = reports.iter().map(|p| p.downloaded).collect();
    assert_eq!(counts, vec![0, 100, 100, 400, 400, 400]);
    let percents: Vec<u64> = reports.iter().map(|p| p.percentage).collect();
    assert_eq!(percents, vec![0, 25, 25, 100, 100, 100]);
    let labels: Vec<&str> = reports.iter().map(|p| p.status.as_str()).collect();
    assert_eq!(
        labels,
        vec!["Starting download...", "Downloading...", "Downloading...", "Downloading...", "Extracting...", "Complete!"]
    );
    let r = acq.outcome().unwrap().unwrap();
    assert_eq!(r.pandoc_path.as_deref(), Some("/d/pandoc"));
}

#[test]
fn unknown_length_download_ends_at_full() {
    let mut acq = Acquisition::new(TargetOs::Windows, TargetArch::X86_64);
    let mut all = start_download(&mut acq);
    all.extend(acq.step(Event::Responded { success: true, status: "200 OK".to_string(), content_length: None }));
    all.extend(acq.step(Event::Received(7)));
    all.extend(acq.step(Event::TransferDone));
    let reports = progress(&all);
    assert_eq!(reports[1].percentage, 0);
    assert_eq!(reports[1].total, 0);
    let last = reports.last().unwrap();
    assert_eq!((last.downloaded, last.percentage), (7, 100));
}

#[test]
fn archive_without_binary_fails_and_removes_archive() {
    let mut acq = Acquisition::new(TargetOs::MacOs, TargetArch::X86_64);
    start_download(&mut acq);
    acq.step(Event::Responded { success: true, status: "200 OK".to_string(), content_length: Some(3) });
    acq.step(Event::Received(3));
    acq.step(Event::TransferDone);
    let archive = zip_of(&[("docs/MANUAL.txt", b"manual"), ("bin/pandoc-server", b"x")]);
    let acts = acq.step(Event::ArchiveLoaded(Ok(archive)));
    assert!(matches!(acts.as_slice(), [Action::RemoveFile(p), Action::Log(Level::Error, m)]
        if p == "/d/pandoc.zip" && m == "Pandoc binary not found in downloaded archive"));
    assert!(matches!(acq.phase, Phase::Done(Err(Failure::Archive(_)))));
    assert_eq!(acq.outcome().unwrap().unwrap_err(), "Pandoc binary not found in downloaded archive");
}

#[test]
fn http_error_status_fails() {
    let mut acq = Acquisition::new(TargetOs::MacOs, TargetArch::X86_64);
    start_download(&mut acq);
    let acts = acq.step(Event::Responded { success: false, status: "404 Not Found".to_string(), content_length: None });
    assert!(matches!(acq.phase, Phase::Done(Err(Failure::Network(_)))));
    assert!(matches!(acts.last(), Some(Action::Log(Level::Error, _))));
    assert_eq!(
        acq.outcome().unwrap().unwrap_err(),
        "Download failed with HTTP status: 404 Not Found from URL: https://assets.randynamic.org/pandocx/pandoc-3.8-x86_64-macOS.zip"
    );
}

#[test]
fn transport_and_disk_failures() {
    let mut acq = Acquisition::new(TargetOs::Windows, TargetArch::X86_64);
    start_download(&mut acq);
    acq.step(Event::RequestFailed("connection refused".to_string()));
    assert_eq!(
        acq.outcome().unwrap().unwrap_err(),
        "Failed to start download from https://assets.randynamic.org/pandocx/pandoc-3.8-windows-x86_64.zip: connection refused"
    );

    let mut acq = Acquisition::new(TargetOs::Windows, TargetArch::X86_64);
    start_download(&mut acq);
    acq.step(Event::Responded { success: true, status: "200 OK".to_string(), content_length: None });
    acq.step(Event::ReadFailed("reset".to_string()));
    assert_eq!(acq.outcome().unwrap().unwrap_err(), "Failed to read chunk: reset");

    let mut acq = Acquisition::new(TargetOs::Windows, TargetArch::X86_64);
    start_download(&mut acq);
    acq.step(Event::Responded { success: true, status: "200 OK".to_string(), content_length: None });
    acq.step(Event::WriteFailed("Failed to write chunk: disk full".to_string()));
    assert!(matches!(acq.phase, Phase::Done(Err(Failure::Filesystem(_)))));
}

#[test]
fn unreadable_archive_and_install_failure() {
    let mut acq = Acquisition::new(TargetOs::MacOs, TargetArch::Aarch64);
    start_download(&mut acq);
    acq.step(Event::Responded { success: true, status: "200 OK".to_string(), content_length: None });
    acq.step(Event::TransferDone);
    acq.step(Event::ArchiveLoaded(Ok(b"not a zip".to_vec())));
    let msg = acq.outcome().unwrap().unwrap_err();
    assert!(msg.starts_with("Failed to read zip archive: "), "{}", msg);

    let mut acq = Acquisition::new(TargetOs::MacOs, TargetArch::Aarch64);
    start_download(&mut acq);
    acq.step(Event::Responded { success: true, status: "200 OK".to_string(), content_length: None });
    acq.step(Event::TransferDone);
    acq.step(Event::ArchiveLoaded(Ok(zip_of(&[("pandoc.exe", b"MZ")]))));
    let acts = acq.step(Event::Installed(Err("Failed to set executable permissions: denied".to_string())));
    assert!(matches!(&acts[0], Action::RemoveFile(p) if p == "/d/pandoc"));
    assert!(matches!(&acts[1], Action::RemoveFile(p) if p == "/d/pandoc.zip"));
    assert!(matches!(&acts[2], Action::Log(Level::Error, m) if m == "Failed to set executable permissions: denied"));
    assert_eq!(acq.outcome().unwrap().unwrap_err(), "Failed to set executable permissions: denied");
}

#[test]
fn events_out_of_order_change_nothing() {
    let mut acq = Acquisition::new(TargetOs::MacOs, TargetArch::Aarch64);
    assert!(acq.step(Event::TransferDone).is_empty());
    assert!(matches!(acq.phase, Phase::Idle));
    assert!(acq.outcome().is_none());
}

#[test]
fn extraction_takes_first_matching_entry() {
    let archive = zip_of(&[("a/pandoc.1", b"man"), ("x/pandoc.exe", b"first"), ("y/pandoc", b"second")]);
    assert_eq!(extract_binary(&archive).unwrap(), b"first".to_vec());
    let names = vec!["README".to_string(), "bin/pandoc".to_string(), "pandoc".to_string()];
    assert_eq!(find_binary_entry(&names), Some(1));
    assert_eq!(find_binary_entry(&vec!["pandoc-lua".to_string()]), None);
    assert!(extract_binary(&b"PK".to_vec()).is_err());
}
