//! Requests, answers, downloads, and the jobs that come of them.

use sheepit_client::conf::{ClientConfig, ComputeMethod};
use sheepit_client::defs::CLIENT_VERSION;
use sheepit_client::fmd5::FileDigest;
use sheepit_client::hw_info::{
    CpuFeatures, HwIdComponent, HwInfo, MachineReading, collectInfo, getProcessWorkingSet,
    getSystemFreeMemory, hwIdComponents,
};
use sheepit_client::job::{
    Chunk, Chunks, ClientErrorType, Job, JobRequestStatus, JobResponse, RenderTask, RendererInfos,
};
use sheepit_client::net::{
    DownloadAction, DownloadEvent, Received, RequestEndPoint, SpeedTestTarget, TransferStats,
    downloadFile, downloadJobFiles, downloadScene, finishDownload, fromXmlError,
    requireContentType, xmlBody, xmlDocument,
};
use sheepit_client::server_con::{ServerConnection, memoryLimit};
use sheepit_client::server_conf::{
    ConfError, RequestEndPointBuild, ServerConfig, ServerConfigBuild, SpeedTestTargetBuild,
    StatusCodes, configUrl, fetchNew, loginForm, pathNames,
};
use sheepit_client::span::TimeSpan;
use sheepit_client::utils::Platform;

const ENDPOINTS: [&str; 7] = [
    "request-job", "download-binary", "download-chunk", "error", "keepmealive", "logout",
    "speedtest-answer",
];

fn endpoint(path: &str) -> RequestEndPoint {
    RequestEndPoint { path: path.to_string(), maxPeriod: 0 }
}

fn hardware() -> HwInfo {
    HwInfo {
        hwId: "hw".to_string(),
        vendor: "v".to_string(),
        cpuName: "cpu".to_string(),
        familyId: 6,
        modelId: 42,
        steppingId: 1,
        frequency: None,
        cores: 8,
        osName: "Linux 6".to_string(),
        hostName: "box".to_string(),
        totalSystemMemory: 16000,
    }
}

fn configuration() -> ClientConfig {
    ClientConfig {
        login: "me".to_string(),
        password: "p".to_string(),
        hostname: "https://h".to_string(),
        workPath: "/w".to_string(),
        binCachePath: "/c".to_string(),
        headless: true,
        computeMethod: ComputeMethod::Cpu,
        maxCpuCores: None,
        maxMemory: None,
        maxRenderTime: None,
    }
}

fn server() -> ServerConnection {
    ServerConnection {
        serverConf: ServerConfig {
            publicKey: None,
            speedTestUrls: vec![],
            requestJob: endpoint("/job"),
            downloadBinary: endpoint("/bin"),
            downloadChunk: endpoint("/chunk"),
            error: endpoint("/err"),
            keepMeAlive: endpoint("/alive"),
            logout: endpoint("/bye"),
            speedTestAnswer: endpoint("/speed"),
        },
        clientConf: configuration(),
        hwInfo: hardware(),
        platform: Platform::Linux,
    }
}

fn task() -> RenderTask {
    RenderTask {
        id: "17".to_string(),
        useGpu: 0,
        chunks: Chunks { chunks: vec![Chunk { id: "c1".to_string(), md5: "m1".to_string() }] },
        path: "a/b.blend".to_string(),
        frame: "0001".to_string(),
        synchronousUpload: "1".to_string(),
        validationUrl: "https%3A%2F%2Fv%2F%3Fq%3D1".to_string(),
        name: "project".to_string(),
        password: "k\u{e4}se".to_string(),
        rendererInfos: RendererInfos {
            md5: "abc".to_string(),
            commandline: ".c .f".to_string(),
            updateMethod: "".to_string(),
        },
        script: "print()".to_string(),
    }
}

fn pairs(list: &[(String, String)]) -> Vec<(&str, &str)> {
    list.iter().map(|(a, b)| (a.as_str(), b.as_str())).collect()
}

fn stats(bytes: u64, secs: u64) -> TransferStats {
    TransferStats { bytes, time: TimeSpan::fromSecs(secs) }
}

fn answer(status: i32, skip: Option<&str>) -> ServerConfigBuild {
    ServerConfigBuild {
        status,
        publickey: Some("key".to_string()),
        speedTestTargets: Some(vec![
            SpeedTestTargetBuild { url: Some("https://s1".to_string()) },
            SpeedTestTargetBuild { url: None },
            SpeedTestTargetBuild { url: Some("https://s2".to_string()) },
        ]),
        requestEndPoints: Some(
            ENDPOINTS
                .iter()
                .filter(|n| Some(**n) != skip)
                .enumerate()
                .map(|(i, n)| RequestEndPointBuild {
                    eType: n.to_string(),
                    path: format!("/{n}"),
                    maxPeriod: if i == 0 { Some(9) } else { None },
                })
                .collect(),
        ),
    }
}

#[test]
fn content_types() {
    assert!(requireContentType(None, None).is_ok());
    assert!(requireContentType(None, Some("image/png")).is_ok());
    assert!(requireContentType(Some("text/xml"), Some("charset=utf-8; text/xml ")).is_ok());
    assert!(requireContentType(Some("text/xml"), Some("text/xml")).is_ok());
    assert_eq!(
        requireContentType(Some("text/xml"), Some("text/html")).unwrap_err(),
        "Could not get server config because the response is of invalid type.\n\tRequires text/xml But got : text/html"
    );
    assert_eq!(
        requireContentType(Some("text/xml"), None).unwrap_err(),
        "Could not get server config because the response is of invalid type.\n\tRequires text/xml But got "
    );
}

#[test]
fn documents_lose_their_prolog() {
    assert_eq!(xmlBody("  <?xml version=\"1.0\"?>\n <a/> \n"), "<a/>");
    assert_eq!(xmlBody(" <a/> "), "<a/>");
    assert_eq!(xmlBody("<?xml unfinished"), "xml unfinished");
    assert_eq!(xmlDocument("<a/>"), "<?xml version=\"1.0\" encoding=\"utf-8\"?>\n<a/>");
    assert_eq!(xmlBody(&xmlDocument(" <a>b</a>\n")), "<a>b</a>");
    assert_eq!(
        fromXmlError("Job", "of that", "<x>"),
        "Could not parse Job because: of that\nXML Text:\n<x>"
    );
}

#[test]
fn transfers_add_up() {
    assert_eq!(stats(10, 4).toRate(), 2);
    assert_eq!(TransferStats { bytes: 10, time: TimeSpan::fromNanos(999_999_999).unwrap() }.toRate(), 0);
    assert_eq!(stats(1, 2) + stats(3, 4), stats(4, 6));
    assert_eq!(stats(3, 4) + stats(1, 2), stats(4, 6));
    assert_eq!((stats(1, 2) + stats(3, 4)) + stats(5, 6), stats(1, 2) + (stats(3, 4) + stats(5, 6)));
    assert_eq!(stats(1, 2) + TransferStats::default(), stats(1, 2));
    assert_eq!(stats(u64::MAX, 1) + stats(5, 2), stats(5, 2));
    assert_eq!(stats(5, u64::MAX) + stats(7, 1), stats(5, u64::MAX));
}

#[test]
fn a_speed_test_starts_from_nothing() {
    let t = SpeedTestTarget::new("u".to_string());
    assert_eq!(t.url, "u");
    assert!(t.speedtest.isZero());
    assert_eq!((t.ping.count, t.ping.sum, t.ping.min, t.ping.max), (0, 0, usize::MAX, 0));
    assert_eq!(endpoint("/p").makeUrl("https://h"), "https://h/p");
}

#[test]
fn a_download_step_by_step() {
    let check = "5d41402abc4b2a76b9719d911017c592";
    let digest = [
        0x5d, 0x41, 0x40, 0x2a, 0xbc, 0x4b, 0x2a, 0x76, 0xb9, 0x71, 0x9d, 0x91, 0x10, 0x17, 0xc5, 0x92,
    ];
    let step = |event| downloadFile("/f", check, event);
    assert!(matches!(step(DownloadEvent::Exists(Ok(true))), DownloadAction::HashExisting));
    assert!(matches!(step(DownloadEvent::Exists(Ok(false))), DownloadAction::CreateParent));
    assert!(matches!(
        step(DownloadEvent::Exists(Err("e".to_string()))),
        DownloadAction::Finish(Err(m)) if m == "Could not check existence of /f because: e"
    ));
    assert!(matches!(
        step(DownloadEvent::Hashed(Ok(digest))),
        DownloadAction::Finish(Ok(s)) if s == TransferStats::default()
    ));
    assert!(matches!(
        step(DownloadEvent::Hashed(Ok([0; 16]))),
        DownloadAction::RemoveExisting(m) if m == "Hashes do not match for /f"
    ));
    assert!(matches!(
        step(DownloadEvent::Hashed(Err("e".to_string()))),
        DownloadAction::RemoveExisting(m) if m == "Could not read file \"/f\" because: e"
    ));
    assert!(matches!(step(DownloadEvent::Removed(Ok(()))), DownloadAction::CreateParent));
    assert!(matches!(
        step(DownloadEvent::Removed(Err("e".to_string()))),
        DownloadAction::Finish(Err(m)) if m == "Could not delete file \"/f\" because: e"
    ));
    assert!(matches!(step(DownloadEvent::ParentReady(Ok(()))), DownloadAction::Fetch));
    assert!(matches!(
        step(DownloadEvent::ParentReady(Err("e".to_string()))),
        DownloadAction::Finish(Err(m)) if m == "Could not create directory: /f because e"
    ));
    let got = |data: &[u8], elapsed| {
        let mut content = FileDigest::new();
        content.consume(data);
        Received { url: "https://u".to_string(), content, elapsed }
    };
    assert!(matches!(
        step(DownloadEvent::Fetched(Ok(got(b"hello", Some(TimeSpan::fromSecs(2)))))),
        DownloadAction::Finish(Ok(s)) if s == stats(5, 2)
    ));
    assert!(matches!(
        step(DownloadEvent::Fetched(Ok(got(b"hello", None)))),
        DownloadAction::Finish(Ok(s)) if s == TransferStats::default()
    ));
    assert!(matches!(
        step(DownloadEvent::Fetched(Ok(got(b"hallo", None)))),
        DownloadAction::Finish(Err(m)) if m == "Hashes do not match for https://u"
    ));
    assert!(matches!(
        step(DownloadEvent::Fetched(Err("e".to_string()))),
        DownloadAction::Finish(Err(m)) if m == "e"
    ));
    assert_eq!(finishDownload(check, "u", &digest, 5, Some(TimeSpan::fromSecs(1))).unwrap(), stats(5, 1));
    assert_eq!(finishDownload("x", "u", &digest, 5, None).unwrap_err(), "Hashes do not match for u");
}

#[test]
fn downloads_of_a_job() {
    let bad = |m: &str| Err::<TransferStats, String>(m.to_string());
    assert_eq!(downloadScene(vec![]).unwrap(), TransferStats::default());
    assert_eq!(downloadScene(vec![Ok(stats(1, 1)), Ok(stats(2, 2))]).unwrap(), stats(3, 3));
    assert_eq!(downloadScene(vec![Ok(stats(1, 1)), bad("a"), bad("b")]).unwrap_err(), "a");
    assert_eq!(downloadJobFiles(Ok(stats(1, 1)), Ok(stats(2, 2))).unwrap(), stats(3, 3));
    assert_eq!(downloadJobFiles(bad("scene"), bad("exe")).unwrap_err(), "exe");
    assert_eq!(downloadJobFiles(bad("scene"), Ok(stats(1, 1))).unwrap_err(), "scene");
}

#[test]
fn the_servers_configuration() {
    let conf = answer(0, None).make().unwrap();
    assert_eq!(conf.publicKey.as_deref(), Some("key"));
    let urls: Vec<&str> = conf.speedTestUrls.iter().map(|t| t.url.as_str()).collect();
    assert_eq!(urls, vec!["https://s1", "https://s2"]);
    assert_eq!(conf.requestJob.path, "/request-job");
    assert_eq!(conf.requestJob.maxPeriod, 9);
    assert_eq!(conf.downloadBinary.path, "/download-binary");
    assert_eq!(conf.downloadChunk.path, "/download-chunk");
    assert_eq!(conf.error.path, "/error");
    assert_eq!(conf.keepMeAlive.path, "/keepmealive");
    assert_eq!(conf.logout.path, "/logout");
    assert_eq!(conf.speedTestAnswer.path, "/speedtest-answer");
    assert_eq!(conf.speedTestAnswer.maxPeriod, 0);
}

#[test]
fn every_endpoint_is_needed() {
    for name in ENDPOINTS {
        let e = answer(0, Some(name)).make().unwrap_err();
        assert_eq!(e.message(), format!("Could not find endpoint for: {name}"));
        assert!(matches!(e, ConfError::IOError(_)));
    }
    let none = ServerConfigBuild { requestEndPoints: None, ..answer(0, None) };
    assert_eq!(none.getEndpoint("logout").unwrap_err().message(), "Could not find endpoint for: logout");
    let mut twice = answer(0, None);
    twice.requestEndPoints.as_mut().unwrap().push(RequestEndPointBuild {
        eType: "logout".to_string(),
        path: "/later".to_string(),
        maxPeriod: None,
    });
    assert_eq!(twice.getEndpoint("logout").unwrap().path, "/logout");
}

#[test]
fn what_the_server_says_of_a_login() {
    let fatal = [
        (100, "No version given (100)"),
        (101, "Client is too old (101)"),
        (102, "Authentication failure (102)"),
        (104, "Missing parameter (104)"),
    ];
    for (code, message) in fatal {
        let e = answer(code, None).make().unwrap_err();
        assert!(matches!(e, ConfError::FatalStatus(_)));
        assert_eq!(e.message(), message);
    }
    for (code, message) in [(103, "WebSession has expired (103)"), (7, "Unknown code")] {
        let e = answer(code, None).make().unwrap_err();
        assert!(matches!(e, ConfError::BadStatus(_)));
        assert_eq!(e.message(), message);
    }
    assert_eq!(StatusCodes::from(0), StatusCodes::Okay);
    assert_eq!(StatusCodes::Okay.message(), "Ok");
}

#[test]
fn what_becomes_of_an_answer() {
    assert_eq!(fetchNew(Err("down".to_string())).unwrap_err().message(), "down");
    assert_eq!(
        fetchNew(Ok(Err("odd".to_string()))).unwrap_err().message(),
        "Server configuration is malformed:\n\todd"
    );
    assert!(fetchNew(Ok(Ok(answer(0, None)))).is_ok());
    assert!(fetchNew(Ok(Ok(answer(101, None)))).is_err());
}

#[test]
fn where_the_configuration_is() {
    assert_eq!(configUrl("https://h.org").unwrap(), "https://h.org/server/config.php");
    assert_eq!(configUrl("https://h.org/x").unwrap(), "https://h.org/x/server/config.php");
    assert_eq!(configUrl("mailto:me@h.org").unwrap_err().message(), "Illegal hostname");
    assert_eq!(configUrl("h").unwrap_err().message(), "Illegal hostname");
    assert_eq!(pathNames("/a//b/"), vec!["a", "b"]);
}

#[test]
fn the_login_form() {
    let form = loginForm(&configuration(), &hardware(), "linux", "64bit");
    assert_eq!(
        pairs(&form),
        vec![
            ("login", "me"), ("password", "p"), ("cpu_family", "6"), ("cpu_model", "42"),
            ("cpu_model_name", "cpu"), ("cpu_cores", "8"), ("os", "linux"), ("os_version", "Linux 6"),
            ("ram", "16000"), ("bits", "64bit"), ("version", CLIENT_VERSION), ("hostname", "box"),
            ("ui", "GuiText"), ("extras", ""), ("headless", "true"), ("hwid", "hw"),
        ]
    );
}

#[test]
fn cores_and_memory() {
    let with = |cores: u16, limit: Option<u16>| {
        let mut s = server();
        s.hwInfo.cores = cores;
        s.clientConf.maxCpuCores = limit;
        s.effectiveCores()
    };
    assert_eq!(with(8, None), 8);
    assert_eq!(with(8, Some(4)), 4);
    assert_eq!(with(8, Some(1)), 2);
    assert_eq!(with(8, Some(99)), 8);
    assert_eq!(with(1, Some(4)), 1);
    assert_eq!(memoryLimit(1048576, None), 0);
    assert_eq!(memoryLimit(1048577, None), 1);
    assert_eq!(memoryLimit(0, Some(5)), 0);
    assert_eq!(memoryLimit(3145728, Some(1000)), 1000);
    assert_eq!(memoryLimit(3145728, None), 2097152);
}

#[test]
fn requests_to_the_server() {
    let mut s = server();
    s.clientConf.maxRenderTime = Some(TimeSpan::fromSecs(90));
    let job = s.requestJob(3145728, stats(100, 10));
    assert_eq!(job.url, "https://h/job");
    assert_eq!(
        pairs(&job.query),
        vec![
            ("computemethod", "1"), ("network_dl", "10"), ("network_up", "0"), ("cpu_cores", "8"),
            ("ram_max", "2097152"), ("rendertime_max", "90"),
        ]
    );
    s.clientConf.computeMethod = ComputeMethod::CpuGpu;
    s.clientConf.maxRenderTime = None;
    let job = s.requestJob(0, TransferStats::default());
    assert_eq!(pairs(&job.query)[0], ("computemethod", "0"));
    assert_eq!(pairs(&job.query)[5], ("rendertime_max", "0"));
    s.clientConf.computeMethod = ComputeMethod::Gpu;
    assert_eq!(pairs(&s.requestJob(0, TransferStats::default()).query)[0], ("computemethod", "2"));

    let made = Job::from((task(), &s));
    let file = s.downloadBinary(&made.info);
    assert_eq!(file.request.url, "https://h/bin");
    assert_eq!(pairs(&file.request.query), vec![("job", "17")]);
    assert_eq!(file.path.pieces, vec!["/c", "abc.zip"]);
    assert_eq!(file.md5, "abc");
    let part = s.downloadChunk(&made.info.archiveChunks[0]);
    assert_eq!(part.request.url, "https://h/chunk");
    assert_eq!(pairs(&part.request.query), vec![("chunk", "c1")]);
    assert_eq!(part.path.pieces, vec!["/w", "c1.wool"]);
    assert_eq!(part.md5, "m1");
    assert_eq!(pairs(&s.keepMeAlive(true).query), vec![("paused", "true")]);
    assert_eq!(s.keepMeAlive(false).url, "https://h/alive");
    assert_eq!(s.logout().url, "https://h/bye");
    assert!(s.logout().query.is_empty());
    let report = s.error(ClientErrorType::UNKNOWN, "\u{e4}");
    assert_eq!(report.request.url, "https://h/err");
    assert_eq!(pairs(&report.request.query), vec![("type", "99")]);
    assert_eq!((report.partName.as_str(), report.fileName.as_str()), ("err.txt", "/tmp/err.txt"));
    assert_eq!(report.mime, "text/plain");
    assert_eq!(report.body, vec![0xc3, 0xa4]);
    assert_eq!(ClientErrorType::OK.number(), 0);
}

#[test]
fn a_job_is_made_of_a_task() {
    let mut s = server();
    s.platform = Platform::Windows;
    s.clientConf.maxCpuCores = Some(3);
    let job = Job::from((task(), &s));
    assert_eq!(job.info.id, "17");
    assert_eq!(job.info.frameNumber, "0001");
    assert_eq!(job.info.path, "a\\b.blend");
    assert!(!job.info.useGPU);
    assert_eq!(job.info.validationUrl, "https://v/?q=1");
    assert_eq!(job.info.script, "print()");
    assert_eq!(job.info.archiveChunks.len(), 1);
    assert_eq!(job.info.name, "project");
    assert_eq!(job.info.password, Some(vec![b'k', 0xc3, 0xa4, b's', b'e']));
    assert!(job.info.synchronousUpload);
    assert_eq!(job.info.rendererInfo.md5, "abc");
    assert_eq!(job.conf.computeMethod, ComputeMethod::Cpu);
    assert_eq!(job.conf.cores, 3);
}

#[test]
fn a_job_without_a_password() {
    let mut t = task();
    t.password = "".to_string();
    t.synchronousUpload = "0".to_string();
    t.useGpu = 1;
    t.validationUrl = "https://plain".to_string();
    let job = Job::from((t, &server()));
    assert_eq!(job.info.password, None);
    assert!(!job.info.synchronousUpload);
    assert!(job.info.useGPU);
    assert_eq!(job.info.validationUrl, "https://plain");
    assert_eq!(job.info.path, "a/b.blend");
}

#[test]
fn an_address_that_cannot_be_decoded_stays() {
    let mut t = task();
    t.validationUrl = "https://v/%ff".to_string();
    assert_eq!(Job::from((t, &server())).info.validationUrl, "https://v/%ff");
    assert_eq!(Job::withUrl(task(), &server(), Some("u".to_string())).info.validationUrl, "u");
    assert_eq!(
        Job::withUrl(task(), &server(), None).info.validationUrl,
        "https%3A%2F%2Fv%2F%3Fq%3D1"
    );
}

#[test]
fn statuses_of_an_answer() {
    let numbers = [
        (0, JobRequestStatus::Okay),
        (200, JobRequestStatus::Nojob),
        (201, JobRequestStatus::ErrorNoRenderingRight),
        (202, JobRequestStatus::ErrorDeadSession),
        (203, JobRequestStatus::ErrorSessionDisabled),
        (204, JobRequestStatus::ErrorInternalError),
        (205, JobRequestStatus::ErrorRendererNotAvailable),
        (206, JobRequestStatus::ServerInMaintenance),
        (207, JobRequestStatus::ServerOverloaded),
        (208, JobRequestStatus::ErrorSessionDisabledDenoisingNotSupported),
        (999, JobRequestStatus::Unknown),
        (-1, JobRequestStatus::Unknown),
    ];
    for (number, status) in numbers {
        let response = JobResponse { status: number, sessionStats: None, renderTask: None, fileMD5s: None };
        assert_eq!(response.status(), status);
    }
}

fn reading() -> MachineReading {
    MachineReading {
        features: Some(CpuFeatures { familyId: 6, modelId: 7, steppingId: 8 }),
        vendor: Some("maker".to_string()),
        brand: Some("brand".to_string()),
        maxFrequency: None,
        physThreads: None,
        hwId: Some("id".to_string()),
        cpuFrequency: Some(3000),
        totalMemory: 4096,
        cpuCount: 12,
        osName: Some("Linux".to_string()),
        osVersion: Some("6".to_string()),
        hostName: None,
    }
}

#[test]
fn a_machine_is_described() {
    let info = collectInfo(reading()).unwrap();
    assert_eq!((info.hwId.as_str(), info.vendor.as_str(), info.cpuName.as_str()), ("id", "maker", "brand"));
    assert_eq!((info.familyId, info.modelId, info.steppingId), (6, 7, 8));
    assert_eq!(info.frequency, Some(3_000_000_000));
    assert_eq!(info.cores, 12);
    assert_eq!(info.osName, "Linux 6");
    assert_eq!(info.hostName, "");
    assert_eq!(info.totalSystemMemory, 4);
    let stated = MachineReading { maxFrequency: Some(2), physThreads: Some(65538), ..reading() };
    let info = collectInfo(stated).unwrap();
    assert_eq!(info.frequency, Some(2_000_000));
    assert_eq!(info.cores, 2);
}

#[test]
fn a_machine_that_cannot_be_described() {
    let refused = |m: MachineReading| collectInfo(m).unwrap_err();
    assert_eq!(refused(MachineReading { features: None, ..reading() }), "Failed to get CPU info");
    assert_eq!(refused(MachineReading { vendor: None, ..reading() }), "Failed to get CPU Vendor info");
    assert_eq!(refused(MachineReading { hwId: None, ..reading() }), "Failed to create HW-ID");
    assert_eq!(
        refused(MachineReading { cpuFrequency: Some(u64::MAX), ..reading() }),
        "Failed to execute CPU info"
    );
    assert_eq!(
        refused(MachineReading { totalMemory: 1023, ..reading() }),
        "Could not get total system memory"
    );
    assert_eq!(refused(MachineReading { cpuCount: 0, ..reading() }), "Failed to get core count!");
}

#[test]
fn identifiers_and_memory_of_processes() {
    assert_eq!(hwIdComponents(0), Some(vec![HwIdComponent::SystemID]));
    assert_eq!(hwIdComponents(1), Some(vec![HwIdComponent::MacAddress]));
    assert_eq!(
        hwIdComponents(2),
        Some(vec![HwIdComponent::Username, HwIdComponent::MachineName, HwIdComponent::OSName])
    );
    assert_eq!(hwIdComponents(3), None);
    assert_eq!(getSystemFreeMemory(4097), 4);
    assert_eq!(getProcessWorkingSet(5, Some(2048)), Ok(2));
    assert_eq!(getProcessWorkingSet(5, None), Err("Could not find process 5".to_string()));
    assert_eq!(
        getProcessWorkingSet(5, Some(0)),
        Err("Could not retieve process memory: 5".to_string())
    );
}
