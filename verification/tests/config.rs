//! The command line, and what is made of it.

use sheepit_client::conf::{ClientConfig, ComputeMethod, ConfigBuild, read, readIfFits};
use sheepit_client::defs::BASE_URL;
use sheepit_client::job::{Chunk, JobInfo, RendererInfos};
use sheepit_client::span::TimeSpan;
use sheepit_client::utils::Platform;

fn words(list: &[&str]) -> Vec<String> {
    list.iter().map(|w| w.to_string()).collect()
}

fn refusal(list: &[&str]) -> String {
    readIfFits(&words(list)).unwrap().unwrap_err()
}

fn accepted(list: &[&str]) -> ConfigBuild {
    readIfFits(&words(list)).unwrap().unwrap()
}

fn config() -> ClientConfig {
    ClientConfig {
        login: "me".to_string(),
        password: "secret".to_string(),
        hostname: "https://h".to_string(),
        workPath: "/w".to_string(),
        binCachePath: "/c".to_string(),
        headless: false,
        computeMethod: ComputeMethod::Cpu,
        maxCpuCores: None,
        maxMemory: None,
        maxRenderTime: None,
    }
}

fn job_info() -> JobInfo {
    JobInfo {
        id: "17".to_string(),
        frameNumber: "0340".to_string(),
        path: "dir/scene.blend".to_string(),
        useGPU: false,
        validationUrl: "https://v".to_string(),
        script: "".to_string(),
        archiveChunks: vec![],
        name: "name".to_string(),
        password: None,
        synchronousUpload: false,
        rendererInfo: RendererInfos {
            md5: "abc".to_string(),
            commandline: "".to_string(),
            updateMethod: "".to_string(),
        },
    }
}

#[test]
fn no_arguments_leave_everything_open() {
    let b = accepted(&[]);
    assert!(b.login.is_none() && b.password.is_none() && b.hostname.is_none());
    assert!(b.workPath.is_none() && b.binCachePath.is_none() && b.headless.is_none());
    assert!(b.computeMethod.is_none() && b.maxCpuCores.is_none());
    assert!(b.maxMemory.is_none() && b.maxRenderTime.is_none());
}

#[test]
fn every_option_is_taken_in() {
    let b = accepted(&[
        "-login", "me", "-password", "secret", "-cache-dir", "/data", "-headless", "TRUE",
        "-hostname", "HTTPS://Example.com", "-computemethod", "CPU_GPU", "-cores", "4",
        "-memory", "2097152", "-max-render-time", "5", "min",
    ]);
    assert_eq!(b.login.as_deref(), Some("me"));
    assert_eq!(b.password.as_deref(), Some("secret"));
    assert_eq!(b.workPath.as_ref().unwrap().pieces, words(&["/data", "sheepit"]));
    assert_eq!(b.binCachePath.as_ref().unwrap().pieces, words(&["/data", "sheepit_binary_cache"]));
    assert_eq!(b.headless, Some(true));
    assert_eq!(b.hostname.as_deref(), Some("https://example.com/"));
    assert_eq!(b.computeMethod, Some(ComputeMethod::CpuGpu));
    assert_eq!(b.maxCpuCores, Some(4));
    assert_eq!(b.maxMemory, Some(2097152));
    assert_eq!(b.maxRenderTime, Some(TimeSpan::fromSecs(300)));
}

#[test]
fn option_names_do_not_mind_case() {
    let b = accepted(&["-LOGIN", "Me", "-Computemethod", "gpu"]);
    assert_eq!(b.login.as_deref(), Some("Me"));
    assert_eq!(b.computeMethod, Some(ComputeMethod::Gpu));
    assert_eq!(accepted(&["-computemethod", "CpuGpu"]).computeMethod, Some(ComputeMethod::CpuGpu));
    assert_eq!(accepted(&["-computemethod", "Cpu"]).computeMethod, Some(ComputeMethod::Cpu));
    // The Kelvin sign turns into an ordinary letter.
    assert_eq!(refusal(&["-\u{212a}"]), "Unrecognised option: \"-k\"");
}

#[test]
fn options_are_refused_with_a_reason() {
    assert_eq!(refusal(&["-Nonsense"]), "Unrecognised option: \"-nonsense\"");
    assert_eq!(refusal(&["-login"]), "Not enough arguments");
    assert_eq!(refusal(&["-headless", "maybe"]), "-headless can be only true or false");
    assert_eq!(
        refusal(&["-hostname", "nowhere"]),
        "Malformed -hostname: \"relative URL without a base\""
    );
    assert_eq!(
        refusal(&["-computemethod", "ABACUS"]),
        "Unknown compute method: \"abacus\", can only be CPU, GPU, CPU_GPU"
    );
    assert_eq!(refusal(&["-cores", "x"]), "-cores must be a positive number but is: \"x\"");
    assert_eq!(refusal(&["-cores", "65536"]), "-cores must be a positive number but is: \"65536\"");
    assert_eq!(refusal(&["-cores", "0"]), "-cores must be greater than 0");
    assert_eq!(refusal(&["-memory", "-1"]), "-memory must be a positive number but is: \"-1\"");
    assert_eq!(refusal(&["-memory", "0"]), "-memory must be greater than 0");
    assert_eq!(
        refusal(&["-max-render-time", "soon", "min"]),
        "-max-render-time <time> must be a positive number but is: \"soon\""
    );
    assert_eq!(refusal(&["-max-render-time", "5"]), "Not enough arguments");
    assert_eq!(
        refusal(&["-max-render-time", "5", "days"]),
        "-max-render-time <time> <time-unit> must be one of [s, sec, m, min, h, hours] but is days"
    );
}

#[test]
fn units_of_time() {
    for (unit, secs) in [("s", 7), ("sec", 7), ("m", 420), ("min", 420), ("h", 25200), ("hours", 25200)] {
        let b = accepted(&["-max-render-time", "7", unit]);
        assert_eq!(b.maxRenderTime, Some(TimeSpan::fromSecs(secs)));
    }
}

#[test]
fn a_time_that_does_not_fit() {
    assert!(readIfFits(&words(&["-max-render-time", "18446744073709551615", "h"])).is_none());
    let most = accepted(&["-max-render-time", "18446744073709551615", "s"]);
    assert_eq!(most.maxRenderTime, Some(TimeSpan::fromSecs(u64::MAX)));
}

#[test]
fn reading_goes_on_behind_what_was_read() {
    let b = read(&words(&["-cores", "2", "-login", "a", "-cores", "8"])).unwrap();
    assert_eq!(b.maxCpuCores, Some(8));
    assert_eq!(b.login.as_deref(), Some("a"));
    let swapped = read(&words(&["-login", "a", "-cores", "8"])).unwrap();
    assert_eq!(swapped.maxCpuCores, b.maxCpuCores);
    assert_eq!(swapped.login, b.login);
    assert_eq!(read(&words(&["-cores", "2", "-cores", "0"])).unwrap_err(), "-cores must be greater than 0");
}

#[test]
fn a_configuration_is_made() {
    let b = accepted(&["-login", "me", "-password", "secret", "-cache-dir", "d"]);
    assert_eq!(b.workPathGiven().unwrap().pieces, words(&["d", "sheepit"]));
    assert_eq!(b.binCachePathGiven().unwrap().pieces, words(&["d", "sheepit_binary_cache"]));
    let c = b.make(Ok("/d/sheepit".to_string()), Ok("/d/cache".to_string())).unwrap();
    assert_eq!(c.login, "me");
    assert_eq!(c.password, "secret");
    assert_eq!(c.hostname, BASE_URL);
    assert_eq!(c.workPath, "/d/sheepit");
    assert_eq!(c.binCachePath, "/d/cache");
    assert!(!c.headless);
    assert_eq!(c.computeMethod, ComputeMethod::Cpu);
    assert_eq!(c.maxCpuCores, None);
}

#[test]
fn a_configuration_is_refused() {
    let ok = || Ok("/d".to_string());
    assert_eq!(accepted(&[]).make(ok(), ok()).unwrap_err(), "The -login <username> is required");
    assert_eq!(
        accepted(&["-login", "me"]).make(ok(), ok()).unwrap_err(),
        "The -password <password> is required"
    );
    assert_eq!(
        accepted(&["-login", "me", "-password", "p"]).make(ok(), ok()).unwrap_err(),
        "The -cache-dir <folder path> is required"
    );
    let full = ["-login", "me", "-password", "p", "-cache-dir", "d"];
    assert_eq!(
        accepted(&full).make(Err(" gone".to_string()), ok()).unwrap_err(),
        "Failed to turn path to absolute gone"
    );
    assert_eq!(
        accepted(&full).make(ok(), Err(" lost".to_string())).unwrap_err(),
        "Failed to turn path to absolute lost"
    );
}

#[test]
fn names_of_compute_methods() {
    assert_eq!(ComputeMethod::Cpu.name(), "CPU");
    assert_eq!(ComputeMethod::Gpu.name(), "GPU");
    assert_eq!(ComputeMethod::CpuGpu.name(), "CPU_GPU");
}

#[test]
fn places_of_a_job() {
    let c = config();
    let job = job_info();
    assert_eq!(c.rendererArchivePath(&job).pieces, words(&["/c", "abc.zip"]));
    assert_eq!(c.rendererPath(&job).pieces, words(&["/w", "abc"]));
    assert_eq!(
        c.rendererPathExecutable(&job, Platform::Linux).pieces,
        words(&["/w", "abc", "rend.exe"])
    );
    assert_eq!(
        c.rendererPathExecutable(&job, Platform::Macos).pieces,
        words(&["/w", "abc", "Blender/Blender.app/Contents/MacOS/Blender"])
    );
    assert_eq!(c.scenePath(&job).pieces, words(&["/w", "17"]));
    assert_eq!(c.scenePathBlend(&job).pieces, words(&["/w", "17", "dir/scene.blend"]));
    let chunk = Chunk { id: "9".to_string(), md5: "m".to_string() };
    assert_eq!(c.chunkPath(&chunk).pieces, words(&["/w", "9.wool"]));
    assert_eq!(c.tmpDir().pieces, words(&["/w", "temp"]));
}
