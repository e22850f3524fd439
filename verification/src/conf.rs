//! The client's configuration: how it is read from the command line, and where it puts things.

use vstd::prelude::*;

use crate::defs::BASE_URL;
use crate::job::{Chunk, JobInfo};
use crate::number::{digits, law_read_back, read_nat, readNat};
use crate::outside::{lowercase, lowered, parseUrl, parsed_url};
use crate::paths::PathPieces;
use crate::span::{SECOND, TimeSpan};
use crate::text::{bool_text, glue, glue3, law_bool_texts, strEq, views};
use crate::utils::{blend_exe, blendExe, Platform};

verus! {

/// What is to do the rendering.
#[derive(Debug, Clone, Copy, PartialEq, Eq, Structural)]
pub enum ComputeMethod {
    CpuGpu,
    Cpu,
    Gpu,
}

impl ComputeMethod {
    /// The method's name.
    pub open spec fn spec_name(self) -> Seq<char> {
        match self {
            ComputeMethod::CpuGpu => "CPU_GPU"@,
            ComputeMethod::Cpu => "CPU"@,
            ComputeMethod::Gpu => "GPU"@,
        }
    }

    /// The method's name.
    pub fn name(&self) -> (r: String)
        ensures
            r@ == self.spec_name(),
    {
        match self {
            ComputeMethod::CpuGpu => "CPU_GPU".to_owned(),
            ComputeMethod::Cpu => "CPU".to_owned(),
            ComputeMethod::Gpu => "GPU".to_owned(),
        }
    }
}

/// The configuration that the client runs with.
#[derive(Debug, Clone)]
pub struct ClientConfig {
    pub login: String,
    pub password: String,
    pub hostname: String,
    pub workPath: String,
    pub binCachePath: String,
    pub headless: bool,
    pub computeMethod: ComputeMethod,
    pub maxCpuCores: Option<u16>,
    pub maxMemory: Option<u64>,
    pub maxRenderTime: Option<TimeSpan>,
}

/// The folder with a job's renderer.
pub open spec fn renderer_path(conf: ClientConfig, job: JobInfo) -> Seq<Seq<char>> {
    seq![conf.workPath@, job.rendererInfo.md5@]
}

/// Where the archive with a job's renderer is kept.
pub open spec fn renderer_archive_path(conf: ClientConfig, job: JobInfo) -> Seq<Seq<char>> {
    seq![conf.binCachePath@, job.rendererInfo.md5@ + ".zip"@]
}

/// The folder with a job's scene.
pub open spec fn scene_path(conf: ClientConfig, job: JobInfo) -> Seq<Seq<char>> {
    seq![conf.workPath@, job.id@]
}

/// Where a part of a scene's archive is kept.
pub open spec fn chunk_path(conf: ClientConfig, chunk: Chunk) -> Seq<Seq<char>> {
    seq![conf.workPath@, chunk.id@ + ".wool"@]
}

/// The folder for the renderer's own temporary files.
pub open spec fn tmp_dir(conf: ClientConfig) -> Seq<Seq<char>> {
    seq![conf.workPath@, "temp"@]
}

impl ClientConfig {
    /// Where the archive with the job's renderer is kept.
    pub fn rendererArchivePath(&self, job: &JobInfo) -> (r: PathPieces)
        ensures
            r@ == renderer_archive_path(*self, *job),
    {
        PathPieces::of(self.binCachePath.as_str()).join(
            glue(job.rendererInfo.md5.as_str(), ".zip").as_str(),
        )
    }

    /// The folder with the job's renderer.
    pub fn rendererPath(&self, job: &JobInfo) -> (r: PathPieces)
        ensures
            r@ == renderer_path(*self, *job),
    {
        PathPieces::of(self.workPath.as_str()).join(job.rendererInfo.md5.as_str())
    }

    /// The renderer's program.
    pub fn rendererPathExecutable(&self, job: &JobInfo, platform: Platform) -> (r: PathPieces)
        ensures
            r@ == renderer_path(*self, *job).push(blend_exe(platform)),
    {
        self.rendererPath(job).join(blendExe(platform).as_str())
    }

    /// The folder with the job's scene.
    pub fn scenePath(&self, job: &JobInfo) -> (r: PathPieces)
        ensures
            r@ == scene_path(*self, *job),
    {
        PathPieces::of(self.workPath.as_str()).join(job.id.as_str())
    }

    /// The job's scene file.
    pub fn scenePathBlend(&self, job: &JobInfo) -> (r: PathPieces)
        ensures
            r@ == scene_path(*self, *job).push(job.path@),
    {
        PathPieces::of(self.workPath.as_str()).join(job.id.as_str()).join(job.path.as_str())
    }

    /// Where a part of a scene's archive is kept.
    pub fn chunkPath(&self, chunk: &Chunk) -> (r: PathPieces)
        ensures
            r@ == chunk_path(*self, *chunk),
    {
        PathPieces::of(self.workPath.as_str()).join(glue(chunk.id.as_str(), ".wool").as_str())
    }

    /// The folder for the renderer's own temporary files.
    pub fn tmpDir(&self) -> (r: PathPieces)
        ensures
            r@ == tmp_dir(*self),
    {
        PathPieces::of(self.workPath.as_str()).join("temp")
    }
}

/// A configuration in the making.
#[derive(Debug)]
pub struct ConfigBuild {
    pub login: Option<String>,
    pub password: Option<String>,
    pub hostname: Option<String>,
    pub workPath: Option<PathPieces>,
    pub binCachePath: Option<PathPieces>,
    pub headless: Option<bool>,
    pub computeMethod: Option<ComputeMethod>,
    pub maxCpuCores: Option<u16>,
    pub maxMemory: Option<u64>,
    pub maxRenderTime: Option<TimeSpan>,
}

/// What a configuration in the making holds; times in nanoseconds.
#[verifier::ext_equal]
pub struct ConfigBuildView {
    pub login: Option<Seq<char>>,
    pub password: Option<Seq<char>>,
    pub hostname: Option<Seq<char>>,
    pub workPath: Option<Seq<Seq<char>>>,
    pub binCachePath: Option<Seq<Seq<char>>>,
    pub headless: Option<bool>,
    pub computeMethod: Option<ComputeMethod>,
    pub maxCpuCores: Option<nat>,
    pub maxMemory: Option<nat>,
    pub maxRenderTime: Option<nat>,
}

/// What an optional string holds.
pub open spec fn text_view(s: Option<String>) -> Option<Seq<char>> {
    match s {
        Some(s) => Some(s@),
        None => None,
    }
}

/// What an optional path is made of.
pub open spec fn path_view(p: Option<PathPieces>) -> Option<Seq<Seq<char>>> {
    match p {
        Some(p) => Some(p@),
        None => None,
    }
}

/// How long an optional span is.
pub open spec fn span_view(s: Option<TimeSpan>) -> Option<nat> {
    match s {
        Some(s) => Some(s@),
        None => None,
    }
}

impl View for ConfigBuild {
    type V = ConfigBuildView;

    open spec fn view(&self) -> ConfigBuildView {
        ConfigBuildView {
            login: text_view(self.login),
            password: text_view(self.password),
            hostname: text_view(self.hostname),
            workPath: path_view(self.workPath),
            binCachePath: path_view(self.binCachePath),
            headless: self.headless,
            computeMethod: self.computeMethod,
            maxCpuCores: match self.maxCpuCores {
                Some(n) => Some(n as nat),
                None => None,
            },
            maxMemory: match self.maxMemory {
                Some(n) => Some(n as nat),
                None => None,
            },
            maxRenderTime: span_view(self.maxRenderTime),
        }
    }
}

/// The configuration in the making in which nothing is set.
pub open spec fn blank() -> ConfigBuildView {
    ConfigBuildView {
        login: None,
        password: None,
        hostname: None,
        workPath: None,
        binCachePath: None,
        headless: None,
        computeMethod: None,
        maxCpuCores: None,
        maxMemory: None,
        maxRenderTime: None,
    }
}

impl Default for ConfigBuild {
    fn default() -> (r: Self)
        ensures
            r@ == blank(),
    {
        ConfigBuild {
            login: None,
            password: None,
            hostname: None,
            workPath: None,
            binCachePath: None,
            headless: None,
            computeMethod: None,
            maxCpuCores: None,
            maxMemory: None,
            maxRenderTime: None,
        }
    }
}

/// What a result of text holds.
pub open spec fn result_view(r: Result<String, String>) -> Result<Seq<char>, Seq<char>> {
    match r {
        Ok(s) => Ok(s@),
        Err(e) => Err(e@),
    }
}

/// Why no configuration can be made, if none can: something that is required is missing, or a
/// folder could not be turned into an absolute path.
pub open spec fn make_refusal(
    b: ConfigBuildView,
    workPath: Result<Seq<char>, Seq<char>>,
    binCachePath: Result<Seq<char>, Seq<char>>,
) -> Option<Seq<char>> {
    if b.login is None {
        Some("The -login <username> is required"@)
    } else if b.password is None {
        Some("The -password <password> is required"@)
    } else if b.workPath is None {
        Some("The -cache-dir <folder path> is required"@)
    } else if workPath is Err {
        Some("Failed to turn path to absolute"@ + workPath->Err_0)
    } else if b.binCachePath is None {
        Some("The -cache-dir <folder path> is required"@)
    } else if binCachePath is Err {
        Some("Failed to turn path to absolute"@ + binCachePath->Err_0)
    } else {
        None
    }
}

/// Whether a result is what a configuration in the making comes to. `workPath` and `binCachePath` are
/// what became of the two folders when they were turned into absolute paths.
pub open spec fn config_made(
    build: ConfigBuild,
    workPath: Result<String, String>,
    binCachePath: Result<String, String>,
    result: Result<ClientConfig, String>,
) -> bool {
    let b = build@;
    match result {
        Ok(c) => {
            &&& make_refusal(b, result_view(workPath), result_view(binCachePath)) is None
            &&& b.login == Some(c.login@)
            &&& b.password == Some(c.password@)
            &&& c.hostname@ == b.hostname.unwrap_or(BASE_URL@)
            &&& workPath == Ok::<String, String>(c.workPath)
            &&& binCachePath == Ok::<String, String>(c.binCachePath)
            &&& c.headless == b.headless.unwrap_or(false)
            &&& c.computeMethod == build.computeMethod.unwrap_or(ComputeMethod::Cpu)
            &&& c.maxCpuCores == build.maxCpuCores
            &&& c.maxMemory == build.maxMemory
            &&& c.maxRenderTime == build.maxRenderTime
        },
        Err(m) => make_refusal(b, result_view(workPath), result_view(binCachePath)) == Some(m@),
    }
}

impl ConfigBuild {
    /// The folder that is to become the work folder.
    pub fn workPathGiven(&self) -> (r: Option<PathPieces>)
        ensures
            path_view(r) == self@.workPath,
    {
        match &self.workPath {
            Some(p) => Some(p.clone()),
            None => None,
        }
    }

    /// The folder that is to become the cache for renderers.
    pub fn binCachePathGiven(&self) -> (r: Option<PathPieces>)
        ensures
            path_view(r) == self@.binCachePath,
    {
        match &self.binCachePath {
            Some(p) => Some(p.clone()),
            None => None,
        }
    }

    /// The configuration that was described. `workPath` and `binCachePath` are what became of the
    /// two folders when they were turned into absolute paths.
    pub fn make(self, workPath: Result<String, String>, binCachePath: Result<String, String>) -> (r:
        Result<ClientConfig, String>)
        ensures
            config_made(self, workPath, binCachePath, r),
    {
        let login = match self.login {
            Some(login) => login,
            None => return Err("The -login <username> is required".to_owned()),
        };
        let password = match self.password {
            Some(password) => password,
            None => return Err("The -password <password> is required".to_owned()),
        };
        let hostname = match self.hostname {
            Some(hostname) => hostname,
            None => BASE_URL.to_owned(),
        };
        if self.workPath.is_none() {
            return Err("The -cache-dir <folder path> is required".to_owned());
        }
        let workPath = match workPath {
            Ok(p) => p,
            Err(e) => return Err(glue("Failed to turn path to absolute", e.as_str())),
        };
        if self.binCachePath.is_none() {
            return Err("The -cache-dir <folder path> is required".to_owned());
        }
        let binCachePath = match binCachePath {
            Ok(p) => p,
            Err(e) => return Err(glue("Failed to turn path to absolute", e.as_str())),
        };
        Ok(
            ClientConfig {
                login,
                password,
                hostname,
                workPath,
                binCachePath,
                headless: match self.headless {
                    Some(headless) => headless,
                    None => false,
                },
                computeMethod: match self.computeMethod {
                    Some(method) => method,
                    None => ComputeMethod::Cpu,
                },
                maxCpuCores: self.maxCpuCores,
                maxMemory: self.maxMemory,
                maxRenderTime: self.maxRenderTime,
            },
        )
    }
}

/// The options that there are.
pub open spec fn is_option(part: Seq<char>) -> bool {
    ||| part == "-login"@
    ||| part == "-password"@
    ||| part == "-cache-dir"@
    ||| part == "-headless"@
    ||| part == "-hostname"@
    ||| part == "-computemethod"@
    ||| part == "-cores"@
    ||| part == "-memory"@
    ||| part == "-max-render-time"@
}

/// The compute method of a name in lower case.
pub open spec fn method_of(name: Seq<char>) -> Option<ComputeMethod> {
    if name == "cpu"@ {
        Some(ComputeMethod::Cpu)
    } else if name == "gpu"@ {
        Some(ComputeMethod::Gpu)
    } else if name == "cpu_gpu"@ || name == "cpugpu"@ {
        Some(ComputeMethod::CpuGpu)
    } else {
        None
    }
}

/// The seconds in a unit of time.
pub open spec fn unit_secs(unit: Seq<char>) -> Option<nat> {
    if unit == "s"@ || unit == "sec"@ {
        Some(1)
    } else if unit == "m"@ || unit == "min"@ {
        Some(60)
    } else if unit == "h"@ || unit == "hours"@ {
        Some(3600)
    } else {
        None
    }
}

/// What one option comes to.
pub enum OptionOutcome {
    /// It is taken in, with so many arguments.
    Taken(ConfigBuildView, int),
    /// It is refused, with a message.
    Refused(Seq<char>),
    /// It gives a time whose seconds do not fit in 64 bits.
    TooLong,
}

/// What an option with the value `v` comes to; `next` is the argument behind the value.
pub open spec fn option_outcome(
    part: Seq<char>,
    v: Seq<char>,
    next: Option<Seq<char>>,
    b: ConfigBuildView,
) -> OptionOutcome {
    if part == "-login"@ {
        OptionOutcome::Taken(ConfigBuildView { login: Some(v), ..b }, 2)
    } else if part == "-password"@ {
        OptionOutcome::Taken(ConfigBuildView { password: Some(v), ..b }, 2)
    } else if part == "-cache-dir"@ {
        OptionOutcome::Taken(
            ConfigBuildView {
                workPath: Some(seq![v, "sheepit"@]),
                binCachePath: Some(seq![v, "sheepit_binary_cache"@]),
                ..b
            },
            2,
        )
    } else if part == "-headless"@ {
        if lowered(v) == "true"@ {
            OptionOutcome::Taken(ConfigBuildView { headless: Some(true), ..b }, 2)
        } else if lowered(v) == "false"@ {
            OptionOutcome::Taken(ConfigBuildView { headless: Some(false), ..b }, 2)
        } else {
            OptionOutcome::Refused("-headless can be only true or false"@)
        }
    } else if part == "-hostname"@ {
        match parsed_url(v) {
            Ok(url) => OptionOutcome::Taken(ConfigBuildView { hostname: Some(url), ..b }, 2),
            Err(e) => OptionOutcome::Refused("Malformed -hostname: \""@ + e + "\""@),
        }
    } else if part == "-computemethod"@ {
        match method_of(lowered(v)) {
            Some(method) => OptionOutcome::Taken(
                ConfigBuildView { computeMethod: Some(method), ..b },
                2,
            ),
            None => OptionOutcome::Refused(
                "Unknown compute method: \""@ + lowered(v)
                    + "\", can only be CPU, GPU, CPU_GPU"@,
            ),
        }
    } else if part == "-cores"@ {
        match read_nat(v, u16::MAX as nat) {
            None => OptionOutcome::Refused(
                "-cores must be a positive number but is: \""@ + v + "\""@,
            ),
            Some(n) => if n == 0 {
                OptionOutcome::Refused("-cores must be greater than 0"@)
            } else {
                OptionOutcome::Taken(ConfigBuildView { maxCpuCores: Some(n), ..b }, 2)
            },
        }
    } else if part == "-memory"@ {
        match read_nat(v, u64::MAX as nat) {
            None => OptionOutcome::Refused(
                "-memory must be a positive number but is: \""@ + v + "\""@,
            ),
            Some(n) => if n == 0 {
                OptionOutcome::Refused("-memory must be greater than 0"@)
            } else {
                OptionOutcome::Taken(ConfigBuildView { maxMemory: Some(n), ..b }, 2)
            },
        }
    } else {
        match read_nat(v, u64::MAX as nat) {
            None => OptionOutcome::Refused(
                "-max-render-time <time> must be a positive number but is: \""@ + v + "\""@,
            ),
            Some(time) => match next {
                None => OptionOutcome::Refused("Not enough arguments"@),
                Some(unit) => match unit_secs(unit) {
                    None => OptionOutcome::Refused(
                        "-max-render-time <time> <time-unit> must be one of [s, sec, m, min, h, hours] but is "@
                            + unit,
                    ),
                    Some(secs) => if time * secs > u64::MAX {
                        OptionOutcome::TooLong
                    } else {
                        OptionOutcome::Taken(
                            ConfigBuildView {
                                maxRenderTime: Some(time * secs * SECOND as nat),
                                ..b
                            },
                            3,
                        )
                    },
                },
            },
        }
    }
}

/// The argument in a place, if there is one.
pub open spec fn arg_at(args: Seq<Seq<char>>, i: int) -> Option<Seq<char>> {
    if 0 <= i < args.len() {
        Some(args[i])
    } else {
        None
    }
}

/// What the option in a place comes to.
pub open spec fn outcome_at(args: Seq<Seq<char>>, i: int, b: ConfigBuildView) -> OptionOutcome {
    let part = lowered(args[i]);
    if !is_option(part) {
        OptionOutcome::Refused("Unrecognised option: \""@ + part + "\""@)
    } else {
        match arg_at(args, i + 1) {
            None => OptionOutcome::Refused("Not enough arguments"@),
            Some(v) => option_outcome(part, v, arg_at(args, i + 2), b),
        }
    }
}

/// What the arguments come to.
pub enum ReadOutcome {
    /// All are taken in.
    Done(ConfigBuildView),
    /// One of them is refused, with a message.
    Refused(Seq<char>),
    /// One of them gives a time whose seconds do not fit in 64 bits.
    TooLong,
}

/// What the arguments from a place on come to, behind those that made `b`.
pub open spec fn read_from(args: Seq<Seq<char>>, i: int, b: ConfigBuildView) -> ReadOutcome
    decreases args.len() - i,
{
    if i >= args.len() {
        ReadOutcome::Done(b)
    } else {
        match outcome_at(args, i, b) {
            OptionOutcome::Taken(next, used) => if used > 0 {
                read_from(args, i + used, next)
            } else {
                ReadOutcome::Done(next)
            },
            OptionOutcome::Refused(m) => ReadOutcome::Refused(m),
            OptionOutcome::TooLong => ReadOutcome::TooLong,
        }
    }
}

/// What the arguments come to.
pub open spec fn read_outcome(args: Seq<Seq<char>>) -> ReadOutcome {
    read_from(args, 0, blank())
}

enum OptionRead {
    Taken(ConfigBuild, usize),
    Refused(String),
    TooLong,
}

impl OptionRead {
    spec fn outcome(self) -> OptionOutcome {
        match self {
            OptionRead::Taken(b, used) => OptionOutcome::Taken(b@, used as int),
            OptionRead::Refused(m) => OptionOutcome::Refused(m@),
            OptionRead::TooLong => OptionOutcome::TooLong,
        }
    }
}

fn isOption(part: &str) -> (r: bool)
    ensures
        r == is_option(part@),
{
    strEq(part, "-login") || strEq(part, "-password") || strEq(part, "-cache-dir") || strEq(
        part,
        "-headless",
    ) || strEq(part, "-hostname") || strEq(part, "-computemethod") || strEq(part, "-cores")
        || strEq(part, "-memory") || strEq(part, "-max-render-time")
}

fn methodOf(name: &str) -> (r: Option<ComputeMethod>)
    ensures
        r == method_of(name@),
{
    if strEq(name, "cpu") {
        Some(ComputeMethod::Cpu)
    } else if strEq(name, "gpu") {
        Some(ComputeMethod::Gpu)
    } else if strEq(name, "cpu_gpu") || strEq(name, "cpugpu") {
        Some(ComputeMethod::CpuGpu)
    } else {
        None
    }
}

fn unitSecs(unit: &str) -> (r: Option<u64>)
    ensures
        match r {
            Some(n) => unit_secs(unit@) == Some(n as nat) && n <= 3600,
            None => unit_secs(unit@) is None,
        },
{
    if strEq(unit, "s") || strEq(unit, "sec") {
        Some(1)
    } else if strEq(unit, "m") || strEq(unit, "min") {
        Some(60)
    } else if strEq(unit, "h") || strEq(unit, "hours") {
        Some(3600)
    } else {
        None
    }
}

fn readRenderTime(v: &str, next: Option<&String>, build: ConfigBuild) -> (r: OptionRead)
    ensures
        r.outcome() == option_outcome(
            "-max-render-time"@,
            v@,
            match next {
                Some(unit) => Some(unit@),
                None => None,
            },
            build@,
        ),
{
    proof {
        reveal_options();
    }
    let time = match readNat(v, u64::MAX) {
        Some(time) => time,
        None => return OptionRead::Refused(
            glue3("-max-render-time <time> must be a positive number but is: \"", v, "\""),
        ),
    };
    let unit = match next {
        Some(unit) => unit,
        None => return OptionRead::Refused("Not enough arguments".to_owned()),
    };
    let secs = match unitSecs(unit.as_str()) {
        Some(secs) => secs,
        None => return OptionRead::Refused(
            glue(
                "-max-render-time <time> <time-unit> must be one of [s, sec, m, min, h, hours] but is ",
                unit.as_str(),
            ),
        ),
    };
    assert(time * secs <= u64::MAX * 3600) by (nonlinear_arith)
        requires
            time <= u64::MAX,
            secs <= 3600,
    ;
    let total: u128 = time as u128 * secs as u128;
    if total > u64::MAX as u128 {
        return OptionRead::TooLong;
    }
    let mut build = build;
    build.maxRenderTime = Some(TimeSpan::fromSecs(total as u64));
    OptionRead::Taken(build, 3)
}

/// The options are different words.
proof fn reveal_options()
    ensures
        "-max-render-time"@ != "-login"@,
        "-max-render-time"@ != "-password"@,
        "-max-render-time"@ != "-cache-dir"@,
        "-max-render-time"@ != "-headless"@,
        "-max-render-time"@ != "-hostname"@,
        "-max-render-time"@ != "-computemethod"@,
        "-max-render-time"@ != "-cores"@,
        "-max-render-time"@ != "-memory"@,
{
    reveal_strlit("-max-render-time");
    reveal_strlit("-login");
    reveal_strlit("-password");
    reveal_strlit("-cache-dir");
    reveal_strlit("-headless");
    reveal_strlit("-hostname");
    reveal_strlit("-computemethod");
    reveal_strlit("-cores");
    reveal_strlit("-memory");
    assert("-max-render-time"@.len() == 16);
}

fn readOption(part: &str, v: &str, next: Option<&String>, build: ConfigBuild) -> (r: OptionRead)
    requires
        is_option(part@),
    ensures
        r.outcome() == option_outcome(
            part@,
            v@,
            match next {
                Some(unit) => Some(unit@),
                None => None,
            },
            build@,
        ),
{
    let mut build = build;
    if strEq(part, "-login") {
        build.login = Some(v.to_owned());
    } else if strEq(part, "-password") {
        build.password = Some(v.to_owned());
    } else if strEq(part, "-cache-dir") {
        build.workPath = Some(PathPieces::of(v).join("sheepit"));
        build.binCachePath = Some(PathPieces::of(v).join("sheepit_binary_cache"));
        assert(build@.workPath->0 == seq![v@, "sheepit"@]);
        assert(build@.binCachePath->0 == seq![v@, "sheepit_binary_cache"@]);
    } else if strEq(part, "-headless") {
        let value = lowercase(v);
        if strEq(value.as_str(), "true") {
            build.headless = Some(true);
        } else if strEq(value.as_str(), "false") {
            build.headless = Some(false);
        } else {
            return OptionRead::Refused("-headless can be only true or false".to_owned());
        }
    } else if strEq(part, "-hostname") {
        match parseUrl(v) {
            Ok(url) => {
                build.hostname = Some(url);
            },
            Err(e) => return OptionRead::Refused(
                glue3("Malformed -hostname: \"", e.as_str(), "\""),
            ),
        }
    } else if strEq(part, "-computemethod") {
        let value = lowercase(v);
        match methodOf(value.as_str()) {
            Some(method) => {
                build.computeMethod = Some(method);
            },
            None => return OptionRead::Refused(
                glue3(
                    "Unknown compute method: \"",
                    value.as_str(),
                    "\", can only be CPU, GPU, CPU_GPU",
                ),
            ),
        }
    } else if strEq(part, "-cores") {
        match readNat(v, u16::MAX as u64) {
            Some(n) => {
                if n == 0 {
                    return OptionRead::Refused("-cores must be greater than 0".to_owned());
                }
                build.maxCpuCores = Some(n as u16);
            },
            None => return OptionRead::Refused(
                glue3("-cores must be a positive number but is: \"", v, "\""),
            ),
        }
    } else if strEq(part, "-memory") {
        match readNat(v, u64::MAX) {
            Some(n) => {
                if n == 0 {
                    return OptionRead::Refused("-memory must be greater than 0".to_owned());
                }
                build.maxMemory = Some(n);
            },
            None => return OptionRead::Refused(
                glue3("-memory must be a positive number but is: \"", v, "\""),
            ),
        }
    } else {
        return readRenderTime(v, next, build);
    }
    OptionRead::Taken(build, 2)
}

enum ArgsRead {
    Done(ConfigBuild),
    Refused(String),
    TooLong,
}

impl ArgsRead {
    spec fn outcome(self) -> ReadOutcome {
        match self {
            ArgsRead::Done(b) => ReadOutcome::Done(b@),
            ArgsRead::Refused(m) => ReadOutcome::Refused(m@),
            ArgsRead::TooLong => ReadOutcome::TooLong,
        }
    }
}

fn readArgs(args: &Vec<String>) -> (r: ArgsRead)
    ensures
        r.outcome() == read_outcome(views(args@)),
{
    let ghost texts = views(args@);
    let mut build = ConfigBuild::default();
    let mut i: usize = 0;
    while i < args.len()
        invariant
            texts == views(args@),
            read_from(texts, i as int, build@) == read_outcome(texts),
        decreases args@.len() - i,
    {
        assert(texts[i as int] == args@[i as int]@);
        let part = lowercase(args[i].as_str());
        if !isOption(part.as_str()) {
            return ArgsRead::Refused(glue3("Unrecognised option: \"", part.as_str(), "\""));
        }
        if i + 1 >= args.len() {
            return ArgsRead::Refused("Not enough arguments".to_owned());
        }
        assert(texts[i as int + 1] == args@[i as int + 1]@);
        let next: Option<&String> = if args.len() - i > 2 {
            assert(texts[i as int + 2] == args@[i as int + 2]@);
            Some(&args[i + 2])
        } else {
            None
        };
        match readOption(part.as_str(), args[i + 1].as_str(), next, build) {
            OptionRead::Taken(b, used) => {
                build = b;
                i += used;
            },
            OptionRead::Refused(m) => return ArgsRead::Refused(m),
            OptionRead::TooLong => return ArgsRead::TooLong,
        }
    }
    ArgsRead::Done(build)
}

/// Reads the configuration from the command line.
pub fn read(args: &Vec<String>) -> (r: Result<ConfigBuild, String>)
    requires
        read_outcome(views(args@)) !is TooLong,
    ensures
        match r {
            Ok(b) => read_outcome(views(args@)) == ReadOutcome::Done(b@),
            Err(m) => read_outcome(views(args@)) == ReadOutcome::Refused(m@),
        },
{
    match readArgs(args) {
        ArgsRead::Done(b) => Ok(b),
        ArgsRead::Refused(m) => Err(m),
        ArgsRead::TooLong => vstd::pervasive::unreached(),
    }
}

/// Reads the configuration from the command line; gives nothing back where a time that is given
/// there does not fit.
pub fn readIfFits(args: &Vec<String>) -> (r: Option<Result<ConfigBuild, String>>)
    ensures
        match r {
            Some(Ok(b)) => read_outcome(views(args@)) == ReadOutcome::Done(b@),
            Some(Err(m)) => read_outcome(views(args@)) == ReadOutcome::Refused(m@),
            None => read_outcome(views(args@)) is TooLong,
        },
{
    match readArgs(args) {
        ArgsRead::TooLong => None,
        _ => Some(read(args)),
    }
}

/// Arguments are read one option after the other: what comes behind others is read on top of what
/// those came to.
pub proof fn law_read_on(first: Seq<Seq<char>>, second: Seq<Seq<char>>, b: ConfigBuildView)
    requires
        read_outcome(first) == ReadOutcome::Done(b),
    ensures
        read_outcome(first + second) == read_from(second, 0, b),
{
    lemma_read_on(first, second, 0, blank());
}

proof fn lemma_read_on(first: Seq<Seq<char>>, second: Seq<Seq<char>>, i: int, b: ConfigBuildView)
    requires
        0 <= i,
        read_from(first, i, b) is Done,
        i <= first.len(),
    ensures
        read_from(first + second, i, b) == read_from(second, 0, read_from(first, i, b)->Done_0),
    decreases first.len() - i,
{
    let all = first + second;
    if i < first.len() {
        assert(all[i] == first[i]);
        match outcome_at(first, i, b) {
            OptionOutcome::Taken(next, used) => {
                assert(all[i + 1] == first[i + 1]);
                assert(used == 2 || used == 3);
                if used == 3 {
                    assert(i + 2 < first.len());
                    assert(all[i + 2] == first[i + 2]);
                }
                assert(outcome_at(all, i, b) == outcome_at(first, i, b));
                lemma_read_on(first, second, i + used, next);
            },
            _ => {},
        }
    } else {
        lemma_read_shift(first, second, 0, b);
    }
}

proof fn lemma_read_shift(first: Seq<Seq<char>>, second: Seq<Seq<char>>, i: int, b: ConfigBuildView)
    requires
        0 <= i,
    ensures
        read_from(first + second, first.len() + i, b) == read_from(second, i, b),
    decreases second.len() - i,
{
    let all = first + second;
    if i < second.len() {
        assert(all[first.len() + i] == second[i]);
        assert(arg_at(all, first.len() + i + 1) == arg_at(second, i + 1));
        assert(arg_at(all, first.len() + i + 2) == arg_at(second, i + 2));
        match outcome_at(second, i, b) {
            OptionOutcome::Taken(next, used) => {
                assert(first.len() + i + used == first.len() + (i + used));
                lemma_read_shift(first, second, i + used, next);
            },
            _ => {},
        }
    }
}

/// What every configuration in the making that was read from the command line keeps: limits are
/// above zero, and the two folders are given together, beside each other.
pub open spec fn read_invariant(b: ConfigBuildView) -> bool {
    &&& b.maxCpuCores matches Some(n) ==> 0 < n <= u16::MAX
    &&& b.maxMemory matches Some(n) ==> 0 < n <= u64::MAX
    &&& match (b.workPath, b.binCachePath) {
        (None, None) => true,
        (Some(w), Some(c)) => exists|dir: Seq<char>|
            w == #[trigger] seq![dir, "sheepit"@] && c == seq![dir, "sheepit_binary_cache"@],
        _ => false,
    }
}

/// A configuration that was read has limits above zero, and both of its folders or neither.
pub proof fn law_read_invariant(args: Seq<Seq<char>>, b: ConfigBuildView)
    requires
        read_outcome(args) == ReadOutcome::Done(b),
    ensures
        read_invariant(b),
{
    lemma_read_invariant(args, 0, blank());
}

proof fn lemma_read_invariant(args: Seq<Seq<char>>, i: int, b: ConfigBuildView)
    requires
        read_invariant(b),
        read_from(args, i, b) is Done,
        0 <= i,
    ensures
        read_invariant(read_from(args, i, b)->Done_0),
    decreases args.len() - i,
{
    if i < args.len() {
        match outcome_at(args, i, b) {
            OptionOutcome::Taken(next, used) => {
                if lowered(args[i]) == "-cache-dir"@ {
                    assert(next.workPath == Some(seq![args[i + 1], "sheepit"@]) || next.workPath
                        == b.workPath);
                }
                assert(read_invariant(next));
                lemma_read_invariant(args, i + used, next);
            },
            _ => {},
        }
    }
}

/// Of an option that is given twice, the later value counts: it comes to the same as if the
/// earlier one had not been given.
pub proof fn law_later_value_counts(
    part: Seq<char>,
    earlier: (Seq<char>, Option<Seq<char>>),
    later: (Seq<char>, Option<Seq<char>>),
    b: ConfigBuildView,
)
    requires
        option_outcome(part, earlier.0, earlier.1, b) is Taken,
    ensures
        option_outcome(
            part,
            later.0,
            later.1,
            option_outcome(part, earlier.0, earlier.1, b)->Taken_0,
        ) == option_outcome(part, later.0, later.1, b),
{
}

/// Different options can be given in either order.
pub proof fn law_options_commute(
    one: (Seq<char>, Seq<char>, Option<Seq<char>>),
    other: (Seq<char>, Seq<char>, Option<Seq<char>>),
    b: ConfigBuildView,
)
    requires
        is_option(one.0),
        is_option(other.0),
        one.0 != other.0,
        option_outcome(one.0, one.1, one.2, b) is Taken,
        option_outcome(other.0, other.1, other.2, b) is Taken,
    ensures
        option_outcome(
            one.0,
            one.1,
            one.2,
            option_outcome(other.0, other.1, other.2, b)->Taken_0,
        )->Taken_0 == option_outcome(
            other.0,
            other.1,
            other.2,
            option_outcome(one.0, one.1, one.2, b)->Taken_0,
        )->Taken_0,
{
}

/// A configuration that was read, and whose folders are there, can be made if and only if the
/// login, the password and the folder were given.
pub proof fn law_read_can_be_made(
    args: Seq<Seq<char>>,
    b: ConfigBuildView,
    workPath: Seq<char>,
    binCachePath: Seq<char>,
)
    requires
        read_outcome(args) == ReadOutcome::Done(b),
    ensures
        make_refusal(b, Ok(workPath), Ok(binCachePath)) is None <==> b.login is Some
            && b.password is Some && b.workPath is Some,
{
    law_read_invariant(args, b);
}

// What each option is for

/// The options are different words.
proof fn lemma_options_differ()
    ensures
        "-login"@.len() == 6,
        "-password"@.len() == 9,
        "-cache-dir"@.len() == 10,
        "-headless"@.len() == 9,
        "-hostname"@.len() == 9,
        "-computemethod"@.len() == 14,
        "-cores"@.len() == 6,
        "-memory"@.len() == 7,
        "-max-render-time"@.len() == 16,
        "-login"@[1] == 'l',
        "-cores"@[1] == 'c',
        "-password"@[1] == 'p',
        "-headless"@[2] == 'e',
        "-hostname"@[2] == 'o',
        "-headless"@[1] == 'h',
        "-hostname"@[1] == 'h',
{
    reveal_strlit("-login");
    reveal_strlit("-password");
    reveal_strlit("-cache-dir");
    reveal_strlit("-headless");
    reveal_strlit("-hostname");
    reveal_strlit("-computemethod");
    reveal_strlit("-cores");
    reveal_strlit("-memory");
    reveal_strlit("-max-render-time");
}

/// Reading undoes writing: the truth value whose word is given, in any letter case, is the one that
/// is read, and reading goes on behind it.
pub proof fn law_headless_read_back(args: Seq<Seq<char>>, i: int, b: ConfigBuildView, flag: bool)
    requires
        0 <= i,
        i + 1 < args.len(),
        lowered(args[i]) == "-headless"@,
        lowered(args[i + 1]) == bool_text(flag),
    ensures
        read_from(args, i, b) == read_from(
            args,
            i + 2,
            ConfigBuildView { headless: Some(flag), ..b },
        ),
{
    lemma_options_differ();
    law_bool_texts();
}

/// A word that is none for a truth value is refused.
pub proof fn law_headless_refused(args: Seq<Seq<char>>, i: int, b: ConfigBuildView)
    requires
        0 <= i,
        i + 1 < args.len(),
        lowered(args[i]) == "-headless"@,
        lowered(args[i + 1]) != bool_text(true),
        lowered(args[i + 1]) != bool_text(false),
    ensures
        read_from(args, i, b) is Refused,
{
    lemma_options_differ();
}

/// The user's name, the password and the folder are taken as they are given; the folder is parted
/// in two that lie beside each other.
pub proof fn law_texts_read(args: Seq<Seq<char>>, i: int, b: ConfigBuildView)
    requires
        0 <= i,
        i + 1 < args.len(),
    ensures
        lowered(args[i]) == "-login"@ ==> read_from(args, i, b) == read_from(
            args,
            i + 2,
            ConfigBuildView { login: Some(args[i + 1]), ..b },
        ),
        lowered(args[i]) == "-password"@ ==> read_from(args, i, b) == read_from(
            args,
            i + 2,
            ConfigBuildView { password: Some(args[i + 1]), ..b },
        ),
        lowered(args[i]) == "-cache-dir"@ ==> read_from(args, i, b) == read_from(
            args,
            i + 2,
            ConfigBuildView {
                workPath: Some(seq![args[i + 1], "sheepit"@]),
                binCachePath: Some(seq![args[i + 1], "sheepit_binary_cache"@]),
                ..b
            },
        ),
{
    lemma_options_differ();
}

/// A server is taken as its address is written out in full, and refused where the address is none.
pub proof fn law_hostname_read(args: Seq<Seq<char>>, i: int, b: ConfigBuildView)
    requires
        0 <= i,
        i + 1 < args.len(),
        lowered(args[i]) == "-hostname"@,
    ensures
        parsed_url(args[i + 1]) matches Ok(url) ==> read_from(args, i, b) == read_from(
            args,
            i + 2,
            ConfigBuildView { hostname: Some(url), ..b },
        ),
        parsed_url(args[i + 1]) is Err ==> read_from(args, i, b) is Refused,
{
    lemma_options_differ();
}

/// The name of what is to render, in any letter case, is read back as that.
pub proof fn law_method_read_back(
    args: Seq<Seq<char>>,
    i: int,
    b: ConfigBuildView,
    method: ComputeMethod,
)
    requires
        0 <= i,
        i + 1 < args.len(),
        lowered(args[i]) == "-computemethod"@,
        lowered(args[i + 1]) == lowered(method.spec_name()),
    ensures
        read_from(args, i, b) == read_from(
            args,
            i + 2,
            ConfigBuildView { computeMethod: Some(method), ..b },
        ),
{
    lemma_options_differ();
    lemma_method_names();
}

proof fn lemma_method_names()
    ensures
        lowered("CPU"@) == "cpu"@,
        lowered("GPU"@) == "gpu"@,
        lowered("CPU_GPU"@) == "cpu_gpu"@,
        "cpu"@ != "gpu"@,
        "cpu_gpu"@.len() == 7,
        "cpu"@.len() == 3,
        "gpu"@.len() == 3,
{
    reveal_strlit("CPU");
    reveal_strlit("GPU");
    reveal_strlit("CPU_GPU");
    reveal_strlit("cpu");
    reveal_strlit("gpu");
    reveal_strlit("cpu_gpu");
    assert("cpu"@[0] != "gpu"@[0]);
    assert(vstd::utf8::is_ascii_chars("CPU"@));
    assert(vstd::utf8::is_ascii_chars("GPU"@));
    assert(vstd::utf8::is_ascii_chars("CPU_GPU"@));
    assert(lowered("CPU"@) =~= "cpu"@);
    assert(lowered("GPU"@) =~= "gpu"@);
    assert(lowered("CPU_GPU"@) =~= "cpu_gpu"@);
}

/// A number of cores that was written is read back, unless it is zero or too large; so is an amount
/// of memory.
pub proof fn law_limits_read_back(args: Seq<Seq<char>>, i: int, b: ConfigBuildView, n: nat)
    requires
        0 <= i,
        i + 1 < args.len(),
        args[i + 1] == digits(n),
    ensures
        lowered(args[i]) == "-cores"@ && 1 <= n <= 65535 ==> read_from(args, i, b) == read_from(
            args,
            i + 2,
            ConfigBuildView { maxCpuCores: Some(n), ..b },
        ),
        lowered(args[i]) == "-memory"@ && 1 <= n <= u64::MAX ==> read_from(args, i, b)
            == read_from(args, i + 2, ConfigBuildView { maxMemory: Some(n), ..b }),
        lowered(args[i]) == "-cores"@ && n == 0 ==> read_from(args, i, b) == ReadOutcome::Refused(
            "-cores must be greater than 0"@,
        ),
        lowered(args[i]) == "-memory"@ && n == 0 ==> read_from(args, i, b)
            == ReadOutcome::Refused("-memory must be greater than 0"@),
        lowered(args[i]) == "-cores"@ && n > 65535 ==> read_from(args, i, b) is Refused,
        lowered(args[i]) == "-memory"@ && n > u64::MAX ==> read_from(args, i, b) is Refused,
{
    lemma_options_differ();
    law_read_back(n, n);
    if n <= u16::MAX {
        law_read_back(n, u16::MAX as nat);
    }
    if n <= u64::MAX {
        law_read_back(n, u64::MAX as nat);
    }
}

/// What is read as no number is refused as a limit.
pub proof fn law_limits_refused(args: Seq<Seq<char>>, i: int, b: ConfigBuildView)
    requires
        0 <= i,
        i + 1 < args.len(),
        read_nat(args[i + 1], u64::MAX as nat) is None,
        lowered(args[i]) == "-cores"@ || lowered(args[i]) == "-memory"@ || lowered(args[i])
            == "-max-render-time"@,
    ensures
        read_from(args, i, b) is Refused,
{
    lemma_options_differ();
}

/// A time that was written with its unit is read back, in nanoseconds: a second has a thousand
/// million, a minute sixty times as many, and an hour sixty times as many again. It takes up two
/// arguments. It is too long exactly where its seconds cannot be counted.
pub proof fn law_render_time_read_back(args: Seq<Seq<char>>, i: int, b: ConfigBuildView, n: nat)
    requires
        0 <= i,
        i + 2 < args.len(),
        lowered(args[i]) == "-max-render-time"@,
        args[i + 1] == digits(n),
        n <= u64::MAX,
    ensures
        args[i + 2] == "s"@ || args[i + 2] == "sec"@ ==> read_from(args, i, b) == read_from(
            args,
            i + 3,
            ConfigBuildView { maxRenderTime: Some(n * 1000000000), ..b },
        ),
        (args[i + 2] == "m"@ || args[i + 2] == "min"@) && n * 60 <= u64::MAX ==> read_from(
            args,
            i,
            b,
        ) == read_from(
            args,
            i + 3,
            ConfigBuildView { maxRenderTime: Some(n * 60000000000), ..b },
        ),
        (args[i + 2] == "h"@ || args[i + 2] == "hours"@) && n * 3600 <= u64::MAX ==> read_from(
            args,
            i,
            b,
        ) == read_from(
            args,
            i + 3,
            ConfigBuildView { maxRenderTime: Some(n * 3600000000000), ..b },
        ),
        (args[i + 2] == "m"@ || args[i + 2] == "min"@) && n * 60 > u64::MAX ==> read_from(
            args,
            i,
            b,
        ) is TooLong,
        (args[i + 2] == "h"@ || args[i + 2] == "hours"@) && n * 3600 > u64::MAX ==> read_from(
            args,
            i,
            b,
        ) is TooLong,
{
    lemma_options_differ();
    lemma_units_differ();
    law_read_back(n, u64::MAX as nat);
    assert(n * 1 * 1000000000 == n * 1000000000);
    assert(n * 60 * 1000000000 == n * 60000000000);
    assert(n * 3600 * 1000000000 == n * 3600000000000);
}

proof fn lemma_units_differ()
    ensures
        "s"@.len() == 1,
        "m"@.len() == 1,
        "h"@.len() == 1,
        "sec"@.len() == 3,
        "min"@.len() == 3,
        "hours"@.len() == 5,
        "s"@[0] == 's',
        "m"@[0] == 'm',
        "h"@[0] == 'h',
        "sec"@[0] == 's',
        "min"@[0] == 'm',
{
    reveal_strlit("s");
    reveal_strlit("m");
    reveal_strlit("h");
    reveal_strlit("sec");
    reveal_strlit("min");
    reveal_strlit("hours");
}

/// A time without a unit is refused, and so is one in any other unit.
pub proof fn law_render_time_refused(args: Seq<Seq<char>>, i: int, b: ConfigBuildView)
    requires
        0 <= i < args.len(),
        lowered(args[i]) == "-max-render-time"@,
        i + 2 < args.len() ==> {
            let unit = args[i + 2];
            unit != "s"@ && unit != "sec"@ && unit != "m"@ && unit != "min"@ && unit != "h"@
                && unit != "hours"@
        },
    ensures
        read_from(args, i, b) is Refused,
{
    lemma_options_differ();
}

/// A word that is no option is refused, and so is an option without a value.
pub proof fn law_options_refused(args: Seq<Seq<char>>, i: int, b: ConfigBuildView)
    requires
        0 <= i < args.len(),
        ({
            let part = lowered(args[i]);
            ||| i + 1 == args.len()
            ||| part != "-login"@ && part != "-password"@ && part != "-cache-dir"@ && part
                != "-headless"@ && part != "-hostname"@ && part != "-computemethod"@ && part
                != "-cores"@ && part != "-memory"@ && part != "-max-render-time"@
        }),
    ensures
        read_from(args, i, b) is Refused,
{
    lemma_options_differ();
}

/// Without arguments nothing is set.
pub proof fn law_nothing_read()
    ensures
        ({
            let none = Seq::<Seq<char>>::empty();
            &&& read_outcome(none) is Done
            &&& read_outcome(none)->Done_0.login is None
            &&& read_outcome(none)->Done_0.password is None
            &&& read_outcome(none)->Done_0.hostname is None
            &&& read_outcome(none)->Done_0.workPath is None
            &&& read_outcome(none)->Done_0.binCachePath is None
            &&& read_outcome(none)->Done_0.headless is None
            &&& read_outcome(none)->Done_0.computeMethod is None
            &&& read_outcome(none)->Done_0.maxCpuCores is None
            &&& read_outcome(none)->Done_0.maxMemory is None
            &&& read_outcome(none)->Done_0.maxRenderTime is None
        }),
{
}

/// What was set is what the client runs with: nothing that was given is changed, and what was not
/// given is the server of old, a client with a screen, and the processor; there are no limits then.
pub proof fn law_config_as_given(
    build: ConfigBuild,
    workPath: Result<String, String>,
    binCachePath: Result<String, String>,
    conf: ClientConfig,
)
    requires
        config_made(build, workPath, binCachePath, Ok(conf)),
    ensures
        build.workPath is Some,
        build.binCachePath is Some,
        build.login matches Some(login) && login@ == conf.login@,
        build.password matches Some(password) && password@ == conf.password@,
        build.hostname matches Some(hostname) ==> hostname@ == conf.hostname@,
        build.hostname is None ==> conf.hostname@ == BASE_URL@,
        workPath matches Ok(path) && path@ == conf.workPath@,
        binCachePath matches Ok(path) && path@ == conf.binCachePath@,
        build.headless matches Some(headless) ==> headless == conf.headless,
        build.headless is None ==> !conf.headless,
        build.computeMethod matches Some(method) ==> method == conf.computeMethod,
        build.computeMethod is None ==> conf.computeMethod is Cpu,
        build.maxCpuCores == conf.maxCpuCores,
        build.maxMemory == conf.maxMemory,
        build.maxRenderTime == conf.maxRenderTime,
{
}

/// What is missing is named.
pub proof fn law_config_refused(
    b: ConfigBuildView,
    workPath: Result<Seq<char>, Seq<char>>,
    binCachePath: Result<Seq<char>, Seq<char>>,
)
    ensures
        make_refusal(b, workPath, binCachePath) is None <==> b.login is Some && b.password is Some
            && b.workPath is Some && workPath is Ok && b.binCachePath is Some && binCachePath is Ok,
        b.login is None ==> make_refusal(b, workPath, binCachePath) == Some(
            "The -login <username> is required"@,
        ),
        b.login is Some && b.password is None ==> make_refusal(b, workPath, binCachePath) == Some(
            "The -password <password> is required"@,
        ),
        b.login is Some && b.password is Some && b.workPath is None ==> make_refusal(
            b,
            workPath,
            binCachePath,
        ) == Some("The -cache-dir <folder path> is required"@),
{
}

/// All that a job needs lies in the working directory, but for the archives of renderers; what is
/// kept for one job or renderer is kept apart from that of another, and the program and the scene lie
/// in their folders.
pub proof fn law_places(conf: ClientConfig, a: JobInfo, b: JobInfo, one: Chunk, other: Chunk)
    ensures
        renderer_path(conf, a).len() == 2 && renderer_path(conf, a)[0] == conf.workPath@,
        scene_path(conf, a).len() == 2 && scene_path(conf, a)[0] == conf.workPath@,
        chunk_path(conf, one).len() == 2 && chunk_path(conf, one)[0] == conf.workPath@,
        tmp_dir(conf).len() == 2 && tmp_dir(conf)[0] == conf.workPath@,
        renderer_archive_path(conf, a).len() == 2 && renderer_archive_path(conf, a)[0]
            == conf.binCachePath@,
        renderer_path(conf, a)[1] == a.rendererInfo.md5@,
        renderer_archive_path(conf, a)[1] == a.rendererInfo.md5@ + ".zip"@,
        scene_path(conf, a)[1] == a.id@,
        chunk_path(conf, one)[1] == one.id@ + ".wool"@,
        renderer_path(conf, a) == renderer_path(conf, b) <==> a.rendererInfo.md5@
            == b.rendererInfo.md5@,
        renderer_archive_path(conf, a) == renderer_archive_path(conf, b) <==> a.rendererInfo.md5@
            == b.rendererInfo.md5@,
        scene_path(conf, a) == scene_path(conf, b) <==> a.id@ == b.id@,
        chunk_path(conf, one) == chunk_path(conf, other) <==> one.id@ == other.id@,
{
    lemma_seconds_differ(conf.workPath@, a.rendererInfo.md5@, b.rendererInfo.md5@);
    lemma_seconds_differ(
        conf.binCachePath@,
        a.rendererInfo.md5@ + ".zip"@,
        b.rendererInfo.md5@ + ".zip"@,
    );
    lemma_seconds_differ(conf.workPath@, a.id@, b.id@);
    lemma_seconds_differ(conf.workPath@, one.id@ + ".wool"@, other.id@ + ".wool"@);
    lemma_same_front(a.rendererInfo.md5@, b.rendererInfo.md5@, ".zip"@);
    lemma_same_front(one.id@, other.id@, ".wool"@);
}

proof fn lemma_seconds_differ(first: Seq<char>, a: Seq<char>, b: Seq<char>)
    ensures
        seq![first, a] == seq![first, b] <==> a == b,
{
    assert(seq![first, a][1] == a);
    assert(seq![first, b][1] == b);
}

proof fn lemma_same_front(a: Seq<char>, b: Seq<char>, end: Seq<char>)
    ensures
        a + end == b + end <==> a == b,
{
    if a + end == b + end {
        assert((a + end).len() == a.len() + end.len());
        assert((b + end).len() == b.len() + end.len());
        assert(a == (a + end).take(a.len() as int));
        assert(b == (b + end).take(b.len() as int));
    }
}

/// The parts of scenes' archives outlast a cleaning of the working directory, under the names that
/// they are kept by.
pub proof fn law_chunks_stay(conf: ClientConfig, chunk: Chunk)
    requires
        chunk.id@.len() > 0,
    ensures
        crate::files::clean_action(false, chunk_path(conf, chunk)[1]) is Keep,
{
    crate::files::law_chunks_outlast_cleaning(chunk.id@);
}

} // verus!
