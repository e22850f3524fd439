//! A connection to the server: what is sent over it.

use vstd::prelude::*;

use crate::conf::{ClientConfig, ComputeMethod, chunk_path, renderer_archive_path};
use crate::hw_info::HwInfo;
use crate::job::{Chunk, ClientErrorType, JobInfo, error_number};
use crate::net::{RequestEndPoint, TransferStats, rate};
use crate::number::{decimal, digits, law_read_back, read_nat};
use crate::paths::PathPieces;
use crate::server_conf::ServerConfig;
use crate::span::SECOND;
use crate::text::{bool_text, boolText, pair_views, pushPair};
use crate::utils::Platform;

verus! {

/// A connection to the server, and what is known at both of its ends.
#[derive(Debug)]
pub struct ServerConnection {
    pub serverConf: ServerConfig,
    pub clientConf: ClientConfig,
    pub hwInfo: HwInfo,
    pub platform: Platform,
}

/// A request to the server: its address, and the parameters that go with it.
#[derive(Debug)]
pub struct Request {
    pub url: String,
    pub query: Vec<(String, String)>,
}

/// A file to be had from the server.
#[derive(Debug)]
pub struct FileRequest {
    pub request: Request,
    pub path: PathPieces,
    pub md5: String,
}

/// A report of an error, as a file that is sent to the server.
#[derive(Debug)]
pub struct ErrorReport {
    pub request: Request,
    pub partName: String,
    pub fileName: String,
    pub mime: String,
    pub body: Vec<u8>,
}

/// Whether a request goes to an endpoint with the given parameters.
pub open spec fn is_request(
    request: Request,
    conf: ClientConfig,
    endpoint: RequestEndPoint,
    query: Seq<(Seq<char>, Seq<char>)>,
) -> bool {
    &&& request.url@ == conf.hostname@ + endpoint.path@
    &&& pair_views(request.query@) == query
}

/// The cores that the client may use: all, or as many as the configuration says, but two at the
/// least where there is more than one.
pub open spec fn effective_cores(cores: u16, limit: Option<u16>) -> u16 {
    match limit {
        None => cores,
        Some(limit) => {
            let least = if cores == 1 {
                1u16
            } else {
                2u16
            };
            let most = if limit < cores {
                limit
            } else {
                cores
            };
            if most < least {
                least
            } else {
                most
            }
        },
    }
}

/// The memory that the client may use, in kibibytes: what is free but for a gibibyte, and no more
/// than the configuration says.
pub open spec fn memory_limit(free: u64, limit: Option<u64>) -> u64 {
    let spare = if free > 1048576 {
        (free - 1048576) as u64
    } else {
        0
    };
    match limit {
        Some(limit) => if limit < spare {
            limit
        } else {
            spare
        },
        None => spare,
    }
}

/// The number that the server knows a compute method by.
pub open spec fn method_number(method: ComputeMethod) -> Seq<char> {
    match method {
        ComputeMethod::CpuGpu => "0"@,
        ComputeMethod::Cpu => "1"@,
        ComputeMethod::Gpu => "2"@,
    }
}

/// What goes with a request for a job.
pub open spec fn job_query(server: ServerConnection, free: u64, stats: TransferStats) -> Seq<
    (Seq<char>, Seq<char>),
> {
    seq![
        ("computemethod"@, method_number(server.clientConf.computeMethod)),
        ("network_dl"@, digits(rate(stats) as nat)),
        ("network_up"@, "0"@),
        (
            "cpu_cores"@,
            digits(effective_cores(server.hwInfo.cores, server.clientConf.maxCpuCores) as nat),
        ),
        ("ram_max"@, digits(memory_limit(free, server.clientConf.maxMemory) as nat)),
        (
            "rendertime_max"@,
            digits(
                match server.clientConf.maxRenderTime {
                    Some(time) => time@ / SECOND as nat,
                    None => 0,
                },
            ),
        ),
    ]
}

/// Whether a request is one for a job.
pub open spec fn is_job_request(
    server: ServerConnection,
    free: u64,
    stats: TransferStats,
    request: Request,
) -> bool {
    is_request(
        request,
        server.clientConf,
        server.serverConf.requestJob,
        job_query(server, free, stats),
    )
}

/// Whether a request is one for the archive with a job's renderer.
pub open spec fn is_binary_request(
    server: ServerConnection,
    job: JobInfo,
    file: FileRequest,
) -> bool {
    &&& is_request(
        file.request,
        server.clientConf,
        server.serverConf.downloadBinary,
        seq![("job"@, job.id@)],
    )
    &&& file.path@ == seq![server.clientConf.binCachePath@, job.rendererInfo.md5@ + ".zip"@]
    &&& file.md5 == job.rendererInfo.md5
}

/// Whether a request is one for a part of a scene's archive.
pub open spec fn is_chunk_request(
    server: ServerConnection,
    chunk: Chunk,
    file: FileRequest,
) -> bool {
    &&& is_request(
        file.request,
        server.clientConf,
        server.serverConf.downloadChunk,
        seq![("chunk"@, chunk.id@)],
    )
    &&& file.path@ == seq![server.clientConf.workPath@, chunk.id@ + ".wool"@]
    &&& file.md5 == chunk.md5
}

/// Whether a request is one that keeps the session from running out.
pub open spec fn is_keep_alive_request(
    server: ServerConnection,
    paused: bool,
    request: Request,
) -> bool {
    is_request(
        request,
        server.clientConf,
        server.serverConf.keepMeAlive,
        seq![("paused"@, bool_text(paused))],
    )
}

/// Whether a request is one that ends the session.
pub open spec fn is_logout_request(server: ServerConnection, request: Request) -> bool {
    is_request(request, server.clientConf, server.serverConf.logout, Seq::empty())
}

/// Whether a report is one of an error, with what was logged.
pub open spec fn is_error_report(
    server: ServerConnection,
    status: ClientErrorType,
    log: Seq<char>,
    report: ErrorReport,
) -> bool {
    &&& is_request(
        report.request,
        server.clientConf,
        server.serverConf.error,
        seq![("type"@, digits(error_number(status) as nat))],
    )
    &&& report.partName@ == "err.txt"@
    &&& report.fileName@ == "/tmp/err.txt"@
    &&& report.mime@ == "text/plain"@
    &&& report.body@ == vstd::utf8::encode_utf8(log)
}

fn methodNumber(method: ComputeMethod) -> (r: String)
    ensures
        r@ == method_number(method),
{
    match method {
        ComputeMethod::CpuGpu => "0".to_owned(),
        ComputeMethod::Cpu => "1".to_owned(),
        ComputeMethod::Gpu => "2".to_owned(),
    }
}

/// The memory that the client may use when `free` kibibytes are free.
pub fn memoryLimit(free: u64, limit: Option<u64>) -> (r: u64)
    ensures
        r == memory_limit(free, limit),
{
    let spare: u64 = if free > 1048576 {
        free - 1048576
    } else {
        0
    };
    match limit {
        Some(limit) => if limit < spare {
            limit
        } else {
            spare
        },
        None => spare,
    }
}

impl ServerConnection {
    /// The cores that the client may use.
    pub fn effectiveCores(&self) -> (r: u16)
        ensures
            r == effective_cores(self.hwInfo.cores, self.clientConf.maxCpuCores),
    {
        let maxCores = self.hwInfo.cores;
        match self.clientConf.maxCpuCores {
            Some(limit) => {
                let least: u16 = if maxCores == 1 {
                    1
                } else {
                    2
                };
                let most: u16 = if limit < maxCores {
                    limit
                } else {
                    maxCores
                };
                if most < least {
                    least
                } else {
                    most
                }
            },
            None => maxCores,
        }
    }

    fn request(&self, endpoint: &RequestEndPoint, query: Vec<(String, String)>) -> (r: Request)
        ensures
            is_request(r, self.clientConf, *endpoint, pair_views(query@)),
    {
        Request { url: endpoint.makeUrl(self.clientConf.hostname.as_str()), query }
    }

    /// The request for a job, when `freeMemory` kibibytes are free and so much was downloaded.
    pub fn requestJob(&self, freeMemory: u64, downloadStats: TransferStats) -> (r: Request)
        ensures
            is_job_request(*self, freeMemory, downloadStats, r),
    {
        let mut query: Vec<(String, String)> = Vec::new();
        pushPair(
            &mut query,
            "computemethod",
            methodNumber(self.clientConf.computeMethod).as_str(),
        );
        pushPair(&mut query, "network_dl", decimal(downloadStats.toRate()).as_str());
        pushPair(&mut query, "network_up", "0");
        pushPair(&mut query, "cpu_cores", decimal(self.effectiveCores() as u64).as_str());
        pushPair(
            &mut query,
            "ram_max",
            decimal(memoryLimit(freeMemory, self.clientConf.maxMemory)).as_str(),
        );
        let maxTime: u64 = match &self.clientConf.maxRenderTime {
            Some(time) => time.asSecs(),
            None => 0,
        };
        pushPair(&mut query, "rendertime_max", decimal(maxTime).as_str());
        assert(pair_views(query@) == job_query(*self, freeMemory, downloadStats));
        self.request(&self.serverConf.requestJob, query)
    }

    /// The request for the archive with a job's renderer.
    pub fn downloadBinary(&self, job: &JobInfo) -> (r: FileRequest)
        ensures
            is_binary_request(*self, *job, r),
    {
        let mut query: Vec<(String, String)> = Vec::new();
        pushPair(&mut query, "job", job.id.as_str());
        assert(pair_views(query@) == seq![("job"@, job.id@)]);
        FileRequest {
            request: self.request(&self.serverConf.downloadBinary, query),
            path: self.clientConf.rendererArchivePath(job),
            md5: job.rendererInfo.md5.clone(),
        }
    }

    /// The request for a part of a scene's archive.
    pub fn downloadChunk(&self, chunk: &Chunk) -> (r: FileRequest)
        ensures
            is_chunk_request(*self, *chunk, r),
    {
        let mut query: Vec<(String, String)> = Vec::new();
        pushPair(&mut query, "chunk", chunk.id.as_str());
        assert(pair_views(query@) == seq![("chunk"@, chunk.id@)]);
        FileRequest {
            request: self.request(&self.serverConf.downloadChunk, query),
            path: self.clientConf.chunkPath(chunk),
            md5: chunk.md5.clone(),
        }
    }

    /// The request that keeps the session from running out.
    pub fn keepMeAlive(&self, paused: bool) -> (r: Request)
        ensures
            is_keep_alive_request(*self, paused, r),
    {
        let mut query: Vec<(String, String)> = Vec::new();
        pushPair(&mut query, "paused", boolText(paused).as_str());
        assert(pair_views(query@) == seq![("paused"@, bool_text(paused))]);
        self.request(&self.serverConf.keepMeAlive, query)
    }

    /// The request that ends the session.
    pub fn logout(&self) -> (r: Request)
        ensures
            is_logout_request(*self, r),
    {
        let query: Vec<(String, String)> = Vec::new();
        assert(pair_views(query@) == Seq::<(Seq<char>, Seq<char>)>::empty());
        self.request(&self.serverConf.logout, query)
    }

    /// The report of an error, with what was logged.
    pub fn error(&self, status: ClientErrorType, log: &str) -> (r: ErrorReport)
        ensures
            is_error_report(*self, status, log@, r),
    {
        let mut query: Vec<(String, String)> = Vec::new();
        pushPair(&mut query, "type", decimal(status.number() as u64).as_str());
        assert(pair_views(query@) == seq![("type"@, digits(error_number(status) as nat))]);
        ErrorReport {
            request: self.request(&self.serverConf.error, query),
            partName: "err.txt".to_owned(),
            fileName: "/tmp/err.txt".to_owned(),
            mime: "text/plain".to_owned(),
            body: log.as_bytes_vec(),
        }
    }
}

/// On a machine with cores, the client uses at least one of them, at least two where there are
/// two, and never more than there are; a higher limit never means fewer cores.
pub proof fn law_effective_cores(cores: u16, limit: Option<u16>, higher: u16)
    requires
        cores > 0,
    ensures
        limit is Some ==> effective_cores(cores, limit) >= 1,
        limit is Some && cores >= 2 ==> effective_cores(cores, limit) >= 2,
        effective_cores(cores, limit) <= cores,
        limit is Some && limit->0 <= higher ==> effective_cores(cores, limit) <= effective_cores(
            cores,
            Some(higher),
        ),
        limit is Some && 2 <= limit->0 <= cores ==> effective_cores(cores, limit) == limit->0,
        limit is None || limit->0 >= cores ==> effective_cores(cores, limit) == cores,
        limit is Some && limit->0 < 2 <= cores ==> effective_cores(cores, limit) == 2,
{
}

/// Whether the client may take so much memory: no more than the configuration says, and a gibibyte
/// of what is free is left.
pub open spec fn may_take(memory: u64, free: u64, limit: Option<u64>) -> bool {
    &&& limit matches Some(n) ==> memory <= n
    &&& memory > 0 ==> memory + 1048576 <= free
}

/// The client never takes more memory than the configuration says, nor more than is free, and
/// leaves a gibibyte; and it takes the most that it may.
pub proof fn law_memory_limit(free: u64, limit: Option<u64>)
    ensures
        limit matches Some(n) ==> memory_limit(free, limit) <= n,
        memory_limit(free, limit) <= free,
        free >= 1048576 ==> memory_limit(free, limit) + 1048576 <= free,
        may_take(memory_limit(free, limit), free, limit),
        forall|memory: u64| #[trigger]
            may_take(memory, free, limit) ==> memory <= memory_limit(free, limit),
        free >= 1048576 && (limit is None || limit->0 + 1048576 >= free) ==> memory_limit(
            free,
            limit,
        ) + 1048576 == free,
        limit matches Some(n) && n + 1048576 <= free ==> memory_limit(free, limit) == limit->0,
{
}

/// A higher limit never means less memory, nor does more that is free.
pub proof fn law_memory_grows(free: u64, more: u64, limit: u64, higher: u64)
    requires
        free <= more,
        limit <= higher,
    ensures
        memory_limit(free, Some(limit)) <= memory_limit(free, Some(higher)),
        memory_limit(free, Some(limit)) <= memory_limit(free, None),
        memory_limit(free, Some(limit)) <= memory_limit(more, Some(limit)),
        memory_limit(free, None) <= memory_limit(more, None),
{
}

// What the requests are for

/// A request for a job goes to the address that the server gave for it. It names what is to render,
/// and in numbers that are read back: the cores that may be used, the memory, how fast downloads
/// were, and the whole seconds that a frame may take, zero where any time will do.
pub proof fn law_job_request(
    server: ServerConnection,
    free: u64,
    stats: TransferStats,
    request: Request,
)
    requires
        is_job_request(server, free, stats, request),
    ensures
        ({
            let query = pair_views(request.query@);
            let cores = effective_cores(server.hwInfo.cores, server.clientConf.maxCpuCores);
            let memory = memory_limit(free, server.clientConf.maxMemory);
            let secs = match server.clientConf.maxRenderTime {
                Some(time) => time@ / 1000000000,
                None => 0,
            };
            &&& request.url@ == server.clientConf.hostname@ + server.serverConf.requestJob.path@
            &&& query.len() == 6
            &&& query.contains(
                ("computemethod"@, method_number(server.clientConf.computeMethod)),
            )
            &&& query.contains(("cpu_cores"@, digits(cores as nat)))
            &&& query.contains(("ram_max"@, digits(memory as nat)))
            &&& query.contains(("network_dl"@, digits(rate(stats) as nat)))
            &&& query.contains(("network_up"@, digits(0)))
            &&& query.contains(("rendertime_max"@, digits(secs)))
        }),
{
    let query = job_query(server, free, stats);
    reveal_strlit("0");
    assert("0"@ == digits(0));
    assert(query[0].0 == "computemethod"@);
    assert(query[1] == ("network_dl"@, digits(rate(stats) as nat)));
    assert(query[2] == ("network_up"@, digits(0)));
    assert(query[3].0 == "cpu_cores"@);
    assert(query[4].0 == "ram_max"@);
    assert(query[5].0 == "rendertime_max"@);
}

/// What is to render is told by a number: one for the processor, two for the graphics card, zero for
/// both.
pub proof fn law_method_numbers(method: ComputeMethod)
    ensures
        method_number(method) == digits(
            match method {
                ComputeMethod::CpuGpu => 0,
                ComputeMethod::Cpu => 1,
                ComputeMethod::Gpu => 2,
            },
        ),
{
    reveal_strlit("0");
    reveal_strlit("1");
    reveal_strlit("2");
    assert("0"@ == digits(0));
    assert("1"@ == digits(1));
    assert("2"@ == digits(2));
}

/// The archive with a job's renderer is asked for by the job, at the address that the server gave for
/// that. It is put where the working directory is prepared from, and held against the renderer's
/// digest.
pub proof fn law_binary_request(server: ServerConnection, job: JobInfo, file: FileRequest)
    requires
        is_binary_request(server, job, file),
    ensures
        file.request.url@ == server.clientConf.hostname@ + server.serverConf.downloadBinary.path@,
        pair_views(file.request.query@) == seq![("job"@, job.id@)],
        file.path@ == renderer_archive_path(server.clientConf, job),
        file.md5@ == job.rendererInfo.md5@,
{
}

/// A part of a scene's archive is asked for by its own name, at the address that the server gave for
/// that. It is put where the scene is put together from, and held against its own digest.
pub proof fn law_chunk_request(server: ServerConnection, chunk: Chunk, file: FileRequest)
    requires
        is_chunk_request(server, chunk, file),
    ensures
        file.request.url@ == server.clientConf.hostname@ + server.serverConf.downloadChunk.path@,
        pair_views(file.request.query@) == seq![("chunk"@, chunk.id@)],
        file.path@ == chunk_path(server.clientConf, chunk),
        file.md5@ == chunk.md5@,
{
}

/// The server is told whether the client is paused, that it leaves, and that it failed, each at the
/// address that the server gave for it.
pub proof fn law_other_requests(
    server: ServerConnection,
    paused: bool,
    alive: Request,
    leaving: Request,
    status: ClientErrorType,
    log: Seq<char>,
    report: ErrorReport,
)
    requires
        is_keep_alive_request(server, paused, alive),
        is_logout_request(server, leaving),
        is_error_report(server, status, log, report),
    ensures
        ({
            let host = server.clientConf.hostname@;
            &&& alive.url@ == host + server.serverConf.keepMeAlive.path@
            &&& pair_views(alive.query@) == seq![("paused"@, bool_text(paused))]
            &&& leaving.url@ == host + server.serverConf.logout.path@
            &&& leaving.query@.len() == 0
            &&& report.request.url@ == host + server.serverConf.error.path@
            &&& pair_views(report.request.query@).len() == 1
            &&& pair_views(report.request.query@)[0].0 == "type"@
            &&& read_nat(pair_views(report.request.query@)[0].1, u32::MAX as nat) == Some(
                error_number(status) as nat,
            )
            &&& report.body@ == vstd::utf8::encode_utf8(log)
            &&& report.mime@ == "text/plain"@
            &&& report.partName@ == "err.txt"@
            &&& report.fileName@ == "/tmp/err.txt"@
        }),
{
    law_read_back(error_number(status) as nat, u32::MAX as nat);
    assert(pair_views(leaving.query@).len() == leaving.query@.len());
}

} // verus!
