//! The server's configuration: how the client logs in, and what it learns from the answer.

use vstd::prelude::*;

use crate::conf::ClientConfig;
use crate::defs::CLIENT_VERSION;
use crate::hw_info::HwInfo;
use crate::net::{RequestEndPoint, SpeedTestTarget};
use crate::number::{decimal, digits};
use crate::outside::{extendUrl, extended_url};
use crate::text::{
    bool_text, boolText, glue, law_pieces, pair_views, pieces, pushPair, split, strEq, views,
};

verus! {

/// Where on the server its configuration is.
pub const SERVER_CONF_ENDPOINT: &'static str = "/server/config.php";

/// An endpoint as the server describes it.
#[derive(Debug)]
pub struct RequestEndPointBuild {
    pub eType: String,
    pub path: String,
    pub maxPeriod: Option<u32>,
}

/// An address for measuring the connection, as the server describes it.
#[derive(Debug)]
pub struct SpeedTestTargetBuild {
    pub url: Option<String>,
}

/// Whether an address for measuring has not been used yet.
pub open spec fn is_fresh(target: SpeedTestTarget) -> bool {
    &&& target.speedtest@ == 0
    &&& target.ping.count == 0
    &&& target.ping.sum == 0
    &&& target.ping.min == usize::MAX
    &&& target.ping.max == usize::MIN
}

impl SpeedTestTargetBuild {
    /// The address, if there is one.
    pub fn make(&self) -> (r: Option<SpeedTestTarget>)
        ensures
            match r {
                Some(target) => self.url == Some(target.url) && is_fresh(target),
                None => self.url is None,
            },
    {
        match &self.url {
            Some(url) => Some(SpeedTestTarget::new(url.clone())),
            None => None,
        }
    }
}

/// What the status of the server's answer means.
#[derive(Debug, Clone, Copy, PartialEq, Eq, Structural)]
pub enum StatusCodes {
    Okay,
    NoVersion,
    ClientTooOld,
    AuthFailure,
    SessionExpired,
    MissingParm,
    Unknown,
}

/// The status that a number stands for.
pub open spec fn code_of(num: i32) -> StatusCodes {
    if num == 0 {
        StatusCodes::Okay
    } else if num == 100 {
        StatusCodes::NoVersion
    } else if num == 101 {
        StatusCodes::ClientTooOld
    } else if num == 102 {
        StatusCodes::AuthFailure
    } else if num == 103 {
        StatusCodes::SessionExpired
    } else if num == 104 {
        StatusCodes::MissingParm
    } else {
        StatusCodes::Unknown
    }
}

impl From<i32> for StatusCodes {
    fn from(num: i32) -> (r: Self) {
        match num {
            0 => StatusCodes::Okay,
            100 => StatusCodes::NoVersion,
            101 => StatusCodes::ClientTooOld,
            102 => StatusCodes::AuthFailure,
            103 => StatusCodes::SessionExpired,
            104 => StatusCodes::MissingParm,
            _ => StatusCodes::Unknown,
        }
    }
}

impl vstd::std_specs::convert::FromSpecImpl<i32> for StatusCodes {
    open spec fn obeys_from_spec() -> bool {
        true
    }

    open spec fn from_spec(num: i32) -> Self {
        code_of(num)
    }
}

impl StatusCodes {
    /// What is said of the status.
    pub open spec fn spec_message(self) -> Seq<char> {
        match self {
            StatusCodes::Okay => "Ok"@,
            StatusCodes::NoVersion => "No version given (100)"@,
            StatusCodes::ClientTooOld => "Client is too old (101)"@,
            StatusCodes::AuthFailure => "Authentication failure (102)"@,
            StatusCodes::SessionExpired => "WebSession has expired (103)"@,
            StatusCodes::MissingParm => "Missing parameter (104)"@,
            StatusCodes::Unknown => "Unknown code"@,
        }
    }

    /// What is said of the status.
    pub fn message(&self) -> (r: String)
        ensures
            r@ == self.spec_message(),
    {
        match self {
            StatusCodes::Okay => "Ok".to_owned(),
            StatusCodes::NoVersion => "No version given (100)".to_owned(),
            StatusCodes::ClientTooOld => "Client is too old (101)".to_owned(),
            StatusCodes::AuthFailure => "Authentication failure (102)".to_owned(),
            StatusCodes::SessionExpired => "WebSession has expired (103)".to_owned(),
            StatusCodes::MissingParm => "Missing parameter (104)".to_owned(),
            StatusCodes::Unknown => "Unknown code".to_owned(),
        }
    }

    /// Whether no later attempt can fare better with this status.
    pub open spec fn is_fatal(self) -> bool {
        ||| self is NoVersion
        ||| self is ClientTooOld
        ||| self is MissingParm
        ||| self is AuthFailure
    }
}

/// Why there is no configuration from the server.
#[derive(Debug)]
pub enum ConfError {
    BadStatus(StatusCodes),
    FatalStatus(StatusCodes),
    IOError(String),
}

impl ConfError {
    /// What is said of the error.
    pub open spec fn spec_message(self) -> Seq<char> {
        match self {
            ConfError::BadStatus(code) => code.spec_message(),
            ConfError::FatalStatus(code) => code.spec_message(),
            ConfError::IOError(msg) => msg@,
        }
    }

    /// What is said of the error.
    pub fn message(&self) -> (r: String)
        ensures
            r@ == self.spec_message(),
    {
        match self {
            ConfError::BadStatus(code) => code.message(),
            ConfError::FatalStatus(code) => code.message(),
            ConfError::IOError(msg) => msg.clone(),
        }
    }
}

/// The server's configuration.
#[derive(Debug)]
pub struct ServerConfig {
    pub publicKey: Option<String>,
    pub speedTestUrls: Vec<SpeedTestTarget>,
    pub requestJob: RequestEndPoint,
    pub downloadBinary: RequestEndPoint,
    pub downloadChunk: RequestEndPoint,
    pub error: RequestEndPoint,
    pub keepMeAlive: RequestEndPoint,
    pub logout: RequestEndPoint,
    pub speedTestAnswer: RequestEndPoint,
}

/// The server's configuration as the server describes it.
#[derive(Debug)]
pub struct ServerConfigBuild {
    pub status: i32,
    pub publickey: Option<String>,
    pub requestEndPoints: Option<Vec<RequestEndPointBuild>>,
    pub speedTestTargets: Option<Vec<SpeedTestTargetBuild>>,
}

/// The path and the period of the first endpoint of a kind in a list.
pub open spec fn first_endpoint(list: Seq<RequestEndPointBuild>, name: Seq<char>) -> Option<
    (Seq<char>, u32),
>
    decreases list.len(),
{
    if list.len() == 0 {
        None
    } else if list[0].eType@ == name {
        Some((list[0].path@, list[0].maxPeriod.unwrap_or(0)))
    } else {
        first_endpoint(list.drop_first(), name)
    }
}

/// The path and the period that the server gives for a kind of request.
pub open spec fn endpoint(build: ServerConfigBuild, name: Seq<char>) -> Option<(Seq<char>, u32)> {
    match build.requestEndPoints {
        Some(list) => first_endpoint(list@, name),
        None => None,
    }
}

/// Whether an endpoint has the given path and period.
pub open spec fn is_endpoint(e: RequestEndPoint, found: Option<(Seq<char>, u32)>) -> bool {
    found == Some((e.path@, e.maxPeriod))
}

/// The kinds of request that the client makes.
pub open spec fn endpoint_names() -> Seq<Seq<char>> {
    seq![
        "request-job"@,
        "download-binary"@,
        "download-chunk"@,
        "error"@,
        "keepmealive"@,
        "logout"@,
        "speedtest-answer"@,
    ]
}

/// The first kind of request, from a place on, that the server gives no endpoint for.
pub open spec fn missing_endpoint(build: ServerConfigBuild, i: int) -> Option<Seq<char>>
    decreases endpoint_names().len() - i,
{
    if i >= endpoint_names().len() {
        None
    } else if endpoint(build, endpoint_names()[i]) is None {
        Some(endpoint_names()[i])
    } else {
        missing_endpoint(build, i + 1)
    }
}

/// The addresses that a list gives.
pub open spec fn given_urls(list: Seq<SpeedTestTargetBuild>) -> Seq<Seq<char>>
    decreases list.len(),
{
    if list.len() == 0 {
        Seq::empty()
    } else {
        match list.last().url {
            Some(url) => given_urls(list.drop_last()).push(url@),
            None => given_urls(list.drop_last()),
        }
    }
}

/// The addresses for measuring the connection that the server gives.
pub open spec fn target_urls(build: ServerConfigBuild) -> Seq<Seq<char>> {
    match build.speedTestTargets {
        Some(list) => given_urls(list@),
        None => Seq::empty(),
    }
}

/// The addresses of a list of targets.
pub open spec fn urls_of(list: Seq<SpeedTestTarget>) -> Seq<Seq<char>> {
    list.map_values(|t: SpeedTestTarget| t.url@)
}

/// Whether a result is what a description of the server's configuration comes to: nothing where
/// the server says that something is amiss, or leaves out an endpoint.
pub open spec fn config_made(
    build: ServerConfigBuild,
    result: Result<ServerConfig, ConfError>,
) -> bool {
    match result {
        Ok(conf) => {
            &&& code_of(build.status) is Okay
            &&& missing_endpoint(build, 0) is None
            &&& conf.publicKey == build.publickey
            &&& urls_of(conf.speedTestUrls@) == target_urls(build)
            &&& forall|i: int|
                0 <= i < conf.speedTestUrls@.len() ==> is_fresh(#[trigger] conf.speedTestUrls@[i])
            &&& is_endpoint(conf.requestJob, endpoint(build, "request-job"@))
            &&& is_endpoint(conf.downloadBinary, endpoint(build, "download-binary"@))
            &&& is_endpoint(conf.downloadChunk, endpoint(build, "download-chunk"@))
            &&& is_endpoint(conf.error, endpoint(build, "error"@))
            &&& is_endpoint(conf.keepMeAlive, endpoint(build, "keepmealive"@))
            &&& is_endpoint(conf.logout, endpoint(build, "logout"@))
            &&& is_endpoint(conf.speedTestAnswer, endpoint(build, "speedtest-answer"@))
        },
        Err(ConfError::FatalStatus(code)) => code == code_of(build.status) && code.is_fatal(),
        Err(ConfError::BadStatus(code)) => code == code_of(build.status) && !code.is_fatal() && !(
        code is Okay),
        Err(ConfError::IOError(m)) => code_of(build.status) is Okay && (missing_endpoint(
            build,
            0,
        ) matches Some(name) && m@ == "Could not find endpoint for: "@ + name),
    }
}

/// A configuration is made exactly where the server says that all is well and gives an endpoint
/// for every kind of request.
pub proof fn law_config_made(build: ServerConfigBuild, result: Result<ServerConfig, ConfError>)
    requires
        config_made(build, result),
    ensures
        result is Ok <==> code_of(build.status) is Okay && forall|i: int|
            0 <= i < endpoint_names().len() ==> endpoint(
                build,
                #[trigger] endpoint_names()[i],
            ) is Some,
{
    lemma_missing_endpoint(build, 0);
}

proof fn lemma_missing_endpoint(build: ServerConfigBuild, from: int)
    requires
        0 <= from,
    ensures
        missing_endpoint(build, from) is None <==> forall|i: int|
            from <= i < endpoint_names().len() ==> endpoint(
                build,
                #[trigger] endpoint_names()[i],
            ) is Some,
    decreases endpoint_names().len() - from,
{
    if from < endpoint_names().len() {
        lemma_missing_endpoint(build, from + 1);
    }
}

/// The endpoint of a kind is the first one of that kind in the list.
pub proof fn law_first_endpoint(list: Seq<RequestEndPointBuild>, name: Seq<char>, i: int)
    requires
        0 <= i < list.len(),
        list[i].eType@ == name,
        forall|j: int| 0 <= j < i ==> (#[trigger] list[j]).eType@ != name,
    ensures
        first_endpoint(list, name) == Some((list[i].path@, list[i].maxPeriod.unwrap_or(0))),
    decreases list.len(),
{
    if i > 0 {
        let rest = list.drop_first();
        assert(list[0].eType@ != name);
        assert forall|j: int| 0 <= j < i - 1 implies (#[trigger] rest[j]).eType@ != name by {
            assert(rest[j] == list[j + 1]);
        }
        law_first_endpoint(rest, name, i - 1);
    }
}

impl ServerConfigBuild {
    /// The endpoint for the kind of request `name`.
    pub fn getEndpoint(&self, name: &str) -> (r: Result<RequestEndPoint, ConfError>)
        ensures
            match r {
                Ok(e) => is_endpoint(e, endpoint(*self, name@)),
                Err(e) => endpoint(*self, name@) is None && (e matches ConfError::IOError(m) && m@
                    == "Could not find endpoint for: "@ + name@),
            },
    {
        if let Some(data) = &self.requestEndPoints {
            let mut i: usize = 0;
            assert(data@.skip(0) == data@);
            while i < data.len()
                invariant
                    i <= data@.len(),
                    first_endpoint(data@, name@) == first_endpoint(data@.skip(i as int), name@),
                    self.requestEndPoints == Some(*data),
                decreases data@.len() - i,
            {
                let e = &data[i];
                assert(data@.skip(i as int)[0] == *e);
                if strEq(e.eType.as_str(), name) {
                    return Ok(
                        RequestEndPoint {
                            path: e.path.clone(),
                            maxPeriod: match e.maxPeriod {
                                Some(period) => period,
                                None => 0,
                            },
                        },
                    );
                }
                assert(data@.skip(i as int).drop_first() == data@.skip(i as int + 1));
                i += 1;
            }
        }
        Err(ConfError::IOError(glue("Could not find endpoint for: ", name)))
    }

    fn targets(&self) -> (r: Vec<SpeedTestTarget>)
        ensures
            urls_of(r@) == target_urls(*self),
            forall|i: int| 0 <= i < r@.len() ==> is_fresh(#[trigger] r@[i]),
    {
        let mut targets: Vec<SpeedTestTarget> = Vec::new();
        if let Some(data) = &self.speedTestTargets {
            let mut i: usize = 0;
            while i < data.len()
                invariant
                    i <= data@.len(),
                    urls_of(targets@) == given_urls(data@.take(i as int)),
                    forall|j: int| 0 <= j < targets@.len() ==> is_fresh(#[trigger] targets@[j]),
                decreases data@.len() - i,
            {
                let ghost before = urls_of(targets@);
                assert(data@.take(i as int + 1).drop_last() == data@.take(i as int));
                assert(data@.take(i as int + 1).last() == data@[i as int]);
                if let Some(target) = data[i].make() {
                    targets.push(target);
                    assert(urls_of(targets@) == before.push(target.url@));
                }
                i += 1;
            }
            assert(data@.take(data@.len() as int) == data@);
        }
        targets
    }

    /// The server's configuration. There is none where the server says that something is amiss, or
    /// leaves out an endpoint.
    pub fn make(&self) -> (r: Result<ServerConfig, ConfError>)
        ensures
            config_made(*self, r),
    {
        proof {
            reveal_with_fuel(missing_endpoint, 8);
        }
        let code = StatusCodes::from(self.status);
        match code {
            StatusCodes::Okay => {},
            StatusCodes::NoVersion | StatusCodes::ClientTooOld | StatusCodes::MissingParm
            | StatusCodes::AuthFailure => {
                return Err(ConfError::FatalStatus(code));
            },
            StatusCodes::SessionExpired | StatusCodes::Unknown => {
                return Err(ConfError::BadStatus(code));
            },
        }
        let requestJob = match self.getEndpoint("request-job") {
            Ok(e) => e,
            Err(e) => return Err(e),
        };
        let downloadBinary = match self.getEndpoint("download-binary") {
            Ok(e) => e,
            Err(e) => return Err(e),
        };
        let downloadChunk = match self.getEndpoint("download-chunk") {
            Ok(e) => e,
            Err(e) => return Err(e),
        };
        let error = match self.getEndpoint("error") {
            Ok(e) => e,
            Err(e) => return Err(e),
        };
        let keepMeAlive = match self.getEndpoint("keepmealive") {
            Ok(e) => e,
            Err(e) => return Err(e),
        };
        let logout = match self.getEndpoint("logout") {
            Ok(e) => e,
            Err(e) => return Err(e),
        };
        let speedTestAnswer = match self.getEndpoint("speedtest-answer") {
            Ok(e) => e,
            Err(e) => return Err(e),
        };
        Ok(
            ServerConfig {
                publicKey: match &self.publickey {
                    Some(key) => Some(key.clone()),
                    None => None,
                },
                speedTestUrls: self.targets(),
                requestJob,
                downloadBinary,
                downloadChunk,
                error,
                keepMeAlive,
                logout,
                speedTestAnswer,
            },
        )
    }
}

/// What the client says of itself when it logs in.
pub open spec fn login_form(
    conf: ClientConfig,
    hw: HwInfo,
    os: Seq<char>,
    bits: Seq<char>,
) -> Seq<(Seq<char>, Seq<char>)> {
    seq![
        ("login"@, conf.login@),
        ("password"@, conf.password@),
        ("cpu_family"@, digits(hw.familyId as nat)),
        ("cpu_model"@, digits(hw.modelId as nat)),
        ("cpu_model_name"@, hw.cpuName@),
        ("cpu_cores"@, digits(hw.cores as nat)),
        ("os"@, os),
        ("os_version"@, hw.osName@),
        ("ram"@, digits(hw.totalSystemMemory as nat)),
        ("bits"@, bits),
        ("version"@, CLIENT_VERSION@),
        ("hostname"@, hw.hostName@),
        ("ui"@, "GuiText"@),
        ("extras"@, ""@),
        ("headless"@, bool_text(conf.headless)),
        ("hwid"@, hw.hwId@),
    ]
}

/// The form that the client logs in with. `os` names the system, `bits` its width.
pub fn loginForm(conf: &ClientConfig, hw: &HwInfo, os: &str, bits: &str) -> (r: Vec<
    (String, String),
>)
    ensures
        pair_views(r@) == login_form(*conf, *hw, os@, bits@),
{
    let mut form: Vec<(String, String)> = Vec::new();
    pushPair(&mut form, "login", conf.login.as_str());
    pushPair(&mut form, "password", conf.password.as_str());
    pushPair(&mut form, "cpu_family", decimal(hw.familyId as u64).as_str());
    pushPair(&mut form, "cpu_model", decimal(hw.modelId as u64).as_str());
    pushPair(&mut form, "cpu_model_name", hw.cpuName.as_str());
    pushPair(&mut form, "cpu_cores", decimal(hw.cores as u64).as_str());
    pushPair(&mut form, "os", os);
    pushPair(&mut form, "os_version", hw.osName.as_str());
    pushPair(&mut form, "ram", decimal(hw.totalSystemMemory).as_str());
    pushPair(&mut form, "bits", bits);
    pushPair(&mut form, "version", CLIENT_VERSION);
    pushPair(&mut form, "hostname", hw.hostName.as_str());
    pushPair(&mut form, "ui", "GuiText");
    pushPair(&mut form, "extras", "");
    pushPair(&mut form, "headless", boolText(conf.headless).as_str());
    pushPair(&mut form, "hwid", hw.hwId.as_str());
    assert(pair_views(form@) == login_form(*conf, *hw, os@, bits@));
    form
}

/// The names in a path, without the empty ones.
pub open spec fn path_names(parts: Seq<Seq<char>>) -> Seq<Seq<char>>
    decreases parts.len(),
{
    if parts.len() == 0 {
        Seq::empty()
    } else if parts.last().len() == 0 {
        path_names(parts.drop_last())
    } else {
        path_names(parts.drop_last()).push(parts.last())
    }
}

/// The names in `path`, between its slashes.
pub fn pathNames(path: &str) -> (r: Vec<String>)
    ensures
        views(r@) == path_names(pieces(path@, '/')),
{
    let parts = split(path, '/');
    let ghost texts = pieces(path@, '/');
    let mut names: Vec<String> = Vec::new();
    let mut i: usize = 0;
    assert(views(names@) == path_names(texts.take(0)));
    while i < parts.len()
        invariant
            i <= parts@.len(),
            views(parts@) == texts,
            views(names@) == path_names(texts.take(i as int)),
        decreases parts@.len() - i,
    {
        let ghost before = views(names@);
        assert(texts.take(i as int + 1).drop_last() == texts.take(i as int));
        assert(texts.take(i as int + 1).last() == parts@[i as int]@);
        if !parts[i].as_str().is_empty() {
            names.push(parts[i].clone());
            assert(views(names@) == before.push(parts@[i as int]@));
        }
        i += 1;
    }
    assert(texts.len() == parts@.len());
    assert(texts.take(texts.len() as int) == texts);
    names
}

/// Where the configuration of a server is, if there can be one.
pub open spec fn config_url(hostname: Seq<char>) -> Option<Seq<char>> {
    extended_url(hostname, path_names(pieces(SERVER_CONF_ENDPOINT@, '/')))
}

/// Where the configuration of the server `hostname` is.
pub fn configUrl(hostname: &str) -> (r: Result<String, ConfError>)
    ensures
        match r {
            Ok(url) => config_url(hostname@) == Some(url@),
            Err(e) => config_url(hostname@) is None && (e matches ConfError::IOError(m) && m@
                == "Illegal hostname"@),
        },
{
    match extendUrl(hostname, &pathNames(SERVER_CONF_ENDPOINT)) {
        Some(url) => Ok(url),
        None => Err(ConfError::IOError("Illegal hostname".to_owned())),
    }
}

/// Whether a result is what the client makes of the server's answer.
pub open spec fn fetched(
    answer: Result<Result<ServerConfigBuild, String>, String>,
    result: Result<ServerConfig, ConfError>,
) -> bool {
    match answer {
        Err(e) => result == Err::<ServerConfig, ConfError>(ConfError::IOError(e)),
        Ok(Err(e)) => result matches Err(ConfError::IOError(m)) && m@
            == "Server configuration is malformed:\n\t"@ + e@,
        Ok(Ok(build)) => config_made(build, result),
    }
}

/// What the client makes of the server's answer: of a failure to get one, of a document that is
/// not understood, or of the configuration that it describes.
pub fn fetchNew(answer: Result<Result<ServerConfigBuild, String>, String>) -> (r: Result<
    ServerConfig,
    ConfError,
>)
    ensures
        fetched(answer, r),
{
    match answer {
        Err(e) => Err(ConfError::IOError(e)),
        Ok(Err(e)) => Err(
            ConfError::IOError(glue("Server configuration is malformed:\n\t", e.as_str())),
        ),
        Ok(Ok(build)) => build.make(),
    }
}

// What logging in is for

/// What each number that the server sends means, and which of them no later attempt can mend.
pub proof fn law_codes(num: i32)
    ensures
        code_of(num) is Okay <==> num == 0,
        code_of(num) is NoVersion <==> num == 100,
        code_of(num) is ClientTooOld <==> num == 101,
        code_of(num) is AuthFailure <==> num == 102,
        code_of(num) is SessionExpired <==> num == 103,
        code_of(num) is MissingParm <==> num == 104,
        code_of(num) is Unknown <==> num != 0 && !(100 <= num <= 104),
        code_of(num).is_fatal() <==> num == 100 || num == 101 || num == 102 || num == 104,
{
}

/// Each number that means something is amiss is named in what is said of it, and no two of them are
/// spoken of alike.
pub proof fn law_code_messages(a: StatusCodes, b: StatusCodes)
    ensures
        a.spec_message() == b.spec_message() ==> a == b,
        ({
            let said = a.spec_message();
            &&& a is NoVersion ==> said.skip(said.len() - 5) == seq!['(', '1', '0', '0', ')']
            &&& a is ClientTooOld ==> said.skip(said.len() - 5) == seq!['(', '1', '0', '1', ')']
            &&& a is AuthFailure ==> said.skip(said.len() - 5) == seq!['(', '1', '0', '2', ')']
            &&& a is SessionExpired ==> said.skip(said.len() - 5) == seq!['(', '1', '0', '3', ')']
            &&& a is MissingParm ==> said.skip(said.len() - 5) == seq!['(', '1', '0', '4', ')']
        }),
{
    reveal_strlit("Ok");
    reveal_strlit("No version given (100)");
    reveal_strlit("Client is too old (101)");
    reveal_strlit("Authentication failure (102)");
    reveal_strlit("WebSession has expired (103)");
    reveal_strlit("Missing parameter (104)");
    reveal_strlit("Unknown code");
    assert("No version given (100)"@.len() == 22);
    assert("Client is too old (101)"@.len() == 23);
    assert("Authentication failure (102)"@.len() == 28);
    assert("WebSession has expired (103)"@.len() == 28);
    assert("Missing parameter (104)"@.len() == 23);
    assert("Unknown code"@.len() == 12);
    assert("Ok"@.len() == 2);
    assert("Client is too old (101)"@[0] == 'C' && "Missing parameter (104)"@[0] == 'M');
    assert("Authentication failure (102)"@[0] == 'A' && "WebSession has expired (103)"@[0] == 'W');
    let said = a.spec_message();
    assert(a is NoVersion ==> said.skip(said.len() - 5) =~= seq!['(', '1', '0', '0', ')']);
    assert(a is ClientTooOld ==> said.skip(said.len() - 5) =~= seq!['(', '1', '0', '1', ')']);
    assert(a is AuthFailure ==> said.skip(said.len() - 5) =~= seq!['(', '1', '0', '2', ')']);
    assert(a is SessionExpired ==> said.skip(said.len() - 5) =~= seq!['(', '1', '0', '3', ')']);
    assert(a is MissingParm ==> said.skip(said.len() - 5) =~= seq!['(', '1', '0', '4', ')']);
}

/// An error is fatal exactly if the server says by its number that no later attempt can fare better;
/// one that the server did not number is not.
pub proof fn law_login_refused(build: ServerConfigBuild, result: Result<ServerConfig, ConfError>)
    requires
        config_made(build, result),
    ensures
        ({
            let v = build.status;
            let fatal = v == 100 || v == 101 || v == 102 || v == 104;
            &&& fatal <==> (result matches Err(e) && e is FatalStatus)
            &&& v != 0 && !fatal <==> (result matches Err(e) && e is BadStatus)
            &&& v == 0 <==> result is Ok || (result matches Err(e) && e is IOError)
        }),
{
}

/// Each kind of request goes where the first endpoint of that kind says, and may be made as often as
/// that says; zero where it does not say.
pub proof fn law_config_endpoints(build: ServerConfigBuild, conf: ServerConfig)
    requires
        config_made(build, Ok(conf)),
    ensures
        endpoint(build, "request-job"@) == Some((conf.requestJob.path@, conf.requestJob.maxPeriod)),
        endpoint(build, "download-binary"@) == Some(
            (conf.downloadBinary.path@, conf.downloadBinary.maxPeriod),
        ),
        endpoint(build, "download-chunk"@) == Some(
            (conf.downloadChunk.path@, conf.downloadChunk.maxPeriod),
        ),
        endpoint(build, "error"@) == Some((conf.error.path@, conf.error.maxPeriod)),
        endpoint(build, "keepmealive"@) == Some(
            (conf.keepMeAlive.path@, conf.keepMeAlive.maxPeriod),
        ),
        endpoint(build, "logout"@) == Some((conf.logout.path@, conf.logout.maxPeriod)),
        endpoint(build, "speedtest-answer"@) == Some(
            (conf.speedTestAnswer.path@, conf.speedTestAnswer.maxPeriod),
        ),
        conf.publicKey == build.publickey,
{
}

/// A kind of request that no endpoint is given for is missing, and said to be.
pub proof fn law_missing_endpoint(build: ServerConfigBuild, result: Result<ServerConfig, ConfError>)
    requires
        config_made(build, result),
        build.status == 0,
        endpoint(build, "request-job"@) is None || endpoint(build, "download-binary"@) is None
            || endpoint(build, "download-chunk"@) is None || endpoint(build, "error"@) is None
            || endpoint(build, "keepmealive"@) is None || endpoint(build, "logout"@) is None
            || endpoint(build, "speedtest-answer"@) is None,
    ensures
        result matches Err(e) && e is IOError,
{
    reveal_with_fuel(missing_endpoint, 8);
    assert(endpoint_names()[0] == "request-job"@);
    assert(endpoint_names()[1] == "download-binary"@);
    assert(endpoint_names()[2] == "download-chunk"@);
    assert(endpoint_names()[3] == "error"@);
    assert(endpoint_names()[4] == "keepmealive"@);
    assert(endpoint_names()[5] == "logout"@);
    assert(endpoint_names()[6] == "speedtest-answer"@);
}

/// A list without an endpoint of a kind gives none, nor does no list.
pub proof fn law_no_endpoint(list: Seq<RequestEndPointBuild>, name: Seq<char>)
    requires
        forall|i: int| 0 <= i < list.len() ==> (#[trigger] list[i]).eType@ != name,
    ensures
        first_endpoint(list, name) is None,
    decreases list.len(),
{
    if list.len() > 0 {
        let rest = list.drop_first();
        assert forall|i: int| 0 <= i < rest.len() implies (#[trigger] rest[i]).eType@ != name by {
            assert(rest[i] == list[i + 1]);
        }
        assert(list[0].eType@ != name);
        law_no_endpoint(rest, name);
    }
}

/// The addresses for measuring are all those that are given, in order; entries without an address
/// are passed over.
pub proof fn law_given_urls(
    first: Seq<SpeedTestTargetBuild>,
    second: Seq<SpeedTestTargetBuild>,
    one: SpeedTestTargetBuild,
)
    ensures
        given_urls(first + second) == given_urls(first) + given_urls(second),
        one.url matches Some(url) ==> given_urls(seq![one]) == seq![url@],
        one.url is None ==> given_urls(seq![one]).len() == 0,
    decreases second.len(),
{
    reveal_with_fuel(given_urls, 2);
    assert(seq![one].drop_last() == Seq::<SpeedTestTargetBuild>::empty());
    if let Some(url) = one.url {
        assert(given_urls(seq![one]) == seq![url@]);
    }
    if second.len() > 0 {
        law_given_urls(first, second.drop_last(), one);
        assert((first + second).drop_last() == first + second.drop_last());
        assert((first + second).last() == second.last());
        assert(given_urls(first + second) == given_urls(first) + given_urls(second));
    } else {
        assert(first + second == first);
        assert(given_urls(first) + given_urls(second) == given_urls(first));
    }
}

/// The targets of a configuration have those addresses, and have not been used yet.
pub proof fn law_config_targets(build: ServerConfigBuild, conf: ServerConfig, i: int)
    requires
        config_made(build, Ok(conf)),
        0 <= i < conf.speedTestUrls@.len(),
    ensures
        build.speedTestTargets matches Some(list) && conf.speedTestUrls@.len() == given_urls(
            list@,
        ).len() && conf.speedTestUrls@[i].url@ == given_urls(list@)[i],
        conf.speedTestUrls@[i].ping.count == 0,
        conf.speedTestUrls@[i].ping.sum == 0,
        conf.speedTestUrls@[i].ping.min == usize::MAX,
        conf.speedTestUrls@[i].ping.max == 0,
        conf.speedTestUrls@[i].speedtest@ == 0,
{
    assert(urls_of(conf.speedTestUrls@)[i] == conf.speedTestUrls@[i].url@);
    assert(urls_of(conf.speedTestUrls@).len() == conf.speedTestUrls@.len());
}

/// The client logs in as the user who was configured, and tells of the machine what is known of it,
/// numbers in digits. Nothing else is told.
pub proof fn law_login_form(conf: ClientConfig, hw: HwInfo, os: Seq<char>, bits: Seq<char>)
    ensures
        ({
            let form = login_form(conf, hw, os, bits);
            &&& form.len() == 16
            &&& form.contains(("login"@, conf.login@))
            &&& form.contains(("password"@, conf.password@))
            &&& form.contains(("cpu_family"@, digits(hw.familyId as nat)))
            &&& form.contains(("cpu_model"@, digits(hw.modelId as nat)))
            &&& form.contains(("cpu_model_name"@, hw.cpuName@))
            &&& form.contains(("cpu_cores"@, digits(hw.cores as nat)))
            &&& form.contains(("os"@, os))
            &&& form.contains(("os_version"@, hw.osName@))
            &&& form.contains(("ram"@, digits(hw.totalSystemMemory as nat)))
            &&& form.contains(("bits"@, bits))
            &&& form.contains(("version"@, CLIENT_VERSION@))
            &&& form.contains(("hostname"@, hw.hostName@))
            &&& form.contains(("ui"@, "GuiText"@))
            &&& form.contains(("extras"@, Seq::<char>::empty()))
            &&& form.contains(("headless"@, bool_text(conf.headless)))
            &&& form.contains(("hwid"@, hw.hwId@))
        }),
{
    let form = login_form(conf, hw, os, bits);
    reveal_strlit("");
    assert(""@ == Seq::<char>::empty());
    assert(form[0] == ("login"@, conf.login@));
    assert(form[1] == ("password"@, conf.password@));
    assert(form[2] == ("cpu_family"@, digits(hw.familyId as nat)));
    assert(form[3] == ("cpu_model"@, digits(hw.modelId as nat)));
    assert(form[4] == ("cpu_model_name"@, hw.cpuName@));
    assert(form[5] == ("cpu_cores"@, digits(hw.cores as nat)));
    assert(form[6] == ("os"@, os));
    assert(form[7] == ("os_version"@, hw.osName@));
    assert(form[8] == ("ram"@, digits(hw.totalSystemMemory as nat)));
    assert(form[9] == ("bits"@, bits));
    assert(form[10] == ("version"@, CLIENT_VERSION@));
    assert(form[11] == ("hostname"@, hw.hostName@));
    assert(form[12] == ("ui"@, "GuiText"@));
    assert(form[13] == ("extras"@, Seq::<char>::empty()));
    assert(form[14] == ("headless"@, bool_text(conf.headless)));
    assert(form[15] == ("hwid"@, hw.hwId@));
}

/// The names in a path are its parts without the empty ones: none is lost, none is added, and they
/// stay in order.
pub proof fn law_path_names(first: Seq<Seq<char>>, second: Seq<Seq<char>>, one: Seq<char>)
    ensures
        path_names(first + second) == path_names(first) + path_names(second),
        one.len() > 0 ==> path_names(seq![one]) == seq![one],
        one.len() == 0 ==> path_names(seq![one]).len() == 0,
    decreases second.len(),
{
    reveal_with_fuel(path_names, 2);
    assert(seq![one].drop_last() == Seq::<Seq<char>>::empty());
    if one.len() > 0 {
        assert(path_names(seq![one]) == seq![one]);
    }
    if second.len() > 0 {
        law_path_names(first, second.drop_last(), one);
        assert((first + second).drop_last() == first + second.drop_last());
        assert((first + second).last() == second.last());
        assert(path_names(first + second) == path_names(first) + path_names(second));
    } else {
        assert(first + second == first);
        assert(path_names(first) + path_names(second) == path_names(first));
    }
}

/// Where there is no answer, or one that is not understood, there is no configuration, and the cause
/// is told; else there is what the answer describes.
pub proof fn law_fetched(
    answer: Result<Result<ServerConfigBuild, String>, String>,
    result: Result<ServerConfig, ConfError>,
)
    requires
        fetched(answer, result),
    ensures
        answer matches Err(cause) ==> (result matches Err(ConfError::IOError(m)) && m@ == cause@),
        answer matches Ok(Err(cause)) ==> (result matches Err(ConfError::IOError(m)) && exists|
            head: Seq<char>,
        | m@ == #[trigger] (head + cause@)),
        answer matches Ok(Ok(build)) ==> config_made(build, result),
        result matches Err(ConfError::IOError(m)) ==> result->Err_0.spec_message() == m@,
{
    if let Ok(Err(cause)) = answer {
        let m = result->Err_0->IOError_0;
        assert(m@ == "Server configuration is malformed:\n\t"@ + cause@);
    }
}

/// The configuration of a server is below its address, in the file `config.php` of `server`.
pub proof fn law_config_url(hostname: Seq<char>)
    ensures
        config_url(hostname) == extended_url(hostname, seq!["server"@, "config.php"@]),
{
    reveal_strlit("/server/config.php");
    reveal_strlit("server");
    reveal_strlit("config.php");
    let none = Seq::<char>::empty();
    let file = "config.php"@;
    let folder = "server"@;
    assert(SERVER_CONF_ENDPOINT@ =~= none + seq!['/'] + (folder + seq!['/'] + file));
    assert forall|i: int| 0 <= i < folder.len() implies folder[i] != '/' by {}
    assert forall|i: int| 0 <= i < file.len() implies file[i] != '/' by {}
    law_pieces(none, folder + seq!['/'] + file, '/');
    law_pieces(folder, file, '/');
    law_pieces(file, none, '/');
    let parts = seq![none] + (seq![folder] + seq![file]);
    assert(pieces(SERVER_CONF_ENDPOINT@, '/') == parts);
    law_path_names(seq![none], seq![folder] + seq![file], none);
    law_path_names(seq![folder], seq![file], folder);
    law_path_names(seq![file], seq![file], file);
    assert(path_names(parts) == path_names(seq![none]) + (path_names(seq![folder]) + path_names(
        seq![file],
    )));
    assert(path_names(parts) =~= seq![folder, file]);
}

} // verus!
