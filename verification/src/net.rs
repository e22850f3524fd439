//! Talking to the server: endpoints, documents, transfers.

use vstd::prelude::*;

use crate::fmd5::{FileDigest, checkMd5, hex};
use crate::outside::md5_digest;
use crate::span::{SECOND, SPAN_MAX, TimeSpan, span_of};
use crate::text::{
    fromChars, glue, glue3, pieces, split, startsWith, strEq, toChars, trim, trimmed,
    trimmed_back, trimmed_front, views,
};
use crate::utils::{because, messageBecause};

verus! {

/// A running count of durations.
#[derive(Debug, Clone, Copy, PartialEq, Eq, Structural)]
pub struct LongSummaryStatistics {
    pub count: usize,
    pub sum: usize,
    pub min: usize,
    pub max: usize,
}

/// An address to measure the connection with, and what was measured.
#[derive(Debug)]
pub struct SpeedTestTarget {
    pub url: String,
    pub speedtest: TimeSpan,
    pub ping: LongSummaryStatistics,
}

impl SpeedTestTarget {
    /// The address `url`, with nothing measured yet.
    pub fn new(url: String) -> (r: Self)
        ensures
            r.url == url,
            r.speedtest@ == 0,
            r.ping == (LongSummaryStatistics {
                count: 0,
                sum: 0,
                min: usize::MAX,
                max: usize::MIN,
            }),
    {
        SpeedTestTarget {
            url,
            speedtest: TimeSpan::zero(),
            ping: LongSummaryStatistics { count: 0, sum: 0, min: usize::MAX, max: usize::MIN },
        }
    }
}

/// Where on the server a kind of request goes, and how often it may.
#[derive(Debug)]
pub struct RequestEndPoint {
    pub path: String,
    pub maxPeriod: u32,
}

impl RequestEndPoint {
    /// The address of this endpoint on a server.
    pub fn makeUrl(&self, domain: &str) -> (r: String)
        ensures
            r@ == domain@ + self.path@,
    {
        glue(domain, self.path.as_str())
    }
}

// Content types

/// Whether a content type names the required one among its parts.
pub open spec fn type_named(header: Seq<char>, required: Seq<char>) -> bool {
    exists|i: int|
        0 <= i < pieces(header, ';').len() && trimmed(#[trigger] pieces(header, ';')[i]) == required
}

/// Whether a document of a content type will do. Where none is required any will, and none too.
pub open spec fn type_accepted(required: Option<Seq<char>>, header: Option<Seq<char>>) -> bool {
    match required {
        None => true,
        Some(required) => match header {
            None => false,
            Some(header) => type_named(header, required),
        },
    }
}

/// What is said of a document whose content type will not do.
pub open spec fn type_refusal(required: Option<Seq<char>>, header: Option<Seq<char>>) -> Seq<char> {
    "Could not get server config because the response is of invalid type.\n\tRequires "@ + (
    match required {
        Some(required) => required,
        None => "none"@,
    }) + " But got "@ + (match header {
        Some(header) => ": "@ + header,
        None => Seq::empty(),
    })
}

/// What an optional text holds.
pub open spec fn str_view(s: Option<&str>) -> Option<Seq<char>> {
    match s {
        Some(s) => Some(s@),
        None => None,
    }
}

fn typeNamed(header: &str, required: &str) -> (r: bool)
    ensures
        r == type_named(header@, required@),
{
    let parts = split(header, ';');
    let ghost texts = pieces(header@, ';');
    let mut i: usize = 0;
    while i < parts.len()
        invariant
            i <= parts@.len(),
            views(parts@) == texts,
            texts == pieces(header@, ';'),
            forall|j: int| 0 <= j < i ==> trimmed(#[trigger] texts[j]) != required@,
        decreases parts@.len() - i,
    {
        assert(texts[i as int] == parts@[i as int]@);
        if strEq(trim(parts[i].as_str()).as_str(), required) {
            assert(trimmed(pieces(header@, ';')[i as int]) == required@);
            return true;
        }
        i += 1;
    }
    assert(texts.len() == parts@.len());
    false
}

/// Refuses a document whose content type, `contentType`, will not do.
pub fn requireContentType(required: Option<&str>, contentType: Option<&str>) -> (r: Result<
    (),
    String,
>)
    ensures
        match r {
            Ok(_) => type_accepted(str_view(required), str_view(contentType)),
            Err(m) => !type_accepted(str_view(required), str_view(contentType)) && m@
                == type_refusal(str_view(required), str_view(contentType)),
        },
{
    let valid = match required {
        None => true,
        Some(required) => match contentType {
            None => false,
            Some(header) => typeNamed(header, required),
        },
    };
    if valid {
        return Ok(());
    }
    let mut message =
        "Could not get server config because the response is of invalid type.\n\tRequires ".to_owned();
    message.append(
        match required {
            Some(required) => required,
            None => "none",
        },
    );
    message.append(" But got ");
    match contentType {
        Some(header) => message.append(glue(": ", header).as_str()),
        None => {
            assert(message@ + Seq::<char>::empty() == message@);
        },
    }
    Err(message)
}

// Documents

/// Where the first `?>` at or behind a place stands.
pub open spec fn prolog_end(s: Seq<char>, i: int) -> Option<int>
    decreases s.len() - i,
{
    if i + 1 >= s.len() {
        None
    } else if s[i] == '?' && s[i + 1] == '>' {
        Some(i)
    } else {
        prolog_end(s, i + 1)
    }
}

/// The part of a document behind its prolog, without the whitespace around it.
pub open spec fn document_body(xml: Seq<char>) -> Seq<char> {
    let body = trimmed(xml);
    if "<?xml"@.is_prefix_of(body) {
        trimmed(body.skip(prolog_end(body, 0).unwrap_or(0) + 2))
    } else {
        body
    }
}

fn prologEnd(chars: &Vec<char>) -> (r: Option<usize>)
    ensures
        match r {
            Some(i) => prolog_end(chars@, 0) == Some(i as int) && i + 1 < chars@.len(),
            None => prolog_end(chars@, 0) is None,
        },
{
    let mut i: usize = 0;
    while i < chars.len() && chars.len() - i > 1
        invariant
            i <= chars@.len(),
            prolog_end(chars@, 0) == prolog_end(chars@, i as int),
        decreases chars@.len() - i,
    {
        if chars[i] == '?' && chars[i + 1] == '>' {
            return Some(i);
        }
        i += 1;
    }
    None
}

/// The part of a document behind its prolog.
pub fn xmlBody(xml: &str) -> (r: String)
    ensures
        r@ == document_body(xml@),
{
    let body = trim(xml);
    if startsWith(body.as_str(), "<?xml") {
        proof {
            reveal_strlit("<?xml");
        }
        let chars = toChars(body.as_str());
        let from: usize = match prologEnd(&chars) {
            Some(i) => i + 2,
            None => 2,
        };
        assert(body@.skip(from as int) == chars@.subrange(from as int, chars@.len() as int));
        trim(fromChars(&chars, from, chars.len()).as_str())
    } else {
        body
    }
}

/// What is said of a document that cannot be read as a `typeName`.
pub open spec fn document_refusal(typeName: Seq<char>, cause: Seq<char>, xml: Seq<char>) -> Seq<
    char,
> {
    "Could not parse "@ + typeName + " because: "@ + cause + "\nXML Text:\n"@ + xml
}

/// What is said of a document that cannot be read as a `typeName`.
pub fn fromXmlError(typeName: &str, cause: &str, xml: &str) -> (r: String)
    ensures
        r@ == document_refusal(typeName@, cause@, xml@),
{
    let mut message = glue3("Could not parse ", typeName, " because: ");
    message.append(cause);
    message.append("\nXML Text:\n");
    message.append(xml);
    message
}

/// A document with the prolog before its body.
pub open spec fn document_of(body: Seq<char>) -> Seq<char> {
    "<?xml version=\"1.0\" encoding=\"utf-8\"?>\n"@ + body
}

/// The document with the given body.
pub fn xmlDocument(body: &str) -> (r: String)
    ensures
        r@ == document_of(body@),
{
    glue("<?xml version=\"1.0\" encoding=\"utf-8\"?>\n", body)
}

// Transfers

/// How much was transferred, and how long it took.
#[derive(Debug, Clone, Copy, PartialEq, Eq, Structural)]
pub struct TransferStats {
    pub bytes: u64,
    pub time: TimeSpan,
}

/// A transfer of nothing, in no time.
pub open spec fn nothing() -> TransferStats {
    TransferStats { bytes: 0, time: span_of(0) }
}

impl Default for TransferStats {
    fn default() -> (r: Self)
        ensures
            r == nothing(),
    {
        broadcast use {crate::span::lemma_span_ext, crate::span::lemma_span_of};

        let time = TimeSpan::zero();
        assert(time@ == span_of(0)@);
        TransferStats { bytes: 0, time }
    }
}

/// The bytes per second of a transfer, none where it took less than one.
pub open spec fn rate(stats: TransferStats) -> u64 {
    let secs = stats.time@ / SECOND as nat;
    if secs == 0 {
        0
    } else {
        (stats.bytes as nat / secs) as u64
    }
}

/// Two transfers taken together. Where the sums do not fit, the one with fewer bytes stands for
/// both, the first where neither has.
pub open spec fn both(a: TransferStats, b: TransferStats) -> TransferStats {
    if a.bytes + b.bytes <= u64::MAX && a.time@ + b.time@ <= SPAN_MAX {
        TransferStats { bytes: (a.bytes + b.bytes) as u64, time: span_of(a.time@ + b.time@) }
    } else if a.bytes > b.bytes {
        b
    } else {
        a
    }
}

impl TransferStats {
    /// The bytes per second of this transfer.
    pub fn toRate(&self) -> (r: u64)
        ensures
            r == rate(*self),
    {
        let secs = self.time.asSecs();
        if secs == 0 {
            0
        } else {
            self.bytes / secs
        }
    }
}

impl std::ops::Add for TransferStats {
    type Output = TransferStats;

    fn add(self, rhs: Self) -> (r: TransferStats) {
        broadcast use {crate::span::lemma_span_ext, crate::span::lemma_span_of};

        let bytes = match self.bytes.checked_add(rhs.bytes) {
            Some(bytes) => bytes,
            None => return if self.bytes > rhs.bytes {
                rhs
            } else {
                self
            },
        };
        let time = match self.time.checkedAdd(rhs.time) {
            Some(time) => time,
            None => return if self.bytes > rhs.bytes {
                rhs
            } else {
                self
            },
        };
        assert(time@ == span_of(self.time@ + rhs.time@)@);
        TransferStats { bytes, time }
    }
}

impl vstd::std_specs::ops::AddSpecImpl for TransferStats {
    open spec fn obeys_add_spec() -> bool {
        true
    }

    open spec fn add_req(self, rhs: Self) -> bool {
        true
    }

    open spec fn add_spec(self, rhs: Self) -> TransferStats {
        both(self, rhs)
    }
}

/// Two transfers count the same in either order, except where the sums do not fit and both have
/// the same number of bytes.
pub proof fn law_both_commutes(a: TransferStats, b: TransferStats)
    requires
        a.bytes != b.bytes || (a.bytes + b.bytes <= u64::MAX && a.time@ + b.time@ <= SPAN_MAX),
    ensures
        both(a, b) == both(b, a),
{
}

/// A transfer of nothing changes no other.
pub proof fn law_both_nothing(a: TransferStats)
    requires
        a.time@ <= SPAN_MAX,
    ensures
        both(a, nothing()) == a,
        both(nothing(), a) == a,
        rate(nothing()) == 0,
{
    broadcast use {crate::span::lemma_span_ext, crate::span::lemma_span_of};

    assert(span_of(0)@ == 0);
    assert(span_of(a.time@)@ == a.time@);
    assert(a.time@ + span_of(0)@ == a.time@);
    assert(span_of(0)@ + a.time@ == a.time@);
}

/// Transfers can be taken together in any grouping while the sums fit.
pub proof fn law_both_groups(a: TransferStats, b: TransferStats, c: TransferStats)
    requires
        a.bytes + b.bytes + c.bytes <= u64::MAX,
        a.time@ + b.time@ + c.time@ <= SPAN_MAX,
    ensures
        both(both(a, b), c) == both(a, both(b, c)),
        both(both(a, b), c).bytes == a.bytes + b.bytes + c.bytes,
        both(both(a, b), c).time@ == a.time@ + b.time@ + c.time@,
{
    broadcast use {crate::span::lemma_span_ext, crate::span::lemma_span_of};

    assert(span_of(a.time@ + b.time@)@ == a.time@ + b.time@);
    assert(span_of(b.time@ + c.time@)@ == b.time@ + c.time@);
    assert((a.time@ + b.time@) + c.time@ == a.time@ + (b.time@ + c.time@));
    assert(span_of((a.time@ + b.time@) + c.time@)@ == a.time@ + b.time@ + c.time@);
}

/// A document that was made is read back as its body, but for the whitespace around it.
pub proof fn law_document_read_back(body: Seq<char>)
    ensures
        document_body(document_of(body)) == trimmed(body),
{
    let prolog = "<?xml version=\"1.0\" encoding=\"utf-8\"?>\n"@;
    reveal_strlit("<?xml version=\"1.0\" encoding=\"utf-8\"?>\n");
    reveal_strlit("<?xml");
    let head = prolog.take(38);
    let tail = seq!['\n'] + body;
    assert(prolog == head.push('\n'));
    assert(document_of(body) == head + tail);
    assert(trimmed_front(head + tail) == head + tail);
    crate::text::lemma_trimmed_back_concat(head, tail);
    assert(trimmed_back(head) == head);
    let rest = trimmed_back(tail);
    let found = trimmed(document_of(body));
    assert(found == head + rest);
    assert("<?xml"@.is_prefix_of(found)) by {
        assert("<?xml"@ =~= found.take(5));
    }
    assert(prolog_end(found, 0) == Some(36int)) by {
        assert forall|j: int| 0 <= j < 36 implies !(#[trigger] found[j] == '?' && found[j + 1]
            == '>') by {
            assert(found[j] == head[j]);
            assert(found[j + 1] == head[j + 1]);
        }
        lemma_prolog_end(found, 0, 36);
    }
    assert(found.skip(38) == rest);
    crate::text::lemma_trimmed_ends(tail);
    assert(tail.drop_first() == body);
    assert(trimmed_front(tail) == trimmed_front(body));
}

proof fn lemma_prolog_end(s: Seq<char>, i: int, end: int)
    requires
        0 <= i <= end,
        end + 1 < s.len(),
        s[end] == '?',
        s[end + 1] == '>',
        forall|j: int| i <= j < end ==> !(#[trigger] s[j] == '?' && s[j + 1] == '>'),
    ensures
        prolog_end(s, i) == Some(end),
    decreases end - i,
{
    if i < end {
        lemma_prolog_end(s, i + 1, end);
    }
}

// Downloads

/// What came in from the server.
pub struct Received {
    /// Where it came from in the end.
    pub url: String,
    /// All of its bytes.
    pub content: FileDigest,
    /// The time from the end of the transfer on to its start, if that comes later.
    pub elapsed: Option<TimeSpan>,
}

/// What a step of a download came to.
pub enum DownloadEvent {
    /// Whether there is a file already was looked up.
    Exists(Result<bool, String>),
    /// The digest of the file that is there was computed.
    Hashed(Result<[u8; 16], String>),
    /// The file that was there was deleted.
    Removed(Result<(), String>),
    /// The folder for the file was made.
    ParentReady(Result<(), String>),
    /// The file was fetched and written.
    Fetched(Result<Received, String>),
}

/// What is to be done next in a download.
pub enum DownloadAction {
    /// Compute the digest of the file that is there.
    HashExisting,
    /// Delete the file that is there, for the given reason.
    RemoveExisting(String),
    /// Make the folder for the file.
    CreateParent,
    /// Fetch the file.
    Fetch,
    /// Nothing; the download has come to this.
    Finish(Result<TransferStats, String>),
}

/// Whether a download ends in failure, with a message.
pub open spec fn fails_with(action: DownloadAction, message: Seq<char>) -> bool {
    action matches DownloadAction::Finish(Err(m)) && m@ == message
}

/// What a transfer counts for once the bytes are known to be right.
pub open spec fn counted(bytes: u64, elapsed: Option<TimeSpan>, stats: TransferStats) -> bool {
    match elapsed {
        Some(time) => stats == (TransferStats { bytes, time }),
        None => stats == nothing(),
    }
}

/// What a download comes to, once so many bytes with the given digest have come in from `url`.
pub fn finishDownload(
    md5Check: &str,
    url: &str,
    digest: &[u8; 16],
    bytes: u64,
    elapsed: Option<TimeSpan>,
) -> (r: Result<TransferStats, String>)
    ensures
        match r {
            Ok(stats) => hex(digest@) == md5Check@ && counted(bytes, elapsed, stats),
            Err(m) => hex(digest@) != md5Check@ && m@ == "Hashes do not match for "@ + url@,
        },
{
    match checkMd5(md5Check, url, digest) {
        Ok(_) => Ok(
            match elapsed {
                Some(time) => TransferStats { bytes, time },
                None => TransferStats::default(),
            },
        ),
        Err(m) => Err(m),
    }
}

/// Whether an event of the download of a file to `path`, whose digest is to be `check`, leads to
/// an action.
pub open spec fn download_led(
    path: Seq<char>,
    check: Seq<char>,
    event: DownloadEvent,
    action: DownloadAction,
) -> bool {
    match event {
        DownloadEvent::Exists(Ok(true)) => action is HashExisting,
        DownloadEvent::Exists(Ok(false)) => action is CreateParent,
        DownloadEvent::Exists(Err(e)) => fails_with(
            action,
            because("Could not check existence of "@ + path, e@),
        ),
        DownloadEvent::Hashed(Ok(digest)) => if hex(digest@) == check {
            action matches DownloadAction::Finish(Ok(stats)) && stats == nothing()
        } else {
            action matches DownloadAction::RemoveExisting(m) && m@ == "Hashes do not match for "@
                + path
        },
        DownloadEvent::Hashed(Err(e)) => action matches DownloadAction::RemoveExisting(m) && m@
            == because("Could not read file \""@ + path + "\""@, e@),
        DownloadEvent::Removed(Ok(_)) => action is CreateParent,
        DownloadEvent::Removed(Err(e)) => fails_with(
            action,
            because("Could not delete file \""@ + path + "\""@, e@),
        ),
        DownloadEvent::ParentReady(Ok(_)) => action is Fetch,
        DownloadEvent::ParentReady(Err(e)) => fails_with(
            action,
            "Could not create directory: "@ + path + " because "@ + e@,
        ),
        DownloadEvent::Fetched(Ok(got)) => if hex(md5_digest(got.content@)) == check {
            action matches DownloadAction::Finish(Ok(stats)) && counted(
                got.content@.len() as u64,
                got.elapsed,
                stats,
            )
        } else {
            fails_with(action, "Hashes do not match for "@ + got.url@)
        },
        DownloadEvent::Fetched(Err(e)) => fails_with(action, e@),
    }
}

/// What is to be done next in the download of a file to `path`, whose digest is to be `md5Check`.
pub fn downloadFile(path: &str, md5Check: &str, event: DownloadEvent) -> (r: DownloadAction)
    ensures
        download_led(path@, md5Check@, event, r),
{
    match event {
        DownloadEvent::Exists(Ok(there)) => if there {
            DownloadAction::HashExisting
        } else {
            DownloadAction::CreateParent
        },
        DownloadEvent::Exists(Err(e)) => DownloadAction::Finish(
            Err(messageBecause(glue("Could not check existence of ", path).as_str(), e.as_str())),
        ),
        DownloadEvent::Hashed(Ok(digest)) => match checkMd5(md5Check, path, &digest) {
            Ok(_) => DownloadAction::Finish(Ok(TransferStats::default())),
            Err(m) => DownloadAction::RemoveExisting(m),
        },
        DownloadEvent::Hashed(Err(e)) => DownloadAction::RemoveExisting(
            messageBecause(glue3("Could not read file \"", path, "\"").as_str(), e.as_str()),
        ),
        DownloadEvent::Removed(Ok(_)) => DownloadAction::CreateParent,
        DownloadEvent::Removed(Err(e)) => DownloadAction::Finish(
            Err(
                messageBecause(
                    glue3("Could not delete file \"", path, "\"").as_str(),
                    e.as_str(),
                ),
            ),
        ),
        DownloadEvent::ParentReady(Ok(_)) => DownloadAction::Fetch,
        DownloadEvent::ParentReady(Err(e)) => DownloadAction::Finish(
            Err(
                glue3(
                    glue("Could not create directory: ", path).as_str(),
                    " because ",
                    e.as_str(),
                ),
            ),
        ),
        DownloadEvent::Fetched(Ok(got)) => {
            let bytes: u64 = got.content.bytes();
            let digest = got.content.compute();
            DownloadAction::Finish(
                finishDownload(md5Check, got.url.as_str(), &digest, bytes, got.elapsed),
            )
        },
        DownloadEvent::Fetched(Err(e)) => DownloadAction::Finish(Err(e)),
    }
}

/// Whether an event is what an action comes to.
pub open spec fn answers(action: DownloadAction, event: DownloadEvent) -> bool {
    match action {
        DownloadAction::HashExisting => event is Hashed,
        DownloadAction::RemoveExisting(_) => event is Removed,
        DownloadAction::CreateParent => event is ParentReady,
        DownloadAction::Fetch => event is Fetched,
        DownloadAction::Finish(_) => false,
    }
}

/// How far a download is: its actions come in this order.
pub open spec fn action_order(action: DownloadAction) -> nat {
    match action {
        DownloadAction::HashExisting => 1,
        DownloadAction::RemoveExisting(_) => 2,
        DownloadAction::CreateParent => 3,
        DownloadAction::Fetch => 4,
        DownloadAction::Finish(_) => 5,
    }
}

/// A download never goes back, so it comes to its end.
pub proof fn law_download_ends(
    path: Seq<char>,
    check: Seq<char>,
    before: DownloadAction,
    event: DownloadEvent,
    after: DownloadAction,
)
    requires
        answers(before, event),
        download_led(path, check, event, after),
    ensures
        action_order(before) < action_order(after) <= 5,
{
}

/// A download that succeeds has seen the digest that it wanted: that of the file which was there,
/// or that of the bytes which came in.
pub proof fn law_download_checked(
    path: Seq<char>,
    check: Seq<char>,
    event: DownloadEvent,
    action: DownloadAction,
)
    requires
        download_led(path, check, event, action),
        action is Finish,
        action->Finish_0 is Ok,
    ensures
        match event {
            DownloadEvent::Hashed(Ok(digest)) => hex(digest@) == check,
            DownloadEvent::Fetched(Ok(got)) => hex(md5_digest(got.content@)) == check,
            _ => false,
        },
{
}

/// The transfers of a list taken together, in order.
pub open spec fn all_of(list: Seq<TransferStats>) -> TransferStats
    decreases list.len(),
{
    if list.len() == 0 {
        nothing()
    } else {
        both(all_of(list.drop_last()), list.last())
    }
}

/// The transfers of a list that has no failures.
pub open spec fn successes(results: Seq<Result<TransferStats, String>>) -> Seq<TransferStats> {
    results.map_values(|res: Result<TransferStats, String>| res->Ok_0)
}

/// Whether a result is what the downloads of a scene's parts come to.
pub open spec fn scene_downloaded(
    results: Seq<Result<TransferStats, String>>,
    result: Result<TransferStats, String>,
) -> bool {
    match result {
        Ok(stats) => {
            &&& forall|i: int| 0 <= i < results.len() ==> (#[trigger] results[i]) is Ok
            &&& stats == all_of(successes(results))
        },
        Err(m) => exists|i: int|
            0 <= i < results.len() && #[trigger] results[i] == Err::<TransferStats, String>(m)
                && forall|j: int| 0 <= j < i ==> (#[trigger] results[j]) is Ok,
    }
}

/// Whether a result is what the two downloads of a job come to.
pub open spec fn job_downloaded(
    scene: Result<TransferStats, String>,
    executable: Result<TransferStats, String>,
    result: Result<TransferStats, String>,
) -> bool {
    match result {
        Ok(stats) => scene is Ok && executable is Ok && stats == both(scene->Ok_0, executable->Ok_0),
        Err(m) => executable == Err::<TransferStats, String>(m) || (executable is Ok && scene
            == Err::<TransferStats, String>(m)),
    }
}

/// The transfers of a scene's parts taken together; the first failure, if there is one.
pub fn downloadScene(results: Vec<Result<TransferStats, String>>) -> (r: Result<
    TransferStats,
    String,
>)
    ensures
        scene_downloaded(results@, r),
{
    let mut stats = TransferStats::default();
    let ghost oks = successes(results@);
    let mut i: usize = 0;
    while i < results.len()
        invariant
            i <= results@.len(),
            oks == successes(results@),
            stats == all_of(oks.take(i as int)),
            forall|j: int| 0 <= j < i ==> (#[trigger] results@[j]) is Ok,
        decreases results@.len() - i,
    {
        match &results[i] {
            Ok(s) => {
                stats = stats + *s;
                assert(oks.take(i as int + 1).drop_last() == oks.take(i as int));
                assert(oks.take(i as int + 1).last() == *s);
            },
            Err(m) => return Err(m.clone()),
        }
        i += 1;
    }
    assert(oks.take(oks.len() as int) == oks);
    Ok(stats)
}

/// The two downloads of a job taken together; the later failure, if there is one.
pub fn downloadJobFiles(
    scene: Result<TransferStats, String>,
    executable: Result<TransferStats, String>,
) -> (r: Result<TransferStats, String>)
    ensures
        job_downloaded(scene, executable, r),
{
    match executable {
        Err(m) => Err(m),
        Ok(executable) => match scene {
            Err(m) => Err(m),
            Ok(scene) => Ok(scene + executable),
        },
    }
}

// What transfers are for

/// The rate is the greatest number of bytes for each whole second that makes no more than the bytes
/// there are; a transfer of less than a second has none.
pub proof fn law_rate(stats: TransferStats)
    ensures
        stats.time@ < 1000000000 ==> rate(stats) == 0,
        stats.time@ >= 1000000000 ==> rate(stats) * (stats.time@ / 1000000000) <= stats.bytes
            < (rate(stats) + 1) * (stats.time@ / 1000000000),
{
    let secs = stats.time@ / 1000000000;
    if stats.time@ >= 1000000000 {
        let bytes = stats.bytes as nat;
        let q = bytes / secs;
        assert(q * secs <= bytes < (q + 1) * secs) by (nonlinear_arith)
            requires
                q == bytes / secs,
                secs > 0,
        ;
        assert(q <= bytes) by (nonlinear_arith)
            requires
                q * secs <= bytes,
                secs >= 1,
        ;
    }
}

/// Two transfers together have the bytes of both and took the time of both. Where either sum does not
/// fit, the one with fewer bytes stands for both.
pub proof fn law_both_sums(a: TransferStats, b: TransferStats)
    ensures
        a.bytes + b.bytes <= u64::MAX && a.time@ + b.time@ <= SPAN_MAX ==> both(a, b).bytes
            == a.bytes + b.bytes && both(a, b).time@ == a.time@ + b.time@,
        !(a.bytes + b.bytes <= u64::MAX && a.time@ + b.time@ <= SPAN_MAX) ==> (both(a, b) == a
            || both(a, b) == b) && both(a, b).bytes <= a.bytes && both(a, b).bytes <= b.bytes && (
        a.bytes == b.bytes ==> both(a, b) == a),
{
    broadcast use crate::span::lemma_span_of;

    if a.time@ + b.time@ <= SPAN_MAX {
        assert(span_of(a.time@ + b.time@)@ == a.time@ + b.time@);
    }
}

/// The bytes of some transfers.
pub open spec fn bytes_of(list: Seq<TransferStats>) -> nat
    decreases list.len(),
{
    if list.len() == 0 {
        0
    } else {
        bytes_of(list.skip(1)) + list[0].bytes as nat
    }
}

/// The time of some transfers.
pub open spec fn time_of(list: Seq<TransferStats>) -> nat
    decreases list.len(),
{
    if list.len() == 0 {
        0
    } else {
        time_of(list.skip(1)) + list[0].time@
    }
}

proof fn lemma_sums_last(list: Seq<TransferStats>)
    requires
        list.len() > 0,
    ensures
        bytes_of(list) == bytes_of(list.drop_last()) + list.last().bytes,
        time_of(list) == time_of(list.drop_last()) + list.last().time@,
    decreases list.len(),
{
    if list.len() > 1 {
        lemma_sums_last(list.skip(1));
        assert(list.skip(1).drop_last() == list.drop_last().skip(1));
        assert(list.drop_last()[0] == list[0]);
        assert(list.skip(1).last() == list.last());
    } else {
        assert(list.skip(1) == list.drop_last());
        assert(bytes_of(list.drop_last()) == 0);
        assert(time_of(list.drop_last()) == 0);
    }
}

/// Some transfers together have the bytes of all and took the time of all, while the sums fit.
pub proof fn law_all_sums(list: Seq<TransferStats>)
    requires
        bytes_of(list) <= u64::MAX,
        time_of(list) <= SPAN_MAX,
    ensures
        all_of(list).bytes == bytes_of(list),
        all_of(list).time@ == time_of(list),
    decreases list.len(),
{
    broadcast use crate::span::lemma_span_of;

    if list.len() > 0 {
        lemma_sums_last(list);
        law_all_sums(list.drop_last());
        law_both_sums(all_of(list.drop_last()), list.last());
    } else {
        assert(span_of(0)@ == 0);
    }
}

/// A scene is there exactly if all its parts are; then the bytes of all of them were transferred. If
/// one is not, the first that failed says why.
pub proof fn law_scene_downloaded(
    results: Seq<Result<TransferStats, String>>,
    result: Result<TransferStats, String>,
)
    requires
        scene_downloaded(results, result),
    ensures
        result is Ok <==> forall|i: int| 0 <= i < results.len() ==> (#[trigger] results[i]) is Ok,
        result matches Ok(stats) && bytes_of(successes(results)) <= u64::MAX && time_of(
            successes(results),
        ) <= SPAN_MAX ==> result->Ok_0.bytes == bytes_of(successes(results)),
        results.len() > 0 && results[0] is Err ==> result == Err::<TransferStats, String>(
            results[0]->Err_0,
        ),
{
    if let Ok(stats) = result {
        if bytes_of(successes(results)) <= u64::MAX && time_of(successes(results)) <= SPAN_MAX {
            law_all_sums(successes(results));
        }
    }
}

/// A job has its files exactly if both its scene and its renderer are there. If the renderer is not,
/// that is why; else the scene is.
pub proof fn law_job_downloaded(
    scene: Result<TransferStats, String>,
    executable: Result<TransferStats, String>,
    result: Result<TransferStats, String>,
)
    requires
        job_downloaded(scene, executable, result),
    ensures
        result is Ok <==> scene is Ok && executable is Ok,
        executable matches Err(e) ==> result == Err::<TransferStats, String>(e),
        executable is Ok && scene is Err ==> result == Err::<TransferStats, String>(scene->Err_0),
        result matches Ok(stats) && scene->Ok_0.bytes + executable->Ok_0.bytes <= u64::MAX
            && scene->Ok_0.time@ + executable->Ok_0.time@ <= SPAN_MAX ==> result->Ok_0.bytes
            == scene->Ok_0.bytes + executable->Ok_0.bytes,
{
    if let Ok(stats) = result {
        law_both_sums(scene->Ok_0, executable->Ok_0);
    }
}

/// A file that is there with the right digest is not fetched, and counts for nothing; one with the
/// wrong digest, or that cannot be read, makes room for a new one. A file that is not there is
/// fetched.
pub proof fn law_download_decides(
    path: Seq<char>,
    check: Seq<char>,
    event: DownloadEvent,
    action: DownloadAction,
)
    requires
        download_led(path, check, event, action),
    ensures
        event matches DownloadEvent::Exists(Ok(there)) ==> {
            &&& action is HashExisting <==> event->Exists_0->Ok_0
            &&& action is CreateParent <==> !event->Exists_0->Ok_0
        },
        event matches DownloadEvent::Hashed(Ok(digest)) ==> {
            let right = hex(event->Hashed_0->Ok_0@) == check;
            &&& right <==> (action matches DownloadAction::Finish(result) && result is Ok)
            &&& !right <==> action is RemoveExisting
            &&& right ==> action->Finish_0->Ok_0.bytes == 0
        },
        event matches DownloadEvent::Hashed(Err(_)) ==> action is RemoveExisting,
        event matches DownloadEvent::Removed(Ok(_)) ==> action is CreateParent,
        event matches DownloadEvent::ParentReady(Ok(_)) ==> action is Fetch,
        event matches DownloadEvent::Exists(Err(_)) ==> failed(action),
        event matches DownloadEvent::Removed(Err(_)) ==> failed(action),
        event matches DownloadEvent::ParentReady(Err(_)) ==> failed(action),
        event matches DownloadEvent::Fetched(Err(_)) ==> failed(action),
{
}

/// Whether a download has failed.
pub open spec fn failed(action: DownloadAction) -> bool {
    action matches DownloadAction::Finish(result) && result is Err
}

/// What was fetched will do exactly if it has the right digest. Then all its bytes count, for the
/// time that was measured; where none was, nothing counts.
pub proof fn law_fetched(
    path: Seq<char>,
    check: Seq<char>,
    got: Received,
    action: DownloadAction,
)
    requires
        download_led(path, check, DownloadEvent::Fetched(Ok(got)), action),
        got.content@.len() <= u64::MAX,
    ensures
        ({
            let right = hex(md5_digest(got.content@)) == check;
            &&& right <==> (action matches DownloadAction::Finish(result) && result is Ok)
            &&& !right <==> failed(action)
            &&& right && got.elapsed is Some ==> action->Finish_0->Ok_0.bytes
                == got.content@.len() && action->Finish_0->Ok_0.time@ == got.elapsed->0@
            &&& right && got.elapsed is None ==> action->Finish_0->Ok_0.bytes == 0
        }),
{
}

/// Where no content type is required any will do, and none too. Where one is required, a document
/// without a type will not do; one of that type will, with parameters behind it or without.
pub proof fn law_types_accepted(required: Seq<char>, rest: Seq<char>, header: Option<Seq<char>>)
    requires
        !required.contains(';'),
        trimmed(required) == required,
    ensures
        type_accepted(None, header),
        !type_accepted(Some(required), None),
        type_accepted(Some(required), Some(required)),
        type_accepted(Some(required), Some(required + seq![';'] + rest)),
{
    lemma_pieces_start(required, ';', Seq::empty());
    lemma_pieces_start(required, ';', seq![';'] + rest);
    assert(required + Seq::<char>::empty() == required);
    assert(required + (seq![';'] + rest) == required + seq![';'] + rest);
    assert(trimmed(pieces(required, ';')[0]) == required);
    assert(trimmed(pieces(required + seq![';'] + rest, ';')[0]) == required);
}

/// The first piece is all that stands before the first separator.
proof fn lemma_pieces_start(s: Seq<char>, sep: char, rest: Seq<char>)
    requires
        !s.contains(sep),
        rest.len() > 0 ==> rest[0] == sep,
    ensures
        pieces(s + rest, sep).len() >= 1,
        pieces(s + rest, sep)[0] == s,
        rest.len() == 0 ==> pieces(s + rest, sep).len() == 1,
        rest.len() > 0 ==> pieces(s + rest, sep).len() >= 2,
    decreases rest.len(), s.len(),
{
    let all = s + rest;
    if rest.len() > 0 {
        lemma_pieces_start(s, sep, rest.drop_last());
        assert(all.drop_last() == s + rest.drop_last());
        assert(all.last() == rest.last());
    } else if s.len() > 0 {
        let init = s.drop_last();
        assert forall|i: int| 0 <= i < init.len() implies init[i] != sep by {
            assert(s[i] != sep);
        }
        lemma_pieces_start(init, sep, Seq::empty());
        assert(all == s);
        assert(all.drop_last() == init + Seq::<char>::empty());
        assert(s[s.len() - 1] != sep);
        assert(pieces(all, sep)[0] == init.push(s.last()));
        assert(init.push(s.last()) == s);
    } else {
        assert(all.len() == 0);
        assert(pieces(all, sep)[0] == s);
    }
}

/// A type will do only if one of the parts between semicolons is that type.
pub proof fn law_types_refused(required: Seq<char>, header: Seq<char>)
    ensures
        type_accepted(Some(required), Some(header)) <==> exists|i: int|
            0 <= i < pieces(header, ';').len() && trimmed(#[trigger] pieces(header, ';')[i])
                == required,
{
}

/// A document without a prolog is its own body, but for the whitespace around it.
pub proof fn law_no_prolog(xml: Seq<char>)
    requires
        trimmed(xml).len() > 1 ==> trimmed(xml)[1] != '?',
    ensures
        document_body(xml) == trimmed(xml),
{
    reveal_strlit("<?xml");
    let body = trimmed(xml);
    if "<?xml"@.is_prefix_of(body) {
        assert("<?xml"@[1] == body[1]);
    }
}

} // verus!
