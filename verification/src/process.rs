//! The renderer's process: how it is started, and what its output tells.

use vstd::prelude::*;

use crate::conf::{ClientConfig, renderer_path, scene_path};
use crate::defs::POST_LOAD_NOTIFICATION;
use crate::job::Job;
use crate::number::{
    decimal, digits, law_read_back, law_read_back_signed, read_i32, read_nat, readI32,
    signed_digits,
};
use crate::outside::{capture_views, regex_captures, regexCaptures};
use crate::paths::PathPieces;
use crate::server_con::ServerConnection;
use crate::span::TimeSpan;
use crate::text::{glue, joined, law_joined, pieces, split, strEq, trim, trimmed, views};
use crate::utils::blend_exe;

verus! {

// Starting

/// A script that hides everything before the scene is loaded.
pub const PRE_LOAD_SCRIPT: &'static str = "import bpy
import sys
from bpy.app.handlers import persistent
@persistent
def hide_stuff(hide_dummy):
\tprint('PRE_LOAD_SCRIPT_hide_viewport')
\t#Hide collections in the viewport
\tfor col in bpy.data.collections:
\t\tcol.hide_viewport = True
\tfor obj in bpy.data.objects:
\t\t#Hide objects in the viewport
\t\tobj.hide_viewport = True
\t\t#Hide modifier in the viewport
\t\tfor mod in obj.modifiers:
\t\t\tmod.show_viewport = False
\tsys.stdout.flush()
bpy.app.handlers.version_update.append(hide_stuff)
";

/// The start of the script that tells when the scene is loaded.
pub const NOTIFY_HEAD: &'static str = "import sys\nprint('";

/// The end of the script that tells when the scene is loaded.
pub const NOTIFY_TAIL: &'static str = "')\nsys.stdout.flush()\n";

/// A script that chooses what renders.
pub const DEVICE_SCRIPT: &'static str =
    "sheepit_set_compute_device(\"NONE\", \"CPU\", \"CPU\")\n";

/// A script that keeps an interrupt from ending the renderer.
pub const SIGNAL_SCRIPT: &'static str =
    "import signal\ndef hndl(signum, frame):\n\tpass\n\t\nsignal.signal(signal.SIGINT, hndl)\n";

/// A word of a command: a text, or a path.
#[derive(Debug)]
pub enum Word {
    Text(String),
    Path(PathPieces),
}

/// What a word of a command is.
pub enum WordView {
    Text(Seq<char>),
    Path(Seq<Seq<char>>),
}

impl View for Word {
    type V = WordView;

    open spec fn view(&self) -> WordView {
        match self {
            Word::Text(s) => WordView::Text(s@),
            Word::Path(p) => WordView::Path(p@),
        }
    }
}

/// A script that is to be written before the renderer starts, and deleted when it is done.
#[derive(Debug)]
pub struct ScriptFile {
    pub path: PathPieces,
    pub content: String,
}

/// What a script is, and where.
pub struct ScriptView {
    pub path: Seq<Seq<char>>,
    pub content: Seq<char>,
}

impl View for ScriptFile {
    type V = ScriptView;

    open spec fn view(&self) -> ScriptView {
        ScriptView { path: self.path@, content: self.content@ }
    }
}

/// A command: its program, the variables and the words that it is given, and the scripts that it
/// needs.
#[derive(Debug)]
pub struct CommandPlan {
    pub program: PathPieces,
    pub env: Vec<(String, Word)>,
    pub args: Vec<Word>,
    pub files: Vec<ScriptFile>,
}

/// What the words of a list are.
pub open spec fn word_views(list: Seq<Word>) -> Seq<WordView> {
    list.map_values(|w: Word| w@)
}

/// What the scripts of a list are.
pub open spec fn script_views(list: Seq<ScriptFile>) -> Seq<ScriptView> {
    list.map_values(|s: ScriptFile| s@)
}

/// What the variables of a list are.
pub open spec fn env_views(list: Seq<(String, Word)>) -> Seq<(Seq<char>, WordView)> {
    list.map_values(|e: (String, Word)| (e.0@, e.1@))
}

/// Where the script that is run before the scene is loaded goes.
pub open spec fn pre_load_path(conf: ClientConfig) -> Seq<Seq<char>> {
    seq![conf.workPath@, "pre_load_script.py"@]
}

/// Where the script that is run after the scene is loaded goes.
pub open spec fn post_load_path(conf: ClientConfig) -> Seq<Seq<char>> {
    seq![conf.workPath@, "post_load_script.py"@]
}

/// The script that is run after the scene is loaded: the job's own, then the word that the scene
/// is loaded, the choice of what renders, and the handling of interrupts.
pub open spec fn post_load_script(job: Job) -> Seq<char> {
    job.info.script@ + "\n"@ + NOTIFY_HEAD@ + POST_LOAD_NOTIFICATION@ + NOTIFY_TAIL@ + "\n"@
        + DEVICE_SCRIPT@ + "\n"@ + SIGNAL_SCRIPT@ + "\n"@
}

/// The words that a word of the server's command line stands for.
pub open spec fn expanded(token: Seq<char>, job: Job, conf: ClientConfig) -> Seq<WordView> {
    if token == ""@ {
        Seq::empty()
    } else if token == ".c"@ {
        seq![
            WordView::Text("-P"@),
            WordView::Path(pre_load_path(conf)),
            WordView::Path(seq![conf.workPath@, job.info.id@, job.info.path@]),
            WordView::Text("-P"@),
            WordView::Path(post_load_path(conf)),
        ]
    } else if token == ".e"@ {
        seq![WordView::Text("-t"@), WordView::Text(digits(job.conf.cores as nat))]
    } else if token == ".o"@ {
        seq![WordView::Path(seq![conf.workPath@, job.info.id@ + "_"@])]
    } else if token == ".f"@ {
        seq![WordView::Text(job.info.frameNumber@)]
    } else {
        seq![WordView::Text(token)]
    }
}

/// The scripts that a word of the server's command line asks for.
pub open spec fn scripts_for(token: Seq<char>, job: Job, conf: ClientConfig) -> Seq<ScriptView> {
    if token == ".c"@ {
        seq![
            ScriptView { path: pre_load_path(conf), content: PRE_LOAD_SCRIPT@ + "\n"@ },
            ScriptView { path: post_load_path(conf), content: post_load_script(job) },
        ]
    } else {
        Seq::empty()
    }
}

/// The words that those of the server's command line stand for, in order.
pub open spec fn all_expanded(tokens: Seq<Seq<char>>, job: Job, conf: ClientConfig) -> Seq<WordView>
    decreases tokens.len(),
{
    if tokens.len() == 0 {
        Seq::empty()
    } else {
        all_expanded(tokens.drop_last(), job, conf) + expanded(tokens.last(), job, conf)
    }
}

/// The scripts that the words of the server's command line ask for, in order.
pub open spec fn all_scripts(tokens: Seq<Seq<char>>, job: Job, conf: ClientConfig) -> Seq<ScriptView>
    decreases tokens.len(),
{
    if tokens.len() == 0 {
        Seq::empty()
    } else {
        all_scripts(tokens.drop_last(), job, conf) + scripts_for(tokens.last(), job, conf)
    }
}

/// The variables that the renderer is given.
pub open spec fn environment(job: Job, conf: ClientConfig, ldLibraryPath: Seq<char>) -> Seq<
    (Seq<char>, WordView),
> {
    let temp = WordView::Path(seq![conf.workPath@, "temp"@]);
    seq![
        ("BLENDER_USER_RESOURCES"@, WordView::Text(""@)),
        ("BLENDER_USER_CONFIG"@, WordView::Text(""@)),
        ("BLENDER_USER_SCRIPTS"@, WordView::Text(""@)),
        ("BLENDER_USER_DATAFILES"@, WordView::Text(""@)),
        ("BLENDER_SYSTEM_RESOURCES"@, WordView::Text(""@)),
        ("BLENDER_SYSTEM_SCRIPTS"@, WordView::Text(""@)),
        ("BLENDER_SYSTEM_DATAFILES"@, WordView::Text(""@)),
        ("BLENDER_SYSTEM_PYTHON"@, WordView::Text(""@)),
        ("OCIO"@, WordView::Text(""@)),
        ("TEMP"@, temp),
        ("TMP"@, temp),
        ("CORES"@, WordView::Text(digits(job.conf.cores as nat))),
        (
            "LD_LIBRARY_PATH"@,
            WordView::Path(
                seq![conf.workPath@, job.info.rendererInfo.md5@, "lib:"@, ldLibraryPath],
            ),
        ),
    ]
}

fn pushWord(list: &mut Vec<Word>, word: Word)
    ensures
        word_views(final(list)@) == word_views(old(list)@).push(word@),
{
    let ghost before = word_views(list@);
    list.push(word);
    assert(word_views(list@) == before.push(word@));
}

fn pushText(list: &mut Vec<Word>, text: &str)
    ensures
        word_views(final(list)@) == word_views(old(list)@).push(WordView::Text(text@)),
{
    pushWord(list, Word::Text(text.to_owned()));
}

fn pushScript(list: &mut Vec<ScriptFile>, script: ScriptFile)
    ensures
        script_views(final(list)@) == script_views(old(list)@).push(script@),
{
    let ghost before = script_views(list@);
    list.push(script);
    assert(script_views(list@) == before.push(script@));
}

fn pushEnv(list: &mut Vec<(String, Word)>, name: &str, value: Word)
    ensures
        env_views(final(list)@) == env_views(old(list)@).push((name@, value@)),
{
    let ghost before = env_views(list@);
    list.push((name.to_owned(), value));
    assert(env_views(list@) == before.push((name@, value@)));
}

fn noText() -> (r: Word)
    ensures
        r@ == WordView::Text(""@),
{
    Word::Text("".to_owned())
}

fn makeEnvironment(job: &Job, conf: &ClientConfig, ldLibraryPath: &str) -> (r: Vec<(String, Word)>)
    ensures
        env_views(r@) == environment(*job, *conf, ldLibraryPath@),
{
    let mut env: Vec<(String, Word)> = Vec::new();
    pushEnv(&mut env, "BLENDER_USER_RESOURCES", noText());
    pushEnv(&mut env, "BLENDER_USER_CONFIG", noText());
    pushEnv(&mut env, "BLENDER_USER_SCRIPTS", noText());
    pushEnv(&mut env, "BLENDER_USER_DATAFILES", noText());
    pushEnv(&mut env, "BLENDER_SYSTEM_RESOURCES", noText());
    pushEnv(&mut env, "BLENDER_SYSTEM_SCRIPTS", noText());
    pushEnv(&mut env, "BLENDER_SYSTEM_DATAFILES", noText());
    pushEnv(&mut env, "BLENDER_SYSTEM_PYTHON", noText());
    pushEnv(&mut env, "OCIO", noText());
    pushEnv(&mut env, "TEMP", Word::Path(conf.tmpDir()));
    pushEnv(&mut env, "TMP", Word::Path(conf.tmpDir()));
    pushEnv(&mut env, "CORES", Word::Text(decimal(job.conf.cores as u64)));
    let libs = conf.rendererPath(&job.info).join("lib:").join(ldLibraryPath);
    assert(libs@ == seq![conf.workPath@, job.info.rendererInfo.md5@, "lib:"@, ldLibraryPath@]);
    pushEnv(&mut env, "LD_LIBRARY_PATH", Word::Path(libs));
    assert(env_views(env@) == environment(*job, *conf, ldLibraryPath@));
    env
}

fn postLoadScript(job: &Job) -> (r: String)
    ensures
        r@ == post_load_script(*job),
{
    let mut text = glue(job.info.script.as_str(), "\n");
    text.append(NOTIFY_HEAD);
    text.append(POST_LOAD_NOTIFICATION);
    text.append(NOTIFY_TAIL);
    text.append("\n");
    text.append(DEVICE_SCRIPT);
    text.append("\n");
    text.append(SIGNAL_SCRIPT);
    text.append("\n");
    text
}

/// The word that stands for the scene is none of the others.
proof fn lemma_scene_word()
    ensures
        ".c"@ != ""@,
        ".c"@ != ".e"@,
        ".c"@ != ".o"@,
        ".c"@ != ".f"@,
{
    reveal_strlit("");
    reveal_strlit(".c");
    reveal_strlit(".e");
    reveal_strlit(".o");
    reveal_strlit(".f");
    assert(".c"@.len() == 2 && ""@.len() == 0);
    assert(".c"@[1] == 'c' && ".e"@[1] == 'e' && ".o"@[1] == 'o' && ".f"@[1] == 'f');
}

fn expand(
    token: &str,
    job: &Job,
    conf: &ClientConfig,
    args: &mut Vec<Word>,
    files: &mut Vec<ScriptFile>,
)
    ensures
        word_views(final(args)@) == word_views(old(args)@) + expanded(token@, *job, *conf),
        script_views(final(files)@) == script_views(old(files)@) + scripts_for(token@, *job, *conf),
{
    let ghost args0 = word_views(args@);
    let ghost files0 = script_views(files@);
    proof {
        lemma_scene_word();
    }
    if strEq(token, "") {
    } else if strEq(token, ".c") {
        let pre = PathPieces::of(conf.workPath.as_str()).join("pre_load_script.py");
        let post = PathPieces::of(conf.workPath.as_str()).join("post_load_script.py");
        assert(pre@ == pre_load_path(*conf));
        assert(post@ == post_load_path(*conf));
        pushScript(
            files,
            ScriptFile { path: pre.clone(), content: glue(PRE_LOAD_SCRIPT, "\n") },
        );
        pushText(args, "-P");
        pushWord(args, Word::Path(pre));
        let scene = conf.scenePathBlend(&job.info);
        assert(scene@ == seq![conf.workPath@, job.info.id@, job.info.path@]);
        pushWord(args, Word::Path(scene));
        pushScript(files, ScriptFile { path: post.clone(), content: postLoadScript(job) });
        pushText(args, "-P");
        pushWord(args, Word::Path(post));
    } else if strEq(token, ".e") {
        pushText(args, "-t");
        pushText(args, decimal(job.conf.cores as u64).as_str());
    } else if strEq(token, ".o") {
        let output = PathPieces::of(conf.workPath.as_str()).join(
            glue(job.info.id.as_str(), "_").as_str(),
        );
        assert(output@ == seq![conf.workPath@, job.info.id@ + "_"@]);
        pushWord(args, Word::Path(output));
    } else if strEq(token, ".f") {
        pushText(args, job.info.frameNumber.as_str());
    } else {
        pushText(args, token);
    }
    assert(word_views(args@) == args0 + expanded(token@, *job, *conf));
    assert(script_views(files@) == files0 + scripts_for(token@, *job, *conf));
}

/// Whether a plan is the command that renders a job.
pub open spec fn is_command(
    job: Job,
    server: ServerConnection,
    ldLibraryPath: Seq<char>,
    plan: CommandPlan,
) -> bool {
    let tokens = pieces(job.info.rendererInfo.commandline@, ' ');
    &&& plan.program@ == seq![
        server.clientConf.workPath@,
        job.info.rendererInfo.md5@,
        blend_exe(server.platform),
    ]
    &&& env_views(plan.env@) == environment(job, server.clientConf, ldLibraryPath)
    &&& word_views(plan.args@) == all_expanded(tokens, job, server.clientConf)
    &&& script_views(plan.files@) == all_scripts(tokens, job, server.clientConf)
}

/// The command that renders a job. `ldLibraryPath` is the variable of that name, empty where
/// there is none.
pub fn createBlenderCommand(job: &Job, server: &ServerConnection, ldLibraryPath: &str) -> (r:
    CommandPlan)
    ensures
        is_command(*job, *server, ldLibraryPath@, r),
{
    let conf = &server.clientConf;
    let tokens = split(job.info.rendererInfo.commandline.as_str(), ' ');
    let ghost texts = pieces(job.info.rendererInfo.commandline@, ' ');
    let mut args: Vec<Word> = Vec::new();
    let mut files: Vec<ScriptFile> = Vec::new();
    let mut i: usize = 0;
    assert(word_views(args@) == all_expanded(texts.take(0), *job, *conf));
    assert(script_views(files@) == all_scripts(texts.take(0), *job, *conf));
    while i < tokens.len()
        invariant
            i <= tokens@.len(),
            views(tokens@) == texts,
            word_views(args@) == all_expanded(texts.take(i as int), *job, *conf),
            script_views(files@) == all_scripts(texts.take(i as int), *job, *conf),
        decreases tokens@.len() - i,
    {
        assert(texts.take(i as int + 1).drop_last() == texts.take(i as int));
        assert(texts.take(i as int + 1).last() == tokens@[i as int]@);
        expand(tokens[i].as_str(), job, conf, &mut args, &mut files);
        i += 1;
    }
    assert(texts.len() == tokens@.len());
    assert(texts.take(texts.len() as int) == texts);
    let program = conf.rendererPathExecutable(&job.info, server.platform);
    assert(program@ == seq![
        conf.workPath@,
        job.info.rendererInfo.md5@,
        blend_exe(server.platform),
    ]);
    CommandPlan {
        program,
        env: makeEnvironment(job, conf, ldLibraryPath),
        args,
        files,
    }
}

/// Whether a script is handed to the renderer: a flag, and behind it the script's path.
pub open spec fn handed_over(args: Seq<WordView>, script: ScriptView) -> bool {
    exists|k: int|
        0 <= k < args.len() - 1 && args[k] == WordView::Text("-P"@) && #[trigger] args[k + 1]
            == WordView::Path(script.path)
}

/// Every script that is written is handed to the renderer.
pub proof fn law_scripts_handed_over(
    tokens: Seq<Seq<char>>,
    job: Job,
    conf: ClientConfig,
    i: int,
)
    requires
        0 <= i < all_scripts(tokens, job, conf).len(),
    ensures
        handed_over(all_expanded(tokens, job, conf), all_scripts(tokens, job, conf)[i]),
    decreases tokens.len(),
{
    if tokens.len() > 0 {
        let before = all_scripts(tokens.drop_last(), job, conf);
        let words = all_expanded(tokens.drop_last(), job, conf);
        let more = expanded(tokens.last(), job, conf);
        let all = all_expanded(tokens, job, conf);
        if i < before.len() {
            law_scripts_handed_over(tokens.drop_last(), job, conf, i);
            let k = choose|k: int|
                0 <= k < words.len() - 1 && words[k] == WordView::Text("-P"@)
                    && #[trigger] words[k + 1] == WordView::Path(before[i].path);
            assert(all[k] == words[k]);
            assert(all[k + 1] == words[k + 1]);
        } else {
            lemma_scene_word();
            let n = words.len() as int;
            if i == before.len() {
                assert(all[n] == more[0]);
                assert(all[n + 1] == more[1]);
            } else {
                assert(all[n + 3] == more[3]);
                assert(all[n + 3 + 1] == more[4]);
            }
        }
    }
}

/// A command line that does not ask for the scene needs no scripts.
pub proof fn law_no_scene_no_scripts(tokens: Seq<Seq<char>>, job: Job, conf: ClientConfig)
    requires
        forall|i: int| 0 <= i < tokens.len() ==> #[trigger] tokens[i] != ".c"@,
    ensures
        all_scripts(tokens, job, conf).len() == 0,
    decreases tokens.len(),
{
    if tokens.len() > 0 {
        assert forall|i: int| 0 <= i < tokens.drop_last().len() implies
            #[trigger] tokens.drop_last()[i] != ".c"@ by {
            assert(tokens[i] != ".c"@);
        }
        law_no_scene_no_scripts(tokens.drop_last(), job, conf);
        assert(tokens[tokens.len() - 1] != ".c"@);
    }
}

// Watching

/// How the renderer fares.
#[derive(Debug, Clone, Copy, PartialEq, Eq, Structural)]
pub enum ProcStatus {
    Running,
    ExitedOk,
    Crashed,
    TookTooLong,
}

/// Which version the renderer says that it is.
#[derive(Debug, Clone)]
pub struct BlenderVersionStr {
    pub shortVersion: String,
    pub longVersion: String,
}

/// How many of its parts a frame has had rendered.
#[derive(Debug, Clone, Copy, PartialEq, Eq, Structural)]
pub struct Progress {
    pub done: i32,
    pub total: i32,
}

/// How fast the renderer was: so many samples in a time, which is given by the bits of a
/// single-precision number of seconds.
#[derive(Debug, Clone, Copy, PartialEq, Eq, Structural)]
pub struct SampleSpeed {
    pub amount: i32,
    pub durationBits: u32,
}

/// What is known of the renderer's process. Times are counted from the start of the client.
#[derive(Debug, Clone)]
pub struct BlendProcessInfo {
    pub prepStart: Option<TimeSpan>,
    pub renderStart: Option<TimeSpan>,
    pub compositStart: Option<TimeSpan>,
    pub status: ProcStatus,
    pub memUsage: u64,
    pub maxMemUsage: u64,
    pub blenderVersion: Option<BlenderVersionStr>,
    pub progress: Option<Progress>,
    pub speedSamplesRendered: Option<SampleSpeed>,
}

impl Default for BlendProcessInfo {
    fn default() -> (r: Self)
        ensures
            r.prepStart is None,
            r.renderStart is None,
            r.compositStart is None,
            r.status is Running,
            r.memUsage == 0,
            r.maxMemUsage == 0,
            r.blenderVersion is None,
            r.progress is None,
            r.speedSamplesRendered is None,
    {
        BlendProcessInfo {
            prepStart: None,
            renderStart: None,
            compositStart: None,
            status: ProcStatus::Running,
            memUsage: 0,
            maxMemUsage: 0,
            blenderVersion: None,
            progress: None,
            speedSamplesRendered: None,
        }
    }
}

/// The line with the renderer's version: the long one, and the short one in it.
pub const BLENDER_VERSION: &'static str = r"Blender (([0-9]{1,3}\.[0-9]{0,3}).*)$";

/// The lines that tell how far the renderer is.
pub const RENDER_PROGRESS: &'static str =
    r" (Rendered|Path Tracing Tile|Rendering|Sample) (\d+)\s?/\s?(\d+)( Tiles| samples|,)*";

/// The lines that tell that the frame is rendered, and being finished.
pub const BEGIN_POST_PROCESSING: &'static str =
    r"^Fra:\d* \w*(.)* \| (Compositing|Denoising|Finished)";

/// The line that tells how fast the renderer was.
pub const SAMPLE_SPEED: &'static str = r"^Rendered (\d+) samples in ([\d.]+) seconds$";

/// What a group of a match holds, if there is such a group and it took part.
pub open spec fn group(captures: Seq<Option<Seq<char>>>, i: int) -> Option<Seq<char>> {
    if 0 <= i < captures.len() {
        captures[i]
    } else {
        None
    }
}

/// The number that a group of a match holds, if it does.
pub open spec fn number_in(captures: Seq<Option<Seq<char>>>, i: int) -> Option<int> {
    match group(captures, i) {
        Some(text) => read_i32(text),
        None => None,
    }
}

/// The first time that something happened: `before` where it had happened before, else `now`
/// where it `happens`.
pub open spec fn first_time(
    before: Option<TimeSpan>,
    happens: bool,
    now: TimeSpan,
) -> Option<TimeSpan> {
    match before {
        Some(time) => Some(time),
        None => if happens {
            Some(now)
        } else {
            None
        },
    }
}

/// Whether a match tells how far the renderer is.
pub open spec fn tells_progress(captures: Option<Seq<Option<Seq<char>>>>) -> bool {
    match captures {
        Some(c) => number_in(c, 2) is Some && number_in(c, 3) is Some,
        None => false,
    }
}

/// Whether a match tells the version.
pub open spec fn tells_version(captures: Option<Seq<Option<Seq<char>>>>) -> bool {
    match captures {
        Some(c) => group(c, 1) is Some && group(c, 2) is Some,
        None => false,
    }
}

/// What the four patterns found in a line.
pub struct LineMatches {
    pub version: Option<Vec<Option<String>>>,
    pub progress: Option<Vec<Option<String>>>,
    pub postProcessing: bool,
    pub speed: Option<Vec<Option<String>>>,
}

/// What an optional match holds.
pub open spec fn match_view(captures: Option<Vec<Option<String>>>) -> Option<
    Seq<Option<Seq<char>>>,
> {
    match captures {
        Some(c) => Some(capture_views(c@)),
        None => None,
    }
}

/// Whether `after` is what is known of a process once a line with the given matches was seen.
pub open spec fn observed(
    before: BlendProcessInfo,
    after: BlendProcessInfo,
    line: Seq<char>,
    version: Option<Seq<Option<Seq<char>>>>,
    progress: Option<Seq<Option<Seq<char>>>>,
    postProcessing: bool,
    now: TimeSpan,
) -> bool {
    &&& after.prepStart == first_time(before.prepStart, line == POST_LOAD_NOTIFICATION@, now)
    &&& after.renderStart == first_time(before.renderStart, tells_progress(progress), now)
    &&& after.compositStart == first_time(before.compositStart, postProcessing, now)
    &&& after.status == before.status
    &&& after.memUsage == before.memUsage
    &&& after.maxMemUsage == before.maxMemUsage
    &&& if before.blenderVersion is None && tells_version(version) {
        &&& after.blenderVersion is Some
        &&& Some(after.blenderVersion->0.longVersion@) == group(version->0, 1)
        &&& Some(after.blenderVersion->0.shortVersion@) == group(version->0, 2)
    } else {
        after.blenderVersion == before.blenderVersion
    }
    &&& if tells_progress(progress) {
        &&& after.progress is Some
        &&& Some(after.progress->0.done as int) == number_in(progress->0, 2)
        &&& Some(after.progress->0.total as int) == number_in(progress->0, 3)
    } else {
        after.progress == before.progress
    }
    &&& after.speedSamplesRendered == before.speedSamplesRendered
}

/// Whether a result is what a line tells of the renderer's speed: a number of samples, and the
/// text of the time that they took.
pub open spec fn speed_told(
    captures: Option<Seq<Option<Seq<char>>>>,
    result: Option<(i32, String)>,
) -> bool {
    match result {
        Some(speed) => captures is Some && number_in(captures->0, 1) == Some(speed.0 as int)
            && group(captures->0, 2) == Some(speed.1@),
        None => captures is None || number_in(captures->0, 1) is None || group(
            captures->0,
            2,
        ) is None,
    }
}

/// How many matters a line tells of that are echoed: a version that was not known yet, that the
/// scene is loaded, how far the renderer is, and that the frame is being finished.
pub open spec fn echo_count(
    before: BlendProcessInfo,
    line: Seq<char>,
    version: Option<Seq<Option<Seq<char>>>>,
    progress: Option<Seq<Option<Seq<char>>>>,
    postProcessing: bool,
) -> int {
    one_if(before.blenderVersion is None && tells_version(version)) + one_if(
        line == POST_LOAD_NOTIFICATION@,
    ) + one_if(tells_progress(progress)) + one_if(postProcessing)
}

/// One where something holds, else none.
pub open spec fn one_if(holds: bool) -> int {
    if holds {
        1
    } else {
        0
    }
}

/// What is left to do with a line that was taken in.
#[derive(Debug)]
pub struct LineTold {
    /// How often the line is echoed.
    pub echoes: u32,
    /// What it tells of the renderer's speed: a number of samples, and the text of the time that
    /// they took.
    pub speed: Option<(i32, String)>,
}

/// A line of the renderer's output, as it is echoed.
pub open spec fn echo_of(line: Seq<char>) -> Seq<char> {
    "## "@ + trimmed(line)
}

/// A line of the renderer's output, as it is echoed.
pub fn echoOf(line: &str) -> (r: String)
    ensures
        r@ == echo_of(line@),
{
    glue("## ", trim(line).as_str())
}

fn groupOf(captures: &Vec<Option<String>>, i: usize) -> (r: Option<String>)
    ensures
        match r {
            Some(text) => group(capture_views(captures@), i as int) == Some(text@),
            None => group(capture_views(captures@), i as int) is None,
        },
{
    if i < captures.len() {
        assert(capture_views(captures@)[i as int] == crate::conf::text_view(captures@[i as int]));
        match &captures[i] {
            Some(text) => Some(text.clone()),
            None => None,
        }
    } else {
        None
    }
}

fn numberIn(captures: &Vec<Option<String>>, i: usize) -> (r: Option<i32>)
    ensures
        match r {
            Some(n) => number_in(capture_views(captures@), i as int) == Some(n as int),
            None => number_in(capture_views(captures@), i as int) is None,
        },
{
    match groupOf(captures, i) {
        Some(text) => readI32(text.as_str()),
        None => None,
    }
}

/// Takes in a line of the renderer's output in which the patterns found `matches`. What is
/// left to do with the line is given back.
pub fn observeMatches(
    info: &mut BlendProcessInfo,
    line: &str,
    matches: LineMatches,
    now: TimeSpan,
) -> (r: LineTold)
    ensures
        observed(
            *old(info),
            *final(info),
            line@,
            match_view(matches.version),
            match_view(matches.progress),
            matches.postProcessing,
            now,
        ),
        r.echoes == echo_count(
            *old(info),
            line@,
            match_view(matches.version),
            match_view(matches.progress),
            matches.postProcessing,
        ),
        speed_told(match_view(matches.speed), r.speed),
{
    let mut echoes: u32 = 0;
    if info.blenderVersion.is_none() {
        if let Some(captures) = &matches.version {
            let long = groupOf(captures, 1);
            let short = groupOf(captures, 2);
            if let Some(longVersion) = long {
                if let Some(shortVersion) = short {
                    info.blenderVersion = Some(BlenderVersionStr { shortVersion, longVersion });
                    echoes += 1;
                }
            }
        }
    }
    if strEq(line, POST_LOAD_NOTIFICATION) {
        if info.prepStart.is_none() {
            info.prepStart = Some(now);
        }
        echoes += 1;
    }
    if let Some(captures) = &matches.progress {
        let done = numberIn(captures, 2);
        let total = numberIn(captures, 3);
        if let Some(done) = done {
            if let Some(total) = total {
                if info.renderStart.is_none() {
                    info.renderStart = Some(now);
                }
                info.progress = Some(Progress { done, total });
                echoes += 1;
            }
        }
    }
    if matches.postProcessing {
        if info.compositStart.is_none() {
            info.compositStart = Some(now);
        }
        echoes += 1;
    }
    let speed = match &matches.speed {
        Some(captures) => match numberIn(captures, 1) {
            Some(amount) => match groupOf(captures, 2) {
                Some(duration) => Some((amount, duration)),
                None => None,
            },
            None => None,
        },
        None => None,
    };
    LineTold { echoes, speed }
}

/// Whether `after` is what is known of a process once a line was seen.
pub open spec fn line_observed(
    before: BlendProcessInfo,
    after: BlendProcessInfo,
    line: Seq<char>,
    now: TimeSpan,
) -> bool {
    observed(
        before,
        after,
        trimmed(line),
        regex_captures(BLENDER_VERSION@, trimmed(line)),
        regex_captures(RENDER_PROGRESS@, trimmed(line)),
        regex_captures(BEGIN_POST_PROCESSING@, trimmed(line)) is Some,
        now,
    )
}

/// Takes in a line of the renderer's output, at a time. What is left to do with the line is given
/// back.
pub fn observeBlendStdout(info: &mut BlendProcessInfo, line: &str, now: TimeSpan) -> (r: LineTold)
    ensures
        line_observed(*old(info), *final(info), line@, now),
        r.echoes == echo_count(
            *old(info),
            trimmed(line@),
            regex_captures(BLENDER_VERSION@, trimmed(line@)),
            regex_captures(RENDER_PROGRESS@, trimmed(line@)),
            regex_captures(BEGIN_POST_PROCESSING@, trimmed(line@)) is Some,
        ),
        speed_told(regex_captures(SAMPLE_SPEED@, trimmed(line@)), r.speed),
{
    let line = trim(line);
    let matches = LineMatches {
        version: regexCaptures(BLENDER_VERSION, line.as_str()),
        progress: regexCaptures(RENDER_PROGRESS, line.as_str()),
        postProcessing: regexCaptures(BEGIN_POST_PROCESSING, line.as_str()).is_some(),
        speed: regexCaptures(SAMPLE_SPEED, line.as_str()),
    };
    observeMatches(info, line.as_str(), matches, now)
}

/// Whether these are the bits of a time that is not zero.
pub open spec fn is_nonzero_time(durationBits: Option<u32>) -> bool {
    match durationBits {
        Some(bits) => bits != 0 && bits != 0x8000_0000,
        None => false,
    }
}

/// What is known of a process once so many samples took a time.
pub open spec fn speed_recorded(
    before: BlendProcessInfo,
    amount: i32,
    durationBits: Option<u32>,
) -> BlendProcessInfo {
    if is_nonzero_time(durationBits) {
        BlendProcessInfo {
            speedSamplesRendered: Some(SampleSpeed { amount, durationBits: durationBits->0 }),
            ..before
        }
    } else {
        before
    }
}

/// Takes in how fast the renderer was. `durationBits` are the bits of the time that the samples
/// took, if its text could be read; a time of zero tells nothing. Whether the line that told it is
/// echoed is given back.
pub fn recordSampleSpeed(
    info: &mut BlendProcessInfo,
    amount: i32,
    durationBits: Option<u32>,
) -> (r: bool)
    ensures
        r == is_nonzero_time(durationBits),
        *final(info) == speed_recorded(*old(info), amount, durationBits),
{
    if let Some(bits) = durationBits {
        if bits != 0 && bits != 0x8000_0000 {
            info.speedSamplesRendered = Some(SampleSpeed { amount, durationBits: bits });
            return true;
        }
    }
    false
}

/// A time that is known stays as it is, and so does the version; how the process fares and what
/// memory it uses are not for its output to tell.
pub proof fn law_first_times_stay(
    before: BlendProcessInfo,
    after: BlendProcessInfo,
    line: Seq<char>,
    version: Option<Seq<Option<Seq<char>>>>,
    progress: Option<Seq<Option<Seq<char>>>>,
    postProcessing: bool,
    now: TimeSpan,
)
    requires
        observed(before, after, line, version, progress, postProcessing, now),
    ensures
        before.prepStart is Some ==> after.prepStart == before.prepStart,
        before.renderStart is Some ==> after.renderStart == before.renderStart,
        before.compositStart is Some ==> after.compositStart == before.compositStart,
        before.blenderVersion is Some ==> after.blenderVersion == before.blenderVersion,
        before.progress is Some ==> after.progress is Some,
        after.status == before.status,
        after.memUsage == before.memUsage,
        after.maxMemUsage == before.maxMemUsage,
{
}

// What the command is for

/// Whether a word of the server's command line stands for something else.
pub open spec fn is_special(token: Seq<char>) -> bool {
    token == ".c"@ || token == ".e"@ || token == ".o"@ || token == ".f"@
}

/// A word of the server's command line that stands for nothing else is handed on as it is, and a
/// word without letters is not handed on at all.
pub proof fn law_plain_words_kept(token: Seq<char>, job: Job, conf: ClientConfig)
    requires
        !is_special(token),
    ensures
        token.len() > 0 ==> expanded(token, job, conf) == seq![WordView::Text(token)],
        token.len() == 0 ==> expanded(token, job, conf) == Seq::<WordView>::empty(),
        scripts_for(token, job, conf) == Seq::<ScriptView>::empty(),
{
    reveal_strlit("");
    if token.len() == 0 {
        assert(token == ""@);
    }
}

/// What comes of some words followed by others is what comes of the first and then of the others.
pub proof fn law_words_in_order(
    first: Seq<Seq<char>>,
    second: Seq<Seq<char>>,
    job: Job,
    conf: ClientConfig,
)
    ensures
        all_expanded(first + second, job, conf) == all_expanded(first, job, conf) + all_expanded(
            second,
            job,
            conf,
        ),
        all_scripts(first + second, job, conf) == all_scripts(first, job, conf) + all_scripts(
            second,
            job,
            conf,
        ),
    decreases second.len(),
{
    if second.len() > 0 {
        law_words_in_order(first, second.drop_last(), job, conf);
        assert((first + second).drop_last() == first + second.drop_last());
        assert((first + second).last() == second.last());
        assert(all_expanded(first + second, job, conf) == all_expanded(first, job, conf)
            + all_expanded(second, job, conf));
        assert(all_scripts(first + second, job, conf) == all_scripts(first, job, conf)
            + all_scripts(second, job, conf));
    } else {
        assert(first + second == first);
        assert(all_expanded(first, job, conf) + Seq::<WordView>::empty() == all_expanded(
            first,
            job,
            conf,
        ));
        assert(all_scripts(first, job, conf) + Seq::<ScriptView>::empty() == all_scripts(
            first,
            job,
            conf,
        ));
    }
}

/// A word of the server's command line that stands for nothing else is among the renderer's words,
/// behind what comes of the words before it and before what comes of those behind it.
pub proof fn law_plain_word_in_place(
    tokens: Seq<Seq<char>>,
    i: int,
    job: Job,
    conf: ClientConfig,
)
    requires
        0 <= i < tokens.len(),
        tokens[i].len() > 0,
        !is_special(tokens[i]),
    ensures
        all_expanded(tokens, job, conf) == all_expanded(tokens.take(i), job, conf) + seq![
            WordView::Text(tokens[i]),
        ] + all_expanded(tokens.skip(i + 1), job, conf),
{
    let one = seq![tokens[i]];
    assert(tokens == tokens.take(i) + one + tokens.skip(i + 1));
    law_words_in_order(tokens.take(i) + one, tokens.skip(i + 1), job, conf);
    law_words_in_order(tokens.take(i), one, job, conf);
    law_plain_words_kept(tokens[i], job, conf);
    reveal_with_fuel(all_expanded, 2);
    assert(one.drop_last() == Seq::<Seq<char>>::empty());
    assert(all_expanded(one, job, conf) == seq![WordView::Text(tokens[i])]);
}

/// Where no word of the server's command line stands for something else, the renderer gets them all,
/// in order, but for those without letters.
pub proof fn law_plain_command(tokens: Seq<Seq<char>>, job: Job, conf: ClientConfig)
    requires
        forall|i: int| 0 <= i < tokens.len() ==> !is_special(#[trigger] tokens[i]),
        forall|i: int| 0 <= i < tokens.len() ==> (#[trigger] tokens[i]).len() > 0,
    ensures
        all_expanded(tokens, job, conf) == tokens.map_values(|t: Seq<char>| WordView::Text(t)),
    decreases tokens.len(),
{
    if tokens.len() > 0 {
        let front = tokens.drop_last();
        assert forall|i: int| 0 <= i < front.len() implies !is_special(#[trigger] front[i]) by {
            assert(front[i] == tokens[i]);
        }
        assert forall|i: int| 0 <= i < front.len() implies (#[trigger] front[i]).len() > 0 by {
            assert(front[i] == tokens[i]);
        }
        law_plain_command(front, job, conf);
        law_plain_words_kept(tokens[tokens.len() - 1], job, conf);
        assert(tokens.map_values(|t: Seq<char>| WordView::Text(t)) == front.map_values(
            |t: Seq<char>| WordView::Text(t),
        ).push(WordView::Text(tokens.last())));
    } else {
        assert(tokens.map_values(|t: Seq<char>| WordView::Text(t)) == Seq::<WordView>::empty());
    }
}

/// The word for the frame stands for the number of the job's frame, and nothing else.
pub proof fn law_frame_word(job: Job, conf: ClientConfig)
    ensures
        expanded(".f"@, job, conf) == seq![WordView::Text(job.info.frameNumber@)],
{
    lemma_words_differ();
}

/// The word for the cores stands for a flag and a number, which is read as that of the cores that
/// the job may use.
pub proof fn law_cores_word(job: Job, conf: ClientConfig)
    ensures
        ({
            let words = expanded(".e"@, job, conf);
            &&& words.len() == 2
            &&& words[0] == WordView::Text("-t"@)
            &&& words[1] matches WordView::Text(number) && read_nat(number, u16::MAX as nat)
                == Some(job.conf.cores as nat)
        }),
{
    lemma_words_differ();
    law_read_back(job.conf.cores as nat, u16::MAX as nat);
}

/// The word for the output stands for a file in the working directory, whose name starts with that
/// of the job; behind it the renderer writes the number of the frame.
pub proof fn law_output_word(job: Job, conf: ClientConfig)
    ensures
        ({
            let words = expanded(".o"@, job, conf);
            &&& words.len() == 1
            &&& words[0] matches WordView::Path(path) && path.len() == 2 && path[0]
                == conf.workPath@ && path[1] + job.info.frameNumber@ + "."@
                == crate::render::output_prefix(job)
        }),
{
    lemma_words_differ();
}

/// The word for the scene stands for the scene's file, below the folder that the scene is unpacked
/// to, between the two scripts: each behind a flag, and each written before.
pub proof fn law_scene_word(job: Job, conf: ClientConfig)
    ensures
        ({
            let words = expanded(".c"@, job, conf);
            let scripts = scripts_for(".c"@, job, conf);
            &&& words.len() == 5
            &&& scripts.len() == 2
            &&& words[0] == WordView::Text("-P"@)
            &&& words[1] == WordView::Path(scripts[0].path)
            &&& words[2] matches WordView::Path(scene) && scene == scene_path(conf, job.info).push(
                job.info.path@,
            )
            &&& words[3] == WordView::Text("-P"@)
            &&& words[4] == WordView::Path(scripts[1].path)
            &&& scripts[0].path.len() == 2 && scripts[1].path.len() == 2
            &&& scripts[0].path[0] == conf.workPath@ && scripts[1].path[0] == conf.workPath@
            &&& scripts[0].path != scripts[1].path
        }),
{
    lemma_words_differ();
    reveal_strlit("pre_load_script.py");
    reveal_strlit("post_load_script.py");
    assert("pre_load_script.py"@.len() != "post_load_script.py"@.len());
    assert(pre_load_path(conf)[1] != post_load_path(conf)[1]);
    assert(scene_path(conf, job.info).push(job.info.path@) == seq![
        conf.workPath@,
        job.info.id@,
        job.info.path@,
    ]);
}

/// Whether one text stands in another.
pub open spec fn stands_in(part: Seq<char>, whole: Seq<char>) -> bool {
    exists|before: Seq<char>, after: Seq<char>| whole == #[trigger] (before + part + after)
}

/// The script before the scene starts with what hides everything. The script after it starts with the
/// job's own, and then prints a line which is the one that is watched for; behind that it chooses
/// what renders, and keeps interrupts away.
pub proof fn law_scripts_say(job: Job, conf: ClientConfig)
    ensures
        ({
            let scripts = scripts_for(".c"@, job, conf);
            let rest = scripts[1].content.skip(job.info.script@.len() as int);
            &&& PRE_LOAD_SCRIPT@.is_prefix_of(scripts[0].content)
            &&& job.info.script@.is_prefix_of(scripts[1].content)
            &&& stands_in("print('"@ + POST_LOAD_NOTIFICATION@ + "')\n"@, rest)
            &&& stands_in(DEVICE_SCRIPT@, rest)
            &&& stands_in(SIGNAL_SCRIPT@, rest)
        }),
{
    let own = job.info.script@;
    let scripts = scripts_for(".c"@, job, conf);
    let rest = scripts[1].content.skip(own.len() as int);
    let head = "\n"@ + NOTIFY_HEAD@ + POST_LOAD_NOTIFICATION@ + NOTIFY_TAIL@ + "\n"@;
    let tail = "\n"@ + SIGNAL_SCRIPT@ + "\n"@;
    assert(rest == head + DEVICE_SCRIPT@ + tail);
    assert(rest == (head + DEVICE_SCRIPT@ + "\n"@) + SIGNAL_SCRIPT@ + "\n"@);
    reveal_strlit("print('");
    reveal_strlit("import sys\nprint('");
    reveal_strlit("')\n");
    reveal_strlit("')\nsys.stdout.flush()\n");
    let lead = "\n"@ + NOTIFY_HEAD@.take(11);
    let end = NOTIFY_TAIL@.skip(3) + "\n"@ + DEVICE_SCRIPT@ + tail;
    assert(NOTIFY_HEAD@ == NOTIFY_HEAD@.take(11) + "print('"@);
    assert(NOTIFY_TAIL@ == "')\n"@ + NOTIFY_TAIL@.skip(3));
    assert(rest == lead + ("print('"@ + POST_LOAD_NOTIFICATION@ + "')\n"@) + end);
    assert(PRE_LOAD_SCRIPT@.is_prefix_of(scripts[0].content));
    assert(own.is_prefix_of(scripts[1].content));
}

/// The words that stand for something else differ, and none is empty.
proof fn lemma_words_differ()
    ensures
        ".c"@.len() == 2,
        ".e"@.len() == 2,
        ".o"@.len() == 2,
        ".f"@.len() == 2,
        ""@.len() == 0,
        ".c"@[1] == 'c',
        ".e"@[1] == 'e',
        ".o"@[1] == 'o',
        ".f"@[1] == 'f',
{
    reveal_strlit("");
    reveal_strlit(".c");
    reveal_strlit(".e");
    reveal_strlit(".o");
    reveal_strlit(".f");
}

// What the environment is for

/// The renderer finds nothing of a user's own settings: all the variables that would lead to them are
/// empty. Its temporary files go below the working directory, it is told the cores that the job may
/// use, and its libraries come before those of the system. No other variable is given.
pub proof fn law_environment(job: Job, conf: ClientConfig, ldLibraryPath: Seq<char>)
    ensures
        ({
            let env = environment(job, conf, ldLibraryPath);
            let none = WordView::Text(Seq::<char>::empty());
            &&& env.len() == 13
            &&& env.contains(("BLENDER_USER_RESOURCES"@, none))
            &&& env.contains(("BLENDER_USER_CONFIG"@, none))
            &&& env.contains(("BLENDER_USER_SCRIPTS"@, none))
            &&& env.contains(("BLENDER_USER_DATAFILES"@, none))
            &&& env.contains(("BLENDER_SYSTEM_RESOURCES"@, none))
            &&& env.contains(("BLENDER_SYSTEM_SCRIPTS"@, none))
            &&& env.contains(("BLENDER_SYSTEM_DATAFILES"@, none))
            &&& env.contains(("BLENDER_SYSTEM_PYTHON"@, none))
            &&& env.contains(("OCIO"@, none))
            &&& env.contains(("TEMP"@, WordView::Path(seq![conf.workPath@, "temp"@])))
            &&& env.contains(("TMP"@, WordView::Path(seq![conf.workPath@, "temp"@])))
            &&& env.contains(("CORES"@, expanded(".e"@, job, conf)[1]))
            &&& env.contains(
                (
                    "LD_LIBRARY_PATH"@,
                    WordView::Path(
                        renderer_path(conf, job.info) + seq!["lib:"@, ldLibraryPath],
                    ),
                ),
            )
        }),
{
    let env = environment(job, conf, ldLibraryPath);
    lemma_words_differ();
    assert(""@ == Seq::<char>::empty());
    let libs = renderer_path(conf, job.info) + seq!["lib:"@, ldLibraryPath];
    assert(libs == seq![conf.workPath@, job.info.rendererInfo.md5@, "lib:"@, ldLibraryPath]);
    let none = WordView::Text(Seq::<char>::empty());
    let temp = WordView::Path(seq![conf.workPath@, "temp"@]);
    assert(env[0] == ("BLENDER_USER_RESOURCES"@, none));
    assert(env[1] == ("BLENDER_USER_CONFIG"@, none));
    assert(env[2] == ("BLENDER_USER_SCRIPTS"@, none));
    assert(env[3] == ("BLENDER_USER_DATAFILES"@, none));
    assert(env[4] == ("BLENDER_SYSTEM_RESOURCES"@, none));
    assert(env[5] == ("BLENDER_SYSTEM_SCRIPTS"@, none));
    assert(env[6] == ("BLENDER_SYSTEM_DATAFILES"@, none));
    assert(env[7] == ("BLENDER_SYSTEM_PYTHON"@, none));
    assert(env[8] == ("OCIO"@, none));
    assert(env[9] == ("TEMP"@, temp));
    assert(env[10] == ("TMP"@, temp));
    assert(env[11] == ("CORES"@, expanded(".e"@, job, conf)[1]));
    assert(env[12] == ("LD_LIBRARY_PATH"@, WordView::Path(libs)));
}

// What watching is for

/// Whenever a line tells two numbers of parts, whatever their sizes, they are how far the renderer
/// is from then on, and rendering is known to have started: then, or before.
pub proof fn law_progress_told(
    before: BlendProcessInfo,
    after: BlendProcessInfo,
    line: Seq<char>,
    version: Option<Seq<Option<Seq<char>>>>,
    found: Seq<Option<Seq<char>>>,
    postProcessing: bool,
    now: TimeSpan,
    done: i32,
    total: i32,
)
    requires
        observed(before, after, line, version, Some(found), postProcessing, now),
        found.len() > 3,
        found[2] matches Some(text) && read_i32(text) == Some(done as int),
        found[3] matches Some(text) && read_i32(text) == Some(total as int),
    ensures
        after.progress == Some(Progress { done, total }),
        before.renderStart is None ==> after.renderStart == Some(now),
        before.renderStart is Some ==> after.renderStart == before.renderStart,
{
}

/// The numbers that a line tells may be written as any number is.
pub proof fn law_progress_read(done: i32, total: i32, found: Seq<Option<Seq<char>>>)
    requires
        found.len() > 3,
        found[2] == Some(signed_digits(done as int)),
        found[3] == Some(signed_digits(total as int)),
    ensures
        tells_progress(Some(found)),
        number_in(found, 2) == Some(done as int),
        number_in(found, 3) == Some(total as int),
{
    law_read_back_signed(done as int);
    law_read_back_signed(total as int);
}

/// A line that tells no two numbers of parts says nothing of how far the renderer is.
pub proof fn law_no_progress_told(
    before: BlendProcessInfo,
    after: BlendProcessInfo,
    line: Seq<char>,
    version: Option<Seq<Option<Seq<char>>>>,
    progress: Option<Seq<Option<Seq<char>>>>,
    postProcessing: bool,
    now: TimeSpan,
)
    requires
        observed(before, after, line, version, progress, postProcessing, now),
        progress matches Some(found) ==> found.len() <= 3 || found[2] is None || found[3] is None
            || read_i32(found[2]->0) is None || read_i32(found[3]->0) is None,
    ensures
        after.progress == before.progress,
        after.renderStart == before.renderStart,
{
}

/// The line that the script prints tells that the scene is loaded, the first time; a line that tells
/// of finishing does so, the first time; any other line tells neither.
pub proof fn law_times_told(
    before: BlendProcessInfo,
    after: BlendProcessInfo,
    line: Seq<char>,
    version: Option<Seq<Option<Seq<char>>>>,
    progress: Option<Seq<Option<Seq<char>>>>,
    postProcessing: bool,
    now: TimeSpan,
)
    requires
        observed(before, after, line, version, progress, postProcessing, now),
    ensures
        before.prepStart is None && line == POST_LOAD_NOTIFICATION@ ==> after.prepStart == Some(
            now,
        ),
        line != POST_LOAD_NOTIFICATION@ ==> after.prepStart == before.prepStart,
        before.compositStart is None && postProcessing ==> after.compositStart == Some(now),
        !postProcessing ==> after.compositStart == before.compositStart,
        after.speedSamplesRendered == before.speedSamplesRendered,
{
}

/// The first line that tells the version is believed, both of its forms.
pub proof fn law_version_told(
    before: BlendProcessInfo,
    after: BlendProcessInfo,
    line: Seq<char>,
    found: Seq<Option<Seq<char>>>,
    progress: Option<Seq<Option<Seq<char>>>>,
    postProcessing: bool,
    now: TimeSpan,
    long: Seq<char>,
    short: Seq<char>,
)
    requires
        observed(before, after, line, Some(found), progress, postProcessing, now),
        before.blenderVersion is None,
        found.len() > 2,
        found[1] == Some(long),
        found[2] == Some(short),
    ensures
        after.blenderVersion matches Some(told) && told.longVersion@ == long
            && told.shortVersion@ == short,
{
}

/// Whenever a line tells a number of samples and a text for the time, they are what is to be
/// recorded.
pub proof fn law_speed_told(
    found: Seq<Option<Seq<char>>>,
    amount: i32,
    duration: Seq<char>,
    result: Option<(i32, String)>,
)
    requires
        speed_told(Some(found), result),
        found.len() > 2,
        found[1] == Some(signed_digits(amount as int)),
        found[2] == Some(duration),
    ensures
        result matches Some(told) && told.0 == amount && told.1@ == duration,
{
    law_read_back_signed(amount as int);
}

/// A line is echoed once for each matter that it tells of: not at all where it tells of none, and at
/// most four times. A version that is known is no such matter.
pub proof fn law_echoes(
    before: BlendProcessInfo,
    line: Seq<char>,
    version: Option<Seq<Option<Seq<char>>>>,
    progress: Option<Seq<Option<Seq<char>>>>,
    postProcessing: bool,
)
    ensures
        ({
            let echoes = echo_count(before, line, version, progress, postProcessing);
            let news = before.blenderVersion is None && tells_version(version);
            let loaded = line == POST_LOAD_NOTIFICATION@;
            let going = tells_progress(progress);
            &&& 0 <= echoes <= 4
            &&& echoes == 0 <==> !news && !loaded && !going && !postProcessing
            &&& echoes == 4 <==> news && loaded && going && postProcessing
            &&& !news ==> echoes <= 3
            &&& postProcessing ==> echoes == echo_count(before, line, version, progress, false) + 1
            &&& going ==> echoes == echo_count(before, line, version, None, postProcessing) + 1
            &&& news ==> echoes == echo_count(before, line, None, progress, postProcessing) + 1
        }),
{
}

/// How fast the renderer was is known once a time was read that is not zero, of either sign, and
/// nothing else is touched; with no such time nothing is learned.
pub proof fn law_speed_recorded(before: BlendProcessInfo, amount: i32, durationBits: Option<u32>)
    ensures
        ({
            let after = speed_recorded(before, amount, durationBits);
            let learned = durationBits matches Some(bits) && bits != 0 && bits != 0x8000_0000;
            &&& learned ==> after.speedSamplesRendered == Some(
                SampleSpeed { amount, durationBits: durationBits->0 },
            )
            &&& !learned ==> after.speedSamplesRendered == before.speedSamplesRendered
            &&& after == (BlendProcessInfo {
                speedSamplesRendered: after.speedSamplesRendered,
                ..before
            })
        }),
        is_nonzero_time(durationBits) <==> durationBits is Some && durationBits->0 != 0
            && durationBits->0 != 0x8000_0000,
{
}

/// An echo is the line, behind a mark and without the whitespace around it.
pub proof fn law_echo_of(line: Seq<char>)
    ensures
        echo_of(line).len() == 3 + trimmed(line).len(),
        echo_of(line).take(3) == seq!['#', '#', ' '],
        echo_of(line).skip(3) == trimmed(line),
{
    reveal_strlit("## ");
    assert(echo_of(line).take(3) == seq!['#', '#', ' ']);
    assert(echo_of(line).skip(3) == trimmed(line));
}

/// The words of the server's command line are those that stand between its spaces, and each of them
/// is taken for what it stands for, in order. The program is the one in the renderer's folder.
pub proof fn law_command(
    job: Job,
    server: ServerConnection,
    ldLibraryPath: Seq<char>,
    plan: CommandPlan,
    tokens: Seq<Seq<char>>,
)
    requires
        is_command(job, server, ldLibraryPath, plan),
        tokens.len() > 0,
        forall|i: int| 0 <= i < tokens.len() ==> !(#[trigger] tokens[i]).contains(' '),
        job.info.rendererInfo.commandline@ == joined(tokens, ' '),
    ensures
        word_views(plan.args@) == all_expanded(tokens, job, server.clientConf),
        script_views(plan.files@) == all_scripts(tokens, job, server.clientConf),
        env_views(plan.env@) == environment(job, server.clientConf, ldLibraryPath),
        plan.program@ == renderer_path(server.clientConf, job.info).push(
            blend_exe(server.platform),
        ),
{
    law_joined(tokens, ' ');
    assert(plan.program@ == renderer_path(server.clientConf, job.info).push(
        blend_exe(server.platform),
    ));
}

/// A word of the server's command line that stands for nothing else is among the words of the
/// command.
pub proof fn law_command_keeps_words(
    job: Job,
    server: ServerConnection,
    ldLibraryPath: Seq<char>,
    plan: CommandPlan,
    tokens: Seq<Seq<char>>,
    i: int,
)
    requires
        is_command(job, server, ldLibraryPath, plan),
        forall|i: int| 0 <= i < tokens.len() ==> !(#[trigger] tokens[i]).contains(' '),
        job.info.rendererInfo.commandline@ == joined(tokens, ' '),
        0 <= i < tokens.len(),
        tokens[i].len() > 0,
        !is_special(tokens[i]),
    ensures
        word_views(plan.args@) == all_expanded(tokens.take(i), job, server.clientConf) + seq![
            WordView::Text(tokens[i]),
        ] + all_expanded(tokens.skip(i + 1), job, server.clientConf),
{
    law_command(job, server, ldLibraryPath, plan, tokens);
    law_plain_word_in_place(tokens, i, job, server.clientConf);
}

/// What a line of the renderer's output tells is what the patterns find in it, without the whitespace
/// around it: how far the renderer is, that the scene is loaded, and that the frame is being finished.
pub proof fn law_line_observed(
    before: BlendProcessInfo,
    after: BlendProcessInfo,
    line: Seq<char>,
    now: TimeSpan,
    done: i32,
    total: i32,
)
    requires
        line_observed(before, after, line, now),
    ensures
        regex_captures(RENDER_PROGRESS@, trimmed(line)) matches Some(found) && found.len() > 3
            && found[2] == Some(signed_digits(done as int)) && found[3] == Some(
            signed_digits(total as int),
        ) ==> after.progress == Some(Progress { done, total }) && after.renderStart is Some,
        regex_captures(RENDER_PROGRESS@, trimmed(line)) is None ==> after.progress
            == before.progress && after.renderStart == before.renderStart,
        trimmed(line) == POST_LOAD_NOTIFICATION@ ==> after.prepStart is Some,
        regex_captures(BEGIN_POST_PROCESSING@, trimmed(line)) is Some ==> after.compositStart is Some,
        regex_captures(BEGIN_POST_PROCESSING@, trimmed(line)) is None ==> after.compositStart
            == before.compositStart,
        regex_captures(BLENDER_VERSION@, trimmed(line)) is None ==> after.blenderVersion
            == before.blenderVersion,
        after.status == before.status,
{
    law_read_back_signed(done as int);
    law_read_back_signed(total as int);
}

} // verus!
