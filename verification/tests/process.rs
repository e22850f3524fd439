//! The renderer: how it is started, watched, and what is made of its output.

use sheepit_client::conf::{ClientConfig, ComputeMethod};
use sheepit_client::defs::POST_LOAD_NOTIFICATION;
use sheepit_client::hw_info::HwInfo;
use sheepit_client::job::{Job, JobConfig, JobInfo, RendererInfos};
use sheepit_client::net::RequestEndPoint;
use sheepit_client::paths::PathPieces;
use sheepit_client::process::{
    BlendProcessInfo, LineMatches, ProcStatus, Progress, SampleSpeed, Word, createBlenderCommand,
    echoOf, observeBlendStdout, observeMatches, recordSampleSpeed,
};
use sheepit_client::render::{
    OutputChoice, PollEvent, PollStep, RenderError, chooseOutputs, finishRender, firstWith,
    RenderEvent, RenderStage, StartOutcome, killDelay, observeMemory, onTimeout, outputPrefix,
    pollStep, render, renderResult, scanLine,
};
use sheepit_client::server_con::ServerConnection;
use sheepit_client::server_conf::ServerConfig;
use sheepit_client::span::{SPAN_MAX, TimeSpan};
use sheepit_client::utils::Platform;

fn at(secs: u64) -> TimeSpan {
    TimeSpan::fromSecs(secs)
}

fn job(commandline: &str) -> Job {
    Job {
        info: JobInfo {
            id: "17".to_string(),
            frameNumber: "0340".to_string(),
            path: "dir/scene.blend".to_string(),
            useGPU: false,
            validationUrl: "https://v".to_string(),
            script: "own script".to_string(),
            archiveChunks: vec![],
            name: "name".to_string(),
            password: None,
            synchronousUpload: false,
            rendererInfo: RendererInfos {
                md5: "abc".to_string(),
                commandline: commandline.to_string(),
                updateMethod: "".to_string(),
            },
        },
        conf: JobConfig { computeMethod: ComputeMethod::Cpu, cores: 6 },
    }
}

fn client_conf() -> ClientConfig {
    ClientConfig {
        login: "".to_string(),
        password: "".to_string(),
        hostname: "".to_string(),
        workPath: "/w".to_string(),
        binCachePath: "/c".to_string(),
        headless: false,
        computeMethod: ComputeMethod::Cpu,
        maxCpuCores: None,
        maxMemory: None,
        maxRenderTime: None,
    }
}

fn connection() -> ServerConnection {
    let endpoint = || RequestEndPoint { path: "".to_string(), maxPeriod: 0 };
    ServerConnection {
        serverConf: ServerConfig {
            publicKey: None,
            speedTestUrls: vec![],
            requestJob: endpoint(),
            downloadBinary: endpoint(),
            downloadChunk: endpoint(),
            error: endpoint(),
            keepMeAlive: endpoint(),
            logout: endpoint(),
            speedTestAnswer: endpoint(),
        },
        clientConf: client_conf(),
        hwInfo: HwInfo {
            hwId: "".to_string(),
            vendor: "".to_string(),
            cpuName: "".to_string(),
            familyId: 0,
            modelId: 0,
            steppingId: 0,
            frequency: None,
            cores: 6,
            osName: "".to_string(),
            hostName: "".to_string(),
            totalSystemMemory: 0,
        },
        platform: Platform::Linux,
    }
}

fn shown(word: &Word) -> String {
    match word {
        Word::Text(t) => format!("text {t}"),
        Word::Path(p) => format!("path {}", p.pieces.join("|")),
    }
}

#[test]
fn the_renderers_command() {
    let plan = createBlenderCommand(&job(".e -b .c  -o .o -f .f -x 1"), &connection(), "/lib");
    assert_eq!(plan.program.pieces, vec!["/w", "abc", "rend.exe"]);
    let words: Vec<String> = plan.args.iter().map(shown).collect();
    assert_eq!(
        words,
        vec![
            "text -t", "text 6", "text -b", "text -P", "path /w|pre_load_script.py",
            "path /w|17|dir/scene.blend", "text -P", "path /w|post_load_script.py", "text -o",
            "path /w|17_", "text -f", "text 0340", "text -x", "text 1",
        ]
    );
    let env: Vec<(String, String)> = plan.env.iter().map(|(n, w)| (n.clone(), shown(w))).collect();
    assert_eq!(env.len(), 13);
    assert_eq!(env[0], ("BLENDER_USER_RESOURCES".to_string(), "text ".to_string()));
    assert_eq!(env[8].0, "OCIO");
    assert_eq!(env[9], ("TEMP".to_string(), "path /w|temp".to_string()));
    assert_eq!(env[10], ("TMP".to_string(), "path /w|temp".to_string()));
    assert_eq!(env[11], ("CORES".to_string(), "text 6".to_string()));
    assert_eq!(env[12], ("LD_LIBRARY_PATH".to_string(), "path /w|abc|lib:|/lib".to_string()));
}

#[test]
fn the_renderers_scripts() {
    let plan = createBlenderCommand(&job(".c"), &connection(), "");
    assert_eq!(plan.files.len(), 2);
    assert_eq!(plan.files[0].path.pieces, vec!["/w", "pre_load_script.py"]);
    assert_eq!(
        plan.files[0].content,
        "import bpy
import sys
from bpy.app.handlers import persistent
@persistent
def hide_stuff(hide_dummy):
\tprint('PRE_LOAD_SCRIPT_hide_viewport')
\t#Hide collections in the viewport
\tfor col in bpy.data.collections:
\t\tcol.hide_viewport = True
\tfor obj in bpy.data.objects:
\t\t#Hide objects in the viewport
\t\tobj.hide_viewport = True
\t\t#Hide modifier in the viewport
\t\tfor mod in obj.modifiers:
\t\t\tmod.show_viewport = False
\tsys.stdout.flush()
bpy.app.handlers.version_update.append(hide_stuff)

"
    );
    assert_eq!(plan.files[1].path.pieces, vec!["/w", "post_load_script.py"]);
    assert_eq!(
        plan.files[1].content,
        format!(
            "own script
import sys
print('{POST_LOAD_NOTIFICATION}')
sys.stdout.flush()

sheepit_set_compute_device(\"NONE\", \"CPU\", \"CPU\")

import signal
def hndl(signum, frame):
\tpass
\t
signal.signal(signal.SIGINT, hndl)

"
        )
    );
    assert!(createBlenderCommand(&job("-b .o"), &connection(), "").files.is_empty());
}

#[test]
fn what_the_renderers_output_tells() {
    let mut info = BlendProcessInfo::default();
    assert_eq!(info.status, ProcStatus::Running);
    let told = observeBlendStdout(&mut info, "  Blender 3.61.2 (hash)\n", at(1));
    assert!(told.speed.is_none());
    assert_eq!(told.echoes, 1);
    let version = info.blenderVersion.as_ref().unwrap();
    assert_eq!(version.longVersion, "3.61.2 (hash)");
    assert_eq!(version.shortVersion, "3.61");
    assert_eq!(observeBlendStdout(&mut info, "Blender 9.9", at(1)).echoes, 0);
    assert_eq!(info.blenderVersion.as_ref().unwrap().shortVersion, "3.61");

    observeBlendStdout(&mut info, POST_LOAD_NOTIFICATION, at(2));
    assert_eq!(info.prepStart, Some(at(2)));
    assert_eq!(observeBlendStdout(&mut info, POST_LOAD_NOTIFICATION, at(3)).echoes, 1);
    assert_eq!(info.prepStart, Some(at(2)));

    observeBlendStdout(&mut info, "Fra:1 Mem:2M | Rendered 3/16 Tiles, Sample 1", at(4));
    assert_eq!(info.renderStart, Some(at(4)));
    assert_eq!(info.progress, Some(Progress { done: 3, total: 16 }));
    let told = observeBlendStdout(&mut info, "Fra:1 Mem:2M | Sample 99999999999/16", at(5));
    assert_eq!(told.echoes, 0);
    assert_eq!(info.progress, Some(Progress { done: 3, total: 16 }));
    observeBlendStdout(&mut info, "x Sample 4 / 16", at(5));
    assert_eq!(info.progress, Some(Progress { done: 4, total: 16 }));
    assert_eq!(info.renderStart, Some(at(4)));

    assert!(info.compositStart.is_none());
    observeBlendStdout(&mut info, "Fra:1 Mem:2M (Peak 3M) | Compositing | x", at(6));
    assert_eq!(info.compositStart, Some(at(6)));
    assert_eq!(observeBlendStdout(&mut info, "Fra:1 Mem:2M | Finished", at(7)).echoes, 1);
    let both = "Fra:1 Mem:2M | Sample 4/16 | Finished";
    assert_eq!(observeBlendStdout(&mut info, both, at(7)).echoes, 2);
    assert_eq!(info.compositStart, Some(at(6)));

    let told = observeBlendStdout(&mut info, "Rendered 512 samples in 2.5 seconds", at(8));
    assert_eq!(told.echoes, 0);
    assert_eq!(told.speed, Some((512, "2.5".to_string())));
    assert!(info.speedSamplesRendered.is_none());
    let told = observeBlendStdout(&mut info, "Rendered 5 samples in 2 seconds or so", at(8));
    assert!(told.speed.is_none());
    assert_eq!(echoOf("  a line\n"), "## a line");
}

#[test]
fn what_matches_tell() {
    let some = |list: &[&str]| Some(list.iter().map(|s| Some(s.to_string())).collect::<Vec<_>>());
    let mut info = BlendProcessInfo::default();
    let matches = LineMatches {
        version: Some(vec![Some("x".to_string()), None, Some("1".to_string())]),
        progress: some(&["x", "Sample", "1", "two"]),
        postProcessing: true,
        speed: some(&["x", "12"]),
    };
    let told = observeMatches(&mut info, "line", matches, at(1));
    assert!(told.speed.is_none());
    assert_eq!(told.echoes, 1);
    assert!(info.blenderVersion.is_none() && info.progress.is_none() && info.renderStart.is_none());
    assert_eq!(info.compositStart, Some(at(1)));
    let matches = LineMatches {
        version: some(&["x", "long", "short"]),
        progress: some(&["x", "Sample", "1", "2"]),
        postProcessing: false,
        speed: some(&["x", "12", "0.5"]),
    };
    let told = observeMatches(&mut info, POST_LOAD_NOTIFICATION, matches, at(2));
    assert_eq!(told.echoes, 3);
    assert_eq!(told.speed, Some((12, "0.5".to_string())));
    assert_eq!(info.blenderVersion.as_ref().unwrap().longVersion, "long");
    assert_eq!(info.progress, Some(Progress { done: 1, total: 2 }));
    assert_eq!((info.prepStart, info.renderStart), (Some(at(2)), Some(at(2))));
}

#[test]
fn speeds_are_recorded() {
    let mut info = BlendProcessInfo::default();
    for nothing in [None, Some(0.0f32.to_bits()), Some((-0.0f32).to_bits())] {
        assert!(!recordSampleSpeed(&mut info, 5, nothing));
        assert!(info.speedSamplesRendered.is_none());
    }
    assert!(recordSampleSpeed(&mut info, 5, Some(2.5f32.to_bits())));
    assert_eq!(
        info.speedSamplesRendered,
        Some(SampleSpeed { amount: 5, durationBits: 2.5f32.to_bits() })
    );
}

#[test]
fn a_process_is_watched() {
    assert_eq!(killDelay(None), None);
    assert_eq!(killDelay(Some(at(60))), Some(at(62)));
    let most = TimeSpan::fromNanos(SPAN_MAX).unwrap();
    assert_eq!(killDelay(Some(most)), Some(most));

    let mut info = BlendProcessInfo::default();
    assert!(observeMemory(&mut info, &Ok(10)));
    assert!(observeMemory(&mut info, &Ok(7)));
    assert_eq!((info.memUsage, info.maxMemUsage), (7, 10));
    assert!(observeMemory(&mut info, &Err("gone".to_string())));
    assert_eq!((info.memUsage, info.maxMemUsage), (7, 10));
    let line = scanLine(&mut info, "Rendered 2 samples in 4 seconds", at(1));
    assert_eq!(line.speed, Some((2, "4".to_string())));
    assert!(!line.exited);
    assert!(onTimeout(&mut info));
    assert_eq!(info.status, ProcStatus::TookTooLong);
    assert!(!onTimeout(&mut info));
    assert!(!observeMemory(&mut info, &Ok(99)));
    assert_eq!(info.maxMemUsage, 10);
    assert!(scanLine(&mut info, "", at(2)).exited);
}

#[test]
fn looks_at_a_process() {
    assert!(matches!(pollStep(PollEvent::Busy), PollStep::Again));
    assert!(matches!(pollStep(PollEvent::Alive), PollStep::Again));
    assert!(matches!(pollStep(PollEvent::Exited(true)), PollStep::Finished));
    assert!(matches!(
        pollStep(PollEvent::Exited(false)),
        PollStep::Error(RenderError::RendererCrashed)
    ));
    assert!(matches!(
        pollStep(PollEvent::Failed("e".to_string())),
        PollStep::Error(RenderError::Unknown(m))
            if m == "There was en error pooling blender process status: e"
    ));
}

#[test]
fn output_files_are_chosen() {
    assert_eq!(outputPrefix(&job("")), "17_0340.");
    let names = vec!["17_034.png".to_string(), "17_0340.exr".to_string(), "17_0340.png".to_string()];
    assert_eq!(firstWith(&names, "17_0340.").as_deref(), Some("17_0340.exr"));
    assert_eq!(firstWith(&names, "18_"), None);
    let path = |name: &str| PathPieces::of("/w").join(name);
    assert!(matches!(chooseOutputs(&vec![]), OutputChoice::Missing));
    assert!(matches!(
        chooseOutputs(&vec![path("a.exr")]),
        OutputChoice::Files(o, None) if o.pieces[1] == "a.exr"
    ));
    assert!(matches!(
        chooseOutputs(&vec![path("a.exr"), path("a.png")]),
        OutputChoice::Files(o, Some(p)) if o.pieces[1] == "a.png" && p.pieces[1] == "a.exr"
    ));
    assert!(matches!(
        chooseOutputs(&vec![path("a.png"), path("a.exr")]),
        OutputChoice::Files(o, Some(p)) if o.pieces[1] == "a.png" && p.pieces[1] == "a.exr"
    ));
    assert!(matches!(
        chooseOutputs(&vec![path("a"), path("b"), path("c")]),
        OutputChoice::TooMany
    ));
}

#[test]
fn a_render_is_finished() {
    let mut info = BlendProcessInfo::default();
    info.renderStart = Some(at(10));
    info.compositStart = Some(at(25));
    info.maxMemUsage = 77;
    info.speedSamplesRendered = Some(SampleSpeed { amount: 1, durationBits: 2 });
    let names = Ok(vec!["x".to_string(), "17_0340.png".to_string(), "17_0340.exr".to_string()]);
    let frame = finishRender(&job(""), &client_conf(), &info, &names).unwrap();
    assert_eq!(frame.output.pieces, vec!["/w", "17_0340.png"]);
    assert!(frame.outputPreview.is_none());
    assert_eq!(frame.renderTime, at(15));
    assert_eq!(frame.memoryUsed, 77);
    assert_eq!(frame.validationUrl, "https://v");
    assert_eq!(frame.speedSamplesRendered, Some(SampleSpeed { amount: 1, durationBits: 2 }));
    let nothing = finishRender(&job(""), &client_conf(), &info, &Ok(vec![]));
    assert!(matches!(nothing, Err(RenderError::NoOutputFile)));
    let unread = finishRender(&job(""), &client_conf(), &info, &Err("e".to_string()));
    assert!(matches!(
        unread,
        Err(RenderError::Unknown(m)) if m == "Failed to read work directory because: e"
    ));
}

#[test]
fn a_render_without_its_times() {
    let output = || PathPieces::of("/w").join("o.png");
    let mut info = BlendProcessInfo::default();
    assert!(matches!(
        renderResult(&job(""), &info, output(), None),
        Err(RenderError::Unknown(m)) if m == "No composit start encountered"
    ));
    info.compositStart = Some(at(5));
    assert!(matches!(
        renderResult(&job(""), &info, output(), None),
        Err(RenderError::Unknown(m)) if m == "No render start encountered"
    ));
    info.renderStart = Some(at(9));
    let frame = renderResult(&job(""), &info, output(), Some(output())).unwrap();
    assert!(frame.renderTime.isZero());
    assert_eq!(frame.outputPreview.unwrap().pieces, vec!["/w", "o.png"]);
}

fn on(info: &mut BlendProcessInfo, stage: RenderStage, event: RenderEvent) -> RenderStage {
    render(&job(""), &client_conf(), info, stage, event)
}

#[test]
fn a_render_from_start_to_end() {
    let mut info = BlendProcessInfo::default();
    let mut stage = on(&mut info, RenderStage::Commanding, RenderEvent::Commanded(Ok(())));
    assert!(matches!(stage, RenderStage::Starting));
    stage = on(&mut info, stage, RenderEvent::Started(StartOutcome::Started));
    for event in [PollEvent::Busy, PollEvent::Alive] {
        stage = on(&mut info, stage, RenderEvent::Polled(event));
        assert!(matches!(stage, RenderStage::Polling));
    }
    info.renderStart = Some(at(1));
    info.compositStart = Some(at(2));
    stage = on(&mut info, stage, RenderEvent::Polled(PollEvent::Exited(true)));
    assert!(matches!(stage, RenderStage::Listing));
    assert_eq!(info.status, ProcStatus::ExitedOk);
    stage = on(&mut info, stage, RenderEvent::Listed(Ok(vec!["17_0340.png".to_string()])));
    assert!(matches!(stage, RenderStage::DeletingScripts(Ok(_))));
    stage = on(&mut info, stage, RenderEvent::ScriptsDeleted);
    assert!(matches!(stage, RenderStage::Over(Ok(frame)) if frame.renderTime == at(1)));
}

#[test]
fn renders_that_fail() {
    let mut info = BlendProcessInfo::default();
    let stage = on(&mut info, RenderStage::Commanding, RenderEvent::Commanded(Err("e".to_string())));
    assert!(matches!(stage, RenderStage::Over(Err(RenderError::Unknown(m))) if m == "e"));
    let failures = [
        (StartOutcome::Failed("f".to_string()), "f"),
        (StartOutcome::NoStdout, "Failed to acquire stdout"),
        (StartOutcome::NoStderr, "Failed to acquire stderr"),
        (StartOutcome::NoPid, "Failed to get process PID"),
    ];
    for (outcome, message) in failures {
        let stage = on(&mut info, RenderStage::Starting, RenderEvent::Started(outcome));
        assert!(matches!(
            stage,
            RenderStage::DeletingScripts(Err(RenderError::Unknown(m))) if m == message
        ));
    }
    let stage = on(&mut info, RenderStage::Polling, RenderEvent::Polled(PollEvent::Exited(false)));
    assert!(matches!(stage, RenderStage::DeletingScripts(Err(RenderError::RendererCrashed))));
    assert_eq!(info.status, ProcStatus::Running);
    let stage = on(
        &mut info,
        RenderStage::Polling,
        RenderEvent::Polled(PollEvent::Failed("e".to_string())),
    );
    assert!(matches!(stage, RenderStage::DeletingScripts(Err(RenderError::Unknown(_)))));
}
