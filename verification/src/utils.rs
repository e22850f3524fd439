//! Small things that many parts share.

use vstd::prelude::*;

use crate::text::{glue, glue3};

verus! {

/// The platforms that the client runs on.
#[derive(Debug, Clone, Copy, PartialEq, Eq, Structural)]
pub enum Platform {
    Windows,
    Linux,
    Macos,
}

impl Platform {
    /// What stands between the names of a path.
    pub open spec fn spec_separator(self) -> char {
        match self {
            Platform::Windows => '\\',
            _ => '/',
        }
    }

    /// What stands between the names of a path.
    pub fn separator(self) -> (r: char)
        ensures
            r == self.spec_separator(),
    {
        match self {
            Platform::Windows => '\\',
            _ => '/',
        }
    }
}

/// Where the renderer's program lies in its folder.
pub open spec fn blend_exe(platform: Platform) -> Seq<char> {
    match platform {
        Platform::Macos => "Blender/Blender.app/Contents/MacOS/Blender"@,
        _ => "rend.exe"@,
    }
}

/// Where the renderer's program lies in its folder.
pub fn blendExe(platform: Platform) -> (r: String)
    ensures
        r@ == blend_exe(platform),
{
    match platform {
        Platform::Macos => "Blender/Blender.app/Contents/MacOS/Blender".to_owned(),
        _ => "rend.exe".to_owned(),
    }
}

/// A message with its cause.
pub open spec fn because(msg: Seq<char>, cause: Seq<char>) -> Seq<char> {
    msg + " because: "@ + cause
}

/// A message with its cause.
pub fn messageBecause(msg: &str, cause: &str) -> (r: String)
    ensures
        r@ == because(msg@, cause@),
{
    glue3(msg, " because: ", cause)
}

/// Results whose failure is reported and then let go.
pub trait Warn<T> {
    /// The line to report, if there is a failure.
    fn warning(&self) -> Option<String>;

    /// The value, if there is one.
    fn warn(self) -> Option<T>;
}

impl<T> Warn<T> for Result<T, String> {
    fn warning(&self) -> (r: Option<String>)
        ensures
            match (*self, r) {
                (Ok(_), line) => line is None,
                (Err(e), Some(line)) => line@ == "Warn: "@ + e@,
                (Err(_), None) => false,
            },
    {
        match self {
            Ok(_) => None,
            Err(e) => Some(glue("Warn: ", e.as_str())),
        }
    }

    fn warn(self) -> (r: Option<T>)
        ensures
            r == match self {
                Ok(value) => Some(value),
                Err(_) => None,
            },
    {
        match self {
            Ok(value) => Some(value),
            Err(_) => None,
        }
    }
}

/// A message with its cause starts with the message and ends with the cause, with a word between.
pub proof fn law_because(msg: Seq<char>, cause: Seq<char>)
    ensures
        because(msg, cause).take(msg.len() as int) == msg,
        because(msg, cause).skip(msg.len() as int + 10) == cause,
        because(msg, cause).subrange(msg.len() as int, msg.len() as int + 10) == seq![
            ' ',
            'b',
            'e',
            'c',
            'a',
            'u',
            's',
            'e',
            ':',
            ' ',
        ],
{
    reveal_strlit(" because: ");
    let n = msg.len() as int;
    assert(because(msg, cause).take(n) == msg);
    assert(because(msg, cause).skip(n + 10) == cause);
    assert(because(msg, cause).subrange(n, n + 10) =~= seq![
        ' ',
        'b',
        'e',
        'c',
        'a',
        'u',
        's',
        'e',
        ':',
        ' ',
    ]);
}

/// The names of a path are parted by a slash, but on Windows.
pub proof fn law_separators(platform: Platform)
    ensures
        platform is Windows ==> platform.spec_separator() == '\\',
        !(platform is Windows) ==> platform.spec_separator() == '/',
{
}

} // verus!
