//! The data behind the landing page: the visitor's files with their
//! processing state, and a cache-busting token. Rendering the page from
//! these values is markup work that happens outside the library.

use vstd::prelude::*;

use crate::task::Task;

verus! {

/// Where one of the visitor's files stands.
#[derive(Clone, Copy, Debug, PartialEq, Eq, Structural)]
pub enum YourFileStatus {
    Uploading,
    Processing,
    Analyzing,
    Encoding,
    Finished,
}

impl YourFileStatus {
    /// The label the page shows for this state.
    pub fn label(&self) -> (r: &'static str)
        ensures
            r@ == match *self {
                YourFileStatus::Uploading => "Uploading"@,
                YourFileStatus::Processing => "Processing"@,
                YourFileStatus::Analyzing => "Analyzing"@,
                YourFileStatus::Encoding => "Encoding"@,
                YourFileStatus::Finished => "Finished"@,
            },
    {
        match self {
            YourFileStatus::Uploading => "Uploading",
            YourFileStatus::Processing => "Processing",
            YourFileStatus::Analyzing => "Analyzing",
            YourFileStatus::Encoding => "Encoding",
            YourFileStatus::Finished => "Finished",
        }
    }
}

/// One of the visitor's files: its name, when it was created, and where
/// it stands.
pub struct YourFile {
    pub name: String,
    pub created: u64,
    pub status: YourFileStatus,
}

/// The landing page's data: the visitor's files and a token that defeats
/// stale caches.
pub struct Index {
    pub your_files: Vec<YourFile>,
    pub rnd: u32,
}

/// The placeholder files the page shows while no real listing exists:
/// name and state of each, in order.
pub open spec fn placeholder_files() -> Seq<(Seq<char>, YourFileStatus)> {
    seq![
        ("video1.mp4"@, YourFileStatus::Uploading),
        ("video2.webm"@, YourFileStatus::Processing),
        ("audio.mp3"@, YourFileStatus::Finished),
        ("audio2.wav"@, YourFileStatus::Finished),
        ("video1.mp4"@, YourFileStatus::Uploading),
        ("video2.webm"@, YourFileStatus::Processing),
        ("audio.mp3"@, YourFileStatus::Finished),
        ("audio2.wav"@, YourFileStatus::Finished),
        ("video1.mp4"@, YourFileStatus::Uploading),
        ("video2.webm"@, YourFileStatus::Processing),
        ("audio.mp3"@, YourFileStatus::Finished),
        ("audio2.wav"@, YourFileStatus::Finished),
        ("video1.mp4"@, YourFileStatus::Uploading),
    ]
}

/// One placeholder entry.
fn placeholder(name: &str, status: YourFileStatus) -> (r: YourFile)
    ensures
        r.name@ == name@,
        r.created == 0,
        r.status == status,
{
    YourFile { name: String::from_str(name), created: 0, status }
}

impl Index {
    /// The landing page as first served: the placeholder files and a
    /// fresh cache token.
    pub fn new() -> (r: Index)
        ensures
            r.your_files@.len() == placeholder_files().len(),
            forall|i: int|
                0 <= i < r.your_files@.len() ==> (#[trigger] r.your_files@[i].name@)
                    == placeholder_files()[i].0 && r.your_files@[i].status
                    == placeholder_files()[i].1 && r.your_files@[i].created == 0,
    {
        let rnd = (Task::gen_id() % 0x1_0000_0000) as u32;
        let mut files: Vec<YourFile> = Vec::new();
        files.push(placeholder("video1.mp4", YourFileStatus::Uploading));
        files.push(placeholder("video2.webm", YourFileStatus::Processing));
        files.push(placeholder("audio.mp3", YourFileStatus::Finished));
        files.push(placeholder("audio2.wav", YourFileStatus::Finished));
        files.push(placeholder("video1.mp4", YourFileStatus::Uploading));
        files.push(placeholder("video2.webm", YourFileStatus::Processing));
        files.push(placeholder("audio.mp3", YourFileStatus::Finished));
        files.push(placeholder("audio2.wav", YourFileStatus::Finished));
        files.push(placeholder("video1.mp4", YourFileStatus::Uploading));
        files.push(placeholder("video2.webm", YourFileStatus::Processing));
        files.push(placeholder("audio.mp3", YourFileStatus::Finished));
        files.push(placeholder("audio2.wav", YourFileStatus::Finished));
        files.push(placeholder("video1.mp4", YourFileStatus::Uploading));
        Index { your_files: files, rnd }
    }
}

} // verus!
