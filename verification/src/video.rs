//! A handle to a video file on disk: its path, and the directory that
//! owns its lifetime. Creating the file and the directory is the work of
//! the shell around the library; the handle only carries what it was
//! given.

use vstd::prelude::*;

verus! {

/// Something that names a directory.
pub trait Dir {
    /// The directory's path.
    fn path(&self) -> &str;
}

impl Dir for String {
    fn path(&self) -> &str {
        self.as_str()
    }
}

/// A video file and the directory holding it.
#[derive(Debug)]
pub struct VideoFileHandle<D: Dir> {
    pub path: String,
    pub temp: D,
}

/// The common case: the owning directory named by its path.
pub type VideoFileHandleType = VideoFileHandle<String>;

impl<D: Dir> VideoFileHandle<D> {
    /// Wrap an existing file and its owning directory.
    pub fn new(path: String, temp: D) -> (r: VideoFileHandle<D>)
        ensures
            r.path@ == path@,
    {
        VideoFileHandle { path, temp }
    }
}

} // verus!
