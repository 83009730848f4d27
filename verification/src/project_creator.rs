//! State of the "Open ROM" window: the typed ROM path, its validation
//! message, the recent files, and the message of a failed open.
//!
//! Looking at the file system is the caller's part: it reports whether the
//! typed path exists and whether it is a directory.

use vstd::prelude::*;

verus! {

/// The "Open ROM" window.
#[derive(Debug)]
pub struct UiProjectCreator {
    /// Path typed into the ROM file box.
    pub base_rom_path: String,
    /// Recently opened ROM paths, most recent first.
    pub recent_files: Vec<String>,
    /// Why the typed path cannot be opened (empty when it can).
    pub err_base_rom_path: String,
    /// Why opening the project failed (empty when it did not).
    pub err_project_creation: String,
}

/// The message for a typed path, given what the file system says of it.
pub open spec fn path_error(path: Seq<char>, exists: bool, is_dir: bool) -> Seq<char> {
    if path.len() == 0 {
        seq![]
    } else if !exists {
        "File '"@ + path + "' does not exist."@
    } else if is_dir {
        "'"@ + path + "' is a directory, not a file."@
    } else {
        seq![]
    }
}

impl UiProjectCreator {
    /// A window with an empty path and the given recent files.
    pub fn new(recent_files: Vec<String>) -> (c: Self)
        ensures
            c.base_rom_path@ == Seq::<char>::empty(),
            c.recent_files@ == recent_files@,
            c.err_base_rom_path@ == Seq::<char>::empty(),
            c.err_project_creation@ == Seq::<char>::empty(),
    {
        UiProjectCreator {
            base_rom_path: String::new(),
            recent_files,
            err_base_rom_path: String::new(),
            err_project_creation: String::new(),
        }
    }

    /// Re-check the typed path: `exists` and `is_dir` are what the file
    /// system says of it.
    pub fn validate_path(&mut self, exists: bool, is_dir: bool)
        ensures
            final(self).err_base_rom_path@ == path_error(old(self).base_rom_path@, exists, is_dir),
            final(self).base_rom_path@ == old(self).base_rom_path@,
            final(self).recent_files@ == old(self).recent_files@,
            final(self).err_project_creation@ == old(self).err_project_creation@,
    {
        let mut msg = String::new();
        if self.base_rom_path.as_str().is_empty() {
        } else if !exists {
            msg.append("File '");
            msg.append(self.base_rom_path.as_str());
            msg.append("' does not exist.");
        } else if is_dir {
            msg.append("'");
            msg.append(self.base_rom_path.as_str());
            msg.append("' is a directory, not a file.");
        }
        self.err_base_rom_path = msg;
    }

    /// The Open button is enabled: a path is typed and it has no error.
    pub fn can_open(&self) -> (b: bool)
        ensures
            b == (self.err_base_rom_path@.len() == 0 && self.base_rom_path@.len() > 0),
    {
        self.err_base_rom_path.as_str().is_empty() && !self.base_rom_path.as_str().is_empty()
    }

    /// Record that opening the project failed with `err`.
    pub fn open_failed(&mut self, err: &str)
        ensures
            final(self).err_project_creation@ == "Error: "@ + err@,
            final(self).base_rom_path@ == old(self).base_rom_path@,
            final(self).recent_files@ == old(self).recent_files@,
            final(self).err_base_rom_path@ == old(self).err_base_rom_path@,
    {
        let mut msg = String::new();
        msg.append("Error: ");
        msg.append(err);
        self.err_project_creation = msg;
    }

    /// Record that the project opened: the failure message is cleared.
    pub fn open_succeeded(&mut self)
        ensures
            final(self).err_project_creation@ == Seq::<char>::empty(),
            final(self).base_rom_path@ == old(self).base_rom_path@,
            final(self).recent_files@ == old(self).recent_files@,
            final(self).err_base_rom_path@ == old(self).err_base_rom_path@,
    {
        self.err_project_creation = String::new();
    }
}

} // verus!
