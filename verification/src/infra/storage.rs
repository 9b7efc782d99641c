use vstd::prelude::*;

verus! {

/// Settings kept in a file below a directory.
pub struct FsStorage {
    base_dir: String,
}

impl FsStorage {
    pub closed spec fn view(&self) -> Seq<char> {
        self.base_dir@
    }

    pub fn new(base_dir: String) -> (storage: FsStorage)
        ensures
            storage@ == base_dir@,
    {
        FsStorage { base_dir }
    }

    /// The directory below which the settings are kept.
    pub fn base_dir(&self) -> (dir: &String)
        ensures
            dir@ == self@,
    {
        &self.base_dir
    }

    /// The name of the file that holds the settings.
    pub fn settings_file_name() -> (name: &'static str)
        ensures
            name@ == "settings.json"@,
    {
        "settings.json"
    }
}

} // verus!
