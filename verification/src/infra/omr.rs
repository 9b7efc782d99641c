use crate::ports::omr::OmrOptions;
use vstd::prelude::*;

verus! {

/// Recognition of printed scores by an engine that is run as a program.
pub struct AudiverisOmr {
    default_engine_path: Option<String>,
}

impl AudiverisOmr {
    pub closed spec fn view(&self) -> Option<String> {
        self.default_engine_path
    }

    pub fn new(default_engine_path: Option<String>) -> (omr: AudiverisOmr)
        ensures
            omr@ == default_engine_path,
    {
        AudiverisOmr { default_engine_path }
    }

    /// The engine to run: the one that the options name, else the default
    /// one, else the program `audiveris`.
    pub fn engine_path(&self, options: &OmrOptions) -> (engine: String)
        ensures
            engine@ == (match options.engine_path {
                Some(path) => path@,
                None => match self@ {
                    Some(path) => path@,
                    None => "audiveris"@,
                },
            }),
    {
        match &options.engine_path {
            Some(path) => path.clone(),
            None => match &self.default_engine_path {
                Some(path) => path.clone(),
                None => "audiveris".to_string(),
            },
        }
    }
}

} // verus!
