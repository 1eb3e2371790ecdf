use vstd::prelude::*;

use crate::config::{
    default_profile, default_profile_spec, default_target_of, opt_text, resolved,
    NormalizedAccountConfig, DEFAULT_DAYS,
};

verus! {

/// What a run was asked to do on the command line.
#[derive(Debug)]
pub struct CliArgs {
    pub mailbox: Option<String>,
    pub target: Option<String>,
    pub days: Option<u32>,
    pub include_folders: Option<String>,
    pub exclude_folders: Option<String>,
    pub dry_run: bool,
}

impl CliArgs {
    /// The one account named on the command line, its defaults resolved and
    /// its credential profile the default one; `None` where no mailbox was
    /// given, so that the configured accounts are used instead.
    pub fn single_account(&self) -> (r: Option<NormalizedAccountConfig>)
        ensures
            match self.mailbox {
                Some(m) => r is Some && resolved(
                    r->Some_0,
                    m@,
                    opt_text(self.target),
                    self.days,
                    opt_text(self.include_folders),
                    opt_text(self.exclude_folders),
                    default_profile_spec(),
                ),
                None => r is None,
            },
    {
        match &self.mailbox {
            Some(m) => {
                let target = match &self.target {
                    Some(t) => t.clone(),
                    None => default_target_of(m.as_str()),
                };
                let days = match self.days {
                    Some(d) => d,
                    None => DEFAULT_DAYS,
                };
                Some(
                    NormalizedAccountConfig {
                        mailbox: m.clone(),
                        target,
                        days,
                        include_folders: self.include_folders.clone(),
                        exclude_folders: self.exclude_folders.clone(),
                        auth_profile: default_profile(),
                    },
                )
            },
            None => None,
        }
    }
}

} // verus!
