use vstd::prelude::*;
use vstd::string::*;

verus! {

/// Lookback window, in days, where an account names none.
pub const DEFAULT_DAYS: u32 = 30;

/// One account entry as configured: every field but the mailbox optional.
#[derive(Debug)]
pub struct AccountConfig {
    pub mailbox: String,
    pub target: Option<String>,
    pub days: Option<u32>,
    pub include_folders: Option<String>,
    pub exclude_folders: Option<String>,
    pub auth_profile: String,
}

/// An account with every default resolved.
#[derive(Debug)]
pub struct NormalizedAccountConfig {
    pub mailbox: String,
    pub target: String,
    pub days: u32,
    pub include_folders: Option<String>,
    pub exclude_folders: Option<String>,
    pub auth_profile: String,
}

/// The configuration file's content: its list of accounts.
#[derive(Debug)]
pub struct GxsyncConfig {
    pub accounts: Vec<AccountConfig>,
}

pub open spec fn opt_text(o: Option<String>) -> Option<Seq<char>> {
    match o {
        Some(s) => Some(s@),
        None => None,
    }
}

/// The credential profile used where none is named.
pub open spec fn default_profile_spec() -> Seq<char> {
    seq!['d', 'e', 'f', 'a', 'u', 'l', 't']
}

/// The delivery root of a mailbox that names none: `~/Mail/<mailbox>`.
pub open spec fn default_target(mailbox: Seq<char>) -> Seq<char> {
    seq!['~', '/', 'M', 'a', 'i', 'l', '/'] + mailbox
}

/// `n` is the account `mailbox` with the given optional fields, each
/// default resolved.
pub open spec fn resolved(
    n: NormalizedAccountConfig,
    mailbox: Seq<char>,
    target: Option<Seq<char>>,
    days: Option<u32>,
    include_folders: Option<Seq<char>>,
    exclude_folders: Option<Seq<char>>,
    auth_profile: Seq<char>,
) -> bool {
    &&& n.mailbox@ == mailbox
    &&& n.target@ == match target {
        Some(t) => t,
        None => default_target(mailbox),
    }
    &&& n.days == match days {
        Some(d) => d,
        None => DEFAULT_DAYS,
    }
    &&& opt_text(n.include_folders) == include_folders
    &&& opt_text(n.exclude_folders) == exclude_folders
    &&& n.auth_profile@ == auth_profile
}

/// `n` is the configured account `c` with its defaults resolved.
pub open spec fn normalizes(c: AccountConfig, n: NormalizedAccountConfig) -> bool {
    resolved(
        n,
        c.mailbox@,
        opt_text(c.target),
        c.days,
        opt_text(c.include_folders),
        opt_text(c.exclude_folders),
        c.auth_profile@,
    )
}

/// The name of the credential profile used where none is configured.
pub fn default_profile() -> (r: String)
    ensures
        r@ == default_profile_spec(),
{
    let r = String::from_str("default");
    proof {
        reveal_strlit("default");
        assert(r@ =~= default_profile_spec());
    }
    r
}

/// `~/Mail/<mailbox>`.
pub fn default_target_of(mailbox: &str) -> (r: String)
    ensures
        r@ == default_target(mailbox@),
{
    let mut r = String::from_str("~/Mail/");
    r.append(mailbox);
    proof {
        reveal_strlit("~/Mail/");
        assert(r@ =~= default_target(mailbox@));
    }
    r
}

impl NormalizedAccountConfig {
    /// Resolves the defaults of a configured account: the target becomes
    /// `~/Mail/<mailbox>` and the lookback 30 days where unset.
    pub fn from(config: AccountConfig) -> (r: NormalizedAccountConfig)
        ensures
            normalizes(config, r),
    {
        let target = match config.target {
            Some(t) => t,
            None => default_target_of(config.mailbox.as_str()),
        };
        let days = match config.days {
            Some(d) => d,
            None => DEFAULT_DAYS,
        };
        NormalizedAccountConfig {
            mailbox: config.mailbox,
            target,
            days,
            include_folders: config.include_folders,
            exclude_folders: config.exclude_folders,
            auth_profile: config.auth_profile,
        }
    }
}

impl GxsyncConfig {
    /// Every configured account with its defaults resolved, in order.
    pub fn normalized(self) -> (r: Vec<NormalizedAccountConfig>)
        ensures
            r@.len() == self.accounts@.len(),
            forall|i: int| 0 <= i < r@.len() ==> normalizes(self.accounts@[i], #[trigger] r@[i]),
    {
        let ghost orig = self.accounts@;
        let mut accounts = self.accounts;
        let mut rev: Vec<NormalizedAccountConfig> = Vec::new();
        while accounts.len() > 0
            invariant
                accounts@.len() + rev@.len() == orig.len(),
                forall|i: int| 0 <= i < accounts@.len() ==> accounts@[i] == orig[i],
                forall|i: int|
                    0 <= i < rev@.len() ==> normalizes(
                        orig[orig.len() - 1 - i],
                        #[trigger] rev@[i],
                    ),
            decreases accounts@.len(),
        {
            let c = accounts.pop().unwrap();
            rev.push(NormalizedAccountConfig::from(c));
        }
        let mut r: Vec<NormalizedAccountConfig> = Vec::new();
        while rev.len() > 0
            invariant
                rev@.len() + r@.len() == orig.len(),
                forall|i: int|
                    0 <= i < rev@.len() ==> normalizes(
                        orig[orig.len() - 1 - i],
                        #[trigger] rev@[i],
                    ),
                forall|i: int| 0 <= i < r@.len() ==> normalizes(orig[i], #[trigger] r@[i]),
            decreases rev@.len(),
        {
            let n = rev.pop().unwrap();
            r.push(n);
        }
        r
    }
}

} // verus!
