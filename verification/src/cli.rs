//! The signature block the composer appends, assembled from the
//! account's and the global configuration.

use vstd::prelude::*;
use vstd::string::*;

use crate::text::{is_blank, trim, trim_end_char, trim_end_matches_char};
use crate::tui::model::Keybinds;

verus! {

/// RFC 3676 section 4.3 signature separator.
///
/// Written before the signature when neither the account nor the global
/// configuration names one, matching the himalaya CLI's own default.
pub const DEFAULT_SIGNATURE_DELIM: &'static str = "-- \n";

/// The block appended for `signature` introduced by `delim`: nothing at
/// all for a blank signature, otherwise the delimiter (the RFC one when
/// none is named) then the signature without its trailing newlines.
pub open spec fn spec_signature_block(signature: Seq<char>, delim: Option<Seq<char>>) -> Seq<char> {
    if trim(signature).len() == 0 {
        Seq::empty()
    } else {
        let delim = match delim {
            Some(delim) => delim,
            None => DEFAULT_SIGNATURE_DELIM@,
        };
        delim + trim_end_char(signature, '\n')
    }
}

/// Assembles the block the composer appends: separator, then signature.
///
/// Empty when the account declares no signature, so nothing is appended
/// at all. mml writes what it is given verbatim, so the separator is
/// resolved here rather than expected inside the configured value: one
/// file, one meaning, whichever binary composes.
pub fn signature_block(signature: String, delim: Option<String>) -> (block: String)
    ensures
        block@ == spec_signature_block(signature@, delim.deep_view()),
{
    if is_blank(signature.as_str()) {
        return String::new();
    }
    let mut block = match delim {
        Some(delim) => delim,
        None => DEFAULT_SIGNATURE_DELIM.to_owned(),
    };
    block.append(trim_end_matches_char(signature.as_str(), '\n'));
    block
}

/// The signature block of an account: its own `signature` and
/// `signature-delim` when it declares them, the global ones otherwise,
/// an absent global signature counting as none.
pub fn resolve_signature(
    account_signature: Option<String>,
    global_signature: Option<String>,
    account_delim: Option<String>,
    global_delim: Option<String>,
) -> (block: String)
    ensures
        block@ == spec_signature_block(
            match account_signature {
                Some(s) => s@,
                None => match global_signature {
                    Some(s) => s@,
                    None => Seq::empty(),
                },
            },
            match account_delim {
                Some(d) => Some(d@),
                None => global_delim.deep_view(),
            },
        ),
{
    let signature = match account_signature {
        Some(s) => s,
        None => match global_signature {
            Some(s) => s,
            None => String::new(),
        },
    };
    let delim = match account_delim {
        Some(d) => Some(d),
        None => global_delim,
    };
    signature_block(signature, delim)
}

/// Where a run gets the account it opens, once the configuration file
/// has been looked for.
#[derive(Debug, Clone, Copy, PartialEq, Eq, Structural)]
pub enum StartupPlan {
    /// Take the account the file names (`--account`) or flags default.
    /// A file flagging none falls back to the wizard, without the
    /// welcome.
    LookUpAccount,
    /// Go to the wizard, introducing it first when `welcome` is set.
    RunWizard { welcome: bool },
    /// Stop: `--account` named an account but there is no file to hold
    /// it.
    NoConfigurationFile,
}

/// The plan of a run, from the flags and whether a configuration file
/// was found (never, under `--no-config`, which does not read it).
///
/// A seed or `--no-config` asks for the wizard outright: the account
/// lookup is skipped and the wizard does not introduce itself. Without
/// either, a missing file is an error when an account was named, and
/// otherwise the one case where the wizard welcomes the user.
pub open spec fn spec_plan_startup(
    no_config: bool,
    seeded: bool,
    file_found: bool,
    account_named: bool,
) -> StartupPlan {
    let asked_for_wizard = no_config || seeded;
    if asked_for_wizard {
        StartupPlan::RunWizard { welcome: false }
    } else if file_found {
        StartupPlan::LookUpAccount
    } else if account_named {
        StartupPlan::NoConfigurationFile
    } else {
        StartupPlan::RunWizard { welcome: true }
    }
}

/// A seed skips the account lookup entirely: the run goes to the
/// wizard, which does not introduce itself, whatever the file holds.
pub proof fn a_seed_skips_the_lookup(no_config: bool, file_found: bool, account_named: bool)
    ensures
        spec_plan_startup(no_config, true, file_found, account_named) == (StartupPlan::RunWizard {
            welcome: false,
        }),
{
}

/// `--account` (which the command line allows neither with a seed nor
/// with `--no-config`) never falls back to the wizard: the file is
/// looked up, or the run stops when there is no file.
pub proof fn a_named_account_never_falls_back_to_the_wizard(file_found: bool)
    ensures
        ({
            let plan = spec_plan_startup(false, false, file_found, true);
            &&& file_found ==> plan == StartupPlan::LookUpAccount
            &&& !file_found ==> plan == StartupPlan::NoConfigurationFile
        }),
{
}

/// Decides where the account of this run comes from.
pub fn plan_startup(no_config: bool, seeded: bool, file_found: bool, account_named: bool) -> (plan:
    StartupPlan)
    ensures
        plan == spec_plan_startup(no_config, seeded, file_found, account_named),
{
    if no_config || seeded {
        StartupPlan::RunWizard { welcome: false }
    } else if file_found {
        StartupPlan::LookUpAccount
    } else if account_named {
        StartupPlan::NoConfigurationFile
    } else {
        StartupPlan::RunWizard { welcome: true }
    }
}

/// The first of `options` that is set, in order of precedence.
pub open spec fn first_set<T>(options: Seq<Option<T>>) -> Option<T>
    decreases options.len(),
{
    if options.len() == 0 {
        None
    } else {
        match options[0] {
            Some(v) => Some(v),
            None => first_set(options.drop_first()),
        }
    }
}

/// The From display name of a run: `--from-name`, else the account's
/// `from-name`, else the global `display-name`.
pub fn resolve_from_name(
    flag: Option<String>,
    account: Option<String>,
    global: Option<String>,
) -> (name: Option<String>)
    ensures
        name.deep_view() == first_set(seq![flag.deep_view(), account.deep_view(), global.deep_view()]),
{
    proof {
        reveal_with_fuel(first_set, 4);
    }
    match flag {
        Some(name) => Some(name),
        None => match account {
            Some(name) => Some(name),
            None => global,
        },
    }
}

/// The From address of a run: `--from`, else the account's `from`.
pub fn resolve_from(flag: Option<String>, account: Option<String>) -> (from: Option<String>)
    ensures
        from.deep_view() == first_set(seq![flag.deep_view(), account.deep_view()]),
{
    proof {
        reveal_with_fuel(first_set, 3);
    }
    match flag {
        Some(from) => Some(from),
        None => account,
    }
}

/// The composer's keybindings: `--keybinds`, else the configuration's
/// `keybinds`; `None` when neither names one, the composer then taking
/// its default flavor, Vim.
pub fn resolve_keybinds(flag: Option<Keybinds>, config: Option<Keybinds>) -> (keybinds: Option<
    Keybinds,
>)
    ensures
        keybinds == first_set(seq![flag, config]),
{
    proof {
        reveal_with_fuel(first_set, 3);
    }
    match flag {
        Some(k) => Some(k),
        None => config,
    }
}

} // verus!
