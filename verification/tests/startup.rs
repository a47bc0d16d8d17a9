use himalaya_tui::cli::{plan_startup, resolve_from, resolve_from_name, resolve_keybinds, StartupPlan};
use himalaya_tui::tui::model::Keybinds;

#[test]
fn a_bare_run_without_a_file_welcomes_the_user() {
    assert_eq!(
        plan_startup(false, false, false, false),
        StartupPlan::RunWizard { welcome: true }
    );
}

#[test]
fn a_bare_run_with_a_file_looks_its_account_up() {
    assert_eq!(plan_startup(false, false, true, false), StartupPlan::LookUpAccount);
    assert_eq!(plan_startup(false, false, true, true), StartupPlan::LookUpAccount);
}

#[test]
fn a_named_account_without_a_file_is_an_error() {
    assert_eq!(
        plan_startup(false, false, false, true),
        StartupPlan::NoConfigurationFile
    );
}

#[test]
fn a_seed_or_no_config_goes_straight_to_the_wizard() {
    let quiet = StartupPlan::RunWizard { welcome: false };
    assert_eq!(plan_startup(false, true, true, false), quiet);
    assert_eq!(plan_startup(false, true, false, false), quiet);
    assert_eq!(plan_startup(true, false, false, false), quiet);
}

#[test]
fn the_flag_wins_over_the_account_over_the_global_name() {
    let s = |v: &str| Some(v.to_string());
    assert_eq!(resolve_from_name(s("Flag"), s("Account"), s("Global")), s("Flag"));
    assert_eq!(resolve_from_name(None, s("Account"), s("Global")), s("Account"));
    assert_eq!(resolve_from_name(None, None, s("Global")), s("Global"));
    assert_eq!(resolve_from_name(None, None, None), None);
    assert_eq!(resolve_from(s("a@x"), s("b@x")), s("a@x"));
    assert_eq!(resolve_from(None, s("b@x")), s("b@x"));
}

#[test]
fn keybinds_fall_back_to_the_file_then_vim() {
    assert_eq!(
        resolve_keybinds(Some(Keybinds::Emacs), Some(Keybinds::Vim)),
        Some(Keybinds::Emacs)
    );
    assert_eq!(resolve_keybinds(None, Some(Keybinds::Emacs)), Some(Keybinds::Emacs));
    assert_eq!(resolve_keybinds(None, None), None);
    assert_eq!(resolve_keybinds(None, None).unwrap_or_default(), Keybinds::Vim);
}
