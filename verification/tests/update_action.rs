use codexx::update_action::InstallContext;
use codexx::update_action::render_command_line;
use codexx::update_action::StandalonePlatform;
use codexx::update_action::UpdateAction;
use codexx::update_action::UpdateConfig;
use std::path::PathBuf;

fn internal_update_config() -> UpdateConfig {
    UpdateConfig {
        enabled: false,
        latest_release_api_url: "https://updates.internal/latest".to_string(),
        release_notes_url: "https://updates.internal/releases".to_string(),
        install_options_url: "https://updates.internal/install".to_string(),
        homebrew_cask_api_url: "https://updates.internal/brew.json".to_string(),
        npm_package_url: "https://updates.internal/npm".to_string(),
        standalone_unix_installer_url: "https://updates.internal/install.sh".to_string(),
        standalone_windows_installer_url: "https://updates.internal/install.ps1".to_string(),
    }
}

#[test]
fn maps_install_context_to_update_action() {
    let native_release_dir = PathBuf::from("/tmp/native-release");

    assert_eq!(
        UpdateAction::from_install_context(&InstallContext::Other),
        None
    );
    assert_eq!(
        UpdateAction::from_install_context(&InstallContext::Npm),
        Some(UpdateAction::NpmGlobalLatest)
    );
    assert_eq!(
        UpdateAction::from_install_context(&InstallContext::Bun),
        Some(UpdateAction::BunGlobalLatest)
    );
    assert_eq!(
        UpdateAction::from_install_context(&InstallContext::Brew),
        Some(UpdateAction::BrewUpgrade)
    );
    assert_eq!(
        UpdateAction::from_install_context(&InstallContext::Standalone {
            platform: StandalonePlatform::Unix,
            release_dir: native_release_dir.clone(),
            resources_dir: Some(native_release_dir.join("codex-resources")),
        }),
        Some(UpdateAction::StandaloneUnix)
    );
    assert_eq!(
        UpdateAction::from_install_context(&InstallContext::Standalone {
            platform: StandalonePlatform::Windows,
            release_dir: native_release_dir.clone(),
            resources_dir: Some(native_release_dir.join("codex-resources")),
        }),
        Some(UpdateAction::StandaloneWindows)
    );
}

#[test]
fn standalone_update_commands_rerun_latest_installer() {
    assert_eq!(
        UpdateAction::StandaloneUnix.command_args(),
        (
            "sh",
            &["-c", "curl -fsSL https://chatgpt.com/codex/install.sh | sh"][..],
        )
    );
    assert_eq!(
        UpdateAction::StandaloneWindows.command_args(),
        (
            "powershell",
            &["-c", "irm https://chatgpt.com/codex/install.ps1|iex"][..],
        )
    );
}

#[test]
fn standalone_update_commands_use_configured_urls() {
    let update_config = internal_update_config();

    assert_eq!(
        UpdateAction::StandaloneUnix.command_str_with_config(&update_config),
        "sh -c 'curl -fsSL https://updates.internal/install.sh | sh'"
    );
    assert_eq!(
        UpdateAction::StandaloneWindows.command_str_with_config(&update_config),
        "powershell -c 'irm https://updates.internal/install.ps1|iex'"
    );
}

#[test]
fn package_manager_commands() {
    assert_eq!(
        UpdateAction::NpmGlobalLatest.command_args(),
        ("npm", &["install", "-g", "@openai/codex@latest"][..])
    );
    assert_eq!(
        UpdateAction::BunGlobalLatest.command_args(),
        ("bun", &["install", "-g", "@openai/codex@latest"][..])
    );
    assert_eq!(
        UpdateAction::BrewUpgrade.command_args(),
        ("brew", &["upgrade", "codex"][..])
    );
}

#[test]
fn command_strings_quote_words_with_shell_characters() {
    assert_eq!(UpdateAction::NpmGlobalLatest.command_str(), "npm install -g @openai/codex@latest");
    assert_eq!(UpdateAction::BrewUpgrade.command_str(), "brew upgrade codex");
    assert_eq!(
        UpdateAction::StandaloneUnix.command_str(),
        "sh -c 'curl -fsSL https://chatgpt.com/codex/install.sh | sh'"
    );
    assert_eq!(
        UpdateAction::StandaloneWindows.command_str(),
        "powershell -c 'irm https://chatgpt.com/codex/install.ps1|iex'"
    );
}

#[test]
fn configured_urls_only_change_standalone_commands() {
    let update_config = internal_update_config();
    for action in [
        UpdateAction::NpmGlobalLatest,
        UpdateAction::BunGlobalLatest,
        UpdateAction::BrewUpgrade,
    ] {
        let (program, args) = action.command_args();
        let (program_cfg, args_cfg) = action.command_args_with_config(&update_config);
        assert_eq!(program_cfg, program);
        assert_eq!(args_cfg, args.iter().map(|a| a.to_string()).collect::<Vec<_>>());
        assert_eq!(action.command_str_with_config(&update_config), action.command_str());
    }
    let (program, args) = UpdateAction::StandaloneUnix.command_args_with_config(&update_config);
    assert_eq!(program, "sh");
    assert_eq!(
        args,
        vec![
            "-c".to_string(),
            "curl -fsSL https://updates.internal/install.sh | sh".to_string()
        ]
    );
}

#[test]
fn unquotable_words_fall_back_to_plain_join() {
    let mut update_config = internal_update_config();
    update_config.standalone_unix_installer_url = "https://bad\0url".to_string();
    assert_eq!(
        UpdateAction::StandaloneUnix.command_str_with_config(&update_config),
        "sh -c curl -fsSL https://bad\0url | sh"
    );
}

#[test]
fn render_command_line_uses_quoted_text_when_present() {
    assert_eq!(
        render_command_line(Some("a 'b c'".to_string()), "a", &["b c"]),
        "a 'b c'"
    );
    assert_eq!(render_command_line(None, "a", &["b c", "d"]), "a b c d");
}
