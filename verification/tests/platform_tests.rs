use glint::platform::{
    content_type, is_windows_11, quote_single_quotes, trim, windows_build, CommandOutcome,
    DefaultAppError, DefaultAppStep, PlatformInfo, RegistryError, RegistryOperation,
    WindowsIntegration,
};

fn line(words: &[&str]) -> Vec<String> {
    words.iter().map(|w| w.to_string()).collect()
}

#[test]
fn platform_names_for_known_systems() {
    assert_eq!(PlatformInfo::name("windows"), Some("Windows"));
    assert_eq!(PlatformInfo::name("linux"), Some("Linux"));
    assert_eq!(PlatformInfo::name("macos"), Some("macOS"));
    assert_eq!(PlatformInfo::name("freebsd"), None);
}

#[test]
fn platform_is_windows_only_for_windows() {
    assert!(PlatformInfo::is_windows("windows"));
    assert!(!PlatformInfo::is_windows("linux"));
}

#[test]
fn registered_formats_are_the_listed_extensions() {
    let formats = WindowsIntegration::get_registered_formats();
    assert_eq!(formats.len(), 28);
    assert_eq!(formats[0], ".png");
    assert_eq!(formats[2], ".jpeg");
    assert!(formats.contains(&".raw".to_string()));
    assert_eq!(formats[27], ".tga");
    for ext in glint::sorting::supported_extensions() {
        assert!(formats.contains(&format!(".{}", ext)));
    }
}

#[test]
fn content_types_by_extension() {
    assert_eq!(content_type(".png"), "image/png");
    assert_eq!(content_type(".jpeg"), "image/jpeg");
    assert_eq!(content_type(".tif"), "image/tiff");
    assert_eq!(content_type(".heif"), "image/heic");
    assert_eq!(content_type(".ico"), "image/x-icon");
    assert_eq!(content_type(".svg"), "image/svg+xml");
    assert_eq!(content_type(".cr2"), "image/unknown");
}

#[test]
fn windows_build_reads_the_third_part_of_the_version() {
    let out = "\r\nMicrosoft Windows [Version 10.0.22631.4169]\r\n";
    assert_eq!(windows_build(out), 22631);
    assert_eq!(windows_build("[Version 10.0.22631]]"), 22631);
    assert_eq!(windows_build("Microsoft Windows [Version 6.1.7601]"), 7601);
}

#[test]
fn windows_build_is_zero_without_a_dotted_word() {
    assert_eq!(windows_build(""), 0);
    assert_eq!(windows_build("no version here"), 0);
}

#[test]
fn windows_build_uses_the_first_dotted_word() {
    assert_eq!(windows_build("a.1.5 b.2.6"), 5);
}

#[test]
fn windows_build_without_a_third_part_or_number_is_zero() {
    assert_eq!(windows_build("10.0]"), 0);
    assert_eq!(windows_build("v1.x.y2"), 0);
    assert_eq!(windows_build("1.2."), 0);
    assert_eq!(windows_build("1.2.99999999999"), 0);
    assert_eq!(windows_build("1.2.+7"), 7);
    assert_eq!(windows_build("1.2.4294967295.1"), 4294967295);
}

#[test]
fn windows_11_starts_at_build_22000() {
    assert!(is_windows_11("Microsoft Windows [Version 10.0.22000]"));
    assert!(!is_windows_11("Microsoft Windows [Version 10.0.21999]"));
    assert!(is_windows_11("Microsoft Windows [Version 10.0.22631.4169]"));
}

#[test]
fn trim_takes_off_surrounding_white_space() {
    assert_eq!(trim("  ERROR: denied.\r\n"), "ERROR: denied.");
    assert_eq!(trim(" \t \n"), "");
    assert_eq!(trim("\u{3000}x y\u{a0}"), "x y");
}

#[test]
fn single_quotes_are_doubled() {
    assert_eq!(quote_single_quotes("it's Bob's"), "it''s Bob''s");
    assert_eq!(quote_single_quotes("plain"), "plain");
}

#[test]
fn properties_dialog_arguments() {
    let args = WindowsIntegration::open_properties("C:\\a'b.png");
    assert_eq!(
        args,
        line(&[
            "-NoProfile",
            "-WindowStyle",
            "Hidden",
            "-Command",
            "(New-Object -ComObject Shell.Application).Namespace(0).ParseName('C:\\a''b.png').InvokeVerb('Properties')",
        ])
    );
}

#[test]
fn registration_plan_commands() {
    let plan = WindowsIntegration::register_as_available("C:\\Glint\\glint.exe");
    let cmds = plan.commands();
    assert_eq!(cmds.len(), 8 + 28 * 4 + 3);
    assert_eq!(
        cmds[0].command_line(),
        line(&["add", "HKCU\\Software\\Classes\\Glint.ImageViewer", "/ve", "/t", "REG_SZ", "/d", "Glint Image Viewer", "/f"])
    );
    assert_eq!(cmds[1].args[5], "C:\\Glint\\glint.exe,1");
    assert_eq!(cmds[2].args[5], "\"C:\\Glint\\glint.exe\" \"%1\"");
    assert_eq!(cmds[5].args[5], "\"C:\\Glint\\glint.exe\" --slideshow \"%1\"");
    assert_eq!(
        cmds[8].command_line(),
        line(&["add", "HKCU\\Software\\Classes\\.png", "/ve", "/t", "REG_SZ", "/d", "Glint.ImageViewer", "/f"])
    );
    assert_eq!(
        cmds[10].command_line(),
        line(&["add", "HKCU\\Software\\Classes\\.png", "/v", "Content Type", "/t", "REG_SZ", "/d", "image/png", "/f"])
    );
    assert!(cmds[9].required);
    assert!(!cmds[10].required);
    assert!(!cmds[11].required);
    assert_eq!(
        cmds[11].command_line(),
        line(&["add", "HKCU\\Software\\Classes\\.png\\OpenWithList\\glint.exe", "/ve", "/t", "REG_SZ", "/f"])
    );
    assert_eq!(
        cmds[122].command_line(),
        line(&["add", "HKCU\\Software\\RegisteredApplications", "/v", "Glint", "/t", "REG_SZ", "/d", "Software\\Glint\\Capabilities", "/f"])
    );
    assert!(!plan.notifies_shell());
    assert!(!plan.sets_default_after());
}

#[test]
fn registration_plan_passes_over_optional_failures_and_stops_at_required_ones() {
    let mut plan = WindowsIntegration::register_as_available("glint.exe");
    for _ in 0..10 {
        assert!(plan.current().is_some());
        plan.record(CommandOutcome::Succeeded);
    }
    // the content type of .png is optional
    plan.record(CommandOutcome::Failed { code: Some(1), stderr: "denied".to_string() });
    assert!(!plan.is_finished());
    assert!(plan.error().is_none());
    plan.record(CommandOutcome::Succeeded);
    // the ProgID of .jpg is required
    plan.record(CommandOutcome::Failed { code: Some(1), stderr: "  ERROR: Access is denied.\r\n".to_string() });
    assert!(plan.is_finished());
    assert!(plan.current().is_none());
    match plan.error() {
        Some(RegistryError::Message { operation, message }) => {
            assert_eq!(*operation, RegistryOperation::Add);
            assert_eq!(message, "ERROR: Access is denied.");
        },
        _ => panic!("expected a message"),
    }
}

#[test]
fn registration_plan_succeeds_when_every_command_does() {
    let mut plan = WindowsIntegration::set_as_default_all("glint.exe");
    let mut n = 0;
    while plan.current().is_some() {
        plan.record(CommandOutcome::Succeeded);
        n += 1;
    }
    assert_eq!(n, 123);
    assert!(plan.is_finished());
    assert!(plan.error().is_none());
    assert!(plan.sets_default_after());
}

#[test]
fn failure_without_message_reports_exit_code() {
    let mut plan = WindowsIntegration::register_auto_start(true, "g.exe");
    plan.record(CommandOutcome::Failed { code: Some(5), stderr: " \n".to_string() });
    match plan.error() {
        Some(RegistryError::ExitCode { operation, code }) => {
            assert_eq!(*operation, RegistryOperation::Add);
            assert_eq!(*code, Some(5));
        },
        _ => panic!("expected an exit code"),
    }
}

#[test]
fn command_that_does_not_start_is_reported() {
    let mut plan = WindowsIntegration::register_auto_start(false, "g.exe");
    plan.record(CommandOutcome::NotStarted);
    match plan.error() {
        Some(RegistryError::NotStarted { operation }) => assert_eq!(*operation, RegistryOperation::Delete),
        _ => panic!("expected a start failure"),
    }
}

#[test]
fn auto_start_commands() {
    let on = WindowsIntegration::register_auto_start(true, "C:\\g.exe");
    assert_eq!(on.commands().len(), 1);
    assert_eq!(
        on.commands()[0].command_line(),
        line(&["add", "HKCU\\Software\\Microsoft\\Windows\\CurrentVersion\\Run", "/v", "Glint", "/t", "REG_SZ", "/d", "\"C:\\g.exe\" --background", "/f"])
    );
    let off = WindowsIntegration::set_auto_start(false, "C:\\g.exe");
    assert_eq!(
        off.commands()[0].command_line(),
        line(&["delete", "HKCU\\Software\\Microsoft\\Windows\\CurrentVersion\\Run", "/v", "Glint", "/f"])
    );
    let same = WindowsIntegration::set_auto_start(true, "C:\\g.exe");
    assert_eq!(same.commands()[0].command_line(), on.commands()[0].command_line());
}

#[test]
fn unregistration_never_fails() {
    let mut plan = WindowsIntegration::unregister_file_associations();
    assert_eq!(plan.commands().len(), 1 + 28 * 2 + 3);
    assert_eq!(
        plan.commands()[0].command_line(),
        line(&["delete", "HKCU\\Software\\Classes\\Glint.ImageViewer", "/f"])
    );
    assert_eq!(
        plan.commands()[2].command_line(),
        line(&["delete", "HKCU\\Software\\Classes\\.png\\OpenWithList\\glint.exe", "/f"])
    );
    while plan.current().is_some() {
        plan.record(CommandOutcome::Failed { code: Some(1), stderr: "missing".to_string() });
    }
    assert!(plan.error().is_none());
    assert!(plan.notifies_shell());
}

#[test]
fn registry_queries() {
    assert_eq!(
        WindowsIntegration::test_format_query().command_line(),
        line(&["query", "HKCU\\Software\\Microsoft\\Windows\\CurrentVersion\\Explorer\\FileExts\\.png\\UserChoice", "/v", "Progid"])
    );
    assert_eq!(
        WindowsIntegration::dark_mode_query().command_line(),
        line(&["query", "HKCU\\Software\\Microsoft\\Windows\\CurrentVersion\\Themes\\Personalize", "/v", "AppsUseLightTheme"])
    );
    assert_eq!(
        WindowsIntegration::auto_start_query().command_line(),
        line(&["query", "HKCU\\Software\\Microsoft\\Windows\\CurrentVersion\\Run", "/v", "Glint"])
    );
}

#[test]
fn default_viewer_is_read_from_the_user_choice() {
    assert!(WindowsIntegration::is_default_for_test_format(Some("    Progid    REG_SZ    Glint.ImageViewer\r\n")));
    assert!(!WindowsIntegration::is_default_for_test_format(Some("    Progid    REG_SZ    ChromeHTML")));
    assert!(!WindowsIntegration::is_default_for_test_format(None));
}

#[test]
fn dark_mode_is_read_from_the_light_theme_value() {
    assert!(WindowsIntegration::is_windows_dark_mode(Some("AppsUseLightTheme    REG_DWORD    0x0")));
    assert!(!WindowsIntegration::is_windows_dark_mode(Some("AppsUseLightTheme    REG_DWORD    0x1")));
    assert!(!WindowsIntegration::is_windows_dark_mode(None));
}

#[test]
fn setting_the_default_viewer_outcomes() {
    assert_eq!(WindowsIntegration::set_as_default_only(DefaultAppStep::NotCreated), Err(DefaultAppError::NotAvailable));
    assert_eq!(WindowsIntegration::set_as_default_only(DefaultAppStep::CallFailed), Err(DefaultAppError::CallFailed));
    assert_eq!(WindowsIntegration::set_as_default_only(DefaultAppStep::Done), Ok(()));
}

#[test]
fn recycle_bin_arguments() {
    let args = WindowsIntegration::move_to_recycle_bin("D:\\pics\\x.jpg");
    assert_eq!(args.len(), 5);
    assert_eq!(
        args[4],
        "(New-Object -ComObject Shell.Application).Namespace(0).ParseName('D:\\pics\\x.jpg').InvokeVerb('delete')"
    );
}
