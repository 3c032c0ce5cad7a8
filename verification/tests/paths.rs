use hub_manifest::expand::expand;
use hub_manifest::paths::InstallationPath;
use hub_manifest::paths::application_dir;
use hub_manifest::platform::BuildMode;
use hub_manifest::platform::PathError;
use hub_manifest::platform::Platform;

fn template(
    universal: Option<&str>,
    windows: Option<&str>,
    macos: Option<&str>,
    linux: Option<&str>,
) -> InstallationPath {
    InstallationPath {
        universal: universal.map(|s| s.to_string()),
        windows: windows.map(|s| s.to_string()),
        macos: macos.map(|s| s.to_string()),
        linux: linux.map(|s| s.to_string()),
    }
}

#[test]
fn universal_wins_on_every_platform() {
    let t = template(Some("/u"), Some("/w"), Some("/m"), Some("/l"));
    assert_eq!(t.get(Platform::Windows), Ok("/u".to_string()));
    assert_eq!(t.get(Platform::Macos), Ok("/u".to_string()));
    assert_eq!(t.get(Platform::Linux), Ok("/u".to_string()));
}

#[test]
fn platform_field_used_without_universal() {
    let t = template(None, Some("/w"), Some("/m"), Some("/l"));
    assert_eq!(t.get(Platform::Windows), Ok("/w".to_string()));
    assert_eq!(t.get(Platform::Macos), Ok("/m".to_string()));
    assert_eq!(t.get(Platform::Linux), Ok("/l".to_string()));
}

#[test]
fn missing_variant_is_missing_path() {
    let t = template(None, Some("/w"), None, None);
    assert_eq!(t.get(Platform::Linux), Err(PathError::MissingPath));
    assert_eq!(t.get(Platform::Macos), Err(PathError::MissingPath));
    assert_eq!(t.get(Platform::Windows), Ok("/w".to_string()));
    let empty = template(None, None, None, None);
    assert_eq!(empty.get(Platform::Windows), Err(PathError::MissingPath));
}

#[test]
fn default_template_has_no_variant() {
    let t = InstallationPath::default();
    assert_eq!(t.get(Platform::Linux), Err(PathError::MissingPath));
}

#[test]
fn home_placeholder_expands() {
    let out = expand("$HOME/app/bin/run", "/apps", "/home/u");
    assert_eq!(out, "/home/u/app/bin/run");
}

#[test]
fn applications_placeholder_expands() {
    let out = expand("$APPLICATIONS/App/app.exe", "C:\\Program Files", "C:\\Users\\u");
    assert_eq!(out, "C:\\Program Files/App/app.exe");
}

#[test]
fn expansion_leaves_token_free_path_alone() {
    let out = expand("/opt/app/bin/run", "/apps", "/home/u");
    assert_eq!(out, "/opt/app/bin/run");
}

#[test]
fn every_occurrence_is_replaced() {
    let out = expand("$HOME/$HOME", "/a", "/h");
    assert_eq!(out, "/h//h");
}

#[test]
fn resolve_in_universal_home() {
    let t = template(Some("$HOME/app/bin/run"), None, None, None);
    let app = "/apps".to_string();
    let home = "/home/u".to_string();
    for p in [Platform::Windows, Platform::Macos, Platform::Linux] {
        assert_eq!(t.resolve_in(p, &app, &home), Ok("/home/u/app/bin/run".to_string()));
    }
}

#[test]
fn resolve_in_windows_only_fails_elsewhere() {
    let t = template(None, Some("$APPLICATIONS/App/app.exe"), None, None);
    let app = "/apps".to_string();
    let home = "/home/u".to_string();
    assert_eq!(t.resolve_in(Platform::Linux, &app, &home), Err(PathError::MissingPath));
    assert_eq!(t.resolve_in(Platform::Macos, &app, &home), Err(PathError::MissingPath));
    assert_eq!(
        t.resolve_in(Platform::Windows, &app, &home),
        Ok("/apps/App/app.exe".to_string())
    );
}

#[test]
fn application_dir_by_platform() {
    let home = "/home/u".to_string();
    let pf = Some("C:\\Program Files".to_string());
    let ed = Some("/home/u/.local/bin".to_string());
    assert_eq!(
        application_dir(Platform::Windows, BuildMode::Production, &home, &pf, &ed),
        Ok("C:\\Program Files".to_string())
    );
    assert_eq!(
        application_dir(Platform::Macos, BuildMode::Production, &home, &pf, &ed),
        Ok("/home/u/Applications".to_string())
    );
    assert_eq!(
        application_dir(Platform::Linux, BuildMode::Production, &home, &pf, &ed),
        Ok("/home/u/.local/bin".to_string())
    );
}

#[test]
fn sandbox_mode_overrides_every_platform() {
    let home = "/home/u".to_string();
    let pf = Some("C:\\Program Files".to_string());
    let ed = Some("/bin".to_string());
    for p in [Platform::Windows, Platform::Macos, Platform::Linux] {
        assert_eq!(
            application_dir(p, BuildMode::Sandbox, &home, &pf, &ed),
            Ok("/home/u/ExpressiveLabs/ELSC/testing".to_string())
        );
    }
}

#[test]
fn directory_discovery_error_without_program_files() {
    let home = "/home/u".to_string();
    assert_eq!(
        application_dir(Platform::Windows, BuildMode::Production, &home, &None, &None),
        Err(PathError::DirectoryDiscoveryError)
    );
    assert_eq!(
        application_dir(Platform::Linux, BuildMode::Production, &home, &None, &None),
        Err(PathError::DirectoryDiscoveryError)
    );
}

#[test]
fn resolve_missing_variant_is_missing_path() {
    let t = template(None, None, None, None);
    assert_eq!(
        t.resolve(Platform::Linux, BuildMode::Production, &None),
        Err(PathError::MissingPath)
    );
}

#[test]
fn resolve_in_sandbox_mode_expands_against_home() {
    if let Some(home) = dirs::home_dir() {
        let home_s = home.to_str().unwrap().to_string();
        let t = template(Some("$APPLICATIONS/app"), None, None, None);
        let r = t.resolve(Platform::Linux, BuildMode::Sandbox, &None).unwrap();
        assert_eq!(r, format!("{}/ExpressiveLabs/ELSC/testing/app", home_s));
        let t2 = template(Some("$HOME/xyz"), None, None, None);
        let r2 = t2.resolve(Platform::Macos, BuildMode::Sandbox, &None).unwrap();
        assert_eq!(r2, format!("{}/xyz", home_s));
    }
}
