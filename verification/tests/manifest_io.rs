use hub_manifest::manifest::Author;
use hub_manifest::manifest::ContentBundle;
use hub_manifest::manifest::FiletypeAssociation;
use hub_manifest::manifest::PackageFile;
use hub_manifest::paths::InstallationPath;
use hub_manifest::platform::ManifestError;
use hub_manifest::platform::PathError;
use hub_manifest::platform::Platform;

fn sample_text() -> &'static str {
    r#"{
        "name": "App",
        "identifier": "com.example.app",
        "version": "1.0.0",
        "filetypes": [{"extension": "mmp", "description": "Project file"}],
        "developer": {"name": "Dev", "email": "d@example.com", "url": "https://example.com"},
        "publisher": {"name": "Pub", "email": "p@example.com", "url": "https://example.com/p"},
        "entrypoint": {"universal": "$HOME/app/bin/run"},
        "contents": [{"target": {"universal": "$HOME/app"}, "source": {"linux": "./payload"}}]
    }"#
}

#[test]
fn load_reads_every_field() {
    let p = PackageFile::from_json_text(sample_text()).unwrap();
    assert_eq!(p.name, "App");
    assert_eq!(p.identifier, "com.example.app");
    assert_eq!(p.version, "1.0.0");
    assert_eq!(p.icon, None);
    assert_eq!(p.filetypes.len(), 1);
    assert_eq!(p.filetypes[0].extension, "mmp");
    assert_eq!(p.filetypes[0].description, "Project file");
    assert_eq!(p.developer.name, "Dev");
    assert_eq!(p.publisher.email, "p@example.com");
    assert_eq!(p.minimum_hub_version, None);
    assert_eq!(p.entrypoint.universal.as_deref(), Some("$HOME/app/bin/run"));
    assert_eq!(p.contents.len(), 1);
    assert_eq!(p.contents[0].target.universal.as_deref(), Some("$HOME/app"));
    let src = p.contents[0].source.as_ref().unwrap();
    assert_eq!(src.linux.as_deref(), Some("./payload"));
}

#[test]
fn round_trip_preserves_all_fields() {
    let p = PackageFile::from_json_text(sample_text()).unwrap();
    let saved = p.to_json_text();
    let q = PackageFile::from_json_text(&saved).unwrap();
    assert_eq!(p, q);
    // Reserializing the reparsed value gives the same text again.
    assert_eq!(saved, q.to_json_text());
}

#[test]
fn missing_version_is_parse_error() {
    let text = r#"{
        "name": "App",
        "identifier": "com.example.app",
        "filetypes": [],
        "developer": {"name": "D", "email": "e", "url": "u"},
        "publisher": {"name": "P", "email": "e", "url": "u"},
        "entrypoint": {"universal": "/x"},
        "contents": []
    }"#;
    assert_eq!(PackageFile::from_json_text(text), Err(ManifestError::ParseError));
}

#[test]
fn malformed_text_is_parse_error() {
    assert_eq!(PackageFile::from_json_text("not json"), Err(ManifestError::ParseError));
    assert_eq!(PackageFile::from_json_text(""), Err(ManifestError::ParseError));
    assert_eq!(PackageFile::from_json_text("{\"name\": }"), Err(ManifestError::ParseError));
}

#[test]
fn wrong_type_is_parse_error() {
    let text = r#"{
        "name": 7,
        "identifier": "i",
        "version": "1",
        "filetypes": [],
        "developer": {"name": "D", "email": "e", "url": "u"},
        "publisher": {"name": "P", "email": "e", "url": "u"},
        "entrypoint": {"universal": "/x"},
        "contents": []
    }"#;
    assert_eq!(PackageFile::from_json_text(text), Err(ManifestError::ParseError));
}

#[test]
fn unknown_fields_are_ignored() {
    let text = r#"{
        "name": "App",
        "extra": {"nested": [1, -2.5e3, true, null, "s"]},
        "identifier": "i",
        "version": "1",
        "filetypes": [],
        "developer": {"name": "D", "email": "e", "url": "u"},
        "publisher": {"name": "P", "email": "e", "url": "u"},
        "entrypoint": {"universal": "/x"},
        "contents": []
    }"#;
    let p = PackageFile::from_json_text(text).unwrap();
    assert_eq!(p.name, "App");
}

#[test]
fn null_optional_fields_read_as_absent() {
    let text = r#"{
        "name": "App",
        "identifier": "i",
        "version": "1",
        "icon": null,
        "filetypes": [],
        "developer": {"name": "D", "email": "e", "url": "u"},
        "publisher": {"name": "P", "email": "e", "url": "u"},
        "minimum_hub_version": null,
        "entrypoint": {"universal": "/x"},
        "contents": []
    }"#;
    let p = PackageFile::from_json_text(text).unwrap();
    assert_eq!(p.icon, None);
    assert_eq!(p.minimum_hub_version, None);
}

fn bare_package() -> PackageFile {
    PackageFile {
        name: "App".to_string(),
        identifier: "com.example.app".to_string(),
        version: "1.0.0".to_string(),
        icon: None,
        filetypes: vec![],
        developer: Author {
            name: "Dev".to_string(),
            email: "d@example.com".to_string(),
            url: "https://example.com".to_string(),
        },
        publisher: Author {
            name: "Pub".to_string(),
            email: "p@example.com".to_string(),
            url: "https://example.com/p".to_string(),
        },
        minimum_hub_version: None,
        entrypoint: InstallationPath {
            universal: Some("$HOME/app/bin/run".to_string()),
            windows: None,
            macos: None,
            linux: None,
        },
        contents: vec![],
    }
}

#[test]
fn absent_optional_fields_are_omitted_from_output() {
    let text = bare_package().to_json_text();
    let value: serde_json::Value = serde_json::from_str(&text).unwrap();
    let obj = value.as_object().unwrap();
    assert!(!obj.contains_key("icon"));
    assert!(!obj.contains_key("minimum_hub_version"));
    assert_eq!(obj["contents"], serde_json::Value::Array(vec![]));
    assert_eq!(obj["name"], serde_json::Value::String("App".to_string()));
}

#[test]
fn output_is_json_that_serde_reads_identically() {
    let p = PackageFile::from_json_text(sample_text()).unwrap();
    let text = p.to_json_text();
    let value: serde_json::Value = serde_json::from_str(&text).unwrap();
    assert_eq!(value["entrypoint"]["universal"], "$HOME/app/bin/run");
    assert_eq!(value["contents"][0]["source"]["linux"], "./payload");
    assert_eq!(value["filetypes"][0]["extension"], "mmp");
    assert!(value["contents"][0].get("icon").is_none());
}

#[test]
fn string_escapes_survive_the_round_trip() {
    let mut p = bare_package();
    p.name = "A \"quoted\" name\\with\nnewline\tand tab".to_string();
    p.icon = Some("ic\u{8}on\u{c}\r".to_string());
    let text = p.to_json_text();
    let q = PackageFile::from_json_text(&text).unwrap();
    assert_eq!(p, q);
    let value: serde_json::Value = serde_json::from_str(&text).unwrap();
    assert_eq!(value["name"], serde_json::Value::String(p.name.clone()));
    assert_eq!(value["icon"], serde_json::Value::String(p.icon.clone().unwrap()));
}

#[test]
fn unicode_escapes_are_parsed() {
    let text = r#"{
        "name": "App\u00e9 A",
        "identifier": "i",
        "version": "1",
        "filetypes": [],
        "developer": {"name": "D", "email": "e", "url": "u"},
        "publisher": {"name": "P", "email": "e", "url": "u"},
        "entrypoint": {"universal": "/x"},
        "contents": []
    }"#;
    let p = PackageFile::from_json_text(text).unwrap();
    assert_eq!(p.name, "App\u{e9} A");
}

#[test]
fn scenario_universal_entrypoint_resolves_against_home() {
    let p = PackageFile::from_json_text(sample_text()).unwrap();
    let app = "/apps".to_string();
    let home = "/home/u".to_string();
    for platform in [Platform::Windows, Platform::Macos, Platform::Linux] {
        assert_eq!(
            p.entrypoint.resolve_in(platform, &app, &home),
            Ok("/home/u/app/bin/run".to_string())
        );
    }
}

#[test]
fn scenario_windows_entrypoint_missing_elsewhere() {
    let text = r#"{
        "name": "App",
        "identifier": "i",
        "version": "1",
        "filetypes": [],
        "developer": {"name": "D", "email": "e", "url": "u"},
        "publisher": {"name": "P", "email": "e", "url": "u"},
        "entrypoint": {"windows": "$APPLICATIONS/App/app.exe"},
        "contents": []
    }"#;
    let p = PackageFile::from_json_text(text).unwrap();
    assert_eq!(p.entrypoint.get(Platform::Linux), Err(PathError::MissingPath));
    assert_eq!(p.entrypoint.get(Platform::Macos), Err(PathError::MissingPath));
    assert_eq!(
        p.entrypoint.get(Platform::Windows),
        Ok("$APPLICATIONS/App/app.exe".to_string())
    );
}

#[test]
fn default_records_are_empty() {
    let bundle = ContentBundle::default();
    assert!(bundle.source.is_none());
    assert!(bundle.target.universal.is_none());
    let ft = FiletypeAssociation::default();
    assert_eq!(ft.extension, "");
    assert_eq!(ft.description, "");
    let p = PackageFile::default();
    assert_eq!(p.name, "");
    assert!(p.contents.is_empty());
}

#[test]
fn empty_object_is_parse_error() {
    assert_eq!(PackageFile::from_json_text("{}"), Err(ManifestError::ParseError));
}

#[test]
fn trailing_text_is_parse_error() {
    let mut text = sample_text().to_string();
    text.push_str(" x");
    assert_eq!(PackageFile::from_json_text(&text), Err(ManifestError::ParseError));
}

#[test]
fn surrounding_whitespace_is_accepted() {
    let text = format!("\n\t {} \r\n", sample_text());
    assert!(PackageFile::from_json_text(&text).is_ok());
}

#[test]
fn bundle_without_target_is_parse_error() {
    let text = r#"{
        "name": "App",
        "identifier": "i",
        "version": "1",
        "filetypes": [],
        "developer": {"name": "D", "email": "e", "url": "u"},
        "publisher": {"name": "P", "email": "e", "url": "u"},
        "entrypoint": {"universal": "/x"},
        "contents": [{"source": {"universal": "/s"}}]
    }"#;
    assert_eq!(PackageFile::from_json_text(text), Err(ManifestError::ParseError));
}

#[test]
fn filetypes_of_wrong_shape_is_parse_error() {
    let text = r#"{
        "name": "App",
        "identifier": "i",
        "version": "1",
        "filetypes": {"extension": "x", "description": "y"},
        "developer": {"name": "D", "email": "e", "url": "u"},
        "publisher": {"name": "P", "email": "e", "url": "u"},
        "entrypoint": {"universal": "/x"},
        "contents": []
    }"#;
    assert_eq!(PackageFile::from_json_text(text), Err(ManifestError::ParseError));
}

#[test]
fn duplicate_keys_take_the_first_value() {
    let text = r#"{
        "name": "First",
        "name": "Second",
        "identifier": "i",
        "version": "1",
        "filetypes": [],
        "developer": {"name": "D", "email": "e", "url": "u"},
        "publisher": {"name": "P", "email": "e", "url": "u"},
        "entrypoint": {"universal": "/x"},
        "contents": []
    }"#;
    let p = PackageFile::from_json_text(text).unwrap();
    assert_eq!(p.name, "First");
}

#[test]
fn surrogate_pair_escapes_are_combined() {
    let text = r#"{
        "name": "smile 😀 end",
        "identifier": "i",
        "version": "1",
        "filetypes": [],
        "developer": {"name": "D", "email": "e", "url": "u"},
        "publisher": {"name": "P", "email": "e", "url": "u"},
        "entrypoint": {"universal": "/x"},
        "contents": []
    }"#;
    let p = PackageFile::from_json_text(text).unwrap();
    assert_eq!(p.name, "smile \u{1f600} end");
    let reread = PackageFile::from_json_text(&p.to_json_text()).unwrap();
    assert_eq!(p, reread);
}

#[test]
fn lone_surrogate_escape_is_parse_error() {
    let text = r#"{
        "name": "bad \ud83d end",
        "identifier": "i",
        "version": "1",
        "filetypes": [],
        "developer": {"name": "D", "email": "e", "url": "u"},
        "publisher": {"name": "P", "email": "e", "url": "u"},
        "entrypoint": {"universal": "/x"},
        "contents": []
    }"#;
    assert_eq!(PackageFile::from_json_text(text), Err(ManifestError::ParseError));
}

#[test]
fn malformed_numbers_are_parse_errors() {
    for bad in ["-", "--5", "01", "1.", ".5", "1e", "1e+", "2.5.6"] {
        let text = format!(
            r#"{{
            "name": "App",
            "ignored": {},
            "identifier": "i",
            "version": "1",
            "filetypes": [],
            "developer": {{"name": "D", "email": "e", "url": "u"}},
            "publisher": {{"name": "P", "email": "e", "url": "u"}},
            "entrypoint": {{"universal": "/x"}},
            "contents": []
        }}"#,
            bad
        );
        assert_eq!(
            PackageFile::from_json_text(&text),
            Err(ManifestError::ParseError),
            "number {} should be rejected",
            bad
        );
    }
}

#[test]
fn well_formed_numbers_are_accepted_in_ignored_fields() {
    for good in ["0", "-0", "12", "-3.25", "0.5", "1e9", "2E-4", "7.5e+2"] {
        let text = format!(
            r#"{{
            "name": "App",
            "ignored": {},
            "identifier": "i",
            "version": "1",
            "filetypes": [],
            "developer": {{"name": "D", "email": "e", "url": "u"}},
            "publisher": {{"name": "P", "email": "e", "url": "u"}},
            "entrypoint": {{"universal": "/x"}},
            "contents": []
        }}"#,
            good
        );
        assert!(
            PackageFile::from_json_text(&text).is_ok(),
            "number {} should be accepted",
            good
        );
    }
}
