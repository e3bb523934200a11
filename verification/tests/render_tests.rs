use plexus_locus::activations::render::{border_style_for, most_recent, resolve_recording_dir, RecordingDir, RenderActivation};
use plexus_locus::compositor::writer::BorderStyle;

#[test]
fn test_parse_border_style() {
    assert_eq!(RenderActivation::parse_border_style("single"), BorderStyle::Single);
    assert_eq!(RenderActivation::parse_border_style("double"), BorderStyle::Double);
    assert_eq!(RenderActivation::parse_border_style("heavy"), BorderStyle::Heavy);
    assert_eq!(RenderActivation::parse_border_style("none"), BorderStyle::Borderless);
    assert_eq!(RenderActivation::parse_border_style("invalid"), BorderStyle::Single);
}

#[test]
fn border_style_ignores_case() {
    assert_eq!(RenderActivation::parse_border_style("DOUBLE"), BorderStyle::Double);
    assert_eq!(RenderActivation::parse_border_style("Heavy"), BorderStyle::Heavy);
    assert_eq!(border_style_for("Heavy"), BorderStyle::Single);
    assert_eq!(border_style_for("none"), BorderStyle::Borderless);
}

#[test]
fn recording_dir_prefers_explicit_directory() {
    match resolve_recording_dir(Some("/data/rec".to_string()), Some("x".to_string()), "/home/u") {
        RecordingDir::At(p) => assert_eq!(p, "/data/rec"),
        RecordingDir::MostRecent => panic!("expected a path"),
    }
    match resolve_recording_dir(None, Some("20240101T000000".to_string()), "/home/u") {
        RecordingDir::At(p) => assert_eq!(p, "/home/u/.local/share/locus/recordings/20240101T000000"),
        RecordingDir::MostRecent => panic!("expected a path"),
    }
    assert!(matches!(resolve_recording_dir(None, None, "/home/u"), RecordingDir::MostRecent));
}

#[test]
fn most_recent_recording_is_greatest_id() {
    let names = vec![
        "20240102T000000".to_string(),
        "20240301T120000".to_string(),
        "20231231T235959".to_string(),
    ];
    assert_eq!(most_recent(&names), Some(1));
    assert_eq!(most_recent(&Vec::new()), None);
}
