use egui_export_svg::{ConversionOptions, MeshMode, TextMode};

#[test]
fn minimal_options_ask_for_the_least() {
    let options = ConversionOptions::minimal();
    assert_eq!(options.text, TextMode::Native);
    assert_eq!(options.mesh, MeshMode::Basic);
}

#[test]
fn full_options_ask_for_the_most() {
    let options = ConversionOptions::full();
    assert_eq!(options.text, TextMode::Meshed { copyable: true });
    assert_eq!(options.mesh, MeshMode::Textures);
}
