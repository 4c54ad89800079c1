use dais::export::{
    escape_typst_string, numbered_name, selected_page_indices, typst_rgba, typst_string,
    unpremultiply_channel, ExportLayers, RenderedTextBox, TextBoxRenderCache, TypstExportError,
};
use dais::slide_group::SlideGroupMeta;

#[test]
fn artifact_names_are_numbered_from_one() {
    assert_eq!(numbered_name(0, "png"), "page-001.png");
    assert_eq!(numbered_name(41, "svg"), "page-042.svg");
    assert_eq!(numbered_name(1233, "png"), "page-1234.png");
}

#[test]
fn layers_select_content() {
    assert!(ExportLayers::All.background() && ExportLayers::All.ink() && ExportLayers::All.text());
    assert!(!ExportLayers::Overlays.background());
    assert!(ExportLayers::Overlays.ink() && ExportLayers::Overlays.text());
    assert!(ExportLayers::Background.background() && !ExportLayers::Background.ink());
    assert!(!ExportLayers::Ink.text() && !ExportLayers::Text.ink());
}

#[test]
fn typst_snippets() {
    assert_eq!(typst_rgba([1, 22, 255, 0]), "rgb(1, 22, 255, 0)");
    assert_eq!(typst_string("say \"hi\"\n\tC:\\x\r"), "\"say \\\"hi\\\"\\n\\tC:\\\\x\\r\"");
    assert_eq!(escape_typst_string("plain"), "\"plain\"");
}

#[test]
fn handout_pages() {
    let groups = vec![
        SlideGroupMeta { start_page: 0, end_page: 2 },
        SlideGroupMeta { start_page: 3, end_page: 9 },
        SlideGroupMeta { start_page: 4, end_page: 4 },
    ];
    assert_eq!(selected_page_indices(5, &groups, false), vec![0, 1, 2, 3, 4]);
    assert_eq!(selected_page_indices(5, &groups, true), vec![2, 4]);
    assert_eq!(selected_page_indices(3, &Vec::new(), true), vec![0, 1, 2]);
}

#[test]
fn unpremultiply_rounds_to_nearest() {
    assert_eq!(unpremultiply_channel(128, 255), 128);
    assert_eq!(unpremultiply_channel(64, 128), 128);
    assert_eq!(unpremultiply_channel(1, 3), 85);
    assert_eq!(unpremultiply_channel(0, 1), 0);
}

#[test]
fn render_cache_stores_and_invalidates_by_content() {
    let mut cache = TextBoxRenderCache::new();
    let key_a = TextBoxRenderCache::key_for("a", "", 10, 10, 0, [0, 0, 0, 255], None);
    let key_b = TextBoxRenderCache::key_for("b", "", 10, 10, 0, [0, 0, 0, 255], Some([1, 1, 1, 1]));
    let key_a2 = TextBoxRenderCache::key_for("a", "", 20, 10, 0, [0, 0, 0, 255], None);
    cache.insert(key_a, RenderedTextBox { data: vec![1], width: 10, height: 10 });
    cache.insert(key_b, RenderedTextBox { data: vec![2], width: 10, height: 10 });
    cache.insert(key_a2, RenderedTextBox { data: vec![3], width: 20, height: 10 });
    assert_eq!(cache.get(&key_a).unwrap().data, vec![1]);
    cache.invalidate("a");
    assert!(cache.get(&key_a).is_none());
    assert!(cache.get(&key_a2).is_none());
    assert_eq!(cache.get(&key_b).unwrap().data, vec![2]);
}

#[test]
fn export_error_messages() {
    assert_eq!(TypstExportError::Png("x".to_string()).to_string(), "PNG export failed: x");
    assert_eq!(
        TypstExportError::Compile("oops".to_string()).to_string(),
        "Typst compilation failed: oops"
    );
    let io = std::io::Error::new(std::io::ErrorKind::Other, "disk");
    assert_eq!(TypstExportError::from(io).to_string(), "failed to read source PDF: disk");
}
