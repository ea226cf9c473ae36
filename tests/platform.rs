use hone_editor::atlas::{AtlasConfig, MetalBlitter};
use hone_editor::color::{parse_hex_color, parse_hex_color_u16, Rgb};
use hone_editor::compositor::{Backend, Compositor};
use hone_editor::css::{cursor_class, generate_editor_css, selection_css, DomRendererConfig};
use hone_editor::input::{InputEvent, InputHandler};
use hone_editor::menu::ContextMenuItem;

#[test]
fn editor_css_default_config() {
    let css = generate_editor_css(&DomRendererConfig::default());
    assert_eq!(css, "\n.hone-editor {\n    position: relative;\n    overflow: hidden;\n    contain: strict;\n    font-variant-ligatures: contextual;\n    -webkit-font-smoothing: antialiased;\n    -moz-osx-font-smoothing: grayscale;\n}\n.hone-editor-line {\n    position: absolute;\n    left: 0;\n    right: 0;\n    white-space: pre;\n    pointer-events: none;\n}\n.hone-editor-cursor {\n    position: absolute;\n    pointer-events: none;\n    animation: hone-editor-blink 1s step-end infinite;\n}\n@keyframes hone-editor-blink {\n    0%, 100% { opacity: 1; }\n    50% { opacity: 0; }\n}\n.hone-editor-selection {\n    position: absolute;\n    pointer-events: none;\n    opacity: 0.3;\n}\n");
}

#[test]
fn editor_css_without_containment() {
    let config = DomRendererConfig {
        class_prefix: "ed".to_string(),
        use_containment: false,
        use_content_visibility: false,
    };
    assert_eq!(generate_editor_css(&config), "\n.ed {\n    position: relative;\n    overflow: hidden;\n    \n    font-variant-ligatures: contextual;\n    -webkit-font-smoothing: antialiased;\n    -moz-osx-font-smoothing: grayscale;\n}\n.ed-line {\n    position: absolute;\n    left: 0;\n    right: 0;\n    white-space: pre;\n    pointer-events: none;\n}\n.ed-cursor {\n    position: absolute;\n    pointer-events: none;\n    animation: ed-blink 1s step-end infinite;\n}\n@keyframes ed-blink {\n    0%, 100% { opacity: 1; }\n    50% { opacity: 0; }\n}\n.ed-selection {\n    position: absolute;\n    pointer-events: none;\n    opacity: 0.3;\n}\n");
}

#[test]
fn selection_css_uses_prefix_and_color() {
    assert_eq!(selection_css("ed", "#264f78"), "\n.ed-selection {\n    position: absolute;\n    background-color: #264f78;\n    opacity: 0.3;\n    pointer-events: none;\n    z-index: 1;\n}\n.ed-cursor-line {\n    position: absolute;\n    width: 2px;\n    pointer-events: none;\n    z-index: 2;\n    animation: ed-blink 1s step-end infinite;\n}\n.ed-cursor-block {\n    position: absolute;\n    pointer-events: none;\n    z-index: 2;\n    opacity: 0.5;\n    animation: ed-blink 1s step-end infinite;\n}\n.ed-cursor-underline {\n    position: absolute;\n    height: 2px;\n    pointer-events: none;\n    z-index: 2;\n    animation: ed-blink 1s step-end infinite;\n}\n@keyframes ed-blink {\n    0%, 100% { opacity: 1; }\n    50% { opacity: 0; }\n}\n");
}

#[test]
fn cursor_classes_by_style() {
    assert_eq!(cursor_class("ed", 0), "ed-cursor-line");
    assert_eq!(cursor_class("ed", 1), "ed-cursor-block");
    assert_eq!(cursor_class("ed", 2), "ed-cursor-underline");
    assert_eq!(cursor_class("ed", 7), "ed-cursor-line");
}

#[test]
fn hex_colors() {
    assert_eq!(parse_hex_color("#ff8000"), Rgb { r: 255, g: 128, b: 0 });
    assert_eq!(parse_hex_color("0a0B0c"), Rgb { r: 10, g: 11, b: 12 });
    assert_eq!(parse_hex_color("##102030"), Rgb { r: 16, g: 32, b: 48 });
    assert_eq!(parse_hex_color("#fff"), Rgb { r: 255, g: 255, b: 255 });
    assert_eq!(parse_hex_color("#zz0010"), Rgb { r: 255, g: 0, b: 16 });
    assert_eq!(parse_hex_color("#+a0010"), Rgb { r: 10, g: 0, b: 16 });
}

#[test]
fn input_commit_and_composition() {
    let mut h = InputHandler::new();
    assert!(!h.is_composing());
    let r = h.process_event(InputEvent::SetComposingText { text: "ni".to_string(), new_cursor_position: 1 });
    assert_eq!(r, None);
    assert!(h.is_composing());
    assert_eq!(h.composition_text(), "ni");
    let r = h.process_event(InputEvent::FinishComposingText);
    assert_eq!(r, Some("ni".to_string()));
    assert!(!h.is_composing());
    assert_eq!(h.composition_text(), "");
    let r = h.process_event(InputEvent::FinishComposingText);
    assert_eq!(r, None);
    let r = h.process_event(InputEvent::CommitText { text: "hi".to_string(), new_cursor_position: 1 });
    assert_eq!(r, Some("hi".to_string()));
    let r = h.process_event(InputEvent::DeleteSurroundingText { before_length: 1, after_length: 0 });
    assert_eq!(r, None);
    let r = h.process_event(InputEvent::KeyEvent { key_code: 66, action: 0 });
    assert_eq!(r, None);
    h.show_keyboard();
    h.hide_keyboard();
}

#[test]
fn atlas_dirty_lines() {
    let config = AtlasConfig::default();
    assert_eq!(config.max_cached_lines, 1000);
    assert_eq!(config.texture_width, 4096);
    assert_eq!(config.line_height, 21);
    let mut b = MetalBlitter::new(config);
    b.invalidate_line(3);
    b.invalidate_line(1);
    b.invalidate_line(3);
    assert_eq!(b.dirty_lines(), &vec![3, 1]);
    b.update_atlas();
    assert!(b.dirty_lines().is_empty());
    b.invalidate_line(2);
    b.invalidate_all();
    assert!(b.dirty_lines().is_empty());
}

#[test]
fn compositor_commits_only_after_change() {
    let mut c = Compositor::new(Backend::Wayland);
    assert!(!c.commit());
    c.set_scroll(40);
    assert_eq!(c.scroll_offset(), 40);
    assert!(c.commit());
    assert!(!c.needs_redraw());
    c.damage(0, 0, 10, 10);
    assert!(c.commit());
    let _x = Compositor::new(Backend::X11);
}

#[test]
fn context_menu_item_fields() {
    let item = ContextMenuItem::new("Uppercase", "menu:uppercase");
    assert_eq!(item.title, "Uppercase");
    assert_eq!(item.action_id, "menu:uppercase");
}

#[test]
fn hex_colors_sixteen_bit() {
    assert_eq!(parse_hex_color_u16("#ff0001"), (65535, 0, 257));
    assert_eq!(parse_hex_color_u16("#12"), (65535, 65535, 65535));
}
