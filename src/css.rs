//! Style sheets for a browser rendering surface.
use vstd::prelude::*;
use vstd::string::StringExecFns;

verus! {

/// Configuration of the browser surface.
pub struct DomRendererConfig {
    /// Prefix of every CSS class the editor uses.
    pub class_prefix: String,
    /// Whether the container declares strict CSS containment.
    pub use_containment: bool,
    /// Whether off-screen lines skip rendering.
    pub use_content_visibility: bool,
}

impl Default for DomRendererConfig {
    fn default() -> (r: DomRendererConfig)
        ensures
            r.class_prefix@ == "hone-editor"@,
            r.use_containment,
            r.use_content_visibility,
    {
        DomRendererConfig {
            class_prefix: "hone-editor".to_owned(),
            use_containment: true,
            use_content_visibility: true,
        }
    }
}

/// The containment declaration, present or not.
pub open spec fn containment_text(on: bool) -> Seq<char> {
    if on {
        "contain: strict;"@
    } else {
        Seq::empty()
    }
}

/// The editor style sheet for a class prefix and containment declaration.
pub open spec fn editor_css(prefix: Seq<char>, containment: Seq<char>) -> Seq<char> {
    "\n."@ + prefix + " {\n    position: relative;\n    overflow: hidden;\n    "@ + containment + "\n    font-variant-ligatures: contextual;\n    -webkit-font-smoothing: antialiased;\n    -moz-osx-font-smoothing: grayscale;\n}\n."@ + prefix + "-line {\n    position: absolute;\n    left: 0;\n    right: 0;\n    white-space: pre;\n    pointer-events: none;\n}\n."@ + prefix + "-cursor {\n    position: absolute;\n    pointer-events: none;\n    animation: "@ + prefix + "-blink 1s step-end infinite;\n}\n@keyframes "@ + prefix + "-blink {\n    0%, 100% { opacity: 1; }\n    50% { opacity: 0; }\n}\n."@ + prefix + "-selection {\n    position: absolute;\n    pointer-events: none;\n    opacity: 0.3;\n}\n"@
}

/// The style sheet for selection overlays and cursors.
pub open spec fn selection_css_text(prefix: Seq<char>, color: Seq<char>) -> Seq<char> {
    "\n."@ + prefix + "-selection {\n    position: absolute;\n    background-color: "@ + color + ";\n    opacity: 0.3;\n    pointer-events: none;\n    z-index: 1;\n}\n."@ + prefix + "-cursor-line {\n    position: absolute;\n    width: 2px;\n    pointer-events: none;\n    z-index: 2;\n    animation: "@ + prefix + "-blink 1s step-end infinite;\n}\n."@ + prefix + "-cursor-block {\n    position: absolute;\n    pointer-events: none;\n    z-index: 2;\n    opacity: 0.5;\n    animation: "@ + prefix + "-blink 1s step-end infinite;\n}\n."@ + prefix + "-cursor-underline {\n    position: absolute;\n    height: 2px;\n    pointer-events: none;\n    z-index: 2;\n    animation: "@ + prefix + "-blink 1s step-end infinite;\n}\n@keyframes "@ + prefix + "-blink {\n    0%, 100% { opacity: 1; }\n    50% { opacity: 0; }\n}\n"@
}

/// Generates the editor container's style sheet.
pub fn generate_editor_css(config: &DomRendererConfig) -> (r: String)
    ensures
        r@ == editor_css(config.class_prefix@, containment_text(config.use_containment)),
{
    let containment: &str = if config.use_containment {
        "contain: strict;"
    } else {
        ""
    };
    proof {
        reveal_strlit("");
    }
    let mut out = String::new();
    out.append("\n.");
    out.append(config.class_prefix.as_str());
    out.append(" {\n    position: relative;\n    overflow: hidden;\n    ");
    out.append(containment);
    out.append("\n    font-variant-ligatures: contextual;\n    -webkit-font-smoothing: antialiased;\n    -moz-osx-font-smoothing: grayscale;\n}\n.");
    out.append(config.class_prefix.as_str());
    out.append("-line {\n    position: absolute;\n    left: 0;\n    right: 0;\n    white-space: pre;\n    pointer-events: none;\n}\n.");
    out.append(config.class_prefix.as_str());
    out.append("-cursor {\n    position: absolute;\n    pointer-events: none;\n    animation: ");
    out.append(config.class_prefix.as_str());
    out.append("-blink 1s step-end infinite;\n}\n@keyframes ");
    out.append(config.class_prefix.as_str());
    out.append("-blink {\n    0%, 100% { opacity: 1; }\n    50% { opacity: 0; }\n}\n.");
    out.append(config.class_prefix.as_str());
    out.append("-selection {\n    position: absolute;\n    pointer-events: none;\n    opacity: 0.3;\n}\n");
    assert(out@ =~= editor_css(config.class_prefix@, containment_text(config.use_containment)));
    out
}

/// Generates the style sheet for selection overlays in `selection_color`.
pub fn selection_css(class_prefix: &str, selection_color: &str) -> (r: String)
    ensures
        r@ == selection_css_text(class_prefix@, selection_color@),
{
    let mut out = String::new();
    out.append("\n.");
    out.append(class_prefix);
    out.append("-selection {\n    position: absolute;\n    background-color: ");
    out.append(selection_color);
    out.append(";\n    opacity: 0.3;\n    pointer-events: none;\n    z-index: 1;\n}\n.");
    out.append(class_prefix);
    out.append("-cursor-line {\n    position: absolute;\n    width: 2px;\n    pointer-events: none;\n    z-index: 2;\n    animation: ");
    out.append(class_prefix);
    out.append("-blink 1s step-end infinite;\n}\n.");
    out.append(class_prefix);
    out.append("-cursor-block {\n    position: absolute;\n    pointer-events: none;\n    z-index: 2;\n    opacity: 0.5;\n    animation: ");
    out.append(class_prefix);
    out.append("-blink 1s step-end infinite;\n}\n.");
    out.append(class_prefix);
    out.append("-cursor-underline {\n    position: absolute;\n    height: 2px;\n    pointer-events: none;\n    z-index: 2;\n    animation: ");
    out.append(class_prefix);
    out.append("-blink 1s step-end infinite;\n}\n@keyframes ");
    out.append(class_prefix);
    out.append("-blink {\n    0%, 100% { opacity: 1; }\n    50% { opacity: 0; }\n}\n");
    assert(out@ =~= selection_css_text(class_prefix@, selection_color@));
    out
}

/// Class suffix of a cursor style: line (0 and unknown styles), block (1),
/// underline (2).
pub open spec fn cursor_suffix(style: i32) -> Seq<char> {
    if style == 1 {
        "-cursor-block"@
    } else if style == 2 {
        "-cursor-underline"@
    } else {
        "-cursor-line"@
    }
}

/// The CSS class of a cursor style.
pub fn cursor_class(class_prefix: &str, style: i32) -> (r: String)
    ensures
        r@ == class_prefix@ + cursor_suffix(style),
{
    let mut out = class_prefix.to_owned();
    match style {
        1 => out.append("-cursor-block"),
        2 => out.append("-cursor-underline"),
        _ => out.append("-cursor-line"),
    }
    out
}

} // verus!
