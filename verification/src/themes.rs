//! Theme identities, the built-in color sets and the application style
//! sheet they produce.

use vstd::prelude::*;
use vstd::string::*;
use crate::text::{decimal, owned, push_decimal};

verus! {

/// Available theme modes.
#[derive(Debug, Clone, Copy, PartialEq, Eq, Structural, Hash)]
pub enum ThemeMode {
    Light,
    Dark,
    Sepia,
    Custom,
}

/// A theme's color palette, as CSS color texts.
#[derive(Debug, Clone)]
pub struct ThemeColors {
    pub background: String,
    pub surface: String,
    pub primary: String,
    pub secondary: String,
    pub text: String,
    pub text_secondary: String,
    pub border: String,
    pub canvas_background: String,
    pub toolbar_background: String,
    pub sidebar_background: String,
    pub accent: String,
    pub error: String,
    pub success: String,
}

/// The colors from their texts, in field order.
fn colors_of(
    background: &str,
    surface: &str,
    primary: &str,
    secondary: &str,
    text: &str,
    text_secondary: &str,
    border: &str,
    canvas_background: &str,
    toolbar_background: &str,
    sidebar_background: &str,
    accent: &str,
    error: &str,
    success: &str,
) -> (res: ThemeColors)
    ensures
        res.background@ == background@,
        res.surface@ == surface@,
        res.primary@ == primary@,
        res.secondary@ == secondary@,
        res.text@ == text@,
        res.text_secondary@ == text_secondary@,
        res.border@ == border@,
        res.canvas_background@ == canvas_background@,
        res.toolbar_background@ == toolbar_background@,
        res.sidebar_background@ == sidebar_background@,
        res.accent@ == accent@,
        res.error@ == error@,
        res.success@ == success@,
{
    ThemeColors {
        background: owned(background),
        surface: owned(surface),
        primary: owned(primary),
        secondary: owned(secondary),
        text: owned(text),
        text_secondary: owned(text_secondary),
        border: owned(border),
        canvas_background: owned(canvas_background),
        toolbar_background: owned(toolbar_background),
        sidebar_background: owned(sidebar_background),
        accent: owned(accent),
        error: owned(error),
        success: owned(success),
    }
}

impl ThemeColors {
    /// The light theme's colors.
    pub fn light() -> (res: Self)
        ensures
            res.background@ == "#ffffff"@,
            res.surface@ == "#f8f9fa"@,
            res.primary@ == "#1a73e8"@,
            res.secondary@ == "#5f6368"@,
            res.text@ == "#202124"@,
            res.text_secondary@ == "#5f6368"@,
            res.border@ == "#dadce0"@,
            res.canvas_background@ == "#ffffff"@,
            res.toolbar_background@ == "#f1f3f4"@,
            res.sidebar_background@ == "#f8f9fa"@,
            res.accent@ == "#1a73e8"@,
            res.error@ == "#d93025"@,
            res.success@ == "#1e8e3e"@,
    {
        colors_of(
            "#ffffff",
            "#f8f9fa",
            "#1a73e8",
            "#5f6368",
            "#202124",
            "#5f6368",
            "#dadce0",
            "#ffffff",
            "#f1f3f4",
            "#f8f9fa",
            "#1a73e8",
            "#d93025",
            "#1e8e3e",
        )
    }

    /// The dark theme's colors.
    pub fn dark() -> (res: Self)
        ensures
            res.background@ == "#1e1e2e"@,
            res.surface@ == "#2d2d3f"@,
            res.primary@ == "#89b4fa"@,
            res.secondary@ == "#a6adc8"@,
            res.text@ == "#cdd6f4"@,
            res.text_secondary@ == "#a6adc8"@,
            res.border@ == "#45475a"@,
            res.canvas_background@ == "#1e1e2e"@,
            res.toolbar_background@ == "#313244"@,
            res.sidebar_background@ == "#181825"@,
            res.accent@ == "#89b4fa"@,
            res.error@ == "#f38ba8"@,
            res.success@ == "#a6e3a1"@,
    {
        colors_of(
            "#1e1e2e",
            "#2d2d3f",
            "#89b4fa",
            "#a6adc8",
            "#cdd6f4",
            "#a6adc8",
            "#45475a",
            "#1e1e2e",
            "#313244",
            "#181825",
            "#89b4fa",
            "#f38ba8",
            "#a6e3a1",
        )
    }

    /// The sepia theme's colors.
    pub fn sepia() -> (res: Self)
        ensures
            res.background@ == "#f4ecd8"@,
            res.surface@ == "#ece0c8"@,
            res.primary@ == "#8b6914"@,
            res.secondary@ == "#6b5c3e"@,
            res.text@ == "#3b3020"@,
            res.text_secondary@ == "#6b5c3e"@,
            res.border@ == "#d4c8a8"@,
            res.canvas_background@ == "#f9f3e3"@,
            res.toolbar_background@ == "#ece0c8"@,
            res.sidebar_background@ == "#f0e6d0"@,
            res.accent@ == "#8b6914"@,
            res.error@ == "#c23616"@,
            res.success@ == "#6ab04c"@,
    {
        colors_of(
            "#f4ecd8",
            "#ece0c8",
            "#8b6914",
            "#6b5c3e",
            "#3b3020",
            "#6b5c3e",
            "#d4c8a8",
            "#f9f3e3",
            "#ece0c8",
            "#f0e6d0",
            "#8b6914",
            "#c23616",
            "#6ab04c",
        )
    }
}

/// The application style sheet for a theme's colors and corner radius.
pub open spec fn theme_css(c: ThemeColors, radius: nat) -> Seq<char> {
    "\n            @define-color bg_color "@
        + c.background@
        + ";\n            @define-color surface_color "@
        + c.surface@
        + ";\n            @define-color primary_color "@
        + c.primary@
        + ";\n            @define-color accent_color "@
        + c.accent@
        + ";\n            @define-color text_color "@
        + c.text@
        + ";\n            @define-color border_color "@
        + c.border@
        + ";\n\n            window {\n                background-color: @bg_color;\n                color: @text_color;\n            }\n\n            .toolbar {\n                background-color: "@
        + c.toolbar_background@
        + ";\n                border-bottom: 1px solid @border_color;\n                padding: 4px 8px;\n            }\n\n            .sidebar {\n                background-color: "@
        + c.sidebar_background@
        + ";\n                border-right: 1px solid @border_color;\n            }\n\n            .canvas-area {\n                background-color: "@
        + c.canvas_background@
        + ";\n            }\n\n            headerbar {\n                background-color: "@
        + c.surface@
        + ";\n            }\n\n            .tool-button:checked {\n                background-color: @primary_color;\n                color: white;\n                border-radius: "@
        + decimal(radius)
        + "px;\n            }\n\n            .notebook-row {\n                padding: 8px 12px;\n                border-radius: "@
        + decimal(radius)
        + "px;\n                margin: 2px 4px;\n            }\n\n            .notebook-row:selected {\n                background-color: alpha(@primary_color, 0.15);\n            }\n            "@
}

/// The application style sheet for the colors `c` and corner radius
/// `radius` (in pixels).
pub fn css_for(c: &ThemeColors, radius: u32) -> (res: String)
    ensures
        res@ == theme_css(*c, radius as nat),
{
    let mut s = owned("\n            @define-color bg_color ");
    s.append(c.background.as_str());
    s.append(";\n            @define-color surface_color ");
    s.append(c.surface.as_str());
    s.append(";\n            @define-color primary_color ");
    s.append(c.primary.as_str());
    s.append(";\n            @define-color accent_color ");
    s.append(c.accent.as_str());
    s.append(";\n            @define-color text_color ");
    s.append(c.text.as_str());
    s.append(";\n            @define-color border_color ");
    s.append(c.border.as_str());
    s.append(";\n\n            window {\n                background-color: @bg_color;\n                color: @text_color;\n            }\n\n            .toolbar {\n                background-color: ");
    s.append(c.toolbar_background.as_str());
    s.append(";\n                border-bottom: 1px solid @border_color;\n                padding: 4px 8px;\n            }\n\n            .sidebar {\n                background-color: ");
    s.append(c.sidebar_background.as_str());
    s.append(";\n                border-right: 1px solid @border_color;\n            }\n\n            .canvas-area {\n                background-color: ");
    s.append(c.canvas_background.as_str());
    s.append(";\n            }\n\n            headerbar {\n                background-color: ");
    s.append(c.surface.as_str());
    s.append(";\n            }\n\n            .tool-button:checked {\n                background-color: @primary_color;\n                color: white;\n                border-radius: ");
    push_decimal(&mut s, radius as u64);
    s.append("px;\n            }\n\n            .notebook-row {\n                padding: 8px 12px;\n                border-radius: ");
    push_decimal(&mut s, radius as u64);
    s.append("px;\n                margin: 2px 4px;\n            }\n\n            .notebook-row:selected {\n                background-color: alpha(@primary_color, 0.15);\n            }\n            ");
    s
}

} // verus!
