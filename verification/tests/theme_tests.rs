use activity_inquirer::models::Theme;
use activity_inquirer::theme::{apply_theme, Rgb};

fn rgb(r: u8, g: u8, b: u8) -> Rgb {
    Rgb { r, g, b }
}

#[test]
fn the_dark_palette() {
    let palette = apply_theme(Theme::GruvboxDark);
    assert!(palette.dark);
    assert_eq!(palette.noninteractive_bg, rgb(40, 40, 40));
    assert_eq!(palette.noninteractive_fg, rgb(235, 219, 178));
    assert_eq!(palette.inactive_bg, rgb(60, 56, 54));
    assert_eq!(palette.inactive_fg, rgb(235, 219, 178));
    assert_eq!(palette.hovered_bg, rgb(80, 73, 69));
    assert_eq!(palette.hovered_fg, rgb(251, 241, 199));
    assert_eq!(palette.active_bg, rgb(254, 128, 25));
    assert_eq!(palette.active_fg, rgb(40, 40, 40));
    assert_eq!(palette.selection_bg, rgb(131, 165, 152));
    assert_eq!(palette.selection_stroke, rgb(251, 241, 199));
    assert_eq!(palette.panel_fill, rgb(40, 40, 40));
    assert_eq!(palette.window_fill, rgb(40, 40, 40));
    assert_eq!(palette.extreme_bg, rgb(60, 56, 54));
}

#[test]
fn the_light_palette() {
    let palette = apply_theme(Theme::GruvboxLight);
    assert!(!palette.dark);
    assert_eq!(palette.noninteractive_bg, rgb(251, 241, 199));
    assert_eq!(palette.noninteractive_fg, rgb(60, 56, 54));
    assert_eq!(palette.inactive_bg, rgb(235, 219, 178));
    assert_eq!(palette.inactive_fg, rgb(60, 56, 54));
    assert_eq!(palette.hovered_bg, rgb(213, 196, 161));
    assert_eq!(palette.hovered_fg, rgb(40, 40, 40));
    assert_eq!(palette.active_bg, rgb(175, 58, 3));
    assert_eq!(palette.active_fg, rgb(251, 241, 199));
    assert_eq!(palette.selection_bg, rgb(7, 102, 120));
    assert_eq!(palette.selection_stroke, rgb(251, 241, 199));
    assert_eq!(palette.panel_fill, rgb(251, 241, 199));
    assert_eq!(palette.window_fill, rgb(251, 241, 199));
    assert_eq!(palette.extreme_bg, rgb(235, 219, 178));
}
