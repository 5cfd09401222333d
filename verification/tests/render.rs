use workspace_capsules::config::Config;
use workspace_capsules::config::default_minimum_workspace_count;
use workspace_capsules::render::Shape;
use workspace_capsules::render::background_color;
use workspace_capsules::render::shape_of;
use workspace_capsules::render::workspace_module_output;
use workspace_capsules::workspace::Workspace;

fn test_config() -> Config {
    Config {
        background_colors: vec![
            String::from("#111"),
            String::from("#222"),
            String::from("#333"),
        ],
        focused_foreground_color: String::from("#fff"),
        minimum_workspace_count: 0,
        version: String::from("1"),
    }
}

fn ws(num: i32, focused: bool) -> Workspace {
    Workspace {
        num,
        name: String::new(),
        visible: focused,
        focused,
        urgent: false,
        rect: (0, 0, 0, 0),
        output: String::new(),
    }
}

#[test]
fn default_minimum_is_no_padding() {
    assert_eq!(default_minimum_workspace_count(), 0);
}

#[test]
fn palette_cycles_over_ordinals() {
    let config = test_config();
    assert_eq!(background_color(&config, 1), "#111");
    assert_eq!(background_color(&config, 2), "#222");
    assert_eq!(background_color(&config, 3), "#333");
    // one full palette length further on, the same color again
    assert_eq!(background_color(&config, 4), "#111");
    assert_eq!(background_color(&config, 5), "#222");
    assert_eq!(background_color(&config, 7), "#111");
}

#[test]
fn shape_selection_sole_regardless_of_position() {
    assert_eq!(shape_of(1, 1), Shape::Sole);
    assert_eq!(shape_of(5, 1), Shape::Sole);
}

#[test]
fn shape_selection_of_four() {
    assert_eq!(shape_of(1, 4), Shape::First);
    assert_eq!(shape_of(2, 4), Shape::Middle);
    assert_eq!(shape_of(3, 4), Shape::Middle);
    assert_eq!(shape_of(4, 4), Shape::Last);
}

#[test]
fn sole_workspace_markup() {
    let config = test_config();
    let out = workspace_module_output(&config, &ws(1, false), None, 1);
    assert_eq!(
        out,
        "<span background=\"#111\"> 1 </span><span size=\"large\" color=\"#111\">\u{e0bc}</span>\n"
    );
}

#[test]
fn sole_workspace_markup_focused() {
    let config = test_config();
    let out = workspace_module_output(&config, &ws(1, true), None, 1);
    assert_eq!(
        out,
        "<span background=\"#111\"> <span color=\"#fff\">1</span> </span>\
         <span size=\"large\" color=\"#111\">\u{e0bc}</span>\n"
    );
}

#[test]
fn first_of_several_markup() {
    let config = test_config();
    let out = workspace_module_output(&config, &ws(1, false), None, 4);
    assert_eq!(out, "<span size=\"large\" background=\"#111\"> 1</span>\n");
}

#[test]
fn middle_markup_has_wedge_from_left_neighbor() {
    let config = test_config();
    let out = workspace_module_output(&config, &ws(2, false), Some(1), 4);
    assert_eq!(
        out,
        "<span size=\"large\" background=\"#111\" color=\"#111\">\u{e0bc}</span>\
         <span size=\"large\" background=\"#111\" color=\"#222\">\u{e0ba}</span>\
         <span background=\"#222\"> 2</span>\n"
    );
}

#[test]
fn last_of_several_markup_has_wedge_and_cap() {
    let config = test_config();
    let out = workspace_module_output(&config, &ws(4, false), Some(3), 4);
    assert_eq!(
        out,
        "<span size=\"large\" background=\"#333\" color=\"#333\">\u{e0bc}</span>\
         <span size=\"large\" background=\"#333\" color=\"#111\">\u{e0ba}</span>\
         <span background=\"#111\"> 4 </span><span size=\"large\" color=\"#111\">\u{e0bc}</span>\n"
    );
}

#[test]
fn render_is_deterministic() {
    let config = test_config();
    let a = workspace_module_output(&config, &ws(2, true), Some(1), 3);
    let b = workspace_module_output(&config, &ws(2, true), Some(1), 3);
    assert_eq!(a, b);
}

#[test]
fn no_left_neighbor_means_no_visible_transition() {
    let config = test_config();
    // without a neighbor the wedge is drawn in the workspace's own color
    let out = workspace_module_output(&config, &ws(2, false), None, 4);
    assert_eq!(
        out,
        "<span size=\"large\" background=\"#222\" color=\"#222\">\u{e0bc}</span>\
         <span size=\"large\" background=\"#222\" color=\"#222\">\u{e0ba}</span>\
         <span background=\"#222\"> 2</span>\n"
    );
}
