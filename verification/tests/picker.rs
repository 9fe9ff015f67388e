use annotator::color::Rgba;
use annotator::color_picker::{ends_row, preset_colors, ColorPickerButton, PickerInput};

const WHITE: Rgba = Rgba { r: 255, g: 255, b: 255, a: 255 };
const RED: Rgba = Rgba { r: 255, g: 0, b: 0, a: 255 };
const BLUE: Rgba = Rgba { r: 0, g: 0, b: 255, a: 255 };

fn idle() -> PickerInput {
    PickerInput {
        button_clicked: false,
        picked: None,
        custom_toggled: false,
        confirm: false,
        cancel: false,
        clicked_elsewhere: false,
    }
}

fn opened() -> ColorPickerButton {
    let mut b = ColorPickerButton::new(String::from("picker"), WHITE);
    // the click that opens the window also counts as a click outside it
    let open = PickerInput { button_clicked: true, clicked_elsewhere: true, ..idle() };
    assert_eq!(b.show(&open), None);
    assert!(b.is_open());
    b
}

#[test]
fn picker_starts_closed_on_its_colour() {
    let mut b = ColorPickerButton::new(String::from("picker"), WHITE);
    assert_eq!(b.color(), WHITE);
    assert_eq!(b.temp_color(), WHITE);
    assert!(!b.is_open());
    assert!(!b.shows_custom());
    // input to a closed window is ignored
    let stray = PickerInput { picked: Some(RED), confirm: true, custom_toggled: true, ..idle() };
    assert_eq!(b.show(&stray), None);
    assert_eq!(b.color(), WHITE);
    assert_eq!(b.temp_color(), WHITE);
    assert!(!b.shows_custom());
    b.set_color(BLUE);
    assert_eq!(b.color(), BLUE);
    assert_eq!(b.temp_color(), BLUE);
}

#[test]
fn picker_confirms_the_colour_under_consideration() {
    let mut b = opened();
    assert_eq!(b.show(&PickerInput { picked: Some(RED), ..idle() }), None);
    assert_eq!(b.temp_color(), RED);
    assert_eq!(b.color(), WHITE);
    assert!(b.is_open());
    assert_eq!(b.show(&PickerInput { confirm: true, ..idle() }), Some(RED));
    assert_eq!(b.color(), RED);
    assert!(!b.is_open());

    let mut c = opened();
    assert!(c.ui(&PickerInput { picked: Some(BLUE), confirm: true, ..idle() }));
    assert_eq!(c.color(), BLUE);
    let mut d = opened();
    assert!(!d.ui(&PickerInput { picked: Some(BLUE), ..idle() }));
    assert_eq!(d.ui_with_label(&PickerInput { confirm: true, ..idle() }), Some(BLUE));
}

#[test]
fn picker_drops_the_colour_on_cancel() {
    let mut b = opened();
    b.show(&PickerInput { picked: Some(RED), ..idle() });
    assert_eq!(b.show(&PickerInput { cancel: true, ..idle() }), None);
    assert_eq!(b.color(), WHITE);
    assert_eq!(b.temp_color(), WHITE);
    assert!(!b.is_open());
}

#[test]
fn picker_closes_on_a_click_elsewhere() {
    let mut b = opened();
    b.show(&PickerInput { picked: Some(RED), ..idle() });
    assert_eq!(b.show(&PickerInput { clicked_elsewhere: true, ..idle() }), None);
    assert!(!b.is_open());
    assert_eq!(b.color(), WHITE);
    assert_eq!(b.temp_color(), WHITE);
    // a confirmed colour stays even when the same frame clicks elsewhere
    let mut c = opened();
    let both = PickerInput { picked: Some(RED), confirm: true, clicked_elsewhere: true, ..idle() };
    assert_eq!(c.show(&both), Some(RED));
    assert_eq!(c.color(), RED);
    assert_eq!(c.temp_color(), RED);
}

#[test]
fn picker_reopens_on_the_colour_in_use() {
    let mut b = opened();
    b.show(&PickerInput { picked: Some(RED), ..idle() });
    b.show(&PickerInput { button_clicked: true, ..idle() });
    assert_eq!(b.temp_color(), WHITE);
    assert!(b.is_open());
    b.show(&PickerInput { custom_toggled: true, ..idle() });
    assert!(b.shows_custom());
    b.show(&PickerInput { custom_toggled: true, ..idle() });
    assert!(!b.shows_custom());
}

#[test]
fn tiles_show_which_colour_is_considered() {
    let mut b = opened();
    b.show(&PickerInput { picked: Some(RED), ..idle() });
    assert_eq!(b.tile_border(RED, false), (3, Rgba { r: 100, g: 150, b: 255, a: 255 }));
    assert_eq!(b.tile_border(RED, true), (3, Rgba { r: 100, g: 150, b: 255, a: 255 }));
    assert_eq!(b.tile_border(BLUE, true), (2, Rgba { r: 220, g: 220, b: 220, a: 255 }));
    assert_eq!(b.tile_border(BLUE, false), (1, Rgba { r: 160, g: 160, b: 160, a: 255 }));
}

#[test]
fn presets_come_in_rows_of_five() {
    let colors = preset_colors();
    assert_eq!(colors.len(), 15);
    assert_eq!(colors[0], Rgba { r: 0, g: 0, b: 0, a: 255 });
    assert_eq!(colors[1], WHITE);
    assert_eq!(colors[6], Rgba { r: 255, g: 165, b: 0, a: 255 });
    assert_eq!(colors[10], Rgba { r: 139, g: 69, b: 19, a: 255 });
    assert_eq!(colors[14], Rgba { r: 96, g: 96, b: 96, a: 255 });
    let breaks: Vec<usize> = (0..15).filter(|i| ends_row(*i)).collect();
    assert_eq!(breaks, vec![4, 9, 14]);
}

#[test]
fn picker_keeps_its_name() {
    let mut b = ColorPickerButton::new(String::from("stroke"), WHITE);
    assert_eq!(b.id(), "stroke");
    b.show(&PickerInput { button_clicked: true, ..idle() });
    b.set_color(RED);
    assert_eq!(b.id(), "stroke");
}
