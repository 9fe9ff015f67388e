//! The state of the colour picker button: the colour in use, the colour
//! under consideration, and whether the picker's window is open.

use crate::color::Rgba;
use vstd::prelude::*;

verus! {

/// A button that opens a window in which a colour is picked.
#[derive(Debug, Clone, PartialEq, Eq)]
pub struct ColorPickerButton {
    /// The colour in use.
    current_color: Rgba,
    /// The colour under consideration, not yet confirmed.
    temp_color: Rgba,
    /// Whether the window is open.
    show_picker: bool,
    /// Whether the window shows the editor for a colour of one's own.
    show_custom: bool,
    /// The name by which the window is known.
    id: String,
    /// Whether the window was opened in this very frame.
    just_opened: bool,
}

/// What the user did to the button and its window during one frame.
#[derive(Debug, Clone, Copy, PartialEq, Eq, Structural)]
pub struct PickerInput {
    /// The button was clicked.
    pub button_clicked: bool,
    /// The colour picked in the window, from the presets or in the editor.
    pub picked: Option<Rgba>,
    /// The editor for a colour of one's own was folded or unfolded.
    pub custom_toggled: bool,
    /// "Confirm" was clicked.
    pub confirm: bool,
    /// "Cancel" was clicked.
    pub cancel: bool,
    /// There was a click outside the window.
    pub clicked_elsewhere: bool,
}

/// What a `ColorPickerButton` holds, but for its name.
pub struct PickerState {
    pub current_color: Rgba,
    pub temp_color: Rgba,
    pub show_picker: bool,
    pub show_custom: bool,
    pub just_opened: bool,
}

impl PickerState {
    /// The state once a click on the button has been taken in: it opens the
    /// window on the colour in use.
    pub open spec fn opened(self, input: PickerInput) -> PickerState {
        if input.button_clicked {
            PickerState {
                show_picker: true,
                just_opened: true,
                temp_color: self.current_color,
                ..self
            }
        } else {
            self
        }
    }

    /// The state of an open window once the frame's input has been taken
    /// in.  A pick changes the colour under consideration.  "Confirm" puts
    /// it in use and closes the window; "Cancel" closes the window and
    /// drops it; so does a click outside the window, unless the window was
    /// opened in this frame.
    pub open spec fn edited(self, input: PickerInput) -> PickerState {
        let temp = match input.picked {
            Some(c) => c,
            None => self.temp_color,
        };
        let custom = if input.custom_toggled {
            !self.show_custom
        } else {
            self.show_custom
        };
        let current = if input.confirm {
            temp
        } else {
            self.current_color
        };
        let closed = input.confirm || input.cancel;
        let dropped = input.clicked_elsewhere && !self.just_opened;
        PickerState {
            current_color: current,
            temp_color: if (closed && !input.confirm) || dropped {
                current
            } else {
                temp
            },
            show_picker: !(closed || dropped),
            show_custom: custom,
            just_opened: false,
        }
    }

    /// The state after one frame.
    pub open spec fn after(self, input: PickerInput) -> PickerState {
        let s = self.opened(input);
        if s.show_picker {
            s.edited(input)
        } else {
            s
        }
    }

    /// The colour that the frame confirms, if it confirms one.
    pub open spec fn selected(self, input: PickerInput) -> Option<Rgba> {
        let s = self.opened(input);
        if s.show_picker && input.confirm {
            Some(s.edited(input).current_color)
        } else {
            None
        }
    }
}

impl View for ColorPickerButton {
    type V = PickerState;

    closed spec fn view(&self) -> PickerState {
        PickerState {
            current_color: self.current_color,
            temp_color: self.temp_color,
            show_picker: self.show_picker,
            show_custom: self.show_custom,
            just_opened: self.just_opened,
        }
    }
}

impl ColorPickerButton {
    /// The name by which the window is known.
    pub closed spec fn name(self) -> Seq<char> {
        self.id@
    }
}

/// The border of a colour tile: its width in pixels and its colour.  The
/// tile of the colour under consideration stands out, and so, less, does
/// the one under the pointer.
pub open spec fn tile_border_spec(selected: bool, hovered: bool) -> (u8, Rgba) {
    if selected {
        (3, Rgba { r: 100, g: 150, b: 255, a: 255 })
    } else if hovered {
        (2, Rgba { r: 220, g: 220, b: 220, a: 255 })
    } else {
        (1, Rgba { r: 160, g: 160, b: 160, a: 255 })
    }
}

/// The number of colour tiles in each row of the window.
pub const TILES_PER_ROW: usize = 5;

impl ColorPickerButton {
    /// A button for the colour `initial_color`, its window closed.
    pub fn new(id: String, initial_color: Rgba) -> (b: ColorPickerButton)
        ensures
            b.name() == id@,
            b@ == (PickerState {
                current_color: initial_color,
                temp_color: initial_color,
                show_picker: false,
                show_custom: false,
                just_opened: false,
            }),
    {
        ColorPickerButton {
            current_color: initial_color,
            temp_color: initial_color,
            show_picker: false,
            show_custom: false,
            id,
            just_opened: false,
        }
    }

    /// The name by which the window is known.
    pub fn id(&self) -> (id: &str)
        ensures
            id@ == self.name(),
    {
        self.id.as_str()
    }

    /// The colour in use.
    pub fn color(&self) -> (c: Rgba)
        ensures
            c == self@.current_color,
    {
        self.current_color
    }

    /// The colour under consideration.
    pub fn temp_color(&self) -> (c: Rgba)
        ensures
            c == self@.temp_color,
    {
        self.temp_color
    }

    /// Whether the window is open.
    pub fn is_open(&self) -> (open: bool)
        ensures
            open == self@.show_picker,
    {
        self.show_picker
    }

    /// Whether the window shows the editor for a colour of one's own.
    pub fn shows_custom(&self) -> (shown: bool)
        ensures
            shown == self@.show_custom,
    {
        self.show_custom
    }

    /// Puts a colour in use.
    pub fn set_color(&mut self, color: Rgba)
        ensures
            final(self).name() == old(self).name(),
            final(self)@ == (PickerState {
                current_color: color,
                temp_color: color,
                ..old(self)@
            }),
    {
        self.current_color = color;
        self.temp_color = color;
    }

    /// Takes in one frame's input and hands out the colour that it
    /// confirms, if it confirms one.
    pub fn show(&mut self, input: &PickerInput) -> (selected: Option<Rgba>)
        ensures
            final(self).name() == old(self).name(),
            final(self)@ == old(self)@.after(*input),
            selected == old(self)@.selected(*input),
    {
        if input.button_clicked {
            self.show_picker = true;
            self.just_opened = true;
            self.temp_color = self.current_color;
        }
        let mut selected: Option<Rgba> = None;
        if self.show_picker {
            match input.picked {
                Some(c) => {
                    self.temp_color = c;
                },
                None => {},
            }
            if input.custom_toggled {
                self.show_custom = !self.show_custom;
            }
            let confirm: bool = input.confirm;
            let close_window: bool = input.confirm || input.cancel;
            if confirm {
                self.current_color = self.temp_color;
                selected = Some(self.current_color);
            }
            if close_window {
                self.show_picker = false;
                if !confirm {
                    self.temp_color = self.current_color;
                }
            }
            if input.clicked_elsewhere && !self.just_opened {
                self.show_picker = false;
                self.temp_color = self.current_color;
            }
            if self.just_opened {
                self.just_opened = false;
            }
        }
        selected
    }

    /// Takes in one frame's input and says whether it confirms a colour.
    pub fn ui(&mut self, input: &PickerInput) -> (changed: bool)
        ensures
            final(self).name() == old(self).name(),
            final(self)@ == old(self)@.after(*input),
            changed == old(self)@.selected(*input).is_some(),
    {
        self.show(input).is_some()
    }

    /// Takes in one frame's input of a button that carries a label and
    /// hands out the colour that it confirms, if it confirms one.
    pub fn ui_with_label(&mut self, input: &PickerInput) -> (selected: Option<Rgba>)
        ensures
            final(self).name() == old(self).name(),
            final(self)@ == old(self)@.after(*input),
            selected == old(self)@.selected(*input),
    {
        self.show(input)
    }

    /// The border of the tile of `color`.
    pub fn tile_border(&self, color: Rgba, hovered: bool) -> (r: (u8, Rgba))
        ensures
            r == tile_border_spec(self@.temp_color == color, hovered),
    {
        if self.temp_color == color {
            (3, Rgba { r: 100, g: 150, b: 255, a: 255 })
        } else if hovered {
            (2, Rgba { r: 220, g: 220, b: 220, a: 255 })
        } else {
            (1, Rgba { r: 160, g: 160, b: 160, a: 255 })
        }
    }
}

/// The colours offered in the window, in the order of their tiles.
pub open spec fn presets() -> Seq<Rgba> {
    seq![
        Rgba { r: 0, g: 0, b: 0, a: 255 },
        Rgba { r: 255, g: 255, b: 255, a: 255 },
        Rgba { r: 255, g: 0, b: 0, a: 255 },
        Rgba { r: 0, g: 255, b: 0, a: 255 },
        Rgba { r: 0, g: 0, b: 255, a: 255 },
        Rgba { r: 255, g: 255, b: 0, a: 255 },
        Rgba { r: 255, g: 165, b: 0, a: 255 },
        Rgba { r: 128, g: 0, b: 128, a: 255 },
        Rgba { r: 255, g: 192, b: 203, a: 255 },
        Rgba { r: 160, g: 160, b: 160, a: 255 },
        Rgba { r: 139, g: 69, b: 19, a: 255 },
        Rgba { r: 0, g: 255, b: 255, a: 255 },
        Rgba { r: 255, g: 0, b: 255, a: 255 },
        Rgba { r: 220, g: 220, b: 220, a: 255 },
        Rgba { r: 96, g: 96, b: 96, a: 255 },
    ]
}

/// The colours offered in the window, in the order of their tiles.
pub fn preset_colors() -> (colors: Vec<Rgba>)
    ensures
        colors@ == presets(),
{
    let mut v: Vec<Rgba> = Vec::new();
    v.push(Rgba { r: 0, g: 0, b: 0, a: 255 });
    v.push(Rgba { r: 255, g: 255, b: 255, a: 255 });
    v.push(Rgba { r: 255, g: 0, b: 0, a: 255 });
    v.push(Rgba { r: 0, g: 255, b: 0, a: 255 });
    v.push(Rgba { r: 0, g: 0, b: 255, a: 255 });
    v.push(Rgba { r: 255, g: 255, b: 0, a: 255 });
    v.push(Rgba { r: 255, g: 165, b: 0, a: 255 });
    v.push(Rgba { r: 128, g: 0, b: 128, a: 255 });
    v.push(Rgba { r: 255, g: 192, b: 203, a: 255 });
    v.push(Rgba { r: 160, g: 160, b: 160, a: 255 });
    v.push(Rgba { r: 139, g: 69, b: 19, a: 255 });
    v.push(Rgba { r: 0, g: 255, b: 255, a: 255 });
    v.push(Rgba { r: 255, g: 0, b: 255, a: 255 });
    v.push(Rgba { r: 220, g: 220, b: 220, a: 255 });
    v.push(Rgba { r: 96, g: 96, b: 96, a: 255 });
    assert(v@ =~= presets());
    v
}

/// Whether the tile at index `i` is the last of its row.
pub fn ends_row(i: usize) -> (last: bool)
    requires
        i < usize::MAX,
    ensures
        last == ((i + 1) % 5 == 0),
{
    (i + 1) % TILES_PER_ROW == 0
}

} // verus!
