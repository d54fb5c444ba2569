//! A button: four looks, and the rules by which the mouse moves it between them.

use vstd::prelude::*;
use crate::colour::Colour;
use crate::geometry::{clamp, spec_clamp, Layout, Point};
use crate::input::{ElementState, MouseButton, MouseInputProcessResult};
use crate::multi_batch::{MultiRenderable, RenderTree};
use crate::style::{Dimension, Dimensions};
use crate::texture::NinePatch;
use crate::widget::UiElement;

verus! {

/// How a button looks in each of its states.
#[derive(Debug, Copy, Clone, PartialEq, Eq)]
pub struct ButtonStyle {
    /// The texture to be rendered when the button is not being held.
    pub released_texture: NinePatch,
    /// The texture to be rendered when the mouse is hovering over the button.
    pub hovered_texture: NinePatch,
    /// The texture to be rendered when the mouse is currently pressed on the button.
    pub pressed_texture: NinePatch,
    /// The texture to be rendered when the button is disabled, i.e. not clickable.
    pub disabled_texture: NinePatch,
}

/// Where the mouse is and whether it holds the button.
#[derive(Debug, Copy, Clone, PartialEq, Eq, Structural)]
pub enum ButtonState {
    Released,
    Hovered,
    Pressed,
    /// The button was pressed, and the cursor has left it since.
    PressedNotHovered,
}

/// A button that can be clicked with the left mouse button.
///
/// A click is a press on the button followed by a release on it. The button
/// counts its clicks in `clicks`; its owner reads and resets the count.
#[derive(Debug, Copy, Clone, PartialEq, Eq)]
pub struct Button {
    pub style: ButtonStyle,
    pub state: ButtonState,
    /// While this is set the button shows its disabled look and counts no click.
    pub disabled: bool,
    /// The clicks since the owner last took them.
    pub clicks: u64,
}

impl Button {
    /// The look of the button at this moment.
    pub open spec fn nine_patch(&self) -> NinePatch {
        if self.disabled {
            self.style.disabled_texture
        } else {
            match self.state {
                ButtonState::Released => self.style.released_texture,
                ButtonState::Hovered => self.style.hovered_texture,
                ButtonState::Pressed => self.style.pressed_texture,
                ButtonState::PressedNotHovered => self.style.pressed_texture,
            }
        }
    }

    /// The state after a mouse button event.
    pub open spec fn state_after_input(&self, button: MouseButton, state: ElementState) -> ButtonState {
        if button != MouseButton::Left {
            self.state
        } else {
            match state {
                ElementState::Pressed => if self.state == ButtonState::Hovered && !self.disabled {
                    ButtonState::Pressed
                } else {
                    self.state
                },
                ElementState::Released => match self.state {
                    ButtonState::Pressed => ButtonState::Hovered,
                    ButtonState::PressedNotHovered => ButtonState::Released,
                    _ => self.state,
                },
            }
        }
    }

    /// Whether a mouse button event completes a click.
    pub open spec fn clicks_on(&self, button: MouseButton, state: ElementState) -> bool {
        button == MouseButton::Left && state == ElementState::Released && self.state
            == ButtonState::Pressed && !self.disabled
    }

    /// What the button answers to a mouse button event: it takes the
    /// keyboard focus when the left button goes down on it or comes up after
    /// a press on it, and leaves every other event to others.
    pub open spec fn answer_to(&self, button: MouseButton, state: ElementState) -> MouseInputProcessResult {
        if button == MouseButton::Left && ((state == ElementState::Pressed && self.state
            == ButtonState::Hovered) || (state == ElementState::Released && self.state
            == ButtonState::Pressed)) {
            MouseInputProcessResult::TakeKeyboardFocus
        } else {
            MouseInputProcessResult::NotProcessed
        }
    }

    /// The state after the cursor came onto the button.
    pub open spec fn state_after_enter(&self) -> ButtonState {
        match self.state {
            ButtonState::Released => ButtonState::Hovered,
            ButtonState::PressedNotHovered => ButtonState::Pressed,
            _ => self.state,
        }
    }

    /// The state after the cursor left the button.
    pub open spec fn state_after_leave(&self) -> ButtonState {
        match self.state {
            ButtonState::Hovered => ButtonState::Released,
            ButtonState::Pressed => ButtonState::PressedNotHovered,
            _ => self.state,
        }
    }

    /// A button that can always be clicked.
    pub fn new(style: ButtonStyle) -> (button: Button)
        ensures
            button == (Button { style, state: ButtonState::Released, disabled: false, clicks: 0 }),
    {
        Button { style, state: ButtonState::Released, disabled: false, clicks: 0 }
    }

    /// A button that starts out disabled or not, as `disabled` says.
    pub fn new_disableable(style: ButtonStyle, disabled: bool) -> (button: Button)
        ensures
            button == (Button { style, state: ButtonState::Released, disabled, clicks: 0 }),
    {
        Button { style, state: ButtonState::Released, disabled, clicks: 0 }
    }

    /// Hands out the clicks counted so far and starts counting anew.
    pub fn take_clicks(&mut self) -> (clicks: u64)
        ensures
            clicks == old(self).clicks,
            *final(self) == (Button { clicks: 0, ..*old(self) }),
    {
        let clicks = self.clicks;
        self.clicks = 0;
        clicks
    }
}

impl UiElement for Button {
    open spec fn size(&self) -> Dimensions {
        Dimensions::auto()
    }

    fn get_size(&self) -> (size: Dimensions) {
        Dimensions { width: Dimension::Auto, height: Dimension::Auto }
    }

    open spec fn render_info(&self, layout: Layout) -> RenderTree {
        self.nine_patch().render_info(
            Colour::spec_white(),
            layout.location.x,
            spec_clamp(-(layout.location.y as int) - layout.size.height),
            layout.size.width,
            layout.size.height,
        )
    }

    fn generate_render_info(&self, layout: &Layout) -> (info: MultiRenderable) {
        let nine_patch = if self.disabled {
            &self.style.disabled_texture
        } else {
            match self.state {
                ButtonState::Released => &self.style.released_texture,
                ButtonState::Hovered => &self.style.hovered_texture,
                ButtonState::Pressed => &self.style.pressed_texture,
                ButtonState::PressedNotHovered => &self.style.pressed_texture,
            }
        };
        nine_patch.generate_render_info(
            Colour::white(),
            layout.location.x,
            clamp(-(layout.location.y as i64) - layout.size.height as i64),
            layout.size.width,
            layout.size.height,
        )
    }

    fn mouse_move(&mut self, pos: Point)
        ensures
            *final(self) == *old(self),
    {
    }

    /// Follows the left mouse button. A release after a press on the button
    /// counts one click, unless the button is disabled; a count at its upper
    /// end stays there.
    fn process_mouse_input(&mut self, button: MouseButton, state: ElementState) -> (result:
        MouseInputProcessResult)
        ensures
            result == old(self).answer_to(button, state),
            final(self).state == old(self).state_after_input(button, state),
            final(self).style == old(self).style,
            final(self).disabled == old(self).disabled,
            final(self).clicks == if old(self).clicks_on(button, state) && old(self).clicks
                < u64::MAX {
                (old(self).clicks + 1) as u64
            } else {
                old(self).clicks
            },
    {
        let disabled = self.disabled;
        match button {
            MouseButton::Left => match state {
                ElementState::Pressed => {
                    if self.state == ButtonState::Hovered {
                        if !disabled {
                            self.state = ButtonState::Pressed;
                        }
                        MouseInputProcessResult::TakeKeyboardFocus
                    } else {
                        MouseInputProcessResult::NotProcessed
                    }
                },
                ElementState::Released => {
                    if self.state == ButtonState::Pressed {
                        self.state = ButtonState::Hovered;
                        if !disabled && self.clicks < u64::MAX {
                            self.clicks = self.clicks + 1;
                        }
                        MouseInputProcessResult::TakeKeyboardFocus
                    } else if self.state == ButtonState::PressedNotHovered {
                        self.state = ButtonState::Released;
                        MouseInputProcessResult::NotProcessed
                    } else {
                        MouseInputProcessResult::NotProcessed
                    }
                },
            },
            _ => MouseInputProcessResult::NotProcessed,
        }
    }

    fn mouse_enter(&mut self)
        ensures
            final(self).state == old(self).state_after_enter(),
            final(self).style == old(self).style,
            final(self).disabled == old(self).disabled,
            final(self).clicks == old(self).clicks,
    {
        if self.state == ButtonState::Released {
            self.state = ButtonState::Hovered;
        } else if self.state == ButtonState::PressedNotHovered {
            self.state = ButtonState::Pressed;
        }
    }

    fn mouse_leave(&mut self)
        ensures
            final(self).state == old(self).state_after_leave(),
            final(self).style == old(self).style,
            final(self).disabled == old(self).disabled,
            final(self).clicks == old(self).clicks,
    {
        if self.state == ButtonState::Hovered {
            self.state = ButtonState::Released;
        } else if self.state == ButtonState::Pressed {
            self.state = ButtonState::PressedNotHovered;
        }
    }
}

} // verus!
