use qs_client::assets::AssetHandle;
use qs_client::button::{Button, ButtonState, ButtonStyle};
use qs_client::field::FieldElement;
use qs_client::geometry::{Layout, Point, Size};
use qs_client::input::{ElementState, MouseButton, MouseInputProcessResult};
use qs_client::style::{AvailableSize, Style};
use qs_client::texture::{NinePatch, TextureRegion};
use qs_client::widget::{Element, Widget, UI};

fn patch(texture: u64) -> NinePatch {
    NinePatch::no_margins(TextureRegion::new(AssetHandle { id: texture }))
}

fn button() -> Element {
    Element::Button(Button::new(ButtonStyle {
        released_texture: patch(1),
        hovered_texture: patch(2),
        pressed_texture: patch(3),
        disabled_texture: patch(4),
    }))
}

fn layout(x: i32, y: i32, width: i32, height: i32) -> Layout {
    Layout { size: Size { width, height }, location: Point { x, y } }
}

/// A root that holds a button and a field, and a button inside the field.
fn tree() -> UI {
    let inner = Widget::new(button(), Vec::new(), Vec::new(), Style::default());
    let field = Widget::new(
        Element::Field(FieldElement::new(patch(5))),
        vec![inner],
        Vec::new(),
        Style::default(),
    );
    let first = Widget::new(button(), Vec::new(), Vec::new(), Style::default());
    let root = Widget::new(Element::Empty, vec![first, field], Vec::new(), Style::default());
    let mut ui = UI::new(root, AvailableSize { width: Some(100), height: Some(100) });
    // The layouts come children first: the button, the button in the field, the field, the root.
    assert!(ui.layout(&vec![
        layout(10, 10, 20, 20),
        layout(0, 0, 10, 10),
        layout(50, 10, 20, 20),
        layout(0, 0, 100, 100),
    ]));
    ui
}

fn state_of(widget: &Widget) -> ButtonState {
    match &widget.0.element {
        Element::Button(button) => button.state,
        _ => panic!("not a button"),
    }
}

fn clicks_of(widget: &Widget) -> u64 {
    match &widget.0.element {
        Element::Button(button) => button.clicks,
        _ => panic!("not a button"),
    }
}

fn press(ui: &mut UI, button: MouseButton) -> MouseInputProcessResult {
    ui.mouse_input(button, ElementState::Pressed)
}

fn release(ui: &mut UI, button: MouseButton) -> MouseInputProcessResult {
    ui.mouse_input(button, ElementState::Released)
}

#[test]
fn the_cursor_comes_onto_widgets_and_leaves_them() {
    let mut ui = tree();
    assert_eq!(ui.mouse_position, Point { x: 0, y: 0 });
    ui.mouse_move(Point { x: 15, y: 15 });
    assert_eq!(ui.mouse_position, Point { x: 15, y: 15 });
    assert!(ui.root.0.hovered);
    assert!(ui.root.0.children[0].0.hovered);
    assert!(!ui.root.0.children[1].0.hovered);
    assert_eq!(state_of(&ui.root.0.children[0]), ButtonState::Hovered);
    ui.mouse_move(Point { x: 29, y: 29 });
    assert_eq!(state_of(&ui.root.0.children[0]), ButtonState::Hovered);
    ui.mouse_move(Point { x: 30, y: 29 });
    assert!(!ui.root.0.children[0].0.hovered);
    assert_eq!(state_of(&ui.root.0.children[0]), ButtonState::Released);
    // The button in the field lies at the place of the field.
    ui.mouse_move(Point { x: 59, y: 19 });
    assert!(ui.root.0.children[1].0.hovered);
    assert!(ui.root.0.children[1].0.children[0].0.hovered);
    assert_eq!(state_of(&ui.root.0.children[1].0.children[0]), ButtonState::Hovered);
    ui.mouse_move(Point { x: 60, y: 19 });
    assert!(ui.root.0.children[1].0.hovered);
    assert!(!ui.root.0.children[1].0.children[0].0.hovered);
    assert_eq!(state_of(&ui.root.0.children[1].0.children[0]), ButtonState::Released);
    ui.mouse_move(Point { x: 200, y: 200 });
    assert!(!ui.root.0.hovered);
    assert!(!ui.root.0.children[1].0.hovered);
}

#[test]
fn a_click_reaches_the_button_under_the_cursor() {
    let mut ui = tree();
    assert_eq!(press(&mut ui, MouseButton::Left), MouseInputProcessResult::NotProcessed);
    ui.mouse_move(Point { x: 10, y: 10 });
    assert_eq!(press(&mut ui, MouseButton::Left), MouseInputProcessResult::TakeKeyboardFocus);
    assert_eq!(state_of(&ui.root.0.children[0]), ButtonState::Pressed);
    assert_eq!(release(&mut ui, MouseButton::Left), MouseInputProcessResult::TakeKeyboardFocus);
    assert_eq!(clicks_of(&ui.root.0.children[0]), 1);
    assert_eq!(press(&mut ui, MouseButton::Right), MouseInputProcessResult::NotProcessed);
    assert_eq!(clicks_of(&ui.root.0.children[1].0.children[0]), 0);
}

#[test]
fn the_first_element_that_uses_an_event_wins() {
    let mut ui = tree();
    ui.mouse_move(Point { x: 55, y: 15 });
    assert_eq!(state_of(&ui.root.0.children[1].0.children[0]), ButtonState::Hovered);
    // The field is asked before the button inside it, and takes the left button.
    assert_eq!(press(&mut ui, MouseButton::Left), MouseInputProcessResult::TakeKeyboardFocus);
    assert_eq!(state_of(&ui.root.0.children[1].0.children[0]), ButtonState::Hovered);
    assert_eq!(release(&mut ui, MouseButton::Left), MouseInputProcessResult::Processed);
    assert_eq!(clicks_of(&ui.root.0.children[1].0.children[0]), 0);
    // The field leaves the other buttons to the button inside it, which leaves them too.
    assert_eq!(press(&mut ui, MouseButton::Middle), MouseInputProcessResult::NotProcessed);
    // Beside the button in the field only the field is asked.
    ui.mouse_move(Point { x: 65, y: 25 });
    assert_eq!(press(&mut ui, MouseButton::Left), MouseInputProcessResult::TakeKeyboardFocus);
    assert_eq!(state_of(&ui.root.0.children[1].0.children[0]), ButtonState::Released);
}

#[test]
fn events_off_the_widgets_reach_nothing() {
    let mut ui = tree();
    ui.mouse_move(Point { x: 10, y: 10 });
    press(&mut ui, MouseButton::Left);
    ui.mouse_move(Point { x: -1, y: 10 });
    assert_eq!(state_of(&ui.root.0.children[0]), ButtonState::PressedNotHovered);
    assert_eq!(release(&mut ui, MouseButton::Left), MouseInputProcessResult::NotProcessed);
    // The release outside did not reach the button: it is still held.
    assert_eq!(state_of(&ui.root.0.children[0]), ButtonState::PressedNotHovered);
    let mut bare = UI::new(
        Widget::new(button(), Vec::new(), Vec::new(), Style::default()),
        AvailableSize { width: None, height: None },
    );
    bare.mouse_move(Point { x: 0, y: 0 });
    assert!(!bare.root.0.hovered);
    assert_eq!(press(&mut bare, MouseButton::Left), MouseInputProcessResult::NotProcessed);
    assert_eq!(state_of(&bare.root), ButtonState::Released);
}
