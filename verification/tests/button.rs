use qs_client::assets::AssetHandle;
use qs_client::atlas::{Rect, TextureRegionInformation};
use qs_client::button::{Button, ButtonState, ButtonStyle};
use qs_client::colour::Colour;
use qs_client::field::{Caret, FieldElement, GlyphBox};
use qs_client::geometry::{Layout, Point, Size};
use qs_client::input::{ElementState, MouseButton, MouseInputProcessResult};
use qs_client::multi_batch::MultiRenderable;
use qs_client::style::{Dimensions, Style};
use qs_client::text::RenderableWord;
use qs_client::texture::{InternalTextureRegionInformation, NinePatch, TextureRegion};
use qs_client::widget::{Element, UiElement, Widget};

fn patch(texture: u64) -> NinePatch {
    NinePatch {
        texture_region: TextureRegion {
            partitioned_texture: AssetHandle { id: texture },
            info: Some(InternalTextureRegionInformation {
                info: TextureRegionInformation {
                    frame: Rect { x: 0, y: 0, w: 16, h: 16 },
                    rotated: false,
                    trimmed: false,
                    source: Rect { x: 0, y: 0, w: 16, h: 16 },
                },
                partitioned_texture_size: (64, 64),
            }),
        },
        left_margin: 2,
        right_margin: 2,
        top_margin: 2,
        bottom_margin: 2,
    }
}

fn style() -> ButtonStyle {
    ButtonStyle {
        released_texture: patch(1),
        hovered_texture: patch(2),
        pressed_texture: patch(3),
        disabled_texture: patch(4),
    }
}

fn layout(x: i32, y: i32, width: i32, height: i32) -> Layout {
    Layout { size: Size { width, height }, location: Point { x, y } }
}

fn texture_of(info: MultiRenderable) -> u64 {
    match info {
        MultiRenderable::ImageRegion { texture, .. } => texture.partitioned_texture.id,
        other => panic!("not an image region: {:?}", other),
    }
}

fn press(button: &mut Button) -> MouseInputProcessResult {
    button.process_mouse_input(MouseButton::Left, ElementState::Pressed)
}

fn release(button: &mut Button) -> MouseInputProcessResult {
    button.process_mouse_input(MouseButton::Left, ElementState::Released)
}

#[test]
fn a_click_is_a_press_and_a_release_on_the_button() {
    let mut button = Button::new(style());
    assert_eq!(button.state, ButtonState::Released);
    assert!(!button.disabled);
    assert_eq!(press(&mut button), MouseInputProcessResult::NotProcessed);
    assert_eq!(button.state, ButtonState::Released);
    button.mouse_enter();
    assert_eq!(button.state, ButtonState::Hovered);
    assert_eq!(press(&mut button), MouseInputProcessResult::TakeKeyboardFocus);
    assert_eq!(button.state, ButtonState::Pressed);
    assert_eq!(button.clicks, 0);
    assert_eq!(release(&mut button), MouseInputProcessResult::TakeKeyboardFocus);
    assert_eq!(button.state, ButtonState::Hovered);
    assert_eq!(button.clicks, 1);
    assert_eq!(release(&mut button), MouseInputProcessResult::NotProcessed);
    assert_eq!(button.clicks, 1);
    assert_eq!(button.take_clicks(), 1);
    assert_eq!(button.clicks, 0);
    assert_eq!(button.take_clicks(), 0);
}

#[test]
fn a_release_off_the_button_is_no_click() {
    let mut button = Button::new(style());
    button.mouse_enter();
    press(&mut button);
    button.mouse_leave();
    assert_eq!(button.state, ButtonState::PressedNotHovered);
    assert_eq!(release(&mut button), MouseInputProcessResult::NotProcessed);
    assert_eq!(button.state, ButtonState::Released);
    assert_eq!(button.clicks, 0);
    button.mouse_enter();
    press(&mut button);
    button.mouse_leave();
    button.mouse_enter();
    assert_eq!(button.state, ButtonState::Pressed);
    release(&mut button);
    assert_eq!(button.clicks, 1);
    button.mouse_leave();
    assert_eq!(button.state, ButtonState::Released);
    button.mouse_leave();
    assert_eq!(button.state, ButtonState::Released);
}

#[test]
fn other_mouse_buttons_are_left_to_others() {
    let mut button = Button::new(style());
    button.mouse_enter();
    for other in [MouseButton::Right, MouseButton::Middle, MouseButton::Other(7)] {
        for state in [ElementState::Pressed, ElementState::Released] {
            assert_eq!(button.process_mouse_input(other, state), MouseInputProcessResult::NotProcessed);
            assert_eq!(button.state, ButtonState::Hovered);
        }
    }
    button.mouse_move(Point { x: 1, y: 1 });
    assert_eq!(button, Button { state: ButtonState::Hovered, ..Button::new(style()) });
}

#[test]
fn a_disabled_button_takes_focus_but_no_click() {
    let mut button = Button::new_disableable(style(), true);
    assert!(button.disabled);
    button.mouse_enter();
    assert_eq!(press(&mut button), MouseInputProcessResult::TakeKeyboardFocus);
    assert_eq!(button.state, ButtonState::Hovered);
    assert_eq!(release(&mut button), MouseInputProcessResult::NotProcessed);
    assert_eq!(button.clicks, 0);
    button.disabled = false;
    press(&mut button);
    button.disabled = true;
    assert_eq!(release(&mut button), MouseInputProcessResult::TakeKeyboardFocus);
    assert_eq!(button.state, ButtonState::Hovered);
    assert_eq!(button.clicks, 0);
}

#[test]
fn the_count_of_clicks_stops_at_its_end() {
    let mut button = Button { clicks: u64::MAX, ..Button::new(style()) };
    button.mouse_enter();
    press(&mut button);
    release(&mut button);
    assert_eq!(button.clicks, u64::MAX);
}

#[test]
fn a_button_shows_the_look_of_its_state() {
    let mut button = Button::new(style());
    let at = layout(10, 20, 30, 40);
    assert_eq!(button.get_size(), Dimensions::default());
    assert_eq!(texture_of(button.generate_render_info(&at)), 1);
    button.mouse_enter();
    assert_eq!(texture_of(button.generate_render_info(&at)), 2);
    press(&mut button);
    assert_eq!(texture_of(button.generate_render_info(&at)), 3);
    button.mouse_leave();
    assert_eq!(texture_of(button.generate_render_info(&at)), 3);
    button.disabled = true;
    assert_eq!(texture_of(button.generate_render_info(&at)), 4);
    assert_eq!(
        button.generate_render_info(&at),
        patch(4).generate_render_info(Colour::white(), 10, -60, 30, 40)
    );
    assert_eq!(
        Element::Button(button).generate_render_info(&at),
        patch(4).generate_render_info(Colour::white(), 10, -60, 30, 40)
    );
}

#[test]
fn a_field_takes_the_keyboard_focus_on_a_press() {
    let mut field = FieldElement::new(patch(5));
    assert_eq!(field.caret_position, None);
    assert_eq!(field.get_size(), Dimensions::default());
    assert_eq!(
        field.process_mouse_input(MouseButton::Left, ElementState::Pressed),
        MouseInputProcessResult::TakeKeyboardFocus
    );
    assert_eq!(
        field.process_mouse_input(MouseButton::Left, ElementState::Released),
        MouseInputProcessResult::Processed
    );
    assert_eq!(
        field.process_mouse_input(MouseButton::Right, ElementState::Pressed),
        MouseInputProcessResult::NotProcessed
    );
    field.mouse_move(Point { x: 3, y: 4 });
    field.mouse_enter();
    field.mouse_leave();
    assert_eq!(field, FieldElement::new(patch(5)));
}

#[test]
fn a_field_draws_its_caret() {
    let mut field = FieldElement::new(patch(5));
    let at = layout(100, 200, 300, 50);
    assert_eq!(field.generate_render_info(&at), MultiRenderable::Nothing);
    field.caret_position = Some(Caret { edit_index: 3, pos: Point { x: 40, y: 10 }, height: 24 });
    assert_eq!(
        field.generate_render_info(&at),
        patch(5).generate_render_info(Colour::white(), 138, -233, 5, 22)
    );
}

#[test]
fn the_caret_goes_to_the_nearest_edge() {
    let boxes = vec![
        GlyphBox { character_index: 4, bounding_box: None },
        GlyphBox { character_index: 5, bounding_box: Some((2, 10)) },
        GlyphBox { character_index: 6, bounding_box: Some((12, 20)) },
        GlyphBox { character_index: 7, bounding_box: None },
        GlyphBox { character_index: 8, bounding_box: Some((30, 38)) },
    ];
    assert_eq!(FieldElement::closest_anchor(&boxes, -5), (5, 2));
    assert_eq!(FieldElement::closest_anchor(&boxes, 5), (5, 2));
    assert_eq!(FieldElement::closest_anchor(&boxes, 6), (5, 2));
    assert_eq!(FieldElement::closest_anchor(&boxes, 7), (6, 10));
    assert_eq!(FieldElement::closest_anchor(&boxes, 15), (6, 10));
    assert_eq!(FieldElement::closest_anchor(&boxes, 16), (7, 20));
    assert_eq!(FieldElement::closest_anchor(&boxes, 29), (7, 20));
    assert_eq!(FieldElement::closest_anchor(&boxes, 30), (9, 38));
    assert_eq!(FieldElement::closest_anchor(&boxes, 1000), (9, 38));
    assert_eq!(FieldElement::closest_anchor(&Vec::new(), 3), (0, 0));
    assert_eq!(FieldElement::closest_anchor(&boxes[..1].to_vec(), 3), (0, 0));
    let last = vec![GlyphBox { character_index: usize::MAX, bounding_box: Some((0, 4)) }];
    assert_eq!(FieldElement::closest_anchor(&last, 4), (usize::MAX, 4));
    let caret = FieldElement::get_caret_position(&layout(100, 50, 60, 24), &boxes, Point { x: 116, y: 60 });
    assert_eq!(caret, Caret { edit_index: 7, pos: Point { x: 120, y: 50 }, height: 24 });
}

#[test]
fn the_cursor_finds_the_word_under_it() {
    let word = |x: i32, y: i32| {
        let mut widget = Widget::new(
            Element::Word(RenderableWord { glyphs: Vec::new(), size: (10, 10), baseline: 8 }),
            Vec::new(),
            Vec::new(),
            Style::default(),
        );
        widget.0.layout = Some(layout(x, y, 10, 10));
        widget
    };
    let paragraph = |y: i32, height: i32, words: Vec<Widget>| {
        let mut widget = Widget::new(Element::RichTextContainer, words, Vec::new(), Style::default());
        widget.0.layout = Some(layout(0, y, 100, height));
        widget
    };
    let mut unplaced = word(0, 0);
    unplaced.0.layout = None;
    let text = Widget::new(
        Element::RichTextContainer,
        vec![
            Widget::new(Element::RichTextContainer, vec![word(0, 0)], Vec::new(), Style::default()),
            paragraph(0, 10, vec![unplaced, word(0, 0), word(10, 0), word(10, 0)]),
            paragraph(10, 20, vec![word(0, 10), word(0, 20), word(50, 20)]),
            paragraph(10, 20, vec![word(20, 10)]),
        ],
        Vec::new(),
        Style::default(),
    );
    let at = |x: i32, y: i32| FieldElement::hovered_word(&text, Point { x, y });
    assert_eq!(at(0, 0), Some((1, 1)));
    assert_eq!(at(9, 9), Some((1, 1)));
    assert_eq!(at(10, 0), Some((1, 2)));
    assert_eq!(at(20, 5), None);
    assert_eq!(at(5, 10), Some((2, 0)));
    assert_eq!(at(5, 29), Some((2, 1)));
    assert_eq!(at(59, 25), Some((2, 2)));
    assert_eq!(at(25, 15), None);
    assert_eq!(at(5, 30), None);
    assert_eq!(at(5, -1), None);
    assert_eq!(at(-1, 5), None);
}
