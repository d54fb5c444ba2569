use qs_client::assets::AssetHandle;
use qs_client::batch::Renderable;
use qs_client::colour::Colour;
use qs_client::geometry::{clamp, offset_by, Layout, Point, Size};
use qs_client::input::{ElementState, MouseButton, MouseInputProcessResult};
use qs_client::multi_batch::MultiRenderable;
use qs_client::style::{AvailableSize, Dimension, Dimensions, FlexDirection, Style};
use qs_client::text::RenderableWord;
use qs_client::ui_texture::ImageWidget;
use qs_client::widget::{
    generate_debug_lines, generate_nodes, Element, StyleNode, UiElement, Widget, WidgetStyle, UI,
};

fn layout(x: i32, y: i32, width: i32, height: i32) -> Layout {
    Layout { size: Size { width, height }, location: Point { x, y } }
}

fn image(texture: u64) -> ImageWidget {
    ImageWidget {
        size: Dimensions { width: Dimension::Points(20), height: Dimension::Percent(50) },
        colour: Colour::rgb(1, 2, 3),
        texture: AssetHandle { id: texture },
    }
}

fn word(width: u32) -> RenderableWord {
    RenderableWord { glyphs: Vec::new(), size: (width, 10), baseline: 8 }
}

fn leaf(element: Element) -> Widget {
    Widget::new(element, Vec::new(), Vec::new(), Style::default())
}

/// A root with one background, holding a word and a box that holds an image.
fn tree() -> UI {
    let boxed = Widget::new(
        Element::Empty,
        vec![leaf(Element::Image(image(2)))],
        Vec::new(),
        Style { flex_direction: FlexDirection::Column, ..Style::default() },
    );
    let root = Widget::new(
        Element::Empty,
        vec![leaf(Element::Word(word(30))), boxed],
        vec![Element::Image(image(1))],
        Style::default(),
    );
    UI::new(root, AvailableSize { width: Some(800), height: None })
}

/// A stand-in for an element of an application.
struct Marker(u64);

impl UiElement for Marker {
    fn get_size(&self) -> Dimensions {
        Dimensions { width: Dimension::Points(self.0 as i32), height: Dimension::Auto }
    }

    fn generate_render_info(&self, layout: &Layout) -> MultiRenderable {
        MultiRenderable::Image {
            texture: AssetHandle { id: self.0 },
            renderables: vec![Renderable::Empty; layout.size.width as usize],
        }
    }

    fn mouse_move(&mut self, _pos: Point) {}

    fn process_mouse_input(&mut self, _button: MouseButton, _state: ElementState) -> MouseInputProcessResult {
        self.0 += 1;
        MouseInputProcessResult::Processed
    }

    fn mouse_enter(&mut self) {
        self.0 += 10;
    }

    fn mouse_leave(&mut self) {
        self.0 += 100;
    }
}

#[test]
fn coordinates_stay_in_range() {
    assert_eq!(clamp(5), 5);
    assert_eq!(clamp(i32::MAX as i64 + 1), i32::MAX);
    assert_eq!(clamp(i32::MIN as i64 - 1), i32::MIN);
    assert_eq!(offset_by(3, -5), -2);
    assert_eq!(offset_by(i32::MAX, 1), i32::MAX);
    assert_eq!(offset_by(i32::MIN, -1), i32::MIN);
    assert_eq!(Point { x: 1, y: i32::MAX }.translated(Point { x: 2, y: 3 }), Point { x: 3, y: i32::MAX });
    assert_eq!(layout(1, 2, 3, 4).translated(Point { x: 10, y: 20 }), layout(11, 22, 3, 4));
}

#[test]
fn a_new_widget_has_no_layout() {
    let widget = leaf(Element::Empty);
    assert_eq!(widget.0.layout, None);
    assert!(widget.0.needs_layout);
    assert!(widget.needs_layout());
    assert_eq!(widget.generate_render_info(Point { x: 0, y: 0 }, None), MultiRenderable::Nothing);
    assert_eq!(widget.count_nodes(), Some(1));
}

#[test]
fn the_unit_element_draws_nothing() {
    let mut unit = ();
    assert_eq!(unit.get_size(), Dimensions { width: Dimension::Auto, height: Dimension::Auto });
    assert_eq!(unit.generate_render_info(&layout(1, 2, 3, 4)), MultiRenderable::Nothing);
    assert_eq!(
        unit.process_mouse_input(MouseButton::Left, ElementState::Pressed),
        MouseInputProcessResult::NotProcessed
    );
}

#[test]
fn elements_answer_for_what_they_hold() {
    assert_eq!(Element::Empty.get_size(), Dimensions::default());
    assert_eq!(Element::RichTextContainer.get_size(), Dimensions::default());
    assert_eq!(Element::Image(image(1)).get_size(), image(1).size);
    assert_eq!(
        Element::Word(word(30)).get_size(),
        Dimensions { width: Dimension::Points(30), height: Dimension::Points(10) }
    );
    let huge = RenderableWord { glyphs: Vec::new(), size: (u32::MAX, 0), baseline: 0 };
    assert_eq!(
        huge.get_size(),
        Dimensions { width: Dimension::Points(i32::MAX), height: Dimension::Points(0) }
    );
    assert_eq!(
        Element::Word(word(30)).generate_render_info(&layout(5, 6, 7, 8)),
        MultiRenderable::Text { word: word(30), offset: Point { x: 5, y: 6 } }
    );
    assert_eq!(Element::Empty.generate_render_info(&layout(5, 6, 7, 8)), MultiRenderable::Nothing);
    let mut custom = Element::Custom(Box::new(Marker(3)));
    assert_eq!(custom.get_size(), Dimensions { width: Dimension::Points(3), height: Dimension::Auto });
    assert_eq!(
        custom.process_mouse_input(MouseButton::Left, ElementState::Pressed),
        MouseInputProcessResult::Processed
    );
    custom.mouse_enter();
    custom.mouse_leave();
    custom.mouse_move(Point { x: 0, y: 0 });
    assert_eq!(custom.get_size(), Dimensions { width: Dimension::Points(114), height: Dimension::Auto });
    assert_eq!(
        custom.generate_render_info(&layout(0, 0, 2, 0)),
        MultiRenderable::Image {
            texture: AssetHandle { id: 114 },
            renderables: vec![Renderable::Empty, Renderable::Empty]
        }
    );
    let mut word = Element::Word(word(1));
    assert_eq!(
        word.process_mouse_input(MouseButton::Left, ElementState::Pressed),
        MouseInputProcessResult::NotProcessed
    );
}

#[test]
fn an_image_fills_its_layout() {
    let info = image(4).generate_render_info(&layout(10, 20, 30, 40));
    let (texture, renderables) = match info {
        MultiRenderable::Image { texture, renderables } => (texture, renderables),
        other => panic!("not an image: {:?}", other),
    };
    assert_eq!(texture, AssetHandle { id: 4 });
    assert_eq!(renderables.len(), 1);
    let corners = match renderables[0] {
        Renderable::Quadrilateral(a, b, c, d) => [a, b, c, d],
        other => panic!("not a quadrilateral: {:?}", other),
    };
    let places: Vec<(i64, i64, i64, i64)> = corners
        .iter()
        .map(|v| (v.position.x, v.position.y, v.tex_coords.u.num, v.tex_coords.v.num))
        .collect();
    assert_eq!(places, vec![(10, -20, 0, 0), (40, -20, 1, 0), (40, -60, 1, 1), (10, -60, 0, 1)]);
    for corner in corners {
        assert_eq!(corner.color, Colour::rgb(1, 2, 3));
        assert_eq!((corner.tex_coords.u.den, corner.tex_coords.v.den), (1, 1));
        assert_eq!(corner.position.z, 0);
    }
}

#[test]
fn styles_take_the_size_of_the_element() {
    let ui = tree();
    let styles = ui.root.generate_styles();
    let auto = Style::default();
    assert_eq!(
        styles,
        WidgetStyle {
            style: auto,
            children: vec![
                WidgetStyle {
                    style: Style {
                        size: Dimensions {
                            width: Dimension::Points(30),
                            height: Dimension::Points(10)
                        },
                        ..auto
                    },
                    children: Vec::new(),
                },
                WidgetStyle {
                    style: Style { flex_direction: FlexDirection::Column, ..auto },
                    children: vec![WidgetStyle {
                        style: Style { size: image(2).size, ..auto },
                        children: Vec::new(),
                    }],
                },
            ],
        }
    );
    assert_eq!(ui.root.0.get_style(), auto);
}

#[test]
fn nodes_come_children_first() {
    let ui = tree();
    let nodes = ui.generate_nodes();
    let auto = Style::default();
    assert_eq!(
        nodes,
        vec![
            StyleNode {
                style: Style {
                    size: Dimensions { width: Dimension::Points(30), height: Dimension::Points(10) },
                    ..auto
                },
                children: Vec::new(),
            },
            StyleNode { style: Style { size: image(2).size, ..auto }, children: Vec::new() },
            StyleNode {
                style: Style { flex_direction: FlexDirection::Column, ..auto },
                children: vec![1],
            },
            StyleNode { style: auto, children: vec![0, 2] },
        ]
    );
    assert_eq!(ui.root.count_nodes(), Some(4));
    let mut more = vec![StyleNode { style: auto, children: Vec::new() }];
    let root = generate_nodes(&ui.root.0.children[1].generate_styles(), &mut more);
    assert_eq!(root, 2);
    assert_eq!(more.len(), 3);
    assert_eq!(more[2].children, vec![1]);
}

#[test]
fn layouts_go_back_in_the_order_of_the_nodes() {
    let mut ui = tree();
    assert!(ui.needs_layout());
    let layouts = vec![layout(1, 1, 1, 1), layout(2, 2, 2, 2), layout(3, 3, 3, 3), layout(4, 4, 4, 4)];
    assert!(!ui.layout(&layouts[..3].to_vec()));
    assert!(ui.needs_layout());
    assert_eq!(ui.root.0.layout, None);
    assert!(ui.layout(&layouts));
    assert!(!ui.needs_layout());
    assert!(!ui.force_layout);
    assert_eq!(ui.root.0.layout, Some(layout(4, 4, 4, 4)));
    assert_eq!(ui.root.0.children[0].0.layout, Some(layout(1, 1, 1, 1)));
    assert_eq!(ui.root.0.children[1].0.layout, Some(layout(3, 3, 3, 3)));
    assert_eq!(ui.root.0.children[1].0.children[0].0.layout, Some(layout(2, 2, 2, 2)));
    assert_eq!(ui.size, AvailableSize { width: Some(800), height: None });
}

#[test]
fn changes_ask_for_a_new_layout() {
    let mut ui = tree();
    let layouts = vec![layout(0, 0, 1, 1); 4];
    assert!(ui.layout(&layouts));
    assert!(!ui.needs_layout());
    ui.update_size(AvailableSize { width: Some(10), height: Some(20) });
    assert!(ui.needs_layout());
    assert_eq!(ui.size, AvailableSize { width: Some(10), height: Some(20) });
    assert!(ui.layout(&layouts));
    ui.root.0.children[1].0.children[0].0.force_layout();
    assert!(ui.needs_layout());
    assert!(!ui.root.0.needs_layout);
    assert!(ui.layout(&layouts));
    ui.root.0.children[1].0.add_child(leaf(Element::Empty));
    assert!(ui.needs_layout());
    assert_eq!(ui.root.0.children[1].0.children.len(), 2);
    assert!(!ui.layout(&layouts));
    assert!(ui.layout(&vec![layout(0, 0, 1, 1); 5]));
    ui.root.0.children[1].0.clear_children();
    assert!(ui.root.0.children[1].0.children.is_empty());
    assert!(ui.needs_layout());
    assert_eq!(ui.root.count_nodes(), Some(3));
}

#[test]
fn backgrounds_are_layers_behind_the_content() {
    let mut ui = tree();
    let layouts = vec![layout(5, 6, 30, 10), layout(0, 0, 20, 20), layout(40, 0, 20, 20), layout(100, 200, 60, 20)];
    assert!(ui.layout(&layouts));
    let info = ui.generate_render_info(Point { x: -400, y: -300 }, None);
    // The root lies at (100, 200) less the offset; children add the place of their parent.
    let root = layout(-300, -100, 60, 20);
    let expected = MultiRenderable::Layered(vec![
        image(1).generate_render_info(&root),
        MultiRenderable::Adjacent(vec![
            MultiRenderable::Nothing,
            MultiRenderable::Adjacent(vec![MultiRenderable::Text {
                word: word(30),
                offset: Point { x: -295, y: -94 },
            }]),
            MultiRenderable::Adjacent(vec![
                MultiRenderable::Nothing,
                MultiRenderable::Adjacent(vec![
                    image(2).generate_render_info(&layout(-260, -100, 20, 20)),
                ]),
            ]),
        ]),
    ]);
    assert_eq!(info, expected);
}

#[test]
fn widgets_without_layout_are_left_out() {
    let mut ui = tree();
    ui.root.0.layout = Some(layout(0, 0, 10, 10));
    ui.root.0.backgrounds.clear();
    let info = ui.generate_render_info(Point { x: 0, y: 0 }, None);
    assert_eq!(
        info,
        MultiRenderable::Adjacent(vec![
            MultiRenderable::Nothing,
            MultiRenderable::Nothing,
            MultiRenderable::Nothing,
        ])
    );
}

#[test]
fn debug_lines_surround_every_widget() {
    let lines = generate_debug_lines(&layout(10, 20, 30, 40));
    let spans: Vec<(i64, i64, i64, i64)> = lines
        .iter()
        .map(|line| match line {
            Renderable::Quadrilateral(a, _, c, _) => {
                (a.position.x, a.position.y, c.position.x, c.position.y)
            }
            other => panic!("not a quadrilateral: {:?}", other),
        })
        .collect();
    assert_eq!(
        spans,
        vec![(10, -20, 11, -60), (40, -20, 39, -60), (10, -20, 40, -19), (10, -60, 40, -61)]
    );
    let mut ui = UI::new(leaf(Element::Empty), AvailableSize { width: None, height: None });
    assert!(ui.layout(&vec![layout(10, 20, 30, 40)]));
    let texture = AssetHandle { id: 77 };
    assert_eq!(
        ui.generate_render_info(Point { x: 0, y: 0 }, Some(texture)),
        MultiRenderable::Adjacent(vec![
            MultiRenderable::Nothing,
            MultiRenderable::Image { texture, renderables: lines },
        ])
    );
}
