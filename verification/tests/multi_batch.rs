use qs_client::assets::AssetHandle;
use qs_client::batch::{Batch, Position, Ratio, Renderable, TexCoords, Vertex};
use qs_client::colour::Colour;
use qs_client::geometry::Point;
use qs_client::multi_batch::{
    BatchRenderTexture, DrawCommand, MultiBatch, MultiBatchRenderState, MultiRenderable,
    PlacedWord,
};
use qs_client::text::RenderableWord;
use qs_client::text_renderer::TextRenderer;
use qs_client::texture::TextureRegion;

fn shape(n: i64) -> Renderable {
    let v = Vertex {
        position: Position { x: n, y: 0, z: 0 },
        color: Colour::white(),
        tex_coords: TexCoords { u: Ratio { num: 0, den: 1 }, v: Ratio { num: 0, den: 1 } },
    };
    Renderable::Triangle(v, v, v)
}

fn image(texture: u64, shapes: Vec<i64>) -> MultiRenderable {
    MultiRenderable::Image {
        texture: AssetHandle { id: texture },
        renderables: shapes.into_iter().map(shape).collect(),
    }
}

fn region(texture: u64, shapes: Vec<i64>) -> MultiRenderable {
    MultiRenderable::ImageRegion {
        texture: TextureRegion::new(AssetHandle { id: texture }),
        renderables: shapes.into_iter().map(shape).collect(),
    }
}

fn word(width: u32) -> RenderableWord {
    RenderableWord { glyphs: Vec::new(), size: (width, 10), baseline: 8 }
}

fn text(width: u32) -> MultiRenderable {
    MultiRenderable::Text { word: word(width), offset: Point { x: width as i32, y: 0 } }
}

fn placed(width: u32) -> PlacedWord {
    PlacedWord { offset: Point { x: width as i32, y: 0 }, word: word(width) }
}

fn shapes(texture: BatchRenderTexture, shapes: Vec<i64>) -> DrawCommand {
    DrawCommand::Shapes { texture, renderables: shapes.into_iter().map(shape).collect() }
}

fn plain(id: u64) -> BatchRenderTexture {
    BatchRenderTexture::Texture(AssetHandle { id })
}

fn packed(id: u64) -> BatchRenderTexture {
    BatchRenderTexture::PartitionedTexture(AssetHandle { id })
}

fn render(tree: MultiRenderable) -> Vec<DrawCommand> {
    let mut multi = MultiBatch::new(Batch::new(), TextRenderer::new(1024, 1024));
    multi.render(tree)
}

#[test]
fn textures_are_compatible_when_equal_or_unconstrained() {
    assert!(BatchRenderTexture::Nothing.compatible_with(plain(1)));
    assert!(plain(1).compatible_with(BatchRenderTexture::Nothing));
    assert!(BatchRenderTexture::Nothing.compatible_with(BatchRenderTexture::Nothing));
    assert!(plain(1).compatible_with(plain(1)));
    assert!(!plain(1).compatible_with(plain(2)));
    assert!(!plain(1).compatible_with(packed(1)));
    assert!(packed(3).compatible_with(packed(3)));
}

#[test]
fn nothing_draws_nothing() {
    assert_eq!(render(MultiRenderable::Nothing), Vec::new());
    assert_eq!(render(MultiRenderable::Layered(Vec::new())), Vec::new());
    assert_eq!(render(MultiRenderable::Adjacent(vec![MultiRenderable::Nothing])), Vec::new());
}

#[test]
fn adjacent_shapes_of_one_texture_share_a_command() {
    let tree = MultiRenderable::Adjacent(vec![image(1, vec![1, 2]), image(1, vec![3])]);
    assert_eq!(render(tree), vec![shapes(plain(1), vec![1, 2, 3])]);
}

#[test]
fn a_change_of_texture_forces_a_flush() {
    let tree = MultiRenderable::Adjacent(vec![
        image(1, vec![1]),
        image(2, vec![2]),
        image(2, vec![3]),
        image(1, vec![4]),
    ]);
    assert_eq!(
        render(tree),
        vec![shapes(plain(1), vec![1]), shapes(plain(2), vec![2, 3]), shapes(plain(1), vec![4])]
    );
}

#[test]
fn a_region_draws_with_the_texture_it_is_packed_in() {
    let tree = MultiRenderable::Adjacent(vec![
        region(7, vec![1]),
        region(7, vec![2]),
        image(7, vec![3]),
    ]);
    assert_eq!(
        render(tree),
        vec![shapes(packed(7), vec![1, 2]), shapes(plain(7), vec![3])]
    );
}

#[test]
fn layers_flush_between_each_other() {
    let tree = MultiRenderable::Layered(vec![image(1, vec![1]), image(1, vec![2])]);
    assert_eq!(
        render(tree),
        vec![shapes(plain(1), vec![1]), shapes(plain(1), vec![2])]
    );
}

#[test]
fn a_single_layer_joins_its_siblings() {
    let tree = MultiRenderable::Adjacent(vec![
        image(1, vec![1]),
        MultiRenderable::Layered(vec![image(1, vec![2])]),
        image(1, vec![3]),
    ]);
    assert_eq!(render(tree), vec![shapes(plain(1), vec![1, 2, 3])]);
}

#[test]
fn first_layer_is_drawn_before_the_second() {
    let first = MultiRenderable::Adjacent(vec![image(1, vec![1]), text(5), image(2, vec![2])]);
    let second = MultiRenderable::Adjacent(vec![text(6), image(1, vec![3])]);
    let commands = render(MultiRenderable::Layered(vec![first, second]));
    assert_eq!(
        commands,
        vec![
            DrawCommand::Text(vec![placed(5)]),
            shapes(plain(1), vec![1]),
            shapes(plain(2), vec![2]),
            DrawCommand::Text(vec![placed(6)]),
            shapes(plain(1), vec![3]),
        ]
    );
    let alone = render(MultiRenderable::Adjacent(vec![
        image(1, vec![1]),
        text(5),
        image(2, vec![2]),
    ]));
    assert_eq!(&commands[..alone.len()], &alone[..]);
}

#[test]
fn text_is_gathered_apart_from_shapes() {
    let tree = MultiRenderable::Adjacent(vec![text(1), image(1, vec![1]), text(2)]);
    assert_eq!(
        render(tree),
        vec![DrawCommand::Text(vec![placed(1), placed(2)]), shapes(plain(1), vec![1])]
    );
}

#[test]
fn a_flush_hands_out_text_and_shapes_together() {
    let tree = MultiRenderable::Adjacent(vec![
        text(1),
        image(1, vec![1]),
        image(2, vec![2]),
        text(2),
    ]);
    assert_eq!(
        render(tree),
        vec![
            DrawCommand::Text(vec![placed(1)]),
            shapes(plain(1), vec![1]),
            DrawCommand::Text(vec![placed(2)]),
            shapes(plain(2), vec![2]),
        ]
    );
}

#[test]
fn draw_commands_stay_within_the_bound() {
    // Three changes of texture and two layer boundaries: at most six commands of each kind.
    let tree = MultiRenderable::Layered(vec![
        MultiRenderable::Adjacent(vec![image(1, vec![1]), image(2, vec![2]), text(1)]),
        MultiRenderable::Adjacent(vec![image(2, vec![3]), image(3, vec![4]), text(2)]),
        MultiRenderable::Adjacent(vec![image(3, vec![5]), image(1, vec![6]), text(3)]),
    ]);
    let commands = render(tree);
    let shape_commands =
        commands.iter().filter(|c| matches!(c, DrawCommand::Shapes { .. })).count();
    let text_commands = commands.iter().filter(|c| matches!(c, DrawCommand::Text(_))).count();
    assert_eq!(shape_commands, 6);
    assert_eq!(text_commands, 3);
    assert!(shape_commands <= 3 + 2 + 1);
    assert!(text_commands <= 3 + 2 + 1);
}

#[test]
fn shapes_without_content_commit_their_texture() {
    let tree = MultiRenderable::Adjacent(vec![image(1, Vec::new()), text(1), image(2, vec![1])]);
    assert_eq!(
        render(tree),
        vec![DrawCommand::Text(vec![placed(1)]), shapes(plain(2), vec![1])]
    );
}

#[test]
fn render_state_walks_step_by_step() {
    let mut state = MultiBatchRenderState::new();
    state.incremental_render(&image(1, vec![1]));
    state.incremental_render(&text(4));
    assert!(state.commands.is_empty());
    assert_eq!(state.batch_render_texture, plain(1));
    assert_eq!(state.batch_render_data, vec![shape(1)]);
    assert_eq!(state.text_render_data, vec![placed(4)]);
    state.perform_render();
    assert_eq!(state.commands, vec![DrawCommand::Text(vec![placed(4)]), shapes(plain(1), vec![1])]);
    assert_eq!(state.batch_render_texture, BatchRenderTexture::Nothing);
    assert!(state.batch_render_data.is_empty());
    assert!(state.text_render_data.is_empty());
    state.perform_render();
    assert_eq!(state.commands.len(), 2);
}
