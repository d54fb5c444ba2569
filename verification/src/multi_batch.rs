//! Groups a tree of drawable content into as few draw commands as its order allows.
//!
//! Content arrives as a [`MultiRenderable`] tree. The walk gathers text and
//! shapes and hands them out as [`DrawCommand`]s: whenever a new layer begins,
//! whenever a shape needs a texture that the gathered shapes cannot share, and
//! once at the end.

use vstd::prelude::*;
use crate::assets::AssetHandle;
use crate::batch::{Batch, Renderable};
use crate::geometry::Point;
use crate::text::{RenderableWord, RenderableWordView};
use crate::text_renderer::TextRenderer;
use crate::texture::TextureRegion;

verus! {

/// The texture that the gathered shapes are drawn with.
#[derive(Debug, Copy, Clone, PartialEq, Eq, Structural)]
pub enum BatchRenderTexture {
    /// No texture is committed: any texture may come next.
    Nothing,
    Texture(AssetHandle),
    PartitionedTexture(AssetHandle),
}

impl BatchRenderTexture {
    /// Two textures can share a draw call if they are the same or one of them is [`BatchRenderTexture::Nothing`].
    pub open spec fn spec_compatible_with(self, other: BatchRenderTexture) -> bool {
        self == BatchRenderTexture::Nothing || other == BatchRenderTexture::Nothing || self
            == other
    }

    /// Whether shapes of `other` can be drawn together with shapes of this
    /// texture, without a flush between them.
    pub fn compatible_with(&self, other: BatchRenderTexture) -> (compatible: bool)
        ensures
            compatible == self.spec_compatible_with(other),
    {
        if *self == BatchRenderTexture::Nothing || other == BatchRenderTexture::Nothing {
            true
        } else {
            *self == other
        }
    }
}

/// A description of what to draw, before any grouping.
#[derive(Debug, PartialEq, Eq)]
#[allow(inconsistent_fields)]
pub enum MultiRenderable {
    /// Render nothing.
    Nothing,
    /// Layers, drawn in order: each is drawn completely before the next begins.
    /// An empty list draws nothing.
    Layered(Vec<MultiRenderable>),
    /// Items drawn alongside each other, with no promise on their order.
    Adjacent(Vec<MultiRenderable>),
    /// One word of text, placed at `offset`.
    Text { word: RenderableWord, offset: Point },
    /// Shapes drawn with one texture.
    Image { texture: AssetHandle, renderables: Vec<Renderable> },
    /// Shapes drawn with a packed texture. Their texture coordinates are in
    /// terms of the whole texture, not of the region.
    ImageRegion { texture: TextureRegion, renderables: Vec<Renderable> },
}

/// A [`MultiRenderable`] as a mathematical value.
#[allow(inconsistent_fields)]
pub enum RenderTree {
    Nothing,
    Layered(Seq<RenderTree>),
    Adjacent(Seq<RenderTree>),
    Text { word: RenderableWordView, offset: Point },
    Image { texture: AssetHandle, renderables: Seq<Renderable> },
    ImageRegion { texture: TextureRegion, renderables: Seq<Renderable> },
}

/// The mathematical value of a tree of content.
pub open spec fn tree_of(renderable: MultiRenderable) -> RenderTree
    decreases renderable,
{
    match renderable {
        MultiRenderable::Nothing => RenderTree::Nothing,
        MultiRenderable::Layered(layers) => RenderTree::Layered(
            Seq::new(
                layers.len() as nat,
                |i: int|
                    if 0 <= i < layers.len() {
                        tree_of(layers[i])
                    } else {
                        RenderTree::Nothing
                    },
            ),
        ),
        MultiRenderable::Adjacent(items) => RenderTree::Adjacent(
            Seq::new(
                items.len() as nat,
                |i: int|
                    if 0 <= i < items.len() {
                        tree_of(items[i])
                    } else {
                        RenderTree::Nothing
                    },
            ),
        ),
        MultiRenderable::Text { word, offset } => RenderTree::Text { word: word@, offset },
        MultiRenderable::Image { texture, renderables } => RenderTree::Image {
            texture,
            renderables: renderables@,
        },
        MultiRenderable::ImageRegion { texture, renderables } => RenderTree::ImageRegion {
            texture,
            renderables: renderables@,
        },
    }
}

impl View for MultiRenderable {
    type V = RenderTree;

    open spec fn view(&self) -> RenderTree {
        tree_of(*self)
    }
}

/// A word and the place at which it is drawn.
#[derive(Debug, PartialEq, Eq)]
pub struct PlacedWord {
    pub offset: Point,
    pub word: RenderableWord,
}

/// A placed word as a mathematical value.
pub struct PlacedWordView {
    pub offset: Point,
    pub word: RenderableWordView,
}

impl View for PlacedWord {
    type V = PlacedWordView;

    open spec fn view(&self) -> PlacedWordView {
        PlacedWordView { offset: self.offset, word: self.word@ }
    }
}

/// The views of a list of placed words.
pub open spec fn word_views(words: Seq<PlacedWord>) -> Seq<PlacedWordView> {
    words.map_values(|w: PlacedWord| w@)
}

/// One group of content that is drawn together.
#[derive(Debug, PartialEq, Eq)]
pub enum DrawCommand {
    /// Words for the text renderer.
    Text(Vec<PlacedWord>),
    /// Shapes for the vertex batch, all drawn with `texture`.
    Shapes { texture: BatchRenderTexture, renderables: Vec<Renderable> },
}

/// A draw command as a mathematical value.
pub enum DrawCommandView {
    Text(Seq<PlacedWordView>),
    Shapes { texture: BatchRenderTexture, renderables: Seq<Renderable> },
}

impl View for DrawCommand {
    type V = DrawCommandView;

    open spec fn view(&self) -> DrawCommandView {
        match self {
            DrawCommand::Text(words) => DrawCommandView::Text(word_views(words@)),
            DrawCommand::Shapes { texture, renderables } => DrawCommandView::Shapes {
                texture: *texture,
                renderables: renderables@,
            },
        }
    }
}

/// The views of a list of draw commands.
pub open spec fn command_views(commands: Seq<DrawCommand>) -> Seq<DrawCommandView> {
    commands.map_values(|c: DrawCommand| c@)
}

/// What a walk has gathered and handed out so far.
pub struct RenderState {
    /// Words gathered since the last flush.
    pub text: Seq<PlacedWordView>,
    /// Shapes gathered since the last flush.
    pub shapes: Seq<Renderable>,
    /// The texture committed for the gathered shapes.
    pub texture: BatchRenderTexture,
    /// The commands handed out so far, in order.
    pub commands: Seq<DrawCommandView>,
}

impl RenderState {
    /// The state before anything was walked.
    pub open spec fn initial() -> RenderState {
        RenderState {
            text: seq![],
            shapes: seq![],
            texture: BatchRenderTexture::Nothing,
            commands: seq![],
        }
    }

    /// Gathered shapes always have a committed texture.
    pub open spec fn well_formed(self) -> bool {
        self.shapes.len() > 0 ==> self.texture != BatchRenderTexture::Nothing
    }

    /// The state after a flush: gathered text becomes one command, then
    /// gathered shapes become one command and the committed texture is
    /// given up. What is empty gives no command; with no shapes gathered the
    /// committed texture stays.
    pub open spec fn flushed(self) -> RenderState {
        let with_text = if self.text.len() > 0 {
            self.commands.push(DrawCommandView::Text(self.text))
        } else {
            self.commands
        };
        if self.shapes.len() > 0 {
            RenderState {
                text: seq![],
                shapes: seq![],
                texture: BatchRenderTexture::Nothing,
                commands: with_text.push(
                    DrawCommandView::Shapes { texture: self.texture, renderables: self.shapes },
                ),
            }
        } else {
            RenderState { text: seq![], shapes: seq![], texture: self.texture, commands: with_text }
        }
    }

    /// The state after shapes with `texture` arrived: a flush first if the
    /// committed texture cannot be shared, then the texture is committed and
    /// the shapes are gathered.
    pub open spec fn with_shapes(
        self,
        texture: BatchRenderTexture,
        renderables: Seq<Renderable>,
    ) -> RenderState {
        let start = if self.texture.spec_compatible_with(texture) {
            self
        } else {
            self.flushed()
        };
        RenderState {
            text: start.text,
            shapes: start.shapes + renderables,
            texture,
            commands: start.commands,
        }
    }

    /// The state after `tree` was walked.
    pub open spec fn walked(self, tree: RenderTree) -> RenderState
        decreases tree, 0nat,
    {
        match tree {
            RenderTree::Nothing => self,
            RenderTree::Layered(layers) => self.walked_first(layers, true, layers.len()),
            RenderTree::Adjacent(items) => self.walked_first(items, false, items.len()),
            RenderTree::Text { word, offset } => RenderState {
                text: self.text.push(PlacedWordView { offset, word }),
                shapes: self.shapes,
                texture: self.texture,
                commands: self.commands,
            },
            RenderTree::Image { texture, renderables } => self.with_shapes(
                BatchRenderTexture::Texture(texture),
                renderables,
            ),
            RenderTree::ImageRegion { texture, renderables } => self.with_shapes(
                BatchRenderTexture::PartitionedTexture(texture.partitioned_texture),
                renderables,
            ),
        }
    }

    /// The state after the first `count` of `items` were walked in order.
    /// Between layers there is a flush; between adjacent items there is none.
    pub open spec fn walked_first(self, items: Seq<RenderTree>, layered: bool, count: nat) -> RenderState
        decreases items, count,
    {
        if count == 0 || count > items.len() {
            self
        } else {
            let before = self.walked_first(items, layered, (count - 1) as nat);
            let start = if layered && count > 1 {
                before.flushed()
            } else {
                before
            };
            start.walked(items[count - 1])
        }
    }
}

/// The commands that drawing `tree` hands out, in order.
pub open spec fn commands_of(tree: RenderTree) -> Seq<DrawCommandView> {
    RenderState::initial().walked(tree).flushed().commands
}

/// The state of a walk over a tree of content.
pub struct MultiBatchRenderState {
    pub text_render_data: Vec<PlacedWord>,
    pub batch_render_data: Vec<Renderable>,
    pub batch_render_texture: BatchRenderTexture,
    /// The commands handed out so far.
    pub commands: Vec<DrawCommand>,
}

impl View for MultiBatchRenderState {
    type V = RenderState;

    open spec fn view(&self) -> RenderState {
        RenderState {
            text: word_views(self.text_render_data@),
            shapes: self.batch_render_data@,
            texture: self.batch_render_texture,
            commands: command_views(self.commands@),
        }
    }
}

impl MultiBatchRenderState {
    /// The state before anything was walked.
    pub fn new() -> (state: MultiBatchRenderState)
        ensures
            state@ == RenderState::initial(),
    {
        let state = MultiBatchRenderState {
            text_render_data: Vec::new(),
            batch_render_data: Vec::new(),
            batch_render_texture: BatchRenderTexture::Nothing,
            commands: Vec::new(),
        };
        assert(state@.text =~= RenderState::initial().text);
        assert(state@.commands =~= RenderState::initial().commands);
        state
    }

    /// Hands out what was gathered: the text as one command, then the shapes
    /// as one command. Nothing is handed out for what is empty.
    pub fn perform_render(&mut self)
        ensures
            final(self)@ == old(self)@.flushed(),
    {
        if self.text_render_data.len() > 0 {
            let mut words: Vec<PlacedWord> = Vec::new();
            std::mem::swap(&mut self.text_render_data, &mut words);
            let ghost before = self.commands@;
            let command = DrawCommand::Text(words);
            self.commands.push(command);
            assert(command_views(self.commands@) =~= command_views(before).push(command@));
        }
        assert(word_views(self.text_render_data@) =~= Seq::<PlacedWordView>::empty());
        if self.batch_render_data.len() > 0 {
            let mut renderables: Vec<Renderable> = Vec::new();
            std::mem::swap(&mut self.batch_render_data, &mut renderables);
            let ghost before = self.commands@;
            let command = DrawCommand::Shapes { texture: self.batch_render_texture, renderables };
            self.commands.push(command);
            self.batch_render_texture = BatchRenderTexture::Nothing;
            assert(command_views(self.commands@) =~= command_views(before).push(command@));
        }
        assert(self@.shapes =~= Seq::<Renderable>::empty());
    }

    /// Gathers shapes that are drawn with `texture`, after a flush where the
    /// committed texture cannot be shared.
    fn gather_shapes(&mut self, texture: BatchRenderTexture, renderables: &Vec<Renderable>)
        ensures
            final(self)@ == old(self)@.with_shapes(texture, renderables@),
    {
        if !self.batch_render_texture.compatible_with(texture) {
            self.perform_render();
        }
        self.batch_render_texture = texture;
        let ghost start = self.batch_render_data@;
        let mut i: usize = 0;
        while i < renderables.len()
            invariant
                i <= renderables.len(),
                self.batch_render_data@ == start + renderables@.take(i as int),
                self.text_render_data == old(self).text_render_data || self@.text == old(
                    self,
                )@.flushed().text,
                self.batch_render_texture == texture,
                self@.text == (if old(self)@.texture.spec_compatible_with(texture) {
                    old(self)@
                } else {
                    old(self)@.flushed()
                }).text,
                self@.commands == (if old(self)@.texture.spec_compatible_with(texture) {
                    old(self)@
                } else {
                    old(self)@.flushed()
                }).commands,
            decreases renderables.len() - i,
        {
            self.batch_render_data.push(renderables[i]);
            assert(renderables@.take(i as int + 1) =~= renderables@.take(i as int).push(
                renderables@[i as int],
            ));
            i += 1;
        }
        assert(renderables@.take(i as int) =~= renderables@);
    }

    /// Walks `renderable`, gathering its content and flushing where the order
    /// of layers or a change of texture asks for it.
    pub fn incremental_render(&mut self, renderable: &MultiRenderable)
        ensures
            final(self)@ == old(self)@.walked(renderable@),
        decreases renderable,
    {
        match renderable {
            MultiRenderable::Nothing => {},
            MultiRenderable::Layered(layers) => {
                let ghost views = renderable@->Layered_0;
                let mut index: usize = 0;
                while index < layers.len()
                    invariant
                        index <= layers.len(),
                        views.len() == layers.len(),
                        forall|k: int| 0 <= k < layers.len() ==> views[k] == layers[k]@,
                        self@ == old(self)@.walked_first(views, true, index as nat),
                        renderable == MultiRenderable::Layered(*layers),
                    decreases layers.len() - index,
                {
                    if index != 0 {
                        self.perform_render();
                    }
                    proof {
                        vstd::std_specs::vec::axiom_vec_index_decreases(*layers, index as int);
                        assert(renderable->Layered_0 == *layers);
                    }
                    self.incremental_render(&layers[index]);
                    index += 1;
                }
            },
            MultiRenderable::Adjacent(items) => {
                let ghost views = renderable@->Adjacent_0;
                let mut index: usize = 0;
                while index < items.len()
                    invariant
                        index <= items.len(),
                        views.len() == items.len(),
                        forall|k: int| 0 <= k < items.len() ==> views[k] == items[k]@,
                        self@ == old(self)@.walked_first(views, false, index as nat),
                        renderable == MultiRenderable::Adjacent(*items),
                    decreases items.len() - index,
                {
                    proof {
                        vstd::std_specs::vec::axiom_vec_index_decreases(*items, index as int);
                        assert(renderable->Adjacent_0 == *items);
                    }
                    self.incremental_render(&items[index]);
                    index += 1;
                }
            },
            MultiRenderable::Text { word, offset } => {
                let ghost before = self.text_render_data@;
                let placed = PlacedWord { offset: *offset, word: word.clone() };
                self.text_render_data.push(placed);
                assert(word_views(self.text_render_data@) =~= word_views(before).push(placed@));
            },
            MultiRenderable::Image { texture, renderables } => {
                self.gather_shapes(BatchRenderTexture::Texture(*texture), renderables);
            },
            MultiRenderable::ImageRegion { texture, renderables } => {
                self.gather_shapes(
                    BatchRenderTexture::PartitionedTexture(texture.partitioned_texture),
                    renderables,
                );
            },
        }
    }
}

/// Draws layers of content with as few draw commands as their order allows.
pub struct MultiBatch {
    pub batch: Batch,
    pub text_renderer: TextRenderer,
}

impl MultiBatch {
    pub fn new(batch: Batch, text_renderer: TextRenderer) -> (multi: MultiBatch)
        ensures
            multi.batch == batch,
            multi.text_renderer == text_renderer,
    {
        MultiBatch { batch, text_renderer }
    }

    /// Groups the content of `renderable` into draw commands, to be carried
    /// out in the order of the list. A `Text` command goes to the text
    /// renderer; a `Shapes` command goes to the vertex batch with its texture,
    /// and is dropped for this frame if that texture is not loaded yet.
    pub fn render(&mut self, renderable: MultiRenderable) -> (commands: Vec<DrawCommand>)
        ensures
            command_views(commands@) == commands_of(renderable@),
            final(self).batch == old(self).batch,
            final(self).text_renderer == old(self).text_renderer,
    {
        let mut state = MultiBatchRenderState::new();
        state.incremental_render(&renderable);
        state.perform_render();
        state.commands
    }
}

/// One step of a walk: what a tree comes to once its nesting is forgotten.
pub enum RenderEvent {
    /// The line between one layer and the next.
    LayerBoundary,
    /// A word arrives.
    Word(PlacedWordView),
    /// Shapes arrive that are drawn with `texture`.
    Shapes { texture: BatchRenderTexture, renderables: Seq<Renderable> },
}

/// The steps of walking `tree`, in order.
pub open spec fn events_of(tree: RenderTree) -> Seq<RenderEvent>
    decreases tree, 0nat,
{
    match tree {
        RenderTree::Nothing => seq![],
        RenderTree::Layered(layers) => events_of_first(layers, true, layers.len()),
        RenderTree::Adjacent(items) => events_of_first(items, false, items.len()),
        RenderTree::Text { word, offset } => seq![RenderEvent::Word(PlacedWordView { offset, word })],
        RenderTree::Image { texture, renderables } => seq![
            RenderEvent::Shapes { texture: BatchRenderTexture::Texture(texture), renderables },
        ],
        RenderTree::ImageRegion { texture, renderables } => seq![
            RenderEvent::Shapes {
                texture: BatchRenderTexture::PartitionedTexture(texture.partitioned_texture),
                renderables,
            },
        ],
    }
}

/// The steps of walking the first `count` of `items`, in order.
pub open spec fn events_of_first(items: Seq<RenderTree>, layered: bool, count: nat) -> Seq<
    RenderEvent,
>
    decreases items, count,
{
    if count == 0 || count > items.len() {
        seq![]
    } else {
        let before = events_of_first(items, layered, (count - 1) as nat);
        let start = if layered && count > 1 {
            before.push(RenderEvent::LayerBoundary)
        } else {
            before
        };
        start + events_of(items[count - 1])
    }
}

impl RenderState {
    /// The state after one step.
    pub open spec fn stepped(self, event: RenderEvent) -> RenderState {
        match event {
            RenderEvent::LayerBoundary => self.flushed(),
            RenderEvent::Word(word) => RenderState {
                text: self.text.push(word),
                shapes: self.shapes,
                texture: self.texture,
                commands: self.commands,
            },
            RenderEvent::Shapes { texture, renderables } => self.with_shapes(texture, renderables),
        }
    }

    /// The state after all of `events`, in order.
    pub open spec fn ran(self, events: Seq<RenderEvent>) -> RenderState
        decreases events.len(),
    {
        if events.len() == 0 {
            self
        } else {
            self.ran(events.drop_last()).stepped(events.last())
        }
    }

    /// This state with no command handed out yet.
    pub open spec fn without_commands(self) -> RenderState {
        RenderState { text: self.text, shapes: self.shapes, texture: self.texture, commands: seq![] }
    }
}

/// How many layer boundaries `events` hold.
pub open spec fn layer_boundaries(events: Seq<RenderEvent>) -> nat
    decreases events.len(),
{
    if events.len() == 0 {
        0
    } else {
        layer_boundaries(events.drop_last()) + if events.last() is LayerBoundary {
            1nat
        } else {
            0nat
        }
    }
}

/// The texture of the last shapes of `events`, or `prev` if there are none.
pub open spec fn last_texture(prev: BatchRenderTexture, events: Seq<RenderEvent>) -> BatchRenderTexture
    decreases events.len(),
{
    if events.len() == 0 {
        prev
    } else {
        match events.last() {
            RenderEvent::Shapes { texture, .. } => texture,
            _ => last_texture(prev, events.drop_last()),
        }
    }
}

/// How often the shapes of `events` change to a texture that their
/// predecessor cannot share. `prev` is the texture of the shapes before the
/// first, or [`BatchRenderTexture::Nothing`] if there were none.
pub open spec fn texture_transitions(prev: BatchRenderTexture, events: Seq<RenderEvent>) -> nat
    decreases events.len(),
{
    if events.len() == 0 {
        0
    } else {
        texture_transitions(prev, events.drop_last()) + match events.last() {
            RenderEvent::Shapes { texture, .. } => if last_texture(
                prev,
                events.drop_last(),
            ).spec_compatible_with(texture) {
                0nat
            } else {
                1nat
            },
            _ => 0nat,
        }
    }
}

/// All shapes of `events`, in order.
pub open spec fn event_shapes(events: Seq<RenderEvent>) -> Seq<Renderable>
    decreases events.len(),
{
    if events.len() == 0 {
        seq![]
    } else {
        event_shapes(events.drop_last()) + match events.last() {
            RenderEvent::Shapes { renderables, .. } => renderables,
            _ => seq![],
        }
    }
}

/// All words of `events`, in order.
pub open spec fn event_words(events: Seq<RenderEvent>) -> Seq<PlacedWordView>
    decreases events.len(),
{
    if events.len() == 0 {
        seq![]
    } else {
        event_words(events.drop_last()) + match events.last() {
            RenderEvent::Word(word) => seq![word],
            _ => seq![],
        }
    }
}

/// All shapes that `commands` draw, in order.
pub open spec fn drawn_shapes(commands: Seq<DrawCommandView>) -> Seq<Renderable>
    decreases commands.len(),
{
    if commands.len() == 0 {
        seq![]
    } else {
        drawn_shapes(commands.drop_last()) + match commands.last() {
            DrawCommandView::Shapes { renderables, .. } => renderables,
            _ => seq![],
        }
    }
}

/// All words that `commands` draw, in order.
pub open spec fn drawn_words(commands: Seq<DrawCommandView>) -> Seq<PlacedWordView>
    decreases commands.len(),
{
    if commands.len() == 0 {
        seq![]
    } else {
        drawn_words(commands.drop_last()) + match commands.last() {
            DrawCommandView::Text(words) => words,
            _ => seq![],
        }
    }
}

/// How many of `commands` draw shapes.
pub open spec fn shape_commands(commands: Seq<DrawCommandView>) -> nat
    decreases commands.len(),
{
    if commands.len() == 0 {
        0
    } else {
        shape_commands(commands.drop_last()) + if commands.last() is Shapes {
            1nat
        } else {
            0nat
        }
    }
}

/// How many of `commands` draw text.
pub open spec fn text_commands(commands: Seq<DrawCommandView>) -> nat
    decreases commands.len(),
{
    if commands.len() == 0 {
        0
    } else {
        text_commands(commands.drop_last()) + if commands.last() is Text {
            1nat
        } else {
            0nat
        }
    }
}

/// All shapes of `tree`, in the order of the walk.
pub open spec fn shapes_of(tree: RenderTree) -> Seq<Renderable> {
    event_shapes(events_of(tree))
}

/// All words of `tree`, in the order of the walk.
pub open spec fn words_of(tree: RenderTree) -> Seq<PlacedWordView> {
    event_words(events_of(tree))
}

proof fn lemma_ran_concat(s: RenderState, a: Seq<RenderEvent>, b: Seq<RenderEvent>)
    ensures
        s.ran(a + b) == s.ran(a).ran(b),
    decreases b.len(),
{
    if b.len() == 0 {
        assert(a + b =~= a);
    } else {
        lemma_ran_concat(s, a, b.drop_last());
        assert((a + b).drop_last() =~= a + b.drop_last());
        assert((a + b).last() == b.last());
    }
}

proof fn lemma_ran_one(s: RenderState, e: RenderEvent)
    ensures
        s.ran(seq![e]) == s.stepped(e),
{
    assert(seq![e].drop_last() =~= Seq::<RenderEvent>::empty());
    assert(s.ran(seq![e].drop_last()) == s);
    assert(seq![e].last() == e);
}

proof fn lemma_walk_is_run(s: RenderState, tree: RenderTree)
    ensures
        s.walked(tree) == s.ran(events_of(tree)),
    decreases tree, 0nat,
{
    match tree {
        RenderTree::Nothing => {},
        RenderTree::Layered(layers) => {
            lemma_walk_first_is_run(s, layers, true, layers.len());
        },
        RenderTree::Adjacent(items) => {
            lemma_walk_first_is_run(s, items, false, items.len());
        },
        RenderTree::Text { word, offset } => {
            lemma_ran_one(s, RenderEvent::Word(PlacedWordView { offset, word }));
        },
        RenderTree::Image { texture, renderables } => {
            lemma_ran_one(
                s,
                RenderEvent::Shapes { texture: BatchRenderTexture::Texture(texture), renderables },
            );
        },
        RenderTree::ImageRegion { texture, renderables } => {
            lemma_ran_one(
                s,
                RenderEvent::Shapes {
                    texture: BatchRenderTexture::PartitionedTexture(texture.partitioned_texture),
                    renderables,
                },
            );
        },
    }
}

proof fn lemma_walk_first_is_run(s: RenderState, items: Seq<RenderTree>, layered: bool, count: nat)
    ensures
        s.walked_first(items, layered, count) == s.ran(events_of_first(items, layered, count)),
    decreases items, count,
{
    if count == 0 || count > items.len() {
    } else {
        let before_events = events_of_first(items, layered, (count - 1) as nat);
        lemma_walk_first_is_run(s, items, layered, (count - 1) as nat);
        let before = s.walked_first(items, layered, (count - 1) as nat);
        let start = if layered && count > 1 {
            before.flushed()
        } else {
            before
        };
        let start_events = if layered && count > 1 {
            before_events.push(RenderEvent::LayerBoundary)
        } else {
            before_events
        };
        if layered && count > 1 {
            assert(start_events.drop_last() =~= before_events);
        }
        assert(start == s.ran(start_events));
        lemma_walk_is_run(start, items[count - 1]);
        lemma_ran_concat(s, start_events, events_of(items[count - 1]));
    }
}

proof fn lemma_drawn_push(commands: Seq<DrawCommandView>, c: DrawCommandView)
    ensures
        drawn_shapes(commands.push(c)) == drawn_shapes(commands) + match c {
            DrawCommandView::Shapes { renderables, .. } => renderables,
            _ => seq![],
        },
        drawn_words(commands.push(c)) == drawn_words(commands) + match c {
            DrawCommandView::Text(words) => words,
            _ => seq![],
        },
        shape_commands(commands.push(c)) == shape_commands(commands) + if c is Shapes {
            1nat
        } else {
            0nat
        },
        text_commands(commands.push(c)) == text_commands(commands) + if c is Text {
            1nat
        } else {
            0nat
        },
{
    assert(commands.push(c).drop_last() =~= commands);
}

proof fn lemma_flushed_content(s: RenderState)
    ensures
        drawn_shapes(s.flushed().commands) + s.flushed().shapes == drawn_shapes(s.commands)
            + s.shapes,
        drawn_words(s.flushed().commands) + s.flushed().text == drawn_words(s.commands) + s.text,
        s.flushed().shapes.len() == 0,
        s.flushed().text.len() == 0,
        shape_commands(s.flushed().commands) <= shape_commands(s.commands) + 1,
        text_commands(s.flushed().commands) <= text_commands(s.commands) + 1,
        s.flushed().texture == s.texture || s.flushed().texture == BatchRenderTexture::Nothing,
        s.well_formed() ==> s.flushed().well_formed(),
{
    let with_text = if s.text.len() > 0 {
        s.commands.push(DrawCommandView::Text(s.text))
    } else {
        s.commands
    };
    if s.text.len() > 0 {
        lemma_drawn_push(s.commands, DrawCommandView::Text(s.text));
    }
    if s.shapes.len() > 0 {
        lemma_drawn_push(
            with_text,
            DrawCommandView::Shapes { texture: s.texture, renderables: s.shapes },
        );
    }
    assert(drawn_shapes(s.flushed().commands) + s.flushed().shapes =~= drawn_shapes(s.commands)
        + s.shapes);
    assert(drawn_words(s.flushed().commands) + s.flushed().text =~= drawn_words(s.commands)
        + s.text);
}

proof fn lemma_step_content(s: RenderState, e: RenderEvent)
    ensures
        drawn_shapes(s.stepped(e).commands) + s.stepped(e).shapes == drawn_shapes(s.commands)
            + s.shapes + match e {
            RenderEvent::Shapes { renderables, .. } => renderables,
            _ => seq![],
        },
        drawn_words(s.stepped(e).commands) + s.stepped(e).text == drawn_words(s.commands) + s.text
            + match e {
            RenderEvent::Word(word) => seq![word],
            _ => seq![],
        },
{
    lemma_flushed_content(s);
    match e {
        RenderEvent::LayerBoundary => {
            assert(drawn_shapes(s.commands) + s.shapes + Seq::<Renderable>::empty()
                =~= drawn_shapes(s.commands) + s.shapes);
            assert(drawn_words(s.commands) + s.text + Seq::<PlacedWordView>::empty()
                =~= drawn_words(s.commands) + s.text);
        },
        RenderEvent::Word(word) => {
            assert(drawn_shapes(s.commands) + s.shapes + Seq::<Renderable>::empty()
                =~= drawn_shapes(s.commands) + s.shapes);
            assert(drawn_words(s.commands) + s.text.push(word) =~= drawn_words(s.commands) + s.text
                + seq![word]);
        },
        RenderEvent::Shapes { texture, renderables } => {
            let start = if s.texture.spec_compatible_with(texture) {
                s
            } else {
                s.flushed()
            };
            assert(drawn_shapes(start.commands) + (start.shapes + renderables) =~= drawn_shapes(
                start.commands,
            ) + start.shapes + renderables);
            assert(drawn_words(s.commands) + s.text + Seq::<PlacedWordView>::empty()
                =~= drawn_words(s.commands) + s.text);
        },
    }
}

proof fn lemma_run_content(s: RenderState, events: Seq<RenderEvent>)
    ensures
        drawn_shapes(s.ran(events).commands) + s.ran(events).shapes == drawn_shapes(s.commands)
            + s.shapes + event_shapes(events),
        drawn_words(s.ran(events).commands) + s.ran(events).text == drawn_words(s.commands)
            + s.text + event_words(events),
    decreases events.len(),
{
    if events.len() == 0 {
        assert(drawn_shapes(s.commands) + s.shapes + event_shapes(events) =~= drawn_shapes(
            s.commands,
        ) + s.shapes);
        assert(drawn_words(s.commands) + s.text + event_words(events) =~= drawn_words(s.commands)
            + s.text);
    } else {
        let head = events.drop_last();
        lemma_run_content(s, head);
        lemma_step_content(s.ran(head), events.last());
        let more_shapes = match events.last() {
            RenderEvent::Shapes { renderables, .. } => renderables,
            _ => seq![],
        };
        let more_words = match events.last() {
            RenderEvent::Word(word) => seq![word],
            _ => seq![],
        };
        assert(drawn_shapes(s.commands) + s.shapes + event_shapes(head) + more_shapes
            =~= drawn_shapes(s.commands) + s.shapes + (event_shapes(head) + more_shapes));
        assert(drawn_words(s.commands) + s.text + event_words(head) + more_words =~= drawn_words(
            s.commands,
        ) + s.text + (event_words(head) + more_words));
    }
}

/// Drawing loses nothing and reorders nothing within a kind: the shapes of
/// the commands, one command after the other, are the shapes of the tree in
/// the order of the walk, and so are the words.
pub proof fn law_commands_keep_all_content(tree: RenderTree)
    ensures
        drawn_shapes(commands_of(tree)) == shapes_of(tree),
        drawn_words(commands_of(tree)) == words_of(tree),
{
    let s = RenderState::initial();
    lemma_walk_is_run(s, tree);
    lemma_run_content(s, events_of(tree));
    let end = s.ran(events_of(tree));
    lemma_flushed_content(end);
    assert(drawn_shapes(end.flushed().commands) =~= drawn_shapes(end.flushed().commands)
        + end.flushed().shapes);
    assert(drawn_words(end.flushed().commands) =~= drawn_words(end.flushed().commands)
        + end.flushed().text);
    assert(drawn_shapes(s.commands) + s.shapes + event_shapes(events_of(tree)) =~= event_shapes(
        events_of(tree),
    ));
    assert(drawn_words(s.commands) + s.text + event_words(events_of(tree)) =~= event_words(
        events_of(tree),
    ));
}

proof fn lemma_run_counts(s: RenderState, events: Seq<RenderEvent>, prev: BatchRenderTexture)
    requires
        s.texture == prev || s.texture == BatchRenderTexture::Nothing,
    ensures
        shape_commands(s.ran(events).commands) <= shape_commands(s.commands) + layer_boundaries(
            events,
        ) + texture_transitions(prev, events),
        text_commands(s.ran(events).commands) <= text_commands(s.commands) + layer_boundaries(
            events,
        ) + texture_transitions(prev, events),
        s.ran(events).texture == last_texture(prev, events) || s.ran(events).texture
            == BatchRenderTexture::Nothing,
    decreases events.len(),
{
    if events.len() > 0 {
        let head = events.drop_last();
        lemma_run_counts(s, head, prev);
        let mid = s.ran(head);
        let e = events.last();
        lemma_flushed_content(mid);
        match e {
            RenderEvent::Shapes { texture, .. } => {
                if !mid.texture.spec_compatible_with(texture) {
                    assert(mid.texture == last_texture(prev, head));
                }
            },
            _ => {},
        }
    }
}

/// The number of draw commands is bounded by the shape of the content, not
/// by its amount. With `T` the number of times that shapes follow shapes of a
/// texture they cannot share, and `L` the number of boundaries between layers,
/// at most `T + L + 1` commands draw shapes and at most `T + L + 1` draw text.
pub proof fn law_draw_commands_are_bounded(tree: RenderTree)
    ensures
        shape_commands(commands_of(tree)) <= texture_transitions(
            BatchRenderTexture::Nothing,
            events_of(tree),
        ) + layer_boundaries(events_of(tree)) + 1,
        text_commands(commands_of(tree)) <= texture_transitions(
            BatchRenderTexture::Nothing,
            events_of(tree),
        ) + layer_boundaries(events_of(tree)) + 1,
{
    let s = RenderState::initial();
    lemma_walk_is_run(s, tree);
    lemma_run_counts(s, events_of(tree), BatchRenderTexture::Nothing);
    lemma_flushed_content(s.ran(events_of(tree)));
}

/// Whether the stretch of `events` after their last layer boundary holds a word.
pub open spec fn has_open_text(events: Seq<RenderEvent>) -> bool
    decreases events.len(),
{
    if events.len() == 0 {
        false
    } else {
        match events.last() {
            RenderEvent::LayerBoundary => false,
            RenderEvent::Word(_) => true,
            RenderEvent::Shapes { .. } => has_open_text(events.drop_last()),
        }
    }
}

/// How many of the stretches of `events` that a layer boundary ends hold a word.
pub open spec fn closed_text_segments(events: Seq<RenderEvent>) -> nat
    decreases events.len(),
{
    if events.len() == 0 {
        0
    } else {
        closed_text_segments(events.drop_last()) + if events.last() is LayerBoundary
            && has_open_text(events.drop_last()) {
            1nat
        } else {
            0nat
        }
    }
}

/// How many of the stretches between the layer boundaries of `events` hold a word.
pub open spec fn text_segments(events: Seq<RenderEvent>) -> nat {
    closed_text_segments(events) + if has_open_text(events) {
        1nat
    } else {
        0nat
    }
}

proof fn lemma_transitions_grow(prev: BatchRenderTexture, events: Seq<RenderEvent>)
    ensures
        events.len() > 0 ==> texture_transitions(prev, events.drop_last()) <= texture_transitions(
            prev,
            events,
        ),
{
}

proof fn lemma_text_follows_segments(events: Seq<RenderEvent>)
    requires
        texture_transitions(BatchRenderTexture::Nothing, events) == 0,
    ensures
        RenderState::initial().ran(events).text.len() > 0 <==> has_open_text(events),
        text_commands(RenderState::initial().ran(events).commands) == closed_text_segments(events),
    decreases events.len(),
{
    let s = RenderState::initial();
    if events.len() > 0 {
        let head = events.drop_last();
        lemma_transitions_grow(BatchRenderTexture::Nothing, events);
        lemma_text_follows_segments(head);
        lemma_run_counts(s, head, BatchRenderTexture::Nothing);
        let mid = s.ran(head);
        lemma_flushed_content(mid);
        if mid.text.len() > 0 {
            lemma_drawn_push(mid.commands, DrawCommandView::Text(mid.text));
        }
        let with_text = if mid.text.len() > 0 {
            mid.commands.push(DrawCommandView::Text(mid.text))
        } else {
            mid.commands
        };
        if mid.shapes.len() > 0 {
            lemma_drawn_push(
                with_text,
                DrawCommandView::Shapes { texture: mid.texture, renderables: mid.shapes },
            );
        }
    }
}

/// Content without layers is drawn with at most `T + 1` shape commands. Content
/// that never changes texture is drawn with exactly one text command for each
/// stretch between layer boundaries that holds text, and none for the others.
pub proof fn law_draw_call_bound(tree: RenderTree)
    ensures
        layer_boundaries(events_of(tree)) == 0 ==> shape_commands(commands_of(tree))
            <= texture_transitions(BatchRenderTexture::Nothing, events_of(tree)) + 1,
        texture_transitions(BatchRenderTexture::Nothing, events_of(tree)) == 0 ==> text_commands(
            commands_of(tree),
        ) == text_segments(events_of(tree)),
{
    law_draw_commands_are_bounded(tree);
    let s = RenderState::initial();
    let events = events_of(tree);
    lemma_walk_is_run(s, tree);
    if texture_transitions(BatchRenderTexture::Nothing, events) == 0 {
        lemma_text_follows_segments(events);
        let end = s.ran(events);
        if end.text.len() > 0 {
            lemma_drawn_push(end.commands, DrawCommandView::Text(end.text));
        }
        let with_text = if end.text.len() > 0 {
            end.commands.push(DrawCommandView::Text(end.text))
        } else {
            end.commands
        };
        if end.shapes.len() > 0 {
            lemma_drawn_push(
                with_text,
                DrawCommandView::Shapes { texture: end.texture, renderables: end.shapes },
            );
        }
    }
}

proof fn lemma_step_appends(s: RenderState, e: RenderEvent)
    ensures
        s.stepped(e).commands == s.commands + s.without_commands().stepped(e).commands,
        s.stepped(e).without_commands() == s.without_commands().stepped(e).without_commands(),
        s.flushed().commands == s.commands + s.without_commands().flushed().commands,
        s.flushed().without_commands() == s.without_commands().flushed().without_commands(),
{
    let z = s.without_commands();
    assert(s.flushed().commands =~= s.commands + z.flushed().commands);
    assert(s.stepped(e).commands =~= s.commands + z.stepped(e).commands);
}

proof fn lemma_run_appends(s: RenderState, events: Seq<RenderEvent>)
    ensures
        s.ran(events).commands == s.commands + s.without_commands().ran(events).commands,
        s.ran(events).without_commands() == s.without_commands().ran(events).without_commands(),
    decreases events.len(),
{
    let z = s.without_commands();
    if events.len() == 0 {
        assert(s.commands =~= s.commands + z.commands);
    } else {
        let head = events.drop_last();
        lemma_run_appends(s, head);
        let a = s.ran(head);
        let b = z.ran(head);
        lemma_step_appends(a, events.last());
        lemma_step_appends(b, events.last());
        assert(a.without_commands() == b.without_commands());
        assert(s.ran(events).commands =~= s.commands + z.ran(events).commands);
    }
}

proof fn lemma_events_of_prefix(items: Seq<RenderTree>, layered: bool, k: int, count: nat)
    requires
        0 <= count <= k <= items.len(),
    ensures
        events_of_first(items.take(k), layered, count) == events_of_first(items, layered, count),
    decreases count,
{
    if count > 0 {
        lemma_events_of_prefix(items, layered, k, (count - 1) as nat);
        assert(items.take(k)[count - 1] == items[count - 1]);
    }
}

proof fn lemma_events_of_suffix(items: Seq<RenderTree>, k: int, count: nat)
    requires
        0 < k < items.len(),
        1 <= count <= items.len() - k,
    ensures
        events_of_first(items, true, (k + count) as nat) == events_of_first(items, true, k as nat).push(
            RenderEvent::LayerBoundary,
        ) + events_of_first(items.skip(k), true, count),
    decreases count,
{
    let rest = items.skip(k);
    assert(rest[count - 1] == items[k + count - 1]);
    if count == 1 {
        assert(events_of_first(rest, true, 0) =~= Seq::<RenderEvent>::empty());
        assert(events_of_first(rest, true, 1) =~= events_of(rest[0]));
    } else {
        lemma_events_of_suffix(items, k, (count - 1) as nat);
        let head = events_of_first(items, true, k as nat).push(RenderEvent::LayerBoundary);
        let mid = events_of_first(rest, true, (count - 1) as nat);
        let last = events_of(rest[count - 1]);
        assert((head + mid).push(RenderEvent::LayerBoundary) + last =~= head + (mid.push(
            RenderEvent::LayerBoundary,
        ) + last));
    }
}

/// Layers are drawn in order. The commands of a list of layers begin with the
/// commands that its first `k` layers have on their own; what follows draws
/// the content of the other layers and nothing else. So everything of a layer
/// is handed out before anything of the layers after it.
pub proof fn law_layers_are_drawn_in_order(layers: Seq<RenderTree>, k: int)
    requires
        0 < k < layers.len(),
    ensures
        ({
            let all = commands_of(RenderTree::Layered(layers));
            let first = commands_of(RenderTree::Layered(layers.take(k)));
            let others = RenderTree::Layered(layers.skip(k));
            let n = first.len() as int;
            &&& n <= all.len()
            &&& all.subrange(0, n) == first
            &&& drawn_shapes(all.subrange(n, all.len() as int)) == shapes_of(others)
            &&& drawn_words(all.subrange(n, all.len() as int)) == words_of(others)
        }),
{
    let tree = RenderTree::Layered(layers);
    let s = RenderState::initial();
    let e1 = events_of(RenderTree::Layered(layers.take(k)));
    let e2 = events_of(RenderTree::Layered(layers.skip(k)));
    lemma_events_of_prefix(layers, true, k, k as nat);
    lemma_events_of_suffix(layers, k, (layers.len() - k) as nat);
    assert(events_of(tree) == e1.push(RenderEvent::LayerBoundary) + e2);
    lemma_walk_is_run(s, tree);
    lemma_walk_is_run(s, RenderTree::Layered(layers.take(k)));
    lemma_ran_concat(s, e1.push(RenderEvent::LayerBoundary), e2);
    assert(e1.push(RenderEvent::LayerBoundary).drop_last() =~= e1);
    let mid = s.ran(e1).flushed();
    assert(mid.commands == commands_of(RenderTree::Layered(layers.take(k))));
    assert(s.ran(events_of(tree)) == mid.ran(e2));
    let z = mid.without_commands();
    lemma_run_appends(mid, e2);
    let end = mid.ran(e2);
    let zend = z.ran(e2);
    lemma_step_appends(end, RenderEvent::LayerBoundary);
    lemma_step_appends(zend, RenderEvent::LayerBoundary);
    let tail = zend.flushed().commands;
    let all = commands_of(tree);
    assert(end.without_commands() == zend.without_commands());
    assert(all =~= mid.commands + tail);
    let n = mid.commands.len() as int;
    assert(all.subrange(0, n) =~= mid.commands);
    assert(all.subrange(n, all.len() as int) =~= tail);
    lemma_flushed_content(s.ran(e1));
    lemma_run_content(z, e2);
    lemma_flushed_content(zend);
    assert(z.shapes =~= Seq::<Renderable>::empty());
    assert(z.text =~= Seq::<PlacedWordView>::empty());
    assert(drawn_shapes(tail) =~= drawn_shapes(tail) + zend.flushed().shapes);
    assert(drawn_words(tail) =~= drawn_words(tail) + zend.flushed().text);
    assert(drawn_shapes(z.commands) + z.shapes + event_shapes(e2) =~= event_shapes(e2));
    assert(drawn_words(z.commands) + z.text + event_words(e2) =~= event_words(e2));
}

/// Of two layers the first is drawn before the second: the commands of the
/// two begin with the commands that the first has on its own, and what
/// follows draws the content of the second and nothing else.
pub proof fn law_first_layer_is_drawn_first(first: RenderTree, second: RenderTree)
    ensures
        ({
            let both = commands_of(RenderTree::Layered(seq![first, second]));
            let n = commands_of(first).len() as int;
            &&& n <= both.len()
            &&& both.subrange(0, n) == commands_of(first)
            &&& drawn_shapes(both.subrange(n, both.len() as int)) == shapes_of(second)
            &&& drawn_words(both.subrange(n, both.len() as int)) == words_of(second)
        }),
{
    let layers = seq![first, second];
    law_layers_are_drawn_in_order(layers, 1);
    let one = layers.take(1);
    let other = layers.skip(1);
    assert(events_of_first(one, true, 0) =~= Seq::<RenderEvent>::empty());
    assert(events_of(RenderTree::Layered(one)) =~= events_of(first));
    assert(events_of_first(other, true, 0) =~= Seq::<RenderEvent>::empty());
    assert(events_of(RenderTree::Layered(other)) =~= events_of(second));
    lemma_walk_is_run(RenderState::initial(), RenderTree::Layered(one));
    lemma_walk_is_run(RenderState::initial(), first);
}

/// Each of `shapes` with the texture `texture` that it is drawn with.
pub open spec fn textured(texture: BatchRenderTexture, shapes: Seq<Renderable>) -> Seq<
    (BatchRenderTexture, Renderable),
> {
    shapes.map_values(|r: Renderable| (texture, r))
}

/// All shapes of `events`, each with the texture that it asks for.
pub open spec fn event_textured_shapes(events: Seq<RenderEvent>) -> Seq<
    (BatchRenderTexture, Renderable),
>
    decreases events.len(),
{
    if events.len() == 0 {
        seq![]
    } else {
        event_textured_shapes(events.drop_last()) + match events.last() {
            RenderEvent::Shapes { texture, renderables } => textured(texture, renderables),
            _ => seq![],
        }
    }
}

/// All shapes that `commands` draw, each with the texture that it is drawn with.
pub open spec fn drawn_textured_shapes(commands: Seq<DrawCommandView>) -> Seq<
    (BatchRenderTexture, Renderable),
>
    decreases commands.len(),
{
    if commands.len() == 0 {
        seq![]
    } else {
        drawn_textured_shapes(commands.drop_last()) + match commands.last() {
            DrawCommandView::Shapes { texture, renderables } => textured(texture, renderables),
            _ => seq![],
        }
    }
}

/// Whether all shapes of `events` ask for a texture.
pub open spec fn all_textured(events: Seq<RenderEvent>) -> bool {
    forall|k: int|
        0 <= k < events.len() ==> ((#[trigger] events[k]) matches RenderEvent::Shapes {
            texture,
            ..
        } ==> texture != BatchRenderTexture::Nothing)
}

proof fn lemma_tree_is_textured(tree: RenderTree)
    ensures
        all_textured(events_of(tree)),
    decreases tree, 0nat,
{
    match tree {
        RenderTree::Layered(layers) => {
            lemma_trees_are_textured(layers, true, layers.len());
        },
        RenderTree::Adjacent(items) => {
            lemma_trees_are_textured(items, false, items.len());
        },
        _ => {},
    }
}

proof fn lemma_trees_are_textured(items: Seq<RenderTree>, layered: bool, count: nat)
    ensures
        all_textured(events_of_first(items, layered, count)),
    decreases items, count,
{
    if count == 0 || count > items.len() {
    } else {
        lemma_trees_are_textured(items, layered, (count - 1) as nat);
        lemma_tree_is_textured(items[count - 1]);
    }
}

proof fn lemma_textured_step(s: RenderState, e: RenderEvent)
    requires
        s.well_formed(),
        e matches RenderEvent::Shapes { texture, .. } ==> texture != BatchRenderTexture::Nothing,
    ensures
        s.stepped(e).well_formed(),
        drawn_textured_shapes(s.stepped(e).commands) + textured(
            s.stepped(e).texture,
            s.stepped(e).shapes,
        ) == drawn_textured_shapes(s.commands) + textured(s.texture, s.shapes) + match e {
            RenderEvent::Shapes { texture, renderables } => textured(texture, renderables),
            _ => seq![],
        },
{
    let flushed = s.flushed();
    let with_text = if s.text.len() > 0 {
        s.commands.push(DrawCommandView::Text(s.text))
    } else {
        s.commands
    };
    if s.text.len() > 0 {
        assert(with_text.drop_last() =~= s.commands);
        assert(drawn_textured_shapes(with_text) =~= drawn_textured_shapes(s.commands));
    }
    if s.shapes.len() > 0 {
        let command = DrawCommandView::Shapes { texture: s.texture, renderables: s.shapes };
        assert(with_text.push(command).drop_last() =~= with_text);
    }
    assert(drawn_textured_shapes(flushed.commands) + textured(flushed.texture, flushed.shapes)
        =~= drawn_textured_shapes(s.commands) + textured(s.texture, s.shapes));
    let none = Seq::<(BatchRenderTexture, Renderable)>::empty();
    match e {
        RenderEvent::LayerBoundary => {
            assert(drawn_textured_shapes(s.commands) + textured(s.texture, s.shapes) + none
                =~= drawn_textured_shapes(s.commands) + textured(s.texture, s.shapes));
        },
        RenderEvent::Word(word) => {
            assert(drawn_textured_shapes(s.commands) + textured(s.texture, s.shapes) + none
                =~= drawn_textured_shapes(s.commands) + textured(s.texture, s.shapes));
        },
        RenderEvent::Shapes { texture, renderables } => {
            let start = if s.texture.spec_compatible_with(texture) {
                s
            } else {
                flushed
            };
            assert(textured(texture, start.shapes + renderables) =~= textured(
                texture,
                start.shapes,
            ) + textured(texture, renderables));
            assert(textured(texture, start.shapes) =~= textured(start.texture, start.shapes));
            assert(drawn_textured_shapes(start.commands) + (textured(start.texture, start.shapes)
                + textured(texture, renderables)) =~= drawn_textured_shapes(start.commands)
                + textured(start.texture, start.shapes) + textured(texture, renderables));
        },
    }
}

proof fn lemma_textured_run(s: RenderState, events: Seq<RenderEvent>)
    requires
        s.well_formed(),
        all_textured(events),
    ensures
        s.ran(events).well_formed(),
        drawn_textured_shapes(s.ran(events).commands) + textured(
            s.ran(events).texture,
            s.ran(events).shapes,
        ) == drawn_textured_shapes(s.commands) + textured(s.texture, s.shapes)
            + event_textured_shapes(events),
    decreases events.len(),
{
    if events.len() == 0 {
        assert(drawn_textured_shapes(s.commands) + textured(s.texture, s.shapes)
            + event_textured_shapes(events) =~= drawn_textured_shapes(s.commands) + textured(
            s.texture,
            s.shapes,
        ));
    } else {
        let head = events.drop_last();
        assert(all_textured(head)) by {
            assert forall|k: int| 0 <= k < head.len() implies ((#[trigger] head[k]) matches RenderEvent::Shapes {
                texture,
                ..
            } ==> texture != BatchRenderTexture::Nothing) by {
                assert(head[k] == events[k]);
            }
        }
        lemma_textured_run(s, head);
        assert(events.last() == events[events.len() - 1]);
        lemma_textured_step(s.ran(head), events.last());
        let more = match events.last() {
            RenderEvent::Shapes { texture, renderables } => textured(texture, renderables),
            _ => seq![],
        };
        assert(drawn_textured_shapes(s.commands) + textured(s.texture, s.shapes)
            + event_textured_shapes(head) + more =~= drawn_textured_shapes(s.commands) + textured(
            s.texture,
            s.shapes,
        ) + (event_textured_shapes(head) + more));
    }
}

/// Every shape is drawn with the texture that it asks for. The shapes of
/// the commands, each taken with the texture of its command, are the shapes of
/// the tree, each taken with the texture of its node, in the order of the
/// walk: no grouping ever draws a shape with the texture of another.
pub proof fn law_shapes_keep_their_texture(tree: RenderTree)
    ensures
        drawn_textured_shapes(commands_of(tree)) == event_textured_shapes(events_of(tree)),
{
    let s = RenderState::initial();
    let events = events_of(tree);
    lemma_walk_is_run(s, tree);
    lemma_tree_is_textured(tree);
    lemma_textured_run(s, events);
    let end = s.ran(events);
    lemma_textured_step(end, RenderEvent::LayerBoundary);
    let none = Seq::<(BatchRenderTexture, Renderable)>::empty();
    assert(textured(s.texture, s.shapes) =~= none);
    assert(drawn_textured_shapes(s.commands) + textured(s.texture, s.shapes)
        + event_textured_shapes(events) =~= event_textured_shapes(events));
    assert(textured(end.flushed().texture, end.flushed().shapes) =~= none);
    assert(drawn_textured_shapes(end.flushed().commands) + none =~= drawn_textured_shapes(
        end.flushed().commands,
    ));
    assert(drawn_textured_shapes(end.commands) + textured(end.texture, end.shapes) + none
        =~= drawn_textured_shapes(end.commands) + textured(end.texture, end.shapes));
}

} // verus!
