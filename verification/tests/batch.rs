use qs_client::batch::{
    Batch, DrawCall, Position, Ratio, Renderable, TexCoords, Vertex, MAX_INDEX_COUNT,
    MAX_VERTEX_COUNT,
};
use qs_client::colour::Colour;

fn vertex(x: i64, y: i64) -> Vertex {
    Vertex {
        position: Position { x, y, z: 0 },
        color: Colour::white(),
        tex_coords: TexCoords { u: Ratio { num: 0, den: 1 }, v: Ratio { num: 0, den: 1 } },
    }
}

fn triangle(n: i64) -> Renderable {
    Renderable::Triangle(vertex(n, 0), vertex(n + 1, 0), vertex(n, 1))
}

fn quad(n: i64) -> Renderable {
    Renderable::Quadrilateral(vertex(n, 0), vertex(n + 1, 0), vertex(n + 1, 1), vertex(n, 1))
}

#[test]
fn capacities_fit_sixteen_bit_indices() {
    assert_eq!(MAX_VERTEX_COUNT, 40960);
    assert_eq!(MAX_INDEX_COUNT, 81920);
    assert!(MAX_VERTEX_COUNT < 65536);
}

#[test]
fn triangle_is_padded_to_even_index_count() {
    let mut batch = Batch::new();
    let items = vec![triangle(0)];
    let draws = batch.render(&items);
    assert_eq!(draws.len(), 1);
    assert_eq!(draws[0].vertices, vec![vertex(0, 0), vertex(1, 0), vertex(0, 1)]);
    assert_eq!(draws[0].indices, vec![0, 1, 2, 0]);
}

#[test]
fn quadrilateral_is_two_triangles_in_fan_order() {
    let mut batch = Batch::new();
    let draws = batch.render(&vec![quad(0), quad(5)]);
    assert_eq!(draws.len(), 1);
    assert_eq!(draws[0].vertices.len(), 8);
    assert_eq!(draws[0].indices, vec![0, 1, 2, 0, 2, 3, 4, 5, 6, 4, 6, 7]);
    assert_eq!(draws[0].vertices[4], vertex(5, 0));
}

#[test]
fn nothing_to_draw_submits_nothing() {
    let mut batch = Batch::new();
    assert_eq!(batch.render(&Vec::new()), Vec::<DrawCall>::new());
    assert_eq!(batch.render(&vec![Renderable::Empty, Renderable::Empty]), Vec::<DrawCall>::new());
}

#[test]
fn empty_shapes_add_nothing() {
    let mut batch = Batch::new();
    let draws = batch.render(&vec![Renderable::Empty, triangle(3), Renderable::Empty]);
    assert_eq!(draws.len(), 1);
    assert_eq!(draws[0].vertices.len(), 3);
    assert_eq!(draws[0].indices.len(), 4);
}

#[test]
fn add_flushes_exactly_when_the_next_shape_would_not_fit() {
    let mut batch = Batch::new();
    for n in 0..10240 {
        assert!(batch.add(quad(n)).is_none());
        assert!(batch.vertex_count() <= MAX_VERTEX_COUNT);
        assert!(batch.index_count() <= MAX_INDEX_COUNT);
    }
    assert_eq!(batch.vertex_count(), 40960);
    assert_eq!(batch.index_count(), 61440);
    let draw = batch.add(quad(10240)).expect("the batch is full");
    assert_eq!(draw.vertices.len(), 40960);
    assert_eq!(draw.indices.len(), 61440);
    assert_eq!(batch.vertex_count(), 4);
    assert_eq!(batch.index_count(), 6);
}

#[test]
fn render_cuts_quadrilaterals_at_the_vertex_capacity() {
    let mut batch = Batch::new();
    let items: Vec<Renderable> = (0..10241).map(quad).collect();
    let draws = batch.render(&items);
    assert_eq!(draws.len(), 2);
    assert_eq!(draws[0].vertices.len(), 40960);
    assert_eq!(draws[0].indices.len(), 61440);
    assert_eq!(&draws[0].indices[61434..], &[40956, 40957, 40958, 40956, 40958, 40959]);
    assert_eq!(draws[1].vertices, vec![
        vertex(10240, 0),
        vertex(10241, 0),
        vertex(10241, 1),
        vertex(10240, 1),
    ]);
    assert_eq!(draws[1].indices, vec![0, 1, 2, 0, 2, 3]);
    assert_eq!(batch.vertex_count(), 0);
    assert_eq!(batch.index_count(), 0);
}

#[test]
fn render_pads_the_odd_index_list_of_a_full_batch() {
    let mut batch = Batch::new();
    let items: Vec<Renderable> = (0..13654).map(triangle).collect();
    let draws = batch.render(&items);
    assert_eq!(draws.len(), 2);
    assert_eq!(draws[0].vertices.len(), 40959);
    assert_eq!(draws[0].indices.len(), 40960);
    assert_eq!(draws[0].indices[40958], 40958);
    assert_eq!(draws[0].indices[40959], 0);
    assert_eq!(draws[1].indices, vec![0, 1, 2, 0]);
    for draw in &draws {
        assert_eq!(draw.indices.len() % 2, 0);
        assert!(draw.vertices.len() <= MAX_VERTEX_COUNT);
        assert!(draw.indices.len() <= MAX_INDEX_COUNT);
        assert!(draw.indices.iter().all(|i| (*i as usize) < draw.vertices.len()));
    }
}

#[test]
fn render_keeps_every_vertex_in_order() {
    let mut batch = Batch::new();
    let items: Vec<Renderable> = (0..12000).map(quad).collect();
    let draws = batch.render(&items);
    let drawn: Vec<Vertex> = draws.iter().flat_map(|d| d.vertices.iter().copied()).collect();
    assert_eq!(drawn.len(), 48000);
    for n in 0..12000 {
        assert_eq!(drawn[4 * n], vertex(n as i64, 0));
        assert_eq!(drawn[4 * n + 3], vertex(n as i64, 1));
    }
}

#[test]
fn render_discards_what_was_gathered_before() {
    let mut batch = Batch::new();
    assert!(batch.add(triangle(0)).is_none());
    let draws = batch.render(&vec![quad(7)]);
    assert_eq!(draws.len(), 1);
    assert_eq!(draws[0].vertices.len(), 4);
}

#[test]
fn flush_hands_out_everything_and_empties_the_batch() {
    let mut batch = Batch::new();
    assert!(batch.flush().is_none());
    assert!(batch.add(triangle(0)).is_none());
    assert!(batch.add(quad(1)).is_none());
    let draw = batch.flush().expect("something was gathered");
    assert_eq!(draw.vertices.len(), 7);
    assert_eq!(draw.indices, vec![0, 1, 2, 3, 4, 5, 3, 5, 6, 0]);
    assert_eq!(batch.vertex_count(), 0);
    assert!(batch.flush().is_none());
}

#[test]
fn ensure_capacity_flushes_only_when_room_is_missing() {
    let mut batch = Batch::new();
    assert!(batch.add(quad(0)).is_none());
    assert!(batch.ensure_capacity(40956, 0).is_none());
    assert_eq!(batch.vertex_count(), 4);
    let draw = batch.ensure_capacity(40957, 0).expect("no room for that many");
    assert_eq!(draw.vertices.len(), 4);
    assert_eq!(batch.vertex_count(), 0);
    assert!(batch.add(quad(0)).is_none());
    assert!(batch.ensure_capacity(0, 81914).is_none());
    assert!(batch.ensure_capacity(0, 81915).is_some());
}

#[test]
fn index_bytes_fill_whole_words() {
    let mut batch = Batch::new();
    let draws = batch.render(&vec![triangle(0)]);
    let bytes = draws[0].index_bytes();
    assert_eq!(bytes.len(), 8);
    assert_eq!(bytes.len() % 4, 0);
    let read: Vec<u16> =
        bytes.chunks(2).map(|pair| u16::from_ne_bytes([pair[0], pair[1]])).collect();
    assert_eq!(read, vec![0, 1, 2, 0]);
    let wide = DrawCall { vertices: Vec::new(), indices: vec![0x0102, 0xA0B0] };
    let bytes = wide.index_bytes();
    assert!(bytes == vec![0x02, 0x01, 0xB0, 0xA0] || bytes == vec![0x01, 0x02, 0xA0, 0xB0]);
}
