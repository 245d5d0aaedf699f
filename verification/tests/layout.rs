use graph_layout::graph::Graph;
use graph_layout::simulation::{advance, ingest_drags, net_force, Drag};
use graph_layout::vector::{Force, Point};
use graph_layout::vertex::Vertex;

fn zero() -> Force {
    Force::new(0, 0)
}

#[test]
fn scenario_create_tick_and_drag() {
    let mut g = Graph::new();
    assert_eq!(g.size(), 0);
    let first = g.create_vertex(Point::new(100, 50));
    assert_eq!(g.size(), 1);
    assert_eq!(first.id, 0);
    assert_eq!(g.vertex(0).unwrap().position, Point { x: 100, y: 50 });
    assert_eq!(g.vertex(0).unwrap().force_accumulator, zero());

    let second = g.create_vertex(Point::new(105, 50));
    assert_eq!(second.id, 1);
    let emitted = g.tick(&Vec::new());
    let separation = emitted[1].x - emitted[0].x;
    assert!(separation > 5);
    assert_eq!(emitted, vec![Point { x: 85, y: 50 }, Point { x: 120, y: 50 }]);

    let drags = vec![Drag { id: 0, position: Point::new(500, 500) }];
    let emitted = g.tick(&drags);
    assert_eq!(emitted, vec![Point { x: 500, y: 500 }, Point { x: 120, y: 50 }]);
    assert_eq!(g.vertex(1).unwrap().force_accumulator, zero());
    assert_eq!(g.vertex(0).unwrap().force_accumulator, zero());
}

#[test]
fn ids_follow_the_order_of_creation() {
    let mut g = Graph::new();
    for i in 0..50usize {
        assert_eq!(g.size(), i);
        let v = g.create_vertex(Point::new(1000 * i as i64, -7));
        assert_eq!(v, Vertex::new(i, Point::new(1000 * i as i64, -7)));
    }
    g.tick(&Vec::new());
    g.create_vertex(Point::new(0, 5000));
    for (i, v) in g.vertices().iter().enumerate() {
        assert_eq!(v.id, i);
    }
    assert_eq!(g.size(), 51);
}

#[test]
fn vertex_lookup() {
    let mut g = Graph::new();
    assert_eq!(g.vertex(0), None);
    g.create_vertex(Point::new(1, 2));
    g.create_vertex(Point::new(3, 4));
    assert_eq!(g.vertex(1), Some(Vertex::new(1, Point::new(3, 4))));
    assert_eq!(g.vertex(2), None);
    assert_eq!(g.vertices().len(), 2);
    assert_eq!(g.positions(), vec![Point { x: 1, y: 2 }, Point { x: 3, y: 4 }]);
}

#[test]
fn set_position_moves_one_vertex() {
    let mut g = Graph::new();
    g.create_vertex(Point::new(1, 2));
    g.create_vertex(Point::new(3, 4));
    assert!(g.set_position(1, Point::new(-9, 9)));
    assert!(!g.set_position(2, Point::new(5, 5)));
    assert_eq!(g.positions(), vec![Point { x: 1, y: 2 }, Point { x: -9, y: 9 }]);
    assert_eq!(g.vertex(1).unwrap().id, 1);
}

#[test]
fn a_single_vertex_feels_nothing() {
    let mut g = Graph::new();
    g.create_vertex(Point::new(-3, 8));
    for _ in 0..5 {
        let emitted = g.tick(&Vec::new());
        assert_eq!(emitted, vec![Point { x: -3, y: 8 }]);
        assert_eq!(g.vertex(0).unwrap().force_accumulator, zero());
    }
}

#[test]
fn an_empty_graph_ticks() {
    let mut g = Graph::new();
    let drags = vec![Drag { id: 0, position: Point::new(1, 1) }];
    assert_eq!(g.tick(&drags), Vec::<Point>::new());
    assert_eq!(g.size(), 0);
}

#[test]
fn net_force_leaves_the_vertex_itself_out() {
    let snapshot = vec![
        Vertex::new(0, Point::new(0, 0)),
        Vertex::new(1, Point::new(10, 0)),
        Vertex::new(2, Point::new(0, 10)),
    ];
    assert_eq!(net_force(&snapshot, 0), Force { x: -14, y: -14 });
    assert_eq!(net_force(&snapshot, 1), Force { x: 24, y: -10 });
    assert_eq!(net_force(&snapshot, 2), Force { x: -10, y: 24 });
    let alone = vec![Vertex::new(0, Point::new(5, 5))];
    assert_eq!(net_force(&alone, 0), zero());
}

#[test]
fn three_vertices_tick() {
    let mut g = Graph::new();
    g.create_vertex(Point::new(0, 0));
    g.create_vertex(Point::new(10, 0));
    g.create_vertex(Point::new(0, 10));
    let emitted = g.tick(&Vec::new());
    assert_eq!(
        emitted,
        vec![Point { x: -14, y: -14 }, Point { x: 34, y: -10 }, Point { x: -10, y: 34 }]
    );
    assert_eq!(g.positions(), emitted);
    assert_eq!(g.vertex(1).unwrap().force_accumulator, Force { x: 24, y: -10 });
}

#[test]
fn forces_come_from_the_start_of_the_tick() {
    // Vertex 1 is pushed by vertex 0 where vertex 0 was, not where it went.
    let mut g = Graph::new();
    g.create_vertex(Point::new(0, 0));
    g.create_vertex(Point::new(119, 0));
    g.create_vertex(Point::new(-1, 0));
    let emitted = g.tick(&Vec::new());
    assert_eq!(emitted[0], Point { x: 14, y: 0 });
    assert_eq!(emitted[1], Point { x: 120, y: 0 });
    assert_eq!(emitted[2], Point { x: -16, y: 0 });
}

#[test]
fn coincident_vertices_part() {
    let mut g = Graph::new();
    g.create_vertex(Point::new(0, 0));
    g.create_vertex(Point::new(0, 0));
    g.create_vertex(Point::new(0, 0));
    let emitted = g.tick(&Vec::new());
    assert_eq!(emitted, vec![Point { x: -30, y: 0 }, Point { x: 0, y: 0 }, Point { x: 30, y: 0 }]);
}

#[test]
fn a_close_pair_comes_to_rest() {
    let mut g = Graph::new();
    g.create_vertex(Point::new(0, 0));
    g.create_vertex(Point::new(1, 0));
    let mut last = g.positions();
    let mut ticks = 0;
    loop {
        let next = g.tick(&Vec::new());
        if next == last {
            break;
        }
        let before = (last[1].x - last[0].x).abs();
        let after = (next[1].x - next[0].x).abs();
        assert!(after > before);
        last = next;
        ticks += 1;
        assert!(ticks <= 240);
    }
    assert_eq!(ticks, 12);
    assert_eq!(last, vec![Point { x: -60, y: 0 }, Point { x: 61, y: 0 }]);
    assert_eq!(g.tick(&Vec::new()), last);
    assert_eq!(g.vertex(0).unwrap().force_accumulator, zero());
}

#[test]
fn a_pair_at_the_edge_of_the_range_still_parts() {
    let mut g = Graph::new();
    g.create_vertex(Point::new(i64::MAX, 0));
    g.create_vertex(Point::new(i64::MAX - 2, 0));
    let emitted = g.tick(&Vec::new());
    assert_eq!(emitted, vec![Point { x: i64::MAX, y: 0 }, Point { x: i64::MAX - 17, y: 0 }]);
}

#[test]
fn the_last_drag_of_a_vertex_wins() {
    let mut g = Graph::new();
    g.create_vertex(Point::new(0, 0));
    g.create_vertex(Point::new(1000, 0));
    let drags = vec![
        Drag { id: 1, position: Point::new(2000, 0) },
        Drag { id: 0, position: Point::new(-500, -500) },
        Drag { id: 7, position: Point::new(1, 1) },
        Drag { id: 1, position: Point::new(3000, 10) },
    ];
    let emitted = g.tick(&drags);
    assert_eq!(emitted, vec![Point { x: -500, y: -500 }, Point { x: 3000, y: 10 }]);
    assert_eq!(g.size(), 2);
}

#[test]
fn a_drag_is_seen_by_the_forces_of_the_same_tick() {
    let mut g = Graph::new();
    g.create_vertex(Point::new(0, 0));
    g.create_vertex(Point::new(1000, 1000));
    // Dragged next to vertex 0, vertex 1 pushes it in this very tick.
    let drags = vec![Drag { id: 1, position: Point::new(3, 4) }];
    let emitted = g.tick(&drags);
    assert_eq!(emitted, vec![Point { x: -9, y: -12 }, Point { x: 12, y: 16 }]);
    assert_eq!(g.vertex(0).unwrap().force_accumulator, Force { x: -9, y: -12 });
}

#[test]
fn ingest_drags_empties_the_accumulators() {
    let mut vertices = vec![Vertex::new(0, Point::new(0, 0)), Vertex::new(1, Point::new(9, 9))];
    vertices[0].add_acc(Force::new(4, 4));
    vertices[1].add_acc(Force::new(-4, 4));
    let drags = vec![Drag { id: 1, position: Point::new(8, 8) }];
    ingest_drags(&mut vertices, &drags);
    assert_eq!(vertices, vec![Vertex::new(0, Point::new(0, 0)), Vertex::new(1, Point::new(8, 8))]);
}

#[test]
fn advance_returns_the_new_positions() {
    let mut vertices = vec![Vertex::new(0, Point::new(100, 50)), Vertex::new(1, Point::new(105, 50))];
    let emitted = advance(&mut vertices, &Vec::new());
    assert_eq!(emitted, vec![Point { x: 85, y: 50 }, Point { x: 120, y: 50 }]);
    assert_eq!(vertices[0].position, emitted[0]);
    assert_eq!(vertices[1].position, emitted[1]);
    assert_eq!(vertices[0].force_accumulator, Force { x: -15, y: 0 });
    assert_eq!(vertices[1].force_accumulator, Force { x: 15, y: 0 });
    assert_eq!(vertices[0].id, 0);
    assert_eq!(vertices[1].id, 1);
}
