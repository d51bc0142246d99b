use orbital::json::{Field, RequestError};
use orbital::services::view_nannou::{node_header, Node, Placement, Scene, TEXTURED_KIND};
use orbital::services::view_pixels::{World, HEIGHT, WIDTH};
use orbital::view_nannou as first;

fn node(id: i32, kind: i32, g: (i32, i32)) -> Node<(i32, i32)> {
    Node { id, kind, geometry: g, text: format!("\"n{}\"", id), textureid: 0 }
}

#[test]
fn node_header_reads_id_kind_and_text() {
    let h = node_header(r#"{"id":3,"x":1.5,"y":2,"w":3,"h":4,"kind":1120,"text":"hi"}"#).unwrap();
    assert_eq!(h.id, 3);
    assert_eq!(h.kind, 1120);
    assert_eq!(h.text, "\"hi\"");
    let h = node_header(r#"{"id":-4,"kind":0}"#).unwrap();
    assert_eq!(h.id, -4);
    assert_eq!(h.text, "null");
    assert!(matches!(node_header("{id:1}"), Err(RequestError::InvalidJson)));
    assert!(matches!(node_header(r#"{"kind":1}"#), Err(RequestError::BadField(Field::Id))));
    assert!(matches!(node_header(r#"{"id":"1","kind":1}"#), Err(RequestError::BadField(Field::Id))));
    assert!(matches!(node_header(r#"{"id":1.0,"kind":1}"#), Err(RequestError::BadField(Field::Id))));
    assert!(matches!(node_header(r#"{"id":1}"#), Err(RequestError::BadField(Field::Kind))));
}

#[test]
fn scene_keeps_one_node_per_id() {
    let mut s: Scene<(i32, i32)> = Scene::new();
    assert_eq!(s.upsert(node(1, 1120, (0, 0)), 0), Placement::Added);
    assert_eq!(s.upsert(node(2, 1130, (5, 5)), 0), Placement::Added);
    let mut moved = node(1, 9, (7, 8));
    moved.text = "\"other\"".to_string();
    assert_eq!(s.upsert(moved, 0), Placement::Updated);
    let nodes = s.nodes();
    assert_eq!(nodes.len(), 2);
    assert_eq!(nodes[0].id, 1);
    assert_eq!(nodes[0].geometry, (7, 8));
    assert_eq!(nodes[0].kind, 1120);
    assert_eq!(nodes[0].text, "\"n1\"");
    assert_eq!(nodes[1].geometry, (5, 5));
}

#[test]
fn first_textured_node_asks_for_the_texture() {
    let mut s: Scene<(i32, i32)> = Scene::new();
    let mut t = node(5, TEXTURED_KIND, (1, 1));
    t.textureid = 9;
    assert_eq!(s.upsert(t, 0), Placement::AddedWithTexture);
    assert_eq!(s.nodes()[0].textureid, 0);
    assert_eq!(s.upsert(node(6, TEXTURED_KIND, (1, 1)), 1), Placement::Added);
    assert_eq!(s.upsert(node(5, TEXTURED_KIND, (2, 2)), 0), Placement::Updated);
    assert_eq!(s.nodes().len(), 2);
}

#[test]
fn first_scene_updates_size_only() {
    let mut s: first::Scene<(i32, i32), (i32, i32)> = first::Scene::new();
    let a = first::Node { id: 1, kind: 2, position: (1, 1), size: (3, 3), text: "a".to_string() };
    assert!(!s.upsert(a));
    let b = first::Node { id: 1, kind: 3, position: (9, 9), size: (4, 4), text: "b".to_string() };
    assert!(s.upsert(b));
    let n = &s.nodes()[0];
    assert_eq!(s.nodes().len(), 1);
    assert_eq!(n.position, (1, 1));
    assert_eq!(n.size, (4, 4));
    assert_eq!(n.kind, 2);
    assert_eq!(n.text, "a");
}

#[test]
fn world_moves_bounces_and_grows() {
    let mut w = World::new();
    assert_eq!((w.x, w.y, w.w, w.h, w.vx, w.vy), (24, 16, 0, 0, 1, 1));
    w.update(0);
    assert_eq!((w.x, w.y), (25, 17));
    w.update(2);
    assert_eq!((w.x, w.y, w.w, w.h), (26, 18, 8, 8));
    let mut edge = World { x: 0, y: 5, w: 0, h: 0, vx: -1, vy: 1 };
    edge.update(0);
    assert_eq!((edge.x, edge.vx, edge.y, edge.vy), (1, 1, 6, 1));
    let mut right = World { x: 316, y: 236, w: 5, h: 5, vx: 1, vy: 1 };
    right.update(0);
    assert_eq!((right.x, right.vx, right.y, right.vy), (315, -1, 235, -1));
}

#[test]
fn world_draws_the_box() {
    let w = World { x: 1, y: 0, w: 2, h: 1, vx: 1, vy: 1 };
    let mut frame = vec![7u8; (WIDTH * HEIGHT * 4) as usize + 3];
    w.draw(&mut frame);
    let inner = [0x5e, 0x48, 0xe8, 0xff];
    let outer = [0x48, 0xb2, 0xe8, 0xff];
    assert_eq!(&frame[0..4], &outer);
    assert_eq!(&frame[4..8], &inner);
    assert_eq!(&frame[8..12], &inner);
    assert_eq!(&frame[12..16], &outer);
    let row1 = (WIDTH * 4) as usize;
    assert_eq!(&frame[row1 + 4..row1 + 8], &outer);
    let n = frame.len();
    assert_eq!(&frame[n - 3..], &[7, 7, 7]);
}

#[test]
fn world_bounces_at_its_bottom_edge() {
    let mut tall = World { x: 10, y: 200, w: 2, h: 50, vx: 1, vy: 1 };
    tall.update(0);
    assert_eq!((tall.y, tall.vy), (199, -1));
    let mut wide = World { x: 10, y: 200, w: 50, h: 2, vx: 1, vy: 1 };
    wide.update(0);
    assert_eq!((wide.y, wide.vy), (201, 1));
}

#[test]
fn world_overflow_checks() {
    let w = World { x: 400, y: 0, w: 32767, h: 1, vx: 1, vy: 1 };
    assert!(w.can_draw((WIDTH * HEIGHT * 4) as usize));
    let v = World { x: 10, y: 0, w: 32767, h: 1, vx: 1, vy: 1 };
    assert!(!v.can_draw((WIDTH * HEIGHT * 4) as usize));
    assert!(v.can_draw(0));
    let g = World { x: 10, y: 10, w: 32760, h: 0, vx: 1, vy: 1 };
    assert!(!g.can_update(2));
    let ok = World::new();
    assert!(ok.can_update(100));
    assert!(!ok.can_update(usize::MAX));
}

#[test]
fn scene_appends_new_ids_in_first_arrival_order() {
    let mut s: Scene<(i32, i32)> = Scene::new();
    for (id, g) in [(4, 0), (2, 1), (4, 2), (9, 3), (2, 4), (1, 5)] {
        s.upsert(node(id, 1120, (g, g)), 0);
    }
    let ids: Vec<i32> = s.nodes().iter().map(|n| n.id).collect();
    assert_eq!(ids, vec![4, 2, 9, 1]);
    let geometry: Vec<(i32, i32)> = s.nodes().iter().map(|n| n.geometry).collect();
    assert_eq!(geometry, vec![(2, 2), (4, 4), (3, 3), (5, 5)]);
}
