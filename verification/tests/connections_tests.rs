use lizi_engine2d::connections::{Connection, ConnectionType, Connections};

fn link(a: usize, b: usize) -> Connection {
    Connection {
        particle_a: a,
        particle_b: b,
        rest_length_bits: 1.0f64.to_bits(),
        stiffness_bits: 10.0f64.to_bits(),
        connection_type: ConnectionType::Spring,
    }
}

fn ends(c: &Connections) -> Vec<(usize, usize)> {
    c.list.iter().map(|x| (x.particle_a, x.particle_b)).collect()
}

#[test]
fn connection_type_names() {
    assert_eq!(ConnectionType::Spring.display_name(), "弹簧");
    assert_eq!(ConnectionType::Rope.display_name(), "绳子");
}

#[test]
fn new_is_empty_and_add_appends() {
    let mut c = Connections::new();
    assert!(c.list.is_empty());
    c.add(link(0, 1));
    c.add(link(1, 2));
    assert_eq!(ends(&c), vec![(0, 1), (1, 2)]);
    assert_eq!(f64::from_bits(c.list[0].rest_length_bits), 1.0);
    assert_eq!(f64::from_bits(c.list[0].stiffness_bits), 10.0);
}

#[test]
fn remove_in_range_and_out_of_range() {
    let mut c = Connections::new();
    c.add(link(0, 1));
    c.add(link(1, 2));
    c.add(link(2, 3));
    assert!(c.remove(1));
    assert_eq!(ends(&c), vec![(0, 1), (2, 3)]);
    assert!(!c.remove(2));
    assert_eq!(ends(&c), vec![(0, 1), (2, 3)]);
    assert!(c.remove(0));
    assert!(c.remove(0));
    assert!(!c.remove(0));
    assert!(c.list.is_empty());
}

#[test]
fn remove_for_particle_keeps_order_and_counts() {
    let mut c = Connections::new();
    c.add(link(0, 1));
    c.add(link(1, 2));
    c.add(link(2, 3));
    c.add(link(3, 1));
    c.add(link(0, 3));
    let removed = c.remove_for_particle(1);
    assert_eq!(removed, 3);
    assert_eq!(ends(&c), vec![(2, 3), (0, 3)]);
    assert_eq!(c.remove_for_particle(7), 0);
    assert_eq!(ends(&c), vec![(2, 3), (0, 3)]);
}

#[test]
fn find_for_particle_lists_positions_in_order() {
    let mut c = Connections::new();
    c.add(link(0, 1));
    c.add(link(1, 2));
    c.add(link(2, 3));
    c.add(link(3, 1));
    assert_eq!(c.find_for_particle(1), vec![0, 1, 3]);
    assert_eq!(c.find_for_particle(2), vec![1, 2]);
    assert_eq!(c.find_for_particle(9), Vec::<usize>::new());
    assert_eq!(Connections::new().find_for_particle(0), Vec::<usize>::new());
}

#[test]
fn remove_count_equals_number_found() {
    let mut c = Connections::new();
    for (a, b) in [(0, 1), (4, 2), (2, 2), (3, 4), (4, 0), (1, 3)] {
        c.add(link(a, b));
    }
    for p in 0..6 {
        let mut d = c.clone();
        let found = d.find_for_particle(p).len();
        let removed = d.remove_for_particle(p);
        assert_eq!(found, removed);
        assert!(d.find_for_particle(p).is_empty());
    }
}

#[test]
fn remap_after_removal_shifts_higher_indices() {
    let mut c = Connections::new();
    c.add(link(0, 3));
    c.add(link(2, 4));
    c.add(link(1, 2));
    c.remap_after_removal(2);
    assert_eq!(ends(&c), vec![(0, 2), (2, 3), (1, 2)]);
    let mut e = Connections::new();
    e.add(link(0, 1));
    e.remap_after_removal(5);
    assert_eq!(ends(&e), vec![(0, 1)]);
}

#[test]
fn particle_removal_keeps_ends_in_range() {
    let n = 5;
    let mut c = Connections::new();
    for (a, b) in [(0, 1), (1, 2), (2, 3), (3, 4), (4, 0), (1, 4)] {
        c.add(link(a, b));
    }
    let k = 2;
    c.remove_for_particle(k);
    c.remap_after_removal(k);
    assert_eq!(ends(&c), vec![(0, 1), (2, 3), (3, 0), (1, 3)]);
    for conn in &c.list {
        assert!(conn.particle_a < n - 1 && conn.particle_b < n - 1);
        assert_ne!(conn.particle_a, conn.particle_b);
    }
}

#[test]
fn empty_list_edge_cases() {
    let mut c = Connections::new();
    assert_eq!(c.remove_for_particle(0), 0);
    c.remap_after_removal(0);
    assert!(!c.remove(0));
    assert!(c.list.is_empty());
}

#[test]
fn rope_and_self_loop_connections() {
    let mut c = Connections::new();
    let mut rope = link(2, 2);
    rope.connection_type = ConnectionType::Rope;
    c.add(rope);
    c.add(link(0, 3));
    assert_eq!(c.find_for_particle(2), vec![0]);
    c.remap_after_removal(0);
    assert_eq!(ends(&c), vec![(1, 1), (0, 2)]);
    assert_eq!(c.list[0].connection_type, ConnectionType::Rope);
    assert_eq!(c.remove_for_particle(1), 1);
    assert_eq!(ends(&c), vec![(0, 2)]);
}
