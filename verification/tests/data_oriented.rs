use inheritance::common::Color;
use inheritance::p5_data_oriented::World;

type Point = (f64, f64);

fn circle_area(r: &f64) -> f64 {
    std::f64::consts::PI * r * r
}

fn rect_area(w: &f64, h: &f64) -> f64 {
    w * h
}

fn translate(dx: f64, dy: f64) -> impl Fn(&Point) -> Point {
    move |p: &Point| (p.0 + dx, p.1 + dy)
}

#[test]
fn systems_apply_shared_behaviour_to_every_entity() {
    let mut w: World<Point, f64> = World::default();
    let c = w.spawn_circle((0.0, 0.0), Color::Red, 1.0);
    let s = w.spawn_square((1.0, 1.0), Color::Blue, 2.0);
    w.translate_all(translate(1.0, 1.0));
    assert_eq!(*w.origin(c), (1.0, 1.0));
    assert_eq!(*w.origin(s), (2.0, 2.0));
}

#[test]
fn area_system_covers_all_component_tables() {
    let mut w: World<Point, f64> = World::default();
    w.spawn_circle((0.0, 0.0), Color::Red, 1.0);
    w.spawn_rectangle((0.0, 0.0), Color::Green, 2.0, 3.0);
    let total: f64 = w.areas(circle_area, rect_area).iter().map(|(_, a)| a).sum();
    assert!((total - (std::f64::consts::PI + 6.0)).abs() < 1e-9);
}

#[test]
fn component_lookup_replaces_dynamic_cast() {
    let mut w: World<Point, f64> = World::default();
    let c = w.spawn_circle((0.0, 0.0), Color::Red, 7.0);
    let r = w.spawn_rectangle((0.0, 0.0), Color::Green, 1.0, 1.0);
    assert_eq!(w.radius_of(c), Some(7.0));
    assert_eq!(w.radius_of(r), None);
}

#[test]
fn handles_are_handed_out_in_spawn_order() {
    let mut w: World<Point, f64> = World::default();
    assert_eq!(w.len(), 0);
    let a = w.spawn_rectangle((0.0, 0.0), Color::Green, 1.0, 2.0);
    let b = w.spawn_circle((0.0, 0.0), Color::Red, 1.0);
    let c = w.spawn_square((0.0, 0.0), Color::Blue, 3.0);
    assert_eq!(a.index(), 0);
    assert_eq!(b.index(), 1);
    assert_eq!(c.index(), 2);
    assert_ne!(a, b);
    assert_eq!(w.len(), 3);
}

#[test]
fn spawn_records_the_base_state() {
    let mut w: World<Point, f64> = World::default();
    let c = w.spawn_circle((1.5, -2.0), Color::Red, 1.0);
    let r = w.spawn_rectangle((3.0, 4.0), Color::Green, 1.0, 2.0);
    let s = w.spawn_square((5.0, 6.0), Color::Blue, 3.0);
    assert_eq!(w.name(c), "Circle");
    assert_eq!(w.name(r), "Rectangle");
    assert_eq!(w.name(s), "Square");
    assert_eq!(w.color(c), Color::Red);
    assert_eq!(w.color(r), Color::Green);
    assert_eq!(w.color(s), Color::Blue);
    assert_eq!(*w.origin(c), (1.5, -2.0));
    assert_eq!(*w.origin(s), (5.0, 6.0));
}

#[test]
fn a_square_is_a_rectangle_with_equal_sides() {
    let mut w: World<Point, f64> = World::default();
    let s = w.spawn_square((0.0, 0.0), Color::Blue, 3.0);
    assert_eq!(w.radius_of(s), None);
    let sides = w.areas(|_r: &f64| (0.0, 0.0), |a: &f64, b: &f64| (*a, *b));
    assert_eq!(sides.len(), 1);
    assert_eq!(sides[0].0, s);
    assert_eq!(sides[0].1, (3.0, 3.0));
}

#[test]
fn areas_come_one_per_entity_in_handle_order() {
    let mut w: World<Point, f64> = World::default();
    let r1 = w.spawn_rectangle((0.0, 0.0), Color::Green, 2.0, 5.0);
    let c1 = w.spawn_circle((0.0, 0.0), Color::Red, 1.0);
    let c2 = w.spawn_circle((0.0, 0.0), Color::Red, 2.0);
    let s1 = w.spawn_square((0.0, 0.0), Color::Blue, 4.0);
    let c3 = w.spawn_circle((0.0, 0.0), Color::Red, 3.0);
    let out = w.areas(|r: &f64| *r, rect_area);
    let handles: Vec<_> = out.iter().map(|(e, _)| *e).collect();
    assert_eq!(handles, vec![r1, c1, c2, s1, c3]);
    let values: Vec<f64> = out.iter().map(|(_, a)| *a).collect();
    assert_eq!(values, vec![10.0, 1.0, 2.0, 16.0, 3.0]);
}

#[test]
fn later_spawns_do_not_change_earlier_lookups() {
    let mut w: World<Point, f64> = World::default();
    let c = w.spawn_circle((0.0, 0.0), Color::Red, 7.0);
    let r = w.spawn_rectangle((0.0, 0.0), Color::Green, 1.0, 1.0);
    for i in 0..10 {
        w.spawn_circle((0.0, 0.0), Color::Red, i as f64);
    }
    assert_eq!(w.radius_of(c), Some(7.0));
    assert_eq!(w.radius_of(r), None);
    let last = w.spawn_circle((0.0, 0.0), Color::Red, 0.5);
    assert_eq!(w.radius_of(last), Some(0.5));
}

#[test]
fn lookup_of_a_handle_from_a_larger_world_is_none() {
    let mut big: World<Point, f64> = World::default();
    big.spawn_circle((0.0, 0.0), Color::Red, 1.0);
    let far = big.spawn_circle((0.0, 0.0), Color::Red, 2.0);
    let mut small: World<Point, f64> = World::default();
    small.spawn_circle((0.0, 0.0), Color::Red, 1.0);
    assert_eq!(small.radius_of(far), None);
}

#[test]
fn translate_keeps_names_colours_and_components() {
    let mut w: World<Point, f64> = World::default();
    let c = w.spawn_circle((0.0, 0.0), Color::Red, 2.0);
    let r = w.spawn_rectangle((1.0, 1.0), Color::Green, 3.0, 4.0);
    w.translate_all(translate(0.5, -0.5));
    w.translate_all(translate(0.5, -0.5));
    assert_eq!(*w.origin(c), (1.0, -1.0));
    assert_eq!(*w.origin(r), (2.0, 0.0));
    assert_eq!(w.name(r), "Rectangle");
    assert_eq!(w.color(c), Color::Red);
    assert_eq!(w.radius_of(c), Some(2.0));
    let out = w.areas(circle_area, rect_area);
    assert_eq!(out[1].1, 12.0);
}

#[test]
fn empty_world_has_no_areas() {
    let w: World<Point, f64> = World::default();
    assert_eq!(w.len(), 0);
    assert!(w.areas(circle_area, rect_area).is_empty());
}

#[test]
fn colours_compare_by_variant() {
    assert_eq!(Color::Red, Color::Red);
    assert_ne!(Color::Red, Color::Blue);
    assert_eq!(format!("{:?}", Color::Green), "Green");
}
