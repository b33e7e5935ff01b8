use battle_grid::bullet::{is_in_reach, HIT_RANGE};
use battle_grid::map::MapCfg;
use battle_grid::scene::Scene;
use battle_grid::unit::{Bullet, BulletCfg, Tank, Unit};

fn scene(width: u32, height: u32) -> Scene {
    Scene::new(MapCfg { width, height, tile_size: 64, tile_cols: 20, tile_rows: 20 })
}

fn tank(id: u32, x: u32, y: u32, range: u32) -> Unit {
    Unit::Tank(Tank::new(id, x, y, range))
}

fn bullet(id: u32, x: u32, y: u32, tank: u32) -> Unit {
    Unit::Bullet(Bullet::new(id, x, y, BulletCfg::new(100), tank))
}

/// Where a bullet fired from `(x0, y0)` at `angle` with `speed` is after
/// `elapsed` seconds, rounded down.
fn flight(x0: u32, y0: u32, angle: f64, speed: u32, elapsed: f64) -> (i64, i64) {
    let d = elapsed * speed as f64;
    let x = x0 as f64 + angle.cos() * d;
    let y = y0 as f64 + angle.sin() * d;
    (x.floor() as i64, y.floor() as i64)
}

/// Every live unit is listed in the cell of its position and in no other, and
/// watches the cells it has recorded and no others; no other id is listed.
fn assert_settled(s: &Scene, ids: &[u32]) {
    let (cols, rows) = s.map().dims();
    for i in 0..cols {
        for j in 0..rows {
            for id in s.map().units(i, j) {
                let u = s.unit(id).expect("a listed unit is known");
                assert!(!u.is_destroyed());
                assert_eq!(u.map_cell().get(), (i, j));
                assert_eq!((u.position().0 / 128, u.position().1 / 128), (i, j));
            }
            for id in s.map().viewers(i, j) {
                let u = s.unit(id).expect("a listed viewer is known");
                assert!(!u.is_destroyed());
                let (i1, i2, j1, j2) = u.view().expect("a viewer sees").current();
                assert!(i1 <= i && i < i2 && j1 <= j && j < j2);
            }
        }
    }
    for &id in ids {
        if let Some(u) = s.unit(id) {
            if !u.is_destroyed() {
                let (i, j) = u.map_cell().get();
                assert!(s.map().units(i, j).contains(&id));
                if let Some(v) = u.view() {
                    let (i1, i2, j1, j2) = v.current();
                    for a in i1..i2 {
                        for b in j1..j2 {
                            assert!(s.map().viewers(a, b).contains(&id));
                        }
                    }
                }
            }
        }
    }
}

#[test]
fn hit_range_is_50() {
    assert_eq!(HIT_RANGE, 50);
}

#[test]
fn reach_is_a_circle_of_radius_50() {
    assert!(is_in_reach((100, 100), (100, 100)));
    assert!(is_in_reach((100, 100), (150, 100)));
    assert!(is_in_reach((100, 100), (100, 50)));
    assert!(is_in_reach((100, 100), (130, 140)));
    assert!(is_in_reach((100, 100), (70, 60)));
    assert!(!is_in_reach((100, 100), (151, 100)));
    assert!(!is_in_reach((100, 100), (131, 140)));
    assert!(!is_in_reach((100, 100), (150, 101)));
    assert!(!is_in_reach((100, 100), (136, 136)));
    assert!(is_in_reach((100, 100), (135, 135)));
    assert!(!is_in_reach((0, 0), (u32::MAX, u32::MAX)));
    assert!(!is_in_reach((u32::MAX, 0), (0, 0)));
    assert!(is_in_reach((u32::MAX, u32::MAX), (u32::MAX - 50, u32::MAX)));
}

#[test]
fn a_new_scene_is_empty() {
    let s = scene(1280, 640);
    assert_eq!(s.size(), (1280, 640));
    assert_eq!(s.map().dims(), (10, 5));
    assert_eq!(s.unit(1), None);
    assert_eq!(s.neighbours(1), Vec::<u32>::new());
}

#[test]
fn spawn_files_the_unit_and_turns_intruders_away() {
    let mut s = scene(1280, 1280);
    assert!(s.spawn(tank(1, 640, 640, 300)));
    let u = s.unit(1).unwrap();
    assert_eq!(u.map_cell().get(), (5, 5));
    assert_eq!(u.view().unwrap().current(), (2, 8, 2, 8));
    assert_eq!(s.map().units(5, 5), vec![1]);
    // The id is taken.
    assert!(!s.spawn(bullet(1, 10, 10, 1)));
    assert_eq!(s.unit(1), Some(u));
    assert_eq!(s.map().units(0, 0), Vec::<u32>::new());
    // Off the map.
    assert!(!s.spawn(bullet(2, 1280, 10, 1)));
    assert!(!s.spawn(bullet(2, 10, 1280, 1)));
    assert_eq!(s.unit(2), None);
    // Destroyed.
    let mut wreck = bullet(3, 10, 10, 1);
    wreck.destroy();
    assert!(!s.spawn(wreck));
    assert_eq!(s.unit(3), None);
    assert!(s.spawn(bullet(2, 1279, 1279, 1)));
    assert_eq!(s.map().units(9, 9), vec![2]);
    assert_settled(&s, &[1, 2, 3]);
}

#[test]
fn spawn_accepts_the_last_cell_of_a_map_that_ends_inside_it() {
    let mut s = scene(1300, 1300);
    assert_eq!(s.map().dims(), (11, 11));
    assert!(s.spawn(bullet(1, 1350, 1299, 9)));
    assert_eq!(s.unit(1).unwrap().map_cell().get(), (10, 10));
    assert!(!s.spawn(bullet(2, 1408, 0, 9)));
}

#[test]
fn cached_cell_follows_the_unit_through_any_calls() {
    let mut s = scene(1280, 1280);
    let ids = [1, 2, 3, 4];
    assert!(s.spawn(tank(1, 10, 10, 300)));
    assert!(s.spawn(tank(2, 640, 640, 200)));
    assert!(s.spawn(bullet(3, 640, 600, 1)));
    assert_settled(&s, &ids);
    assert!(s.move_unit(1, 500, 10));
    assert_settled(&s, &ids);
    assert!(s.move_unit(1, 501, 11));
    assert_settled(&s, &ids);
    assert!(s.move_unit(2, 1279, 0));
    assert_settled(&s, &ids);
    assert!(s.move_unit(3, 0, 1279));
    assert_settled(&s, &ids);
    s.destroy(2);
    assert_settled(&s, &ids);
    assert!(!s.move_unit(2, 5, 5));
    assert!(!s.move_unit(4, 5, 5));
    assert!(!s.move_unit(1, 1280, 5));
    assert_eq!(s.unit(1).unwrap().position(), (501, 11));
    assert!(s.spawn(bullet(4, 5, 5, 2)));
    s.destroy(1);
    s.destroy(1);
    s.forget(1);
    assert_eq!(s.unit(1), None);
    assert_settled(&s, &ids);
    assert_eq!(s.unit(3).unwrap().map_cell().get(), (0, 9));
    assert_eq!(s.map().units(0, 9), vec![3]);
    assert_eq!(s.map().units(0, 0), vec![4]);
}

#[test]
fn watched_cells_follow_the_sight_when_the_cell_changes() {
    let mut s = scene(1280, 1280);
    assert!(s.spawn(tank(1, 640, 640, 300)));
    assert!(s.move_unit(1, 100, 1200));
    let u = s.unit(1).unwrap();
    let r = s.map().view_rect(100, 1200, 300);
    assert_eq!((r.i1, r.i2, r.j1, r.j2), (0, 4, 7, 10));
    assert_eq!(u.view().unwrap().current(), (0, 4, 7, 10));
    for i in 0..10 {
        for j in 0..10 {
            let watched = i < 4 && j >= 7;
            assert_eq!(s.map().viewers(i, j), if watched { vec![1] } else { vec![] });
        }
    }
}

#[test]
fn destroy_takes_the_unit_off_the_map_once() {
    let mut s = scene(1280, 1280);
    assert!(s.spawn(tank(1, 640, 640, 300)));
    assert!(s.spawn(tank(2, 650, 650, 300)));
    s.destroy(1);
    let u = s.unit(1).unwrap();
    assert!(u.is_destroyed());
    assert_eq!(u.position(), (640, 640));
    assert_eq!(s.map().units(5, 5), vec![2]);
    assert_eq!(s.map().viewers(3, 3), vec![2]);
    assert_eq!(s.neighbours(1), Vec::<u32>::new());
    assert_eq!(s.neighbours(2), vec![2]);
    s.destroy(1);
    assert_eq!(s.unit(1), Some(u));
    assert_eq!(s.map().units(5, 5), vec![2]);
    assert_eq!(s.map().viewers(3, 3), vec![2]);
    s.destroy(7);
    assert_eq!(s.unit(7), None);
}

#[test]
fn forget_drops_only_the_destroyed() {
    let mut s = scene(1280, 1280);
    assert!(s.spawn(bullet(1, 640, 640, 9)));
    s.forget(1);
    assert!(s.unit(1).is_some());
    s.forget(2);
    s.destroy(1);
    s.forget(1);
    assert_eq!(s.unit(1), None);
    assert!(s.spawn(bullet(1, 10, 10, 9)));
    assert_eq!(s.map().units(0, 0), vec![1]);
}

#[test]
fn a_bullet_flies_200_in_two_seconds_and_is_gone_after_twenty() {
    let mut s = scene(1280, 1280);
    assert!(s.spawn(bullet(1, 0, 0, 9)));
    let (x, y) = flight(0, 0, 0.0, 100, 2.0);
    assert_eq!((x, y), (200, 0));
    Bullet::update(&mut s, 1, x, y);
    let b = s.unit(1).unwrap();
    assert_eq!(b.position(), (200, 0));
    assert!(!b.is_destroyed());
    assert_eq!(b.map_cell().get(), (1, 0));
    assert_eq!(s.map().units(1, 0), vec![1]);
    assert_eq!(s.map().units(0, 0), Vec::<u32>::new());
    let (x, y) = flight(0, 0, 0.0, 100, 20.0);
    assert_eq!((x, y), (2000, 0));
    Bullet::update(&mut s, 1, x, y);
    let b = s.unit(1).unwrap();
    assert!(b.is_destroyed());
    assert_eq!(b.position(), (200, 0));
    assert_eq!(s.map().units(1, 0), Vec::<u32>::new());
}

#[test]
fn a_bullet_leaves_the_map_on_every_side() {
    for (x, y) in [(-1, 5), (5, -1), (1280, 5), (5, 640), (i64::MIN, 0), (0, i64::MAX), (-1, -1)] {
        let mut s = scene(1280, 640);
        assert!(s.spawn(bullet(1, 5, 5, 9)));
        Bullet::update(&mut s, 1, x, y);
        assert!(s.unit(1).unwrap().is_destroyed());
        assert_eq!(s.map().units(0, 0), Vec::<u32>::new());
    }
    let mut s = scene(1280, 640);
    assert!(s.spawn(bullet(1, 5, 5, 9)));
    Bullet::update(&mut s, 1, 1279, 639);
    assert!(!s.unit(1).unwrap().is_destroyed());
    assert_eq!(s.unit(1).unwrap().position(), (1279, 639));
    Bullet::update(&mut s, 1, 0, 0);
    assert!(!s.unit(1).unwrap().is_destroyed());
    assert_eq!(s.map().units(0, 0), vec![1]);
}

#[test]
fn a_position_just_below_zero_is_off_the_map() {
    let angle = std::f64::consts::PI;
    let (x, y) = flight(0, 10, angle, 1, 0.5);
    assert_eq!(x, -1);
    assert_eq!(y, 10);
    let mut s = scene(1280, 640);
    assert!(s.spawn(bullet(1, 0, 10, 9)));
    Bullet::update(&mut s, 1, x, y);
    assert!(s.unit(1).unwrap().is_destroyed());
}

#[test]
fn a_hit_destroys_both_and_spares_the_own_side() {
    let mut s = scene(1280, 1280);
    assert!(s.spawn(tank(1, 650, 700, 200)));
    assert!(s.spawn(tank(2, 700, 700, 200)));
    assert!(s.spawn(bullet(11, 730, 740, 1)));
    assert!(s.spawn(bullet(10, 650, 700, 1)));
    Bullet::update(&mut s, 10, 700, 710);
    assert!(s.unit(10).unwrap().is_destroyed());
    assert!(s.unit(2).unwrap().is_destroyed());
    assert!(!s.unit(11).unwrap().is_destroyed());
    assert!(!s.unit(1).unwrap().is_destroyed());
    assert_eq!(s.unit(10).unwrap().position(), (700, 710));
    assert_eq!(s.map().units(5, 5), vec![1, 11]);
    for i in 0..10 {
        for j in 0..10 {
            assert!(!s.map().viewers(i, j).contains(&2));
        }
    }
    assert_settled(&s, &[1, 2, 10, 11]);
}

#[test]
fn a_bullet_destroys_every_enemy_in_reach() {
    let mut s = scene(1280, 1280);
    assert!(s.spawn(tank(1, 10, 10, 200)));
    assert!(s.spawn(tank(2, 700, 700, 200)));
    assert!(s.spawn(tank(3, 720, 700, 0)));
    assert!(s.spawn(bullet(20, 700, 750, 3)));
    assert!(s.spawn(bullet(21, 700, 761, 3)));
    assert!(s.spawn(bullet(10, 10, 10, 1)));
    Bullet::update(&mut s, 10, 700, 710);
    for id in [2, 3, 20, 10] {
        assert!(s.unit(id).unwrap().is_destroyed());
    }
    assert!(!s.unit(21).unwrap().is_destroyed());
    assert!(!s.unit(1).unwrap().is_destroyed());
    assert_eq!(s.map().units(5, 5), vec![21]);
    assert_eq!(s.map().units(0, 0), vec![1]);
    assert_settled(&s, &[1, 2, 3, 10, 20, 21]);
}

#[test]
fn a_miss_leaves_everyone_alive() {
    let mut s = scene(1280, 1280);
    assert!(s.spawn(tank(1, 10, 10, 200)));
    assert!(s.spawn(tank(2, 700, 700, 200)));
    assert!(s.spawn(bullet(10, 10, 10, 1)));
    Bullet::update(&mut s, 10, 700, 751);
    assert!(!s.unit(10).unwrap().is_destroyed());
    assert!(!s.unit(2).unwrap().is_destroyed());
    assert_eq!(s.unit(10).unwrap().position(), (700, 751));
    assert_eq!(s.map().units(5, 5), vec![2, 10]);
    assert_eq!(s.neighbours(10), vec![2, 10]);
}

#[test]
fn an_enemy_in_reach_but_in_the_next_cell_is_missed() {
    let mut s = scene(1280, 1280);
    assert!(s.spawn(tank(2, 640, 700, 200)));
    assert!(s.spawn(bullet(10, 10, 10, 1)));
    Bullet::update(&mut s, 10, 639, 700);
    assert!(!s.unit(10).unwrap().is_destroyed());
    assert!(!s.unit(2).unwrap().is_destroyed());
    assert_eq!(s.map().units(4, 5), vec![10]);
    assert_eq!(s.map().units(5, 5), vec![2]);
}

#[test]
fn updating_a_destroyed_bullet_changes_nothing() {
    let mut s = scene(1280, 1280);
    assert!(s.spawn(tank(2, 700, 700, 200)));
    assert!(s.spawn(bullet(10, 10, 10, 1)));
    Bullet::update(&mut s, 10, -5, 0);
    let wreck = s.unit(10).unwrap();
    assert!(wreck.is_destroyed());
    Bullet::update(&mut s, 10, 700, 700);
    assert_eq!(s.unit(10), Some(wreck));
    assert!(!s.unit(2).unwrap().is_destroyed());
    assert_eq!(s.map().units(5, 5), vec![2]);
    assert_eq!(s.map().units(0, 0), Vec::<u32>::new());
}

#[test]
fn update_is_for_bullets_only() {
    let mut s = scene(1280, 1280);
    assert!(s.spawn(tank(2, 700, 700, 200)));
    assert!(s.spawn(tank(3, 710, 700, 200)));
    let before = s.unit(2);
    Bullet::update(&mut s, 2, 710, 700);
    assert_eq!(s.unit(2), before);
    assert!(!s.unit(3).unwrap().is_destroyed());
    Bullet::update(&mut s, 99, 710, 700);
    assert_eq!(s.unit(99), None);
    assert_eq!(s.map().units(5, 5), vec![2, 3]);
}

#[test]
fn the_place_of_a_bullet_does_not_depend_on_earlier_ticks() {
    let angle = 0.7;
    let mut often = scene(1280, 1280);
    let mut once = scene(1280, 1280);
    assert!(often.spawn(bullet(1, 100, 100, 9)));
    assert!(once.spawn(bullet(1, 100, 100, 9)));
    for tick in 1..=40 {
        let (x, y) = flight(100, 100, angle, 100, tick as f64 * 0.1);
        Bullet::update(&mut often, 1, x, y);
    }
    let (x, y) = flight(100, 100, angle, 100, 40.0 * 0.1);
    assert_eq!((x, y), flight(100, 100, angle, 100, 40.0 * 0.1));
    Bullet::update(&mut once, 1, x, y);
    assert_eq!(often.unit(1), once.unit(1));
    assert_eq!(once.unit(1).unwrap().position(), (405, 357));
    assert_eq!(often.map().units(3, 2), vec![1]);
    assert_eq!(once.map().units(3, 2), vec![1]);
}

#[test]
fn hits_tells_who_would_be_hit() {
    let mut s = scene(1280, 1280);
    assert!(s.spawn(tank(1, 700, 700, 200)));
    assert!(s.spawn(tank(2, 700, 700, 200)));
    let b = Bullet { x: 700, y: 750, ..Bullet::new(10, 0, 0, BulletCfg::new(100), 1) };
    assert!(s.hits(&b, 2));
    assert!(!s.hits(&b, 1));
    assert!(!s.hits(&b, 10));
    assert!(!s.hits(&b, 55));
    let far = Bullet { x: 700, y: 751, ..b };
    assert!(!s.hits(&far, 2));
    s.destroy(2);
    assert!(!s.hits(&b, 2));
}
