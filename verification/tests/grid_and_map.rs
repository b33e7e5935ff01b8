use battle_grid::grid::Grid;
use battle_grid::map::{MapCfg, SceneMap, CELL_SIZE};
use battle_grid::viewport::PlayerView;
use battle_grid::unit::{Bullet, BulletCfg, CellRect, MapCell, Tank, Unit, View};
use battle_grid::util::{div_ceil, is_inside_rectangle};

fn cfg(width: u32, height: u32) -> MapCfg {
    MapCfg { width, height, tile_size: 64, tile_cols: width / 64, tile_rows: height / 64 }
}

fn tank(id: u32, x: u32, y: u32, range: u32) -> Unit {
    Unit::Tank(Tank::new(id, x, y, range))
}

fn bullet(id: u32, x: u32, y: u32, tank: u32) -> Unit {
    Unit::Bullet(Bullet::new(id, x, y, BulletCfg::new(100), tank))
}

#[test]
fn div_ceil_rounds_up() {
    assert_eq!(div_ceil(0, 128), 0);
    assert_eq!(div_ceil(1, 128), 1);
    assert_eq!(div_ceil(128, 128), 1);
    assert_eq!(div_ceil(129, 128), 2);
    assert_eq!(div_ceil(940, 128), 8);
    assert_eq!(div_ceil(1280, 128), 10);
    assert_eq!(div_ceil(1281, 128), 11);
    assert_eq!(div_ceil(u32::MAX, 128), 33_554_432);
    assert_eq!(div_ceil(u32::MAX, 1), u32::MAX);
    assert_eq!(div_ceil(u32::MAX, u32::MAX), 1);
    assert_eq!(div_ceil(7, 3), 3);
}

#[test]
fn inside_rectangle_is_half_open() {
    assert!(is_inside_rectangle(2, 8, 2, 8, 2, 2));
    assert!(is_inside_rectangle(2, 8, 2, 8, 7, 7));
    assert!(!is_inside_rectangle(2, 8, 2, 8, 8, 7));
    assert!(!is_inside_rectangle(2, 8, 2, 8, 7, 8));
    assert!(!is_inside_rectangle(2, 8, 2, 8, 1, 5));
    assert!(!is_inside_rectangle(2, 8, 2, 8, 5, 1));
    assert!(!is_inside_rectangle(0, 0, 0, 0, 0, 0));
    assert!(!is_inside_rectangle(5, 3, 0, 9, 4, 4));
}

#[test]
fn cell_size_is_128() {
    assert_eq!(CELL_SIZE, 128);
}

#[test]
fn map_cell_and_view_keep_what_they_are_given() {
    let mut c = MapCell::new();
    assert_eq!(c.get(), (0, 0));
    c.set(3, 4);
    assert_eq!(c.get(), (3, 4));
    let mut v = View::new(300);
    assert_eq!(v.range, 300);
    assert_eq!(v.current(), (0, 0, 0, 0));
    v.current_update(2, 8, 1, 9);
    assert_eq!(v.current(), (2, 8, 1, 9));
    assert_eq!(v.range, 300);
}

#[test]
fn new_units_start_unplaced_and_alive() {
    let b = Bullet::new(7, 11, 13, BulletCfg::new(100), 3);
    assert_eq!((b.id, b.x0, b.y0, b.x, b.y, b.tank), (7, 11, 13, 11, 13, 3));
    assert_eq!(b.cfg.speed, 100);
    assert_eq!(b.map_cell.get(), (0, 0));
    assert!(!b.destroyed);
    let t = Tank::new(3, 640, 650, 300);
    assert_eq!((t.id, t.x, t.y, t.view.range), (3, 640, 650, 300));
    assert_eq!(t.view.current(), (0, 0, 0, 0));
    assert!(!t.destroyed);
    let u = Unit::Bullet(b);
    assert_eq!(u.id(), 7);
    assert_eq!(u.position(), (11, 13));
    assert_eq!(u.side(), 3);
    assert!(u.view().is_none());
    let w = Unit::Tank(t);
    assert_eq!(w.id(), 3);
    assert_eq!(w.side(), 3);
    assert_eq!(w.position(), (640, 650));
    assert_eq!(w.view().map(|v| v.range), Some(300));
}

#[test]
fn unit_setters_change_one_thing() {
    let mut u = tank(1, 10, 20, 30);
    u.set_position(40, 50);
    assert_eq!(u, Unit::Tank(Tank { x: 40, y: 50, ..Tank::new(1, 10, 20, 30) }));
    u.set_map_cell(2, 3);
    assert_eq!(u.map_cell().get(), (2, 3));
    u.set_watched(1, 2, 3, 4);
    assert_eq!(u.view().map(|v| v.current()), Some((1, 2, 3, 4)));
    assert_eq!(u.view().map(|v| v.range), Some(30));
    assert!(!u.is_destroyed());
    u.destroy();
    assert!(u.is_destroyed());
    let once = u;
    u.destroy();
    assert_eq!(u, once);
    let mut b = bullet(9, 1, 2, 1);
    b.set_watched(1, 2, 3, 4);
    assert_eq!(b, bullet(9, 1, 2, 1));
    b.set_position(5, 6);
    assert_eq!(b.position(), (5, 6));
    b.set_map_cell(7, 8);
    assert_eq!(b.map_cell().get(), (7, 8));
}

#[test]
fn a_bullet_spares_itself_and_its_own_side() {
    let b = Bullet::new(10, 0, 0, BulletCfg::new(100), 1);
    assert!(!Unit::Bullet(b).can_be_destroyed(&b));
    assert!(!tank(1, 0, 0, 10).can_be_destroyed(&b));
    assert!(!bullet(11, 0, 0, 1).can_be_destroyed(&b));
    assert!(tank(2, 0, 0, 10).can_be_destroyed(&b));
    assert!(bullet(12, 0, 0, 2).can_be_destroyed(&b));
}

#[test]
fn grid_lists_keep_the_order_of_arrival() {
    let mut g = Grid::new(3, 4);
    assert_eq!((g.cols(), g.rows()), (4, 3));
    g.add(3, 2, 5);
    g.add(3, 2, 9);
    g.add(3, 2, 1);
    g.add(3, 2, 9);
    assert_eq!(g.for_each(3, 2), vec![5, 9, 1]);
    assert_eq!(g.for_each(0, 0), Vec::<u32>::new());
    g.remove(3, 2, 9);
    assert_eq!(g.for_each(3, 2), vec![5, 1]);
    g.remove(3, 2, 9);
    assert_eq!(g.for_each(3, 2), vec![5, 1]);
    g.add(3, 2, 9);
    assert_eq!(g.for_each(3, 2), vec![5, 1, 9]);
    assert_eq!(g.viewers(3, 2), Vec::<u32>::new());
}

#[test]
fn grid_viewers_are_kept_apart_from_units() {
    let mut g = Grid::new(2, 2);
    g.add_viewer(1, 0, 4);
    g.add_viewer(1, 0, 6);
    g.add_viewer(1, 0, 4);
    assert_eq!(g.viewers(1, 0), vec![4, 6]);
    assert_eq!(g.for_each(1, 0), Vec::<u32>::new());
    g.remove_viewer(1, 0, 4);
    assert_eq!(g.viewers(1, 0), vec![6]);
    g.remove_viewer(1, 0, 4);
    assert_eq!(g.viewers(1, 0), vec![6]);
    assert_eq!(g.viewers(0, 1), Vec::<u32>::new());
}

#[test]
fn grid_unit_moved_changes_both_cells() {
    let mut g = Grid::new(2, 2);
    g.add(0, 0, 1);
    g.add(0, 0, 2);
    g.add(1, 1, 3);
    g.unit_moved(0, 0, 1, 1, 1);
    assert_eq!(g.for_each(0, 0), vec![2]);
    assert_eq!(g.for_each(1, 1), vec![3, 1]);
    g.unit_moved(1, 1, 1, 1, 3);
    assert_eq!(g.for_each(1, 1), vec![1, 3]);
}

#[test]
fn a_map_of_1280_has_ten_by_ten_cells_and_files_the_middle_under_5_5() {
    let mut map = SceneMap::new(cfg(1280, 1280));
    assert_eq!(map.dims(), (10, 10));
    assert_eq!(map.size(), (1280, 1280));
    let mut u = bullet(1, 640, 640, 9);
    map.add(&mut u);
    assert_eq!(u.map_cell().get(), (5, 5));
    assert_eq!(map.units(5, 5), vec![1]);
    assert_eq!(map.for_each(&u), vec![1]);
    for i in 0..10 {
        for j in 0..10 {
            if (i, j) != (5, 5) {
                assert!(map.units(i, j).is_empty());
            }
            assert!(map.viewers(i, j).is_empty());
        }
    }
}

#[test]
fn map_dims_round_up() {
    assert_eq!(SceneMap::new(cfg(1281, 129)).dims(), (11, 2));
    assert_eq!(SceneMap::new(cfg(1, 1)).dims(), (1, 1));
    assert_eq!(SceneMap::new(cfg(128, 256)).dims(), (1, 2));
    assert_eq!(SceneMap::new(cfg(1300, 640)).cfg(), cfg(1300, 640));
}

#[test]
fn a_range_of_300_in_the_middle_watches_cells_2_to_8() {
    let mut map = SceneMap::new(cfg(1280, 1280));
    assert_eq!(map.view_rect(640, 640, 300), CellRect { i1: 2, i2: 8, j1: 2, j2: 8 });
    let mut u = tank(1, 640, 640, 300);
    map.add(&mut u);
    assert_eq!(u.view().map(|v| v.current()), Some((2, 8, 2, 8)));
    for i in 0..10 {
        for j in 0..10 {
            let watched = (2..8).contains(&i) && (2..8).contains(&j);
            assert_eq!(map.viewers(i, j), if watched { vec![1] } else { vec![] });
        }
    }
}

#[test]
fn view_rectangle_is_cut_off_at_the_borders() {
    let map = SceneMap::new(cfg(1280, 640));
    assert_eq!(map.view_rect(10, 10, 300), CellRect { i1: 0, i2: 3, j1: 0, j2: 3 });
    assert_eq!(map.view_rect(1270, 630, 300), CellRect { i1: 7, i2: 10, j1: 2, j2: 5 });
    assert_eq!(map.view_rect(640, 320, 0), CellRect { i1: 5, i2: 5, j1: 2, j2: 3 });
    assert_eq!(map.view_rect(641, 320, 0), CellRect { i1: 5, i2: 6, j1: 2, j2: 3 });
    assert_eq!(
        map.view_rect(640, 320, u32::MAX),
        CellRect { i1: 0, i2: 10, j1: 0, j2: 5 }
    );
    assert_eq!(
        map.view_rect(u32::MAX, u32::MAX, 5),
        CellRect { i1: 33_554_431, i2: 10, j1: 33_554_431, j2: 5 }
    );
}

#[test]
fn moving_inside_a_cell_changes_nothing() {
    let mut map = SceneMap::new(cfg(1280, 1280));
    let mut other = tank(2, 650, 650, 10);
    map.add(&mut other);
    let mut u = tank(1, 640, 640, 100);
    map.add(&mut u);
    assert_eq!(u.view().map(|v| v.current()), Some((4, 6, 4, 6)));
    let before: Vec<(Vec<u32>, Vec<u32>)> = cells(&map);
    u.set_position(767, 767);
    let expected = u;
    map.unit_moved(&mut u);
    assert_eq!(u, expected);
    assert_eq!(u.view().map(|v| v.current()), Some((4, 6, 4, 6)));
    assert_eq!(u.map_cell().get(), (5, 5));
    assert_eq!(cells(&map), before);
    assert_eq!(map.view_rect(767, 767, 100), CellRect { i1: 5, i2: 7, j1: 5, j2: 7 });
}

fn cells(map: &SceneMap) -> Vec<(Vec<u32>, Vec<u32>)> {
    let (cols, rows) = map.dims();
    let mut all = Vec::new();
    for i in 0..cols {
        for j in 0..rows {
            all.push((map.units(i, j), map.viewers(i, j)));
        }
    }
    all
}

#[test]
fn moving_to_another_cell_exchanges_the_subscriptions() {
    let mut map = SceneMap::new(cfg(1280, 1280));
    let mut early = tank(2, 700, 650, 1);
    map.add(&mut early);
    let mut u = tank(1, 640, 640, 100);
    map.add(&mut u);
    let mut late = tank(3, 700, 650, 1);
    map.add(&mut late);
    assert_eq!(map.viewers(5, 5), vec![2, 1, 3]);
    assert_eq!(map.units(5, 5), vec![2, 1, 3]);
    u.set_position(768, 640);
    map.unit_moved(&mut u);
    assert_eq!(u.map_cell().get(), (6, 5));
    assert_eq!(u.view().map(|v| v.current()), Some((5, 7, 4, 6)));
    assert_eq!(map.units(5, 5), vec![2, 3]);
    assert_eq!(map.units(6, 5), vec![1]);
    // Cells watched before and after keep the unit at its place in the order.
    assert_eq!(map.viewers(5, 5), vec![2, 1, 3]);
    assert_eq!(map.viewers(5, 4), vec![1]);
    // Cells left.
    assert_eq!(map.viewers(4, 4), Vec::<u32>::new());
    assert_eq!(map.viewers(4, 5), Vec::<u32>::new());
    // Cells entered.
    assert_eq!(map.viewers(6, 4), vec![1]);
    assert_eq!(map.viewers(6, 5), vec![1]);
    assert_eq!(map.viewers(7, 5), Vec::<u32>::new());
    assert_eq!(map.viewers(5, 6), Vec::<u32>::new());
}

#[test]
fn moving_to_another_cell_with_the_same_sight_keeps_the_subscriptions() {
    let mut map = SceneMap::new(cfg(1280, 1280));
    let mut u = tank(1, 127, 10, 200);
    map.add(&mut u);
    assert_eq!(u.view().map(|v| v.current()), Some((0, 3, 0, 2)));
    let watched: Vec<Vec<u32>> = cells(&map).into_iter().map(|c| c.1).collect();
    u.set_position(128, 10);
    map.unit_moved(&mut u);
    assert_eq!(u.map_cell().get(), (1, 0));
    assert_eq!(u.view().map(|v| v.current()), Some((0, 3, 0, 2)));
    assert_eq!(cells(&map).into_iter().map(|c| c.1).collect::<Vec<_>>(), watched);
    assert_eq!(map.units(0, 0), Vec::<u32>::new());
    assert_eq!(map.units(1, 0), vec![1]);
}

#[test]
fn removing_twice_is_removing_once() {
    let mut map = SceneMap::new(cfg(1280, 1280));
    let mut a = tank(1, 640, 640, 300);
    let mut b = tank(2, 600, 600, 300);
    map.add(&mut a);
    map.add(&mut b);
    map.remove(&a);
    let once = cells(&map);
    for c in &once {
        assert!(!c.0.contains(&1));
        assert!(!c.1.contains(&1));
    }
    assert_eq!(map.units(4, 4), vec![2]);
    assert_eq!(map.viewers(2, 2), vec![2]);
    map.remove(&a);
    assert_eq!(cells(&map), once);
}

#[test]
fn removing_an_unknown_unit_changes_nothing() {
    let mut map = SceneMap::new(cfg(1280, 1280));
    let mut a = tank(1, 10, 10, 300);
    map.add(&mut a);
    let before = cells(&map);
    map.remove(&tank(2, 10, 10, 300));
    map.remove(&bullet(3, 500, 500, 1));
    assert_eq!(cells(&map), before);
}

#[test]
fn the_viewport_picks_the_cells_and_tiles_it_meets() {
    let map = SceneMap::new(cfg(1280, 640));
    let view = PlayerView { x: 100, y: 130, width: 300, height: 200 };
    assert_eq!(map.visible_cells(&view), CellRect { i1: 0, i2: 4, j1: 1, j2: 3 });
    assert_eq!(map.visible_tiles(&view), CellRect { i1: 1, i2: 7, j1: 2, j2: 6 });
    let wide = PlayerView { x: 1000, y: 600, width: 5000, height: 5000 };
    assert_eq!(map.visible_cells(&wide), CellRect { i1: 7, i2: 10, j1: 4, j2: 5 });
    assert_eq!(map.visible_tiles(&wide), CellRect { i1: 15, i2: 20, j1: 9, j2: 10 });
    let far = PlayerView { x: u32::MAX, y: u32::MAX, width: u32::MAX, height: u32::MAX };
    assert_eq!(
        map.visible_cells(&far),
        CellRect { i1: 33_554_431, i2: 10, j1: 33_554_431, j2: 5 }
    );
    assert_eq!(view.offset(640, 100), (540, -30));
    assert_eq!(map.tile_offset(&view, 1, 3), (-36, 62));
}

#[test]
fn draw_lists_the_units_of_the_visible_cells_column_by_column() {
    let mut map = SceneMap::new(cfg(1280, 640));
    let mut units = vec![
        bullet(1, 300, 300, 9),
        bullet(2, 10, 200, 9),
        bullet(3, 10, 10, 9),
        bullet(4, 130, 140, 9),
        bullet(5, 20, 190, 9),
        bullet(6, 600, 140, 9),
        bullet(7, 140, 400, 9),
    ];
    for u in units.iter_mut() {
        map.add(u);
    }
    let view = PlayerView { x: 100, y: 130, width: 300, height: 200 };
    assert_eq!(map.draw(&view), vec![2, 5, 4, 1]);
    let nothing = PlayerView { x: 100, y: 130, width: 300, height: 0 };
    assert_eq!(map.visible_cells(&nothing), CellRect { i1: 0, i2: 4, j1: 1, j2: 2 });
    let all = PlayerView { x: 0, y: 0, width: 2000, height: 2000 };
    assert_eq!(map.draw(&all), vec![3, 2, 5, 4, 7, 1, 6]);
}

#[test]
fn units_are_named_by_their_kind() {
    assert_eq!(tank(1, 0, 0, 0).name(), "tank");
    assert_eq!(bullet(2, 0, 0, 1).name(), "bullet");
}
