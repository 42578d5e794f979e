use mayara::guard_zone::{check_zone, GuardZone, GuardZoneProcessor};
use mayara::spokes::{decimate, output_spoke_index, SpokeReducer, SpokeStore};

#[test]
fn decimation_keeps_peaks() {
    let len = 64;
    let base: Vec<u8> = (0..len).map(|i| (i % 7) as u8).collect();
    let mut spokes: Vec<Vec<u8>> = vec![base.clone(); 8192];
    spokes[4097][10] = 200;
    let out = decimate(&spokes, 4, len);
    assert_eq!(out.len(), 2048);
    let k = output_spoke_index(4097, 4) as usize;
    assert_eq!(k, 1024);
    assert_eq!(out[k][10], 200);
    assert_eq!(out[k][11], base[11]);
    assert_eq!(out[k + 1][10], base[10]);
}

#[test]
fn decimation_takes_elementwise_max() {
    let spokes = vec![vec![1, 9, 3], vec![4, 2, 6], vec![0, 0, 0], vec![5, 5, 5]];
    assert_eq!(decimate(&spokes, 2, 3), vec![vec![4, 9, 6], vec![5, 5, 5]]);
    assert_eq!(decimate(&Vec::new(), 4, 3), Vec::<Vec<u8>>::new());
}

#[test]
fn spoke_store_one_per_index() {
    let mut store = SpokeStore::new(4);
    assert_eq!(store.received(), 0);
    assert!(store.update_spoke(2, vec![1, 2, 3]));
    assert!(store.update_spoke(2, vec![7]));
    assert!(store.update_spoke(0, vec![5]));
    assert!(!store.update_spoke(4, vec![5]));
    assert_eq!(store.received(), 2);
    assert_eq!(store.get(2), Some(&vec![7]));
    assert_eq!(store.get(1), None);
    store.clear();
    assert_eq!(store.received(), 0);
}

fn zone() -> GuardZone {
    GuardZone {
        id: 1,
        enabled: true,
        start_bearing: 0,
        end_bearing: 900,
        inner_meters: 500,
        outer_meters: 1000,
        sensitivity: 128,
    }
}

#[test]
fn guard_zone_alerts_once_per_revolution() {
    let mut p = GuardZoneProcessor::new();
    p.set_zone(zone());
    // 1000 bins over 1500 m: bin 500 is at 750 m.
    let mut spoke = vec![0u8; 1000];
    spoke[500] = 200;
    assert_eq!(p.check_spoke(450, 1500, &spoke), vec![1]);
    assert_eq!(p.check_spoke(451, 1500, &spoke), Vec::<u32>::new());
    p.new_revolution();
    assert_eq!(p.check_spoke(450, 1500, &spoke), vec![1]);
}

#[test]
fn guard_zone_misses() {
    let z = zone();
    let mut spoke = vec![0u8; 1000];
    spoke[500] = 200;
    assert!(check_zone(&z, 450, 1500, &spoke));
    // Outside the arc.
    assert!(!check_zone(&z, 1800, 1500, &spoke));
    // Too weak.
    spoke[500] = 127;
    assert!(!check_zone(&z, 450, 1500, &spoke));
    // Beyond the outer distance (bin 900 is at 1350 m).
    spoke[900] = 255;
    assert!(!check_zone(&z, 450, 1500, &spoke));
    // Disabled.
    let mut off = zone();
    off.enabled = false;
    spoke[500] = 255;
    assert!(!check_zone(&off, 450, 1500, &spoke));
    // An arc through north.
    let mut north = zone();
    north.start_bearing = 3500;
    north.end_bearing = 100;
    assert!(check_zone(&north, 3550, 1500, &spoke));
    assert!(check_zone(&north, 50, 1500, &spoke));
    assert!(!check_zone(&north, 200, 1500, &spoke));
}

#[test]
fn guard_zone_replace_and_remove() {
    let mut p = GuardZoneProcessor::new();
    p.set_zone(zone());
    let mut z2 = zone();
    z2.sensitivity = 10;
    p.set_zone(z2);
    assert_eq!(p.zones().len(), 1);
    assert_eq!(p.zones()[0].sensitivity, 10);
    assert!(p.remove_zone(1));
    assert!(!p.remove_zone(1));
    assert!(p.zones().is_empty());
}

#[test]
fn reducer_emits_each_output_once_per_revolution() {
    let len = 16;
    let mut r = SpokeReducer::new(8192, 4, len);
    let base = vec![3u8; len];
    let mut out = Vec::new();
    for i in 0..8192usize {
        let mut d = base.clone();
        if i == 4097 {
            d[10] = 200;
        }
        if let Some(o) = r.push(i, &d) {
            out.push(o);
        }
    }
    assert_eq!(out.len(), 2048);
    assert_eq!(out[1024].0, 1024);
    assert_eq!(out[1024].1[10], 200);
    assert_eq!(out[1025].1[10], 3);
    // A repeated spoke later in the same revolution emits nothing.
    assert!(r.push(8191, &base).is_none());
    // A lower index starts the next revolution.
    assert!(r.push(0, &base).is_none());
    assert!(r.push(3, &base).is_some());
    assert!(r.push(9000, &base).is_none());
    assert!(r.push(4, &[1, 2]).is_none());
}
