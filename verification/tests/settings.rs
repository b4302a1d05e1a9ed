use spark_core::coords::{Axis, CoordSys};
use spark_core::settings::{axis_name, axis_parse, cs_name, cs_parse, Repo, Unknown, N_KEYS};

fn f(bits: u32) -> f32 {
    f32::from_bits(bits)
}

#[test]
fn settings_names() {
    assert_eq!(cs_name(CoordSys::Work), "w");
    assert_eq!(cs_name(CoordSys::Grinder), "g");
    assert_eq!(cs_parse("w"), Some(CoordSys::Work));
    assert_eq!(cs_parse("g"), Some(CoordSys::Grinder));
    assert_eq!(cs_parse("m"), None);
    assert_eq!(cs_parse("ww"), None);
    assert_eq!(axis_name(Axis::X), "x");
    assert_eq!(axis_name(Axis::Z), "z");
    assert_eq!(axis_parse("y"), Some(Axis::Y));
    assert_eq!(axis_parse("c"), None);
    assert_eq!(axis_parse(""), None);
}

#[test]
fn repo_defaults_in_order() {
    let r = Repo::defaults();
    let all = r.iter();
    assert_eq!(all.len(), N_KEYS);
    let keys: Vec<String> = all.iter().map(|(k, _)| String::from_utf8(k.clone()).unwrap()).collect();
    assert_eq!(&keys[..5], &["a.x.home.origin", "a.x.home.phase", "a.x.home.side", "a.x.home.travel", "a.y.home.origin"]);
    assert_eq!(keys[12], "cs.g.pos.x");
    assert_eq!(keys[17], "cs.w.pos.z");
    assert_eq!(keys[18], "m.0.current");
    assert_eq!(keys[45], "m.6.unitsteps");
    assert_eq!(r.get("a.x.home.phase").map(f), Some(1.0));
    assert_eq!(r.get("a.y.home.phase").map(f), Some(2.0));
    assert_eq!(r.get("a.z.home.phase").map(f), Some(0.0));
    assert_eq!(r.get("a.y.home.side").map(f), Some(-1.0));
    assert_eq!(r.get("a.z.home.side").map(f), Some(1.0));
    assert_eq!(r.get("a.x.home.travel").map(f), Some(500.0));
    assert_eq!(r.get("cs.w.pos.y").map(f), Some(0.0));
    assert_eq!(r.get("m.3.current").map(f), Some(30.0));
    assert_eq!(r.get("m.4.microstep").map(f), Some(32.0));
    assert_eq!(r.get("m.0.thresh").map(f), Some(2.0));
    assert_eq!(r.get("m.0.unitsteps").map(f), Some(200.0));
    assert_eq!(r.get("m.1.unitsteps").map(f), Some(-200.0));
    assert_eq!(r.get("m.2.unitsteps").map(f), Some(-200.0));
    assert_eq!(r.get("m.5.unitsteps").map(f), Some(6400.0));
    assert_eq!(r.get("m.6.unitsteps").map(f), Some(203.8));
    assert_eq!(r.get("m.7.current"), None);
    assert!(r.contains("cs.g.pos.z"));
    assert!(!r.contains("cs.m.pos.z"));
    assert!(!r.contains(""));
}

#[test]
fn repo_set_then_get() {
    let mut r = Repo::defaults();
    assert_eq!(r.set("m.2.current", 45.5f32.to_bits()), Ok(()));
    assert_eq!(r.get("m.2.current").map(f), Some(45.5));
    assert_eq!(r.get("m.1.current").map(f), Some(30.0));
    assert_eq!(r.set("m.9.current", 1.0f32.to_bits()), Err(Unknown));
    assert_eq!(r.get("m.9.current"), None);
    // the order is kept
    let keys: Vec<Vec<u8>> = r.iter().into_iter().map(|(k, _)| k).collect();
    let keys0: Vec<Vec<u8>> = Repo::defaults().iter().into_iter().map(|(k, _)| k).collect();
    assert_eq!(keys, keys0);
}
