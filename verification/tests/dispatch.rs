use spark_core::coords::{Axis, CoordSys};
use spark_core::dispatch::{commit_write, plan_write, route, Error, HomeProp, Route};
use spark_core::settings::Repo;

#[test]
fn dispatch_routes_keys() {
    assert_eq!(route("m.3.current"), Ok(Route::MotorCurrent(3)));
    assert_eq!(route("m.0.microstep"), Ok(Route::MotorMicrostep(0)));
    assert_eq!(route("m.6.thresh"), Ok(Route::MotorThresh(6)));
    assert_eq!(route("m.+5.unitsteps"), Ok(Route::MotorUnitsteps(5)));
    assert_eq!(route("m.05.current"), Ok(Route::MotorCurrent(5)));
    assert_eq!(route("m.7.current"), Err(Error::UnknownKey));
    assert_eq!(route("m.x.current"), Err(Error::UnknownKey));
    assert_eq!(route("cs.w.pos.x"), Ok(Route::CoordOffset(CoordSys::Work, Axis::X)));
    assert_eq!(route("cs.g.pos.z"), Ok(Route::CoordOffset(CoordSys::Grinder, Axis::Z)));
    assert_eq!(route("cs.m.pos.z"), Err(Error::UnknownKey));
    assert_eq!(route("a.y.home.travel"), Ok(Route::AxisHome(Axis::Y, HomeProp::Travel)));
    assert_eq!(route("a.y.home.speed"), Err(Error::UnknownKey));
    assert_eq!(route("a.y.home.travel.x"), Err(Error::UnknownKey));
    assert_eq!(route(""), Err(Error::UnknownKey));
    assert_eq!(route("m..current"), Err(Error::UnknownKey));
}

#[test]
fn dispatch_every_repo_key_routes() {
    let r = Repo::defaults();
    for (k, _) in r.iter() {
        let k = String::from_utf8(k).unwrap();
        assert!(route(&k).is_ok(), "{}", k);
    }
}

#[test]
fn dispatch_write_commits_only_on_success() {
    let mut r = Repo::defaults();
    assert_eq!(plan_write(&r, "m.1.thresh"), Ok(Route::MotorThresh(1)));
    assert_eq!(plan_write(&r, "m.1.speed"), Err(Error::UnknownKey));
    let v = 5.0f32.to_bits();
    assert_eq!(commit_write(&mut r, "m.1.thresh", v, Err(Error::ApplyFailed)), Err(Error::ApplyFailed));
    assert_eq!(r.get("m.1.thresh"), Some(2.0f32.to_bits()));
    assert_eq!(commit_write(&mut r, "m.1.thresh", v, Ok(())), Ok(()));
    assert_eq!(r.get("m.1.thresh"), Some(v));
}
