//! Query-signal answers: the names used in `?pos` and the `?queue` p-state.

use vstd::prelude::*;

use crate::commands::CMD_QUEUE_CAP;
use crate::coords::CoordSys;
use crate::pstate::{app, int_app, tag_bytes, Line, LineV, PsType};
use vstd::string::StringSliceAdditionalSpecFns;

verus! {

/// Full name for the `?pos` `sys` field.
pub fn sys_name(cs: CoordSys) -> (r: &'static str)
    ensures
        r@ == match cs {
            CoordSys::Machine => "machine"@,
            CoordSys::Grinder => "grinder"@,
            CoordSys::Work => "work"@,
        },
{
    match cs {
        CoordSys::Machine => "machine",
        CoordSys::Grinder => "grinder",
        CoordSys::Work => "work",
    }
}

/// Key prefix for `?pos` axis fields.
pub fn pos_prefix(cs: CoordSys) -> (r: &'static str)
    ensures
        r@ == match cs {
            CoordSys::Machine => "m"@,
            CoordSys::Grinder => "g"@,
            CoordSys::Work => "w"@,
        },
{
    match cs {
        CoordSys::Machine => "m",
        CoordSys::Grinder => "g",
        CoordSys::Work => "w",
    }
}

/// The `?queue` answer: `queue cap:<CMD_QUEUE_CAP> num:<num>`, where `num`
/// counts queued plus executing commands.
pub fn queue_line(num: usize) -> (r: Line)
    ensures
        r.wf(),
        r@ == int_app(
            int_app(
                app(LineV { bytes: Seq::empty(), overflowed: false }, tag_bytes(PsType::Queue)),
                "cap".spec_bytes(),
                CMD_QUEUE_CAP as int,
            ),
            "num".spec_bytes(),
            (num as i32) as int,
        ),
{
    let n: i32 = #[verifier::truncate] (num as i32);
    Line::new(PsType::Queue).integer("cap", CMD_QUEUE_CAP as i32).integer("num", n)
}

} // verus!
