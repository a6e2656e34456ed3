use callbacks::footprint::Footprint;
use callbacks::system::{IntoCallbackSystem, PrimOp, PureFn, Req, Request, Task};

struct Ping;

impl Request for Ping {
    type Response = u64;
}

#[test]
fn request_kind_fixes_response_kind() {
    // The association is type-level: the response kind of `Ping` is `u64`.
    let response: <Ping as Request>::Response = 42;
    assert_eq!(response, 42);
}

#[test]
fn wrap_holds_the_request_value() {
    let wrapped = Req::wrap(41u64);
    assert_eq!(wrapped.0, 41);
    let Ping = Req::wrap(Ping).0;
}

#[test]
fn task_converts_into_itself() {
    let t = Task::Primitive {
        footprint: Footprint { reads: vec![1], writes: vec![] },
        op: PrimOp::Compute(PureFn::Identity),
    };
    let s = <Task as IntoCallbackSystem>::into_system(t);
    match s {
        Task::Primitive { footprint, op } => {
            assert_eq!(footprint.reads, vec![1]);
            assert_eq!(footprint.writes, vec![]);
            assert_eq!(op, PrimOp::Compute(PureFn::Identity));
        },
        _ => panic!("conversion must preserve the task"),
    }
}
