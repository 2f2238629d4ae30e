use raytrace::integrator::{may_scatter, next_step, Step, MAX_DEPTH};

#[test]
fn miss_returns_sky_at_any_depth() {
    assert_eq!(next_step(0, false, true), Step::Sky);
    assert_eq!(next_step(0, false, false), Step::Sky);
    assert_eq!(next_step(49, false, true), Step::Sky);
    assert_eq!(next_step(50, false, true), Step::Sky);
    assert_eq!(next_step(255, false, false), Step::Sky);
}

#[test]
fn scatter_goes_one_level_deeper() {
    assert_eq!(next_step(0, true, true), Step::Scatter { depth: 1 });
    assert_eq!(next_step(17, true, true), Step::Scatter { depth: 18 });
    assert_eq!(next_step(49, true, true), Step::Scatter { depth: 50 });
}

#[test]
fn absorption_returns_black() {
    assert_eq!(next_step(0, true, false), Step::Black);
    assert_eq!(next_step(49, true, false), Step::Black);
}

#[test]
fn depth_bound_returns_black_even_when_scattered() {
    assert_eq!(MAX_DEPTH, 50);
    assert_eq!(next_step(50, true, true), Step::Black);
    assert_eq!(next_step(255, true, true), Step::Black);
}

#[test]
fn may_scatter_below_bound_only() {
    assert!(may_scatter(0));
    assert!(may_scatter(49));
    assert!(!may_scatter(50));
    assert!(!may_scatter(200));
}

#[test]
fn trapped_ray_ends_black_after_fifty_scatters() {
    // Two facing mirrors: every trace hits and every material scatters.
    let mut depth: u8 = 0;
    let mut scatters: u32 = 0;
    let mut traces: u32 = 0;
    let end = loop {
        traces += 1;
        assert!(traces <= 1000);
        match next_step(depth, true, may_scatter(depth)) {
            Step::Scatter { depth: d } => {
                scatters += 1;
                depth = d;
            }
            other => break other,
        }
    };
    assert_eq!(end, Step::Black);
    assert_eq!(scatters, 50);
    assert_eq!(traces, 51);
}

#[test]
fn path_that_escapes_ends_in_sky() {
    let reports = [(true, true), (true, true), (false, false)];
    let mut depth: u8 = 0;
    let mut end = None;
    for (hit, scattered) in reports {
        match next_step(depth, hit, scattered) {
            Step::Scatter { depth: d } => depth = d,
            other => {
                end = Some(other);
                break;
            }
        }
    }
    assert_eq!(end, Some(Step::Sky));
    assert_eq!(depth, 2);
}
