//! The static planner: one polled declaration serves every need, and every
//! reason not to plan is loud.

use std::time::Duration;

use nv_telemetry::orchestration::plan::{plan, PlanError, PollNeed, ProviderDeclaration, MAX_CADENCE_NANOS};
use nv_telemetry::schema::invalid::Violation;
use nv_telemetry::schema::records::EndpointContext;

fn endpoint() -> EndpointContext {
    EndpointContext::builder().endpoint_id("bmc-lab-07").build().expect("a valid endpoint")
}

fn nanos(duration: Duration) -> u128 {
    duration.as_nanos()
}

#[test]
fn the_one_polled_declaration_serves_every_need() {
    let declarations = [ProviderDeclaration::polled("redfish.sensor.odata", "sensor-read", 1)];
    let needs = vec![
        PollNeed::new(endpoint(), "/redfish/v1/S/1", nanos(Duration::from_secs(30))),
        PollNeed::new(endpoint(), "/redfish/v1/S/2", nanos(Duration::from_secs(60))),
    ];

    let plan = plan(needs, &declarations).expect("a polled declaration exists");
    assert_eq!(plan.polls().len(), 2);
    for poll in plan.polls() {
        assert_eq!(poll.origin().provider(), "redfish.sensor.odata");
        assert_eq!(poll.origin().request_class(), "sensor-read");
        assert_eq!(poll.cost(), 1);
    }
    assert_eq!(plan.polls()[0].target(), "/redfish/v1/S/1");
    assert_eq!(plan.polls()[1].cadence(), nanos(Duration::from_secs(60)));
}

#[test]
fn planning_fails_loudly_without_a_polled_provider() {
    let error = plan(Vec::new(), &[]).expect_err("nothing polls");
    assert!(matches!(error, PlanError::NoPolledProvider));

    let declarations = [ProviderDeclaration::pushed("redfish.events", "sse", 1)];
    let error = plan(Vec::new(), &declarations).expect_err("nothing polls");
    assert!(matches!(error, PlanError::NoPolledProvider));
    assert_eq!(error.message(), "no declaration offers polled acquisition");
}

#[test]
fn a_second_polled_provider_is_a_loud_error_not_a_coin_toss() {
    let declarations = [
        ProviderDeclaration::polled("redfish.sensor.odata", "sensor-read", 1),
        ProviderDeclaration::polled("redfish.sensor.telemetry", "report-read", 2),
    ];
    let error = plan(Vec::new(), &declarations).expect_err("matching does not exist yet");
    assert!(matches!(error, PlanError::AmbiguousProviders));
}

#[test]
fn an_invalid_declaration_fails_at_plan_time() {
    let declarations = [ProviderDeclaration::polled("", "sensor-read", 1)];
    let error = plan(Vec::new(), &declarations).expect_err("an empty provider is invalid");
    assert!(matches!(&error, PlanError::InvalidDeclaration { provider, .. } if provider.is_empty()));
    if let PlanError::InvalidDeclaration { error, .. } = &error {
        assert_eq!(error.path(), "provider");
        assert_eq!(error.violation(), &Violation::Empty);
    }
    assert_eq!(error.message(), "declaration for `` cannot form a wire origin: `provider`: present but empty");

    let declarations = [ProviderDeclaration::polled("p", "c", 0)];
    let error = plan(Vec::new(), &declarations).expect_err("zero cost disables rating");
    assert!(matches!(error, PlanError::ZeroCost { .. }));
    assert_eq!(error.message(), "declaration for `p` costs zero, which would disable rate limiting");
}

#[test]
fn a_zero_or_unbounded_cadence_fails_at_plan_time() {
    let declarations = [ProviderDeclaration::polled("p", "c", 1)];
    for cadence in [Duration::ZERO, Duration::MAX] {
        let needs = vec![PollNeed::new(endpoint(), "/redfish/v1/S/1", nanos(cadence))];
        let error = plan(needs, &declarations).expect_err("an unusable cadence is refused");
        assert!(matches!(error, PlanError::InvalidCadence { .. }));
        assert_eq!(error.message(), "cadence for `/redfish/v1/S/1` must be positive and at most a year");
    }
}

#[test]
fn a_year_long_cadence_is_the_last_one_accepted() {
    let declarations = [ProviderDeclaration::polled("p", "c", 3)];
    let year = nanos(Duration::from_secs(366 * 24 * 3600));
    assert_eq!(year, MAX_CADENCE_NANOS);
    let needs = vec![PollNeed::new(endpoint(), "/a", year)];
    assert!(plan(needs, &declarations).is_ok());

    // The first unusable need is the one named, though others follow it.
    let needs = vec![
        PollNeed::new(endpoint(), "/a", year),
        PollNeed::new(endpoint(), "/b", year + 1),
        PollNeed::new(endpoint(), "/c", 0),
    ];
    let error = plan(needs, &declarations).expect_err("one need is beyond a year");
    assert!(matches!(&error, PlanError::InvalidCadence { target } if target == "/b"));
}
