//! One check-and-publish cycle: apply probe results, then record them.
use vstd::prelude::*;
use crate::history::{Check, History, HistoryModel, record_spec};
use crate::service::{Service, ServiceGroup, apply_results, flat, flatten, set_statuses};

verus! {

/// Record, for each service in order, a check at `ts` with its current status.
pub open spec fn record_services(doc: HistoryModel, services: Seq<Service>, ts: String, max: nat) -> HistoryModel
    decreases services.len(),
{
    if services.len() == 0 {
        doc
    } else {
        record_spec(
            record_services(doc, services.drop_last(), ts, max),
            services.last().name@,
            Check { timestamp: ts, status: services.last().up },
            max,
        )
    }
}

/// What holds of every UTC timestamp in RFC 3339 form: at least a four-digit
/// year, `-MM-DDTHH:MM:SS`, and the offset `+00:00` at the end.
pub open spec fn utc_stamp_shape(s: Seq<char>) -> bool {
    s.len() >= 25 && s.subrange(s.len() - 6, s.len() as int) == "+00:00"@
}

/// Relies on chrono's `Utc::now` and `DateTime::to_rfc3339`: the current time as
/// an RFC 3339 string, whose offset for UTC is written `+00:00`. Nothing is
/// claimed of which time it is.
#[verifier::external_body]
fn now_rfc3339() -> (r: String)
    ensures
        utc_stamp_shape(r@),
{
    chrono::Utc::now().to_rfc3339()
}

/// Record one check at `timestamp` for every service, in order, each with its
/// current status, keeping at most `max_history` checks per service.
pub fn record_cycle(history: &mut History, services: &Vec<Service>, timestamp: &String, max_history: u32)
    requires
        old(history).wf(),
    ensures
        final(history).wf(),
        final(history)@ == record_services(old(history)@, services@, *timestamp, max_history as nat),
{
    let mut i: usize = 0;
    while i < services.len()
        invariant
            i <= services.len(),
            history.wf(),
            history@ == record_services(old(history)@, services@.subrange(0, i as int), *timestamp, max_history as nat),
        decreases services.len() - i,
    {
        let check = Check { timestamp: timestamp.clone(), status: services[i].up };
        history.record(&services[i].name, check, max_history);
        assert(services@.subrange(0, i + 1).drop_last() =~= services@.subrange(0, i as int));
        i += 1;
    }
    assert(services@.subrange(0, i as int) =~= services@);
}

/// The current time, taken once at the start of a cycle, as the RFC 3339 text
/// that stamps its checks and the dashboard.
pub fn cycle_timestamp() -> (r: String)
    ensures
        utc_stamp_shape(r@),
{
    now_rfc3339()
}

/// Finish a cycle once every probe has answered: apply `results` (one per
/// service, in traversal order) to the groups, then record a check at
/// `timestamp` for every service. Returns the updated groups.
pub fn complete_cycle(
    groups: &Vec<ServiceGroup>,
    results: &Vec<bool>,
    history: &mut History,
    timestamp: &String,
    max_history: u32,
) -> (r: Vec<ServiceGroup>)
    requires
        results.len() == flat(groups@).len(),
        old(history).wf(),
    ensures
        flat(r@) == set_statuses(flat(groups@), results@),
        r.len() == groups.len(),
        forall|g: int| 0 <= g < r.len() ==> (#[trigger] r@[g]).title == groups@[g].title
            && r@[g].services.len() == groups@[g].services.len(),
        final(history).wf(),
        final(history)@ == record_services(old(history)@, set_statuses(flat(groups@), results@), *timestamp, max_history as nat),
{
    let updated = apply_results(groups, results);
    let services = flatten(&updated);
    record_cycle(history, &services, timestamp, max_history);
    updated
}

} // verus!
