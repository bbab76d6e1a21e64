//! The record composer: one output record per event, the event's own
//! fields first, then each enclosing span's stored context folded in so
//! that whatever stands nearer to the event wins.

use vstd::prelude::*;

use crate::context::SpanContext;
use crate::context::SpanContextView;
use crate::context::empty_context;
use crate::context::spec_record_fields;
use crate::record::LogRecord;
use crate::record::LogRecordView;
use crate::record::SourceLocation;
use crate::record::SourceLocationView;
use crate::record::spec_apply;
use crate::severity::EventLevel;
use crate::severity::severity_of;
use crate::severity::spec_severity_of;
use crate::store::SpanStore;

verus! {

pub open spec fn spec_location_view(location: Option<SourceLocation>) -> Option<
    SourceLocationView,
> {
    match location {
        Some(l) => Some(l@),
        None => None,
    }
}

/// The record before any field arrives: severity from the event's own
/// level, the timestamp and the source location as the host reported
/// them, and nothing else.
pub open spec fn spec_base_record(
    level: EventLevel,
    time: Option<Seq<char>>,
    location: Option<SourceLocationView>,
) -> LogRecordView {
    LogRecordView {
        severity: spec_severity_of(level),
        message: None,
        time: time,
        source_location: location,
        http_request: None,
        labels: Seq::empty(),
    }
}

/// Folding the ancestor chain into a record. The chain runs from the
/// event's nearest enclosing span to the root; contexts are applied
/// root first, so a nearer span's write lands later and wins. A span
/// whose entry has already left the store is skipped.
pub open spec fn spec_apply_chain(
    m: Map<u64, SpanContextView>,
    scope: Seq<u64>,
    rec: LogRecordView,
) -> LogRecordView
    decreases scope.len(),
{
    if scope.len() == 0 {
        rec
    } else {
        let inner = spec_apply_chain(m, scope.drop_first(), rec);
        if m.dom().contains(scope[0]) {
            spec_apply(m[scope[0]], inner)
        } else {
            inner
        }
    }
}

/// The whole composition: ancestor contexts root to leaf, the event's
/// own fields last of all, so that precedence is event, then nearest
/// enclosing span, up to the root.
pub open spec fn spec_compose(
    level: EventLevel,
    time: Option<Seq<char>>,
    location: Option<SourceLocationView>,
    event_fields: Seq<(Seq<char>, Seq<char>)>,
    m: Map<u64, SpanContextView>,
    scope: Seq<u64>,
) -> LogRecordView {
    spec_apply(
        spec_record_fields(empty_context(), event_fields),
        spec_apply_chain(m, scope, spec_base_record(level, time, location)),
    )
}

/// Builds the record for one event. `scope` holds the ids of the
/// enclosing spans, the nearest first, the root last. The store is
/// only read.
#[verifier::loop_isolation(false)]
pub fn compose(
    level: EventLevel,
    time: Option<String>,
    location: Option<SourceLocation>,
    event_fields: &Vec<(String, String)>,
    store: &SpanStore,
    scope: &Vec<u64>,
) -> (r: LogRecord)
    requires
        store.well_formed(),
    ensures
        r@ == spec_compose(
            level,
            time.deep_view(),
            spec_location_view(location),
            event_fields.deep_view(),
            store@,
            scope@,
        ),
{
    let ghost base = spec_base_record(level, time.deep_view(), spec_location_view(location));
    let mut rec = LogRecord {
        severity: severity_of(level),
        message: None,
        time: time,
        source_location: location,
        http_request: None,
        labels: Vec::new(),
    };
    proof {
        assert(rec@.labels =~= base.labels);
    }
    let n = scope.len();
    let mut j: usize = n;
    while j > 0
        invariant
            j <= n,
            rec@ == spec_apply_chain(store@, scope@.subrange(j as int, n as int), base),
        decreases j,
    {
        j = j - 1;
        match store.get(scope[j]) {
            Some(ctx) => {
                ctx.apply(&mut rec);
            },
            None => {},
        }
        proof {
            let tail = scope@.subrange(j as int, n as int);
            assert(tail[0] == scope@[j as int]);
            assert(tail.drop_first() =~= scope@.subrange(j + 1, n as int));
        }
    }
    proof {
        assert(scope@.subrange(0, n as int) =~= scope@);
    }
    let mut event_ctx = SpanContext::new();
    event_ctx.record_fields(event_fields);
    event_ctx.apply(&mut rec);
    rec
}

} // verus!
