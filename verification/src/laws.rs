//! The engine's general guarantees, each stated over the same spec
//! functions the executable contracts use.

use vstd::prelude::*;

use crate::compose::spec_apply_chain;
use crate::compose::spec_base_record;
use crate::compose::spec_compose;
use crate::context::HttpMethod;
use crate::context::SpanContextView;
use crate::context::empty_context;
use crate::context::spec_record_fields;
use crate::record::LogRecordView;
use crate::record::SourceLocationView;
use crate::record::lemma_find_key;
use crate::record::spec_apply;
use crate::record::spec_apply_labels;
use crate::record::spec_find_key;
use crate::record::spec_set_label;
use crate::severity::EventLevel;

verus! {

/// The value a record's label map holds for a key.
pub open spec fn record_label_value(
    labels: Seq<(Seq<char>, Seq<char>)>,
    key: Seq<char>,
) -> Option<Seq<char>> {
    let r = spec_find_key(labels, key);
    if r == -1 {
        None
    } else {
        Some(labels[r].1)
    }
}

/// The value a context's raw label list carries for a key: the last
/// write within one scope wins.
pub open spec fn ctx_label_value(
    labels: Seq<(Seq<char>, Seq<char>)>,
    key: Seq<char>,
) -> Option<Seq<char>>
    decreases labels.len(),
{
    if labels.len() == 0 {
        None
    } else if labels.last().0 == key {
        Some(labels.last().1)
    } else {
        ctx_label_value(labels.drop_last(), key)
    }
}

/// The nearer value wins wherever it is set at all.
pub open spec fn nearest<T>(near: Option<T>, far: Option<T>) -> Option<T> {
    if near is Some {
        near
    } else {
        far
    }
}

pub open spec fn http_method_of(r: LogRecordView) -> Option<HttpMethod> {
    match r.http_request {
        Some(h) => h.method,
        None => None,
    }
}

pub open spec fn http_url_of(r: LogRecordView) -> Option<Seq<char>> {
    match r.http_request {
        Some(h) => h.url,
        None => None,
    }
}

pub open spec fn http_status_of(r: LogRecordView) -> Option<u16> {
    match r.http_request {
        Some(h) => h.status,
        None => None,
    }
}

pub open spec fn http_user_agent_of(r: LogRecordView) -> Option<Seq<char>> {
    match r.http_request {
        Some(h) => h.user_agent,
        None => None,
    }
}

pub open spec fn http_remote_ip_of(r: LogRecordView) -> Option<Seq<char>> {
    match r.http_request {
        Some(h) => h.remote_ip,
        None => None,
    }
}

pub open spec fn http_server_ip_of(r: LogRecordView) -> Option<Seq<char>> {
    match r.http_request {
        Some(h) => h.server_ip,
        None => None,
    }
}

pub open spec fn http_latency_of(r: LogRecordView) -> Option<Seq<char>> {
    match r.http_request {
        Some(h) => h.latency,
        None => None,
    }
}

/// Writing one label changes the value of its key and of no other.
pub proof fn lemma_set_label_lookup(
    labels: Seq<(Seq<char>, Seq<char>)>,
    key: Seq<char>,
    value: Seq<char>,
    probe: Seq<char>,
)
    ensures
        record_label_value(spec_set_label(labels, key, value), probe) == if probe == key {
            Some(value)
        } else {
            record_label_value(labels, probe)
        },
{
    let after = spec_set_label(labels, key, value);
    lemma_find_key(labels, key);
    lemma_find_key(labels, probe);
    lemma_find_key(after, key);
    lemma_find_key(after, probe);
    let r = spec_find_key(labels, key);
    if r == -1 {
        assert(after == labels.push((key, value)));
        assert(after[labels.len() as int] == (key, value));
        if probe == key {
            assert(spec_find_key(after, key) == labels.len());
        } else {
            let s = spec_find_key(labels, probe);
            if s == -1 {
                assert(spec_find_key(after, probe) == -1) by {
                    let t = spec_find_key(after, probe);
                    if t != -1 {
                        assert(after[t].0 == probe);
                        assert(t < labels.len());
                        assert(labels[t].0 == probe);
                    }
                }
            } else {
                assert(after[s] == labels[s]);
                assert(spec_find_key(after, probe) == s);
            }
        }
    } else {
        assert(after == labels.update(r, (key, value)));
        if probe == key {
            assert(spec_find_key(after, key) == r) by {
                assert(after[r].0 == key);
                assert(forall|j: int| 0 <= j < r ==> after[j] == labels[j]);
                let t = spec_find_key(after, key);
                assert(t != -1);
                assert(t >= r);
                assert(t <= r);
            }
        } else {
            let s = spec_find_key(labels, probe);
            if s == -1 {
                assert(spec_find_key(after, probe) == -1) by {
                    let t = spec_find_key(after, probe);
                    if t != -1 {
                        assert(after[t].0 == probe);
                        assert(t != r);
                        assert(labels[t].0 == probe);
                    }
                }
            } else {
                assert(s != r);
                assert(after[s] == labels[s]);
                assert(spec_find_key(after, probe) == s) by {
                    assert(forall|j: int| 0 <= j < s && j != r ==> after[j] == labels[j]);
                }
            }
        }
    }
}

/// Folding a context's labels in: the context's last write to a key
/// wins, and any key it does not touch keeps the record's value.
pub proof fn lemma_apply_labels_lookup(
    rec_labels: Seq<(Seq<char>, Seq<char>)>,
    ctx_labels: Seq<(Seq<char>, Seq<char>)>,
    probe: Seq<char>,
)
    ensures
        record_label_value(spec_apply_labels(rec_labels, ctx_labels), probe) == (match
            ctx_label_value(ctx_labels, probe) {
            Some(v) => Some(v),
            None => record_label_value(rec_labels, probe),
        }),
    decreases ctx_labels.len(),
{
    if ctx_labels.len() > 0 {
        lemma_apply_labels_lookup(rec_labels, ctx_labels.drop_last(), probe);
        lemma_set_label_lookup(
            spec_apply_labels(rec_labels, ctx_labels.drop_last()),
            ctx_labels.last().0,
            ctx_labels.last().1,
            probe,
        );
    }
}

/// An event outside any span is composed of its own attributes alone:
/// no store contributes anything.
pub proof fn lemma_event_outside_spans(
    level: EventLevel,
    time: Option<Seq<char>>,
    location: Option<SourceLocationView>,
    event_fields: Seq<(Seq<char>, Seq<char>)>,
    m1: Map<u64, SpanContextView>,
    m2: Map<u64, SpanContextView>,
)
    ensures
        spec_compose(level, time, location, event_fields, m1, Seq::empty()) == spec_apply(
            spec_record_fields(empty_context(), event_fields),
            spec_base_record(level, time, location),
        ),
        spec_compose(level, time, location, event_fields, m1, Seq::empty()) == spec_compose(
            level,
            time,
            location,
            event_fields,
            m2,
            Seq::empty(),
        ),
{
}

/// Composing the same event state twice yields the identical record,
/// and so the identical line.
pub proof fn lemma_compose_idempotent(
    level: EventLevel,
    time: Option<Seq<char>>,
    location: Option<SourceLocationView>,
    event_fields: Seq<(Seq<char>, Seq<char>)>,
    m: Map<u64, SpanContextView>,
    scope: Seq<u64>,
    line1: Seq<char>,
    line2: Seq<char>,
)
    requires
        line1 == crate::json::spec_json_line(
            spec_compose(level, time, location, event_fields, m, scope),
        ),
        line2 == crate::json::spec_json_line(
            spec_compose(level, time, location, event_fields, m, scope),
        ),
    ensures
        line1 == line2,
{
}

/// A span whose entry has left the store contributes nothing, wherever
/// in the scope chain its id still stands.
pub proof fn lemma_missing_id_skipped(
    m: Map<u64, SpanContextView>,
    scope: Seq<u64>,
    rec: LogRecordView,
    i: int,
)
    requires
        0 <= i < scope.len(),
        !m.dom().contains(scope[i]),
    ensures
        spec_apply_chain(m, scope.remove(i), rec) == spec_apply_chain(m, scope, rec),
    decreases scope.len(),
{
    if i == 0 {
        assert(scope.remove(0) =~= scope.drop_first());
    } else {
        lemma_missing_id_skipped(m, scope.drop_first(), rec, i - 1);
        assert(scope.remove(i).drop_first() =~= scope.drop_first().remove(i - 1));
        assert(scope.remove(i)[0] == scope[0]);
        assert(scope.remove(i).len() == scope.len() - 1);
    }
}

/// Closing a span removes its context for good: an event whose scope
/// still references the closed id composes exactly as if the id were
/// not referenced at all.
pub proof fn lemma_closed_span_invisible(
    level: EventLevel,
    time: Option<Seq<char>>,
    location: Option<SourceLocationView>,
    event_fields: Seq<(Seq<char>, Seq<char>)>,
    m: Map<u64, SpanContextView>,
    id: u64,
    scope: Seq<u64>,
    i: int,
)
    requires
        0 <= i < scope.len(),
        scope[i] == id,
    ensures
        spec_compose(level, time, location, event_fields, m.remove(id), scope) == spec_compose(
            level,
            time,
            location,
            event_fields,
            m.remove(id),
            scope.remove(i),
        ),
{
    lemma_missing_id_skipped(
        m.remove(id),
        scope,
        spec_base_record(level, time, location),
        i,
    );
}

/// Nearest scope wins. For an event inside span `b`, itself inside span
/// `a`, every independently optional field of the output takes the
/// event's value where the event sets it, else the inner span's, else
/// the outer span's; and each label key takes the value of the nearest
/// scope that writes it, the last write winning within one scope.
pub proof fn lemma_nested_spans(
    level: EventLevel,
    time: Option<Seq<char>>,
    location: Option<SourceLocationView>,
    event_fields: Seq<(Seq<char>, Seq<char>)>,
    m: Map<u64, SpanContextView>,
    a: u64,
    b: u64,
)
    requires
        m.dom().contains(a),
        m.dom().contains(b),
    ensures
        ({
            let r = spec_compose(
                level,
                time,
                location,
                event_fields,
                m,
                Seq::empty().push(b).push(a),
            );
            let ev = spec_record_fields(empty_context(), event_fields);
            let ca = m[a];
            let cb = m[b];
            &&& r.message == nearest(ev.message, nearest(cb.message, ca.message))
            &&& http_method_of(r) == nearest(ev.method, nearest(cb.method, ca.method))
            &&& http_url_of(r) == nearest(ev.url, nearest(cb.url, ca.url))
            &&& http_status_of(r) == nearest(ev.status, nearest(cb.status, ca.status))
            &&& http_user_agent_of(r) == nearest(
                ev.user_agent,
                nearest(cb.user_agent, ca.user_agent),
            )
            &&& http_remote_ip_of(r) == nearest(
                ev.remote_ip,
                nearest(cb.remote_ip, ca.remote_ip),
            )
            &&& http_server_ip_of(r) == nearest(
                ev.server_ip,
                nearest(cb.server_ip, ca.server_ip),
            )
            &&& http_latency_of(r) == nearest(ev.latency, nearest(cb.latency, ca.latency))
            &&& r.severity == crate::severity::spec_severity_of(level)
            &&& forall|key: Seq<char>|
                #[trigger] record_label_value(r.labels, key) == (match ctx_label_value(
                    ev.labels,
                    key,
                ) {
                    Some(v) => Some(v),
                    None => match ctx_label_value(cb.labels, key) {
                        Some(v) => Some(v),
                        None => ctx_label_value(ca.labels, key),
                    },
                })
        }),
{
    let scope = Seq::<u64>::empty().push(b).push(a);
    let base = spec_base_record(level, time, location);
    let ev = spec_record_fields(empty_context(), event_fields);
    let ca = m[a];
    let cb = m[b];
    assert(scope[0] == b);
    assert(scope.drop_first() =~= Seq::<u64>::empty().push(a));
    assert(scope.drop_first()[0] == a);
    assert(scope.drop_first().drop_first() =~= Seq::<u64>::empty());
    let r0 = spec_apply(ca, base);
    let r1 = spec_apply(cb, r0);
    let r = spec_apply(ev, r1);
    assert(spec_apply_chain(m, Seq::<u64>::empty(), base) == base);
    assert(spec_apply_chain(m, scope.drop_first(), base) == r0);
    assert(spec_apply_chain(m, scope, base) == r1);
    assert(spec_compose(level, time, location, event_fields, m, scope) == r);
    assert forall|key: Seq<char>|
        #[trigger] record_label_value(r.labels, key) == (match ctx_label_value(
            ev.labels,
            key,
        ) {
            Some(v) => Some(v),
            None => match ctx_label_value(cb.labels, key) {
                Some(v) => Some(v),
                None => ctx_label_value(ca.labels, key),
            },
        }) by {
        lemma_apply_labels_lookup(base.labels, ca.labels, key);
        lemma_apply_labels_lookup(r0.labels, cb.labels, key);
        lemma_apply_labels_lookup(r1.labels, ev.labels, key);
        lemma_find_key(base.labels, key);
    }
}

} // verus!
