//! The engine a host instrumentation framework drives: span lifecycle
//! calls mutate the store, and an event call composes one record and
//! writes it as one JSON line.

use vstd::prelude::*;

use crate::compose::compose;
use crate::compose::spec_compose;
use crate::compose::spec_location_view;
use crate::context::SpanContextView;
use crate::context::empty_context;
use crate::context::spec_record_fields;
use crate::json::spec_json_line;
use crate::json::to_json_line;
use crate::record::SourceLocation;
use crate::severity::EventLevel;
use crate::store::SpanStore;

verus! {

/// Relies on chrono's Utc::now and DateTime::to_rfc3339: the moment of
/// the call, rendered as an RFC 3339 timestamp. Aborts only if the
/// system clock stands before the Unix epoch.
#[verifier::external_body]
fn now_rfc3339() -> String {
    chrono::offset::Utc::now().to_rfc3339()
}

/// Relies on std::io::Write through the writeln macro: appends the line
/// and a newline, and tells whether the write went through.
#[verifier::external_body]
fn write_line<W: std::io::Write>(w: &mut W, line: &str) -> bool {
    writeln!(w, "{line}").is_ok()
}

/// The composition engine: a destination writer and the store of the
/// contexts of the open spans. The host is expected to guard the whole
/// engine with one lock, since spans and events may come from any
/// execution context.
pub struct GcpLayer<W> {
    pub writer: W,
    pub store: SpanStore,
}

impl<W> GcpLayer<W> {
    /// The store's contents.
    pub open spec fn spans(&self) -> Map<u64, SpanContextView> {
        self.store@
    }

    pub open spec fn well_formed(&self) -> bool {
        self.store.well_formed()
    }

    /// A fresh engine around a destination writer: no span is known yet.
    pub fn init_with_writer(w: W) -> (r: Self)
        ensures
            r.spans() == Map::<u64, SpanContextView>::empty(),
            r.well_formed(),
            r.writer == w,
    {
        GcpLayer { writer: w, store: SpanStore::new() }
    }

    /// A span was created: stores its context, the initial fields
    /// applied. A no-op when the id is already known.
    pub fn on_new_span(&mut self, id: u64, fields: &Vec<(String, String)>)
        requires
            old(self).well_formed(),
        ensures
            final(self).well_formed(),
            final(self).writer == old(self).writer,
            final(self).spans() == if old(self).spans().dom().contains(id) {
                old(self).spans()
            } else {
                old(self).spans().insert(
                    id,
                    spec_record_fields(empty_context(), fields.deep_view()),
                )
            },
    {
        self.store.create(id, fields);
    }

    /// Further fields were recorded on a span: applies them to its
    /// context. A no-op when the id is unknown.
    pub fn on_record(&mut self, id: u64, fields: &Vec<(String, String)>)
        requires
            old(self).well_formed(),
        ensures
            final(self).well_formed(),
            final(self).writer == old(self).writer,
            final(self).spans() == if old(self).spans().dom().contains(id) {
                old(self).spans().insert(
                    id,
                    spec_record_fields(old(self).spans()[id], fields.deep_view()),
                )
            } else {
                old(self).spans()
            },
    {
        self.store.update(id, fields);
    }

    /// A span was closed: its context leaves the store for good.
    pub fn on_close(&mut self, id: u64)
        requires
            old(self).well_formed(),
        ensures
            final(self).well_formed(),
            final(self).writer == old(self).writer,
            final(self).spans() == old(self).spans().remove(id),
    {
        self.store.remove(id);
    }

    /// The line an event composes to, for a given timestamp. `scope`
    /// holds the enclosing span ids, the nearest first. The store is
    /// only read.
    pub fn compose_event_line(
        &self,
        level: EventLevel,
        time: Option<String>,
        location: Option<SourceLocation>,
        event_fields: &Vec<(String, String)>,
        scope: &Vec<u64>,
    ) -> (line: String)
        requires
            self.well_formed(),
        ensures
            line@ == spec_json_line(
                spec_compose(
                    level,
                    time.deep_view(),
                    spec_location_view(location),
                    event_fields.deep_view(),
                    self.spans(),
                    scope@,
                ),
            ),
    {
        let rec = compose(level, time, location, event_fields, &self.store, scope);
        to_json_line(&rec)
    }

}

impl<W: std::io::Write> GcpLayer<W> {
    /// An event fired: composes its record, stamped with the current
    /// time, and writes it to the destination as one line. The store is
    /// left untouched; the result tells whether the write went through.
    pub fn on_event(
        &mut self,
        level: EventLevel,
        location: Option<SourceLocation>,
        event_fields: &Vec<(String, String)>,
        scope: &Vec<u64>,
    ) -> (ok: bool)
        requires
            old(self).well_formed(),
        ensures
            final(self).well_formed(),
            final(self).spans() == old(self).spans(),
    {
        let time = now_rfc3339();
        let line = self.compose_event_line(level, Some(time), location, event_fields, scope);
        write_line(&mut self.writer, line.as_str())
    }
}

} // verus!
