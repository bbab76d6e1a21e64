//! The structured output record, one per event, and the merge of span
//! context into it.

use vstd::prelude::*;

use crate::context::SpanContext;
use crate::context::SpanContextView;
use crate::context::HttpMethod;
use crate::severity::Severity;
use crate::text::str_eq;

verus! {

/// Where an event was emitted.
pub struct SourceLocation {
    pub file: Option<String>,
    pub line: Option<u32>,
    pub function: Option<String>,
}

pub struct SourceLocationView {
    pub file: Option<Seq<char>>,
    pub line: Option<u32>,
    pub function: Option<Seq<char>>,
}

impl View for SourceLocation {
    type V = SourceLocationView;

    open spec fn view(&self) -> SourceLocationView {
        SourceLocationView {
            file: self.file.deep_view(),
            line: self.line,
            function: self.function.deep_view(),
        }
    }
}

/// The HTTP request sub-record: every sub-field independently optional.
pub struct HttpRequest {
    pub method: Option<HttpMethod>,
    pub url: Option<String>,
    pub status: Option<u16>,
    pub user_agent: Option<String>,
    pub remote_ip: Option<String>,
    pub server_ip: Option<String>,
    pub latency: Option<String>,
}

pub struct HttpRequestView {
    pub method: Option<HttpMethod>,
    pub url: Option<Seq<char>>,
    pub status: Option<u16>,
    pub user_agent: Option<Seq<char>>,
    pub remote_ip: Option<Seq<char>>,
    pub server_ip: Option<Seq<char>>,
    pub latency: Option<Seq<char>>,
}

impl View for HttpRequest {
    type V = HttpRequestView;

    open spec fn view(&self) -> HttpRequestView {
        HttpRequestView {
            method: self.method,
            url: self.url.deep_view(),
            status: self.status,
            user_agent: self.user_agent.deep_view(),
            remote_ip: self.remote_ip.deep_view(),
            server_ip: self.server_ip.deep_view(),
            latency: self.latency.deep_view(),
        }
    }
}

pub open spec fn empty_http() -> HttpRequestView {
    HttpRequestView {
        method: None,
        url: None,
        status: None,
        user_agent: None,
        remote_ip: None,
        server_ip: None,
        latency: None,
    }
}

/// One output record. Labels keep their first-insertion order and
/// their keys are unique; a later write to a present key overwrites
/// the value in place.
pub struct LogRecord {
    pub severity: Option<Severity>,
    pub message: Option<String>,
    pub time: Option<String>,
    pub source_location: Option<SourceLocation>,
    pub http_request: Option<HttpRequest>,
    pub labels: Vec<(String, String)>,
}

pub struct LogRecordView {
    pub severity: Option<Severity>,
    pub message: Option<Seq<char>>,
    pub time: Option<Seq<char>>,
    pub source_location: Option<SourceLocationView>,
    pub http_request: Option<HttpRequestView>,
    pub labels: Seq<(Seq<char>, Seq<char>)>,
}

impl View for LogRecord {
    type V = LogRecordView;

    open spec fn view(&self) -> LogRecordView {
        LogRecordView {
            severity: self.severity,
            message: self.message.deep_view(),
            time: self.time.deep_view(),
            source_location: match self.source_location {
                Some(l) => Some(l@),
                None => None,
            },
            http_request: match self.http_request {
                Some(h) => Some(h@),
                None => None,
            },
            labels: self.labels.deep_view(),
        }
    }
}

/// The first index that holds `key`, or -1.
pub open spec fn spec_find_key(labels: Seq<(Seq<char>, Seq<char>)>, key: Seq<char>) -> int
    decreases labels.len(),
{
    if labels.len() == 0 {
        -1
    } else if labels[0].0 == key {
        0
    } else {
        let r = spec_find_key(labels.drop_first(), key);
        if r == -1 {
            -1
        } else {
            r + 1
        }
    }
}

pub proof fn lemma_find_key(labels: Seq<(Seq<char>, Seq<char>)>, key: Seq<char>)
    ensures
        spec_find_key(labels, key) == -1 ==> forall|j: int|
            0 <= j < labels.len() ==> labels[j].0 != key,
        spec_find_key(labels, key) != -1 ==> {
            let r = spec_find_key(labels, key);
            &&& 0 <= r < labels.len()
            &&& labels[r].0 == key
            &&& forall|j: int| 0 <= j < r ==> labels[j].0 != key
        },
    decreases labels.len(),
{
    if labels.len() > 0 && labels[0].0 != key {
        let rest = labels.drop_first();
        lemma_find_key(rest, key);
        assert(forall|j: int| 1 <= j < labels.len() ==> labels[j] == rest[j - 1]);
    }
}

/// Writing one label: overwrite in place on a present key, else append.
pub open spec fn spec_set_label(
    labels: Seq<(Seq<char>, Seq<char>)>,
    key: Seq<char>,
    value: Seq<char>,
) -> Seq<(Seq<char>, Seq<char>)> {
    let r = spec_find_key(labels, key);
    if r == -1 {
        labels.push((key, value))
    } else {
        labels.update(r, (key, value))
    }
}

/// Folding a context's label list into a record's label map, left to
/// right, so that within one list the last write to a key wins.
pub open spec fn spec_apply_labels(
    rec_labels: Seq<(Seq<char>, Seq<char>)>,
    ctx_labels: Seq<(Seq<char>, Seq<char>)>,
) -> Seq<(Seq<char>, Seq<char>)>
    decreases ctx_labels.len(),
{
    if ctx_labels.len() == 0 {
        rec_labels
    } else {
        spec_set_label(
            spec_apply_labels(rec_labels, ctx_labels.drop_last()),
            ctx_labels.last().0,
            ctx_labels.last().1,
        )
    }
}

pub open spec fn spec_has_http(ctx: SpanContextView) -> bool {
    ||| ctx.method is Some
    ||| ctx.url is Some
    ||| ctx.status is Some
    ||| ctx.user_agent is Some
    ||| ctx.remote_ip is Some
    ||| ctx.server_ip is Some
    ||| ctx.latency is Some
}

/// Merging a context's HTTP fields: the sub-record is allocated only
/// when the context carries at least one of them, and only the fields
/// the context carries are overwritten.
pub open spec fn spec_apply_http(
    ctx: SpanContextView,
    http: Option<HttpRequestView>,
) -> Option<HttpRequestView> {
    if !spec_has_http(ctx) {
        http
    } else {
        let base = match http {
            Some(h) => h,
            None => empty_http(),
        };
        Some(
            HttpRequestView {
                method: if ctx.method is Some {
                    ctx.method
                } else {
                    base.method
                },
                url: if ctx.url is Some {
                    ctx.url
                } else {
                    base.url
                },
                status: if ctx.status is Some {
                    ctx.status
                } else {
                    base.status
                },
                user_agent: if ctx.user_agent is Some {
                    ctx.user_agent
                } else {
                    base.user_agent
                },
                remote_ip: if ctx.remote_ip is Some {
                    ctx.remote_ip
                } else {
                    base.remote_ip
                },
                server_ip: if ctx.server_ip is Some {
                    ctx.server_ip
                } else {
                    base.server_ip
                },
                latency: if ctx.latency is Some {
                    ctx.latency
                } else {
                    base.latency
                },
            },
        )
    }
}

/// The full merge of one context into a record: every field the context
/// carries overwrites the record's, the labels are folded in, and the
/// record's severity, time and source location stand untouched.
pub open spec fn spec_apply(ctx: SpanContextView, rec: LogRecordView) -> LogRecordView {
    LogRecordView {
        severity: rec.severity,
        message: if ctx.message is Some {
            ctx.message
        } else {
            rec.message
        },
        time: rec.time,
        source_location: rec.source_location,
        http_request: spec_apply_http(ctx, rec.http_request),
        labels: spec_apply_labels(rec.labels, ctx.labels),
    }
}

impl LogRecord {
    /// Writes one label, overwriting the value in place when the key is
    /// already present and appending otherwise.
    pub fn set_label(&mut self, key: String, value: String)
        ensures
            final(self)@ == (LogRecordView {
                labels: spec_set_label(old(self)@.labels, key@, value@),
                ..old(self)@
            }),
    {
        proof {
            lemma_find_key(self@.labels, key@);
        }
        let n = self.labels.len();
        let mut i: usize = 0;
        while i < n
            invariant
                i <= n,
                n == self.labels.len(),
                *self == *old(self),
                forall|j: int| 0 <= j < i ==> self@.labels[j].0 != key@,
            decreases n - i,
        {
            if str_eq(self.labels[i].0.as_str(), key.as_str()) {
                proof {
                    assert(self@.labels[i as int].0 == key@);
                    lemma_find_key(self@.labels, key@);
                    assert(spec_find_key(self@.labels, key@) == i as int);
                }
                let entry = vstd::std_specs::vec::vec_index_mut(&mut self.labels, i);
                entry.1 = value;
                proof {
                    assert(self@.labels =~= old(self)@.labels.update(i as int, (key@, value@)));
                }
                return;
            }
            i = i + 1;
        }
        proof {
            lemma_find_key(self@.labels, key@);
        }
        self.labels.push((key, value));
        proof {
            assert(self@.labels =~= old(self)@.labels.push((key@, value@)));
        }
    }

    fn http_mut(&mut self) -> (r: &mut HttpRequest)
        ensures
            *r == (match old(self).http_request {
                Some(h) => h,
                None => (HttpRequest {
                    method: None,
                    url: None,
                    status: None,
                    user_agent: None,
                    remote_ip: None,
                    server_ip: None,
                    latency: None,
                }),
            }),
            final(self).http_request == Some(*final(r)),
            final(self).severity == old(self).severity,
            final(self).message == old(self).message,
            final(self).time == old(self).time,
            final(self).source_location == old(self).source_location,
            final(self).labels == old(self).labels,
    {
        if self.http_request.is_none() {
            self.http_request = Some(
                HttpRequest {
                    method: None,
                    url: None,
                    status: None,
                    user_agent: None,
                    remote_ip: None,
                    server_ip: None,
                    latency: None,
                },
            );
        }
        match &mut self.http_request {
            Some(h) => h,
            None => unreached(),
        }
    }
}

impl SpanContext {
    /// Merges this context into a record: each field the context carries
    /// overwrites the record's, the HTTP sub-record being allocated on
    /// its first field and merged field by field afterwards; the labels
    /// are folded into the record's label map in order.
    pub fn apply(&self, rec: &mut LogRecord)
        ensures
            final(rec)@ == spec_apply(self@, old(rec)@),
    {
        if let Some(m) = self.method {
            let h = rec.http_mut();
            h.method = Some(m);
        }
        if let Some(url) = &self.url {
            let h = rec.http_mut();
            h.url = Some(url.clone());
        }
        if let Some(st) = self.status {
            let h = rec.http_mut();
            h.status = Some(st);
        }
        if let Some(ua) = &self.user_agent {
            let h = rec.http_mut();
            h.user_agent = Some(ua.clone());
        }
        if let Some(ip) = &self.remote_ip {
            let h = rec.http_mut();
            h.remote_ip = Some(ip.clone());
        }
        if let Some(ip) = &self.server_ip {
            let h = rec.http_mut();
            h.server_ip = Some(ip.clone());
        }
        if let Some(lat) = &self.latency {
            let h = rec.http_mut();
            h.latency = Some(lat.clone());
        }
        if let Some(msg) = &self.message {
            rec.message = Some(msg.clone());
        }
        assert(rec@.http_request == spec_apply_http(self@, old(rec)@.http_request));
        let ghost mid = rec@;
        let mut i: usize = 0;
        while i < self.labels.len()
            invariant
                i <= self.labels.len(),
                rec@ == (LogRecordView {
                    labels: spec_apply_labels(mid.labels, self@.labels.subrange(0, i as int)),
                    ..mid
                }),
            decreases self.labels.len() - i,
        {
            let key = self.labels[i].0.clone();
            let value = self.labels[i].1.clone();
            rec.set_label(key, value);
            proof {
                let cs = self@.labels;
                assert(cs.subrange(0, i + 1).drop_last() =~= cs.subrange(0, i as int));
                assert(cs[i as int] == (self.labels@[i as int].0@, self.labels@[i as int].1@));
            }
            i = i + 1;
        }
        proof {
            assert(self@.labels.subrange(0, self@.labels.len() as int) =~= self@.labels);
        }
    }
}

} // verus!
