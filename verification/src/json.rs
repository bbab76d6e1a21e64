//! Rendering one record as one JSON object, fields present only when
//! set, in a fixed order: severity, message, time, source location,
//! HTTP request, then every label as a top-level key.
//!
//! Rendering is total: every record has a line, so an event can never
//! lose its line to an unrepresentable value.

use vstd::prelude::*;
use vstd::string::StringExecFns;

use crate::context::HttpMethod;
use crate::record::HttpRequestView;
use crate::record::LogRecord;
use crate::record::LogRecordView;
use crate::record::SourceLocationView;
use crate::severity::Severity;
use crate::text::append_escaped;
use crate::text::decimal_string;
use crate::text::spec_decimal;
use crate::text::spec_escape;

verus! {

/// One more segment of a comma-separated body.
pub open spec fn spec_join(acc: Seq<char>, seg: Seq<char>) -> Seq<char> {
    if acc.len() == 0 {
        seg
    } else {
        acc + ","@ + seg
    }
}

/// A string in JSON quotation marks.
pub open spec fn spec_quoted(s: Seq<char>) -> Seq<char> {
    "\""@ + spec_escape(s) + "\""@
}

pub open spec fn spec_severity_str(s: Severity) -> Seq<char> {
    match s {
        Severity::Debug => "DEBUG"@,
        Severity::Info => "INFO"@,
        Severity::Warning => "WARNING"@,
        Severity::Error => "ERROR"@,
    }
}

pub open spec fn spec_method_str(m: HttpMethod) -> Seq<char> {
    match m {
        HttpMethod::Get => "GET"@,
        HttpMethod::Post => "POST"@,
        HttpMethod::Put => "PUT"@,
        HttpMethod::Head => "HEAD"@,
    }
}

pub open spec fn spec_location_body(l: SourceLocationView) -> Seq<char> {
    let b0 = Seq::<char>::empty();
    let b1 = match l.file {
        Some(f) => spec_join(b0, "\"file\":"@ + spec_quoted(f)),
        None => b0,
    };
    let b2 = match l.line {
        Some(n) => spec_join(b1, "\"line\":\""@ + spec_decimal(n as int) + "\""@),
        None => b1,
    };
    match l.function {
        Some(f) => spec_join(b2, "\"function\":"@ + spec_quoted(f)),
        None => b2,
    }
}

pub open spec fn spec_http_body(h: HttpRequestView) -> Seq<char> {
    let b0 = Seq::<char>::empty();
    let b1 = match h.method {
        Some(m) => spec_join(b0, "\"requestMethod\":\""@ + spec_method_str(m) + "\""@),
        None => b0,
    };
    let b2 = match h.url {
        Some(u) => spec_join(b1, "\"requestUrl\":"@ + spec_quoted(u)),
        None => b1,
    };
    let b3 = match h.status {
        Some(st) => spec_join(b2, "\"status\":"@ + spec_decimal(st as int)),
        None => b2,
    };
    let b4 = match h.user_agent {
        Some(ua) => spec_join(b3, "\"userAgent\":"@ + spec_quoted(ua)),
        None => b3,
    };
    let b5 = match h.remote_ip {
        Some(ip) => spec_join(b4, "\"remoteIp\":"@ + spec_quoted(ip)),
        None => b4,
    };
    let b6 = match h.server_ip {
        Some(ip) => spec_join(b5, "\"serverIp\":"@ + spec_quoted(ip)),
        None => b5,
    };
    match h.latency {
        Some(lat) => spec_join(b6, "\"latency\":"@ + spec_quoted(lat)),
        None => b6,
    }
}

pub open spec fn spec_labels_body(
    acc: Seq<char>,
    labels: Seq<(Seq<char>, Seq<char>)>,
) -> Seq<char>
    decreases labels.len(),
{
    if labels.len() == 0 {
        acc
    } else {
        spec_join(
            spec_labels_body(acc, labels.drop_last()),
            spec_quoted(labels.last().0) + ":"@ + spec_quoted(labels.last().1),
        )
    }
}

pub open spec fn spec_record_body(r: LogRecordView) -> Seq<char> {
    let b0 = Seq::<char>::empty();
    let b1 = match r.severity {
        Some(s) => spec_join(b0, "\"severity\":\""@ + spec_severity_str(s) + "\""@),
        None => b0,
    };
    let b2 = match r.message {
        Some(m) => spec_join(b1, "\"message\":"@ + spec_quoted(m)),
        None => b1,
    };
    let b3 = match r.time {
        Some(t) => spec_join(b2, "\"time\":"@ + spec_quoted(t)),
        None => b2,
    };
    let b4 = match r.source_location {
        Some(l) => spec_join(
            b3,
            "\"logging.googleapis.com/sourceLocation\":{"@ + spec_location_body(l) + "}"@,
        ),
        None => b3,
    };
    let b5 = match r.http_request {
        Some(h) => spec_join(b4, "\"httpRequest\":{"@ + spec_http_body(h) + "}"@),
        None => b4,
    };
    spec_labels_body(b5, r.labels)
}

/// The whole line, newline not included.
pub open spec fn spec_json_line(r: LogRecordView) -> Seq<char> {
    "{"@ + spec_record_body(r) + "}"@
}

/// Appends a segment, with a comma when the body already holds one.
fn join_push(body: &mut String, seg: &str)
    ensures
        final(body)@ == spec_join(old(body)@, seg@),
{
    if !body.as_str().is_empty() {
        body.append(",");
    }
    body.append(seg);
}

fn quoted(s: &str) -> (r: String)
    ensures
        r@ == spec_quoted(s@),
{
    let mut out = String::from_str("\"");
    append_escaped(&mut out, s);
    out.append("\"");
    out
}

fn severity_str(s: Severity) -> (r: &'static str)
    ensures
        r@ == spec_severity_str(s),
{
    match s {
        Severity::Debug => "DEBUG",
        Severity::Info => "INFO",
        Severity::Warning => "WARNING",
        Severity::Error => "ERROR",
    }
}

fn method_str(m: HttpMethod) -> (r: &'static str)
    ensures
        r@ == spec_method_str(m),
{
    match m {
        HttpMethod::Get => "GET",
        HttpMethod::Post => "POST",
        HttpMethod::Put => "PUT",
        HttpMethod::Head => "HEAD",
    }
}

/// Renders one record as its JSON line.
#[verifier::loop_isolation(false)]
pub fn to_json_line(rec: &LogRecord) -> (r: String)
    ensures
        r@ == spec_json_line(rec@),
{
    let mut body = String::new();
    if let Some(sev) = rec.severity {
        let mut seg = String::from_str("\"severity\":\"");
        seg.append(severity_str(sev));
        seg.append("\"");
        join_push(&mut body, seg.as_str());
    }
    if let Some(msg) = &rec.message {
        let mut seg = String::from_str("\"message\":");
        let q = quoted(msg.as_str());
        seg.append(q.as_str());
        join_push(&mut body, seg.as_str());
    }
    if let Some(t) = &rec.time {
        let mut seg = String::from_str("\"time\":");
        let q = quoted(t.as_str());
        seg.append(q.as_str());
        join_push(&mut body, seg.as_str());
    }
    if let Some(loc) = &rec.source_location {
        let mut inner = String::new();
        if let Some(f) = &loc.file {
            let mut s = String::from_str("\"file\":");
            let q = quoted(f.as_str());
            s.append(q.as_str());
            join_push(&mut inner, s.as_str());
        }
        if let Some(n) = loc.line {
            let mut s = String::from_str("\"line\":\"");
            let d = decimal_string(n);
            s.append(d.as_str());
            s.append("\"");
            join_push(&mut inner, s.as_str());
        }
        if let Some(f) = &loc.function {
            let mut s = String::from_str("\"function\":");
            let q = quoted(f.as_str());
            s.append(q.as_str());
            join_push(&mut inner, s.as_str());
        }
        assert(inner@ == spec_location_body(loc@));
        let mut seg = String::from_str("\"logging.googleapis.com/sourceLocation\":{");
        seg.append(inner.as_str());
        seg.append("}");
        join_push(&mut body, seg.as_str());
    }
    if let Some(http) = &rec.http_request {
        let mut inner = String::new();
        if let Some(m) = http.method {
            let mut s = String::from_str("\"requestMethod\":\"");
            s.append(method_str(m));
            s.append("\"");
            join_push(&mut inner, s.as_str());
        }
        if let Some(u) = &http.url {
            let mut s = String::from_str("\"requestUrl\":");
            let q = quoted(u.as_str());
            s.append(q.as_str());
            join_push(&mut inner, s.as_str());
        }
        if let Some(st) = http.status {
            let mut s = String::from_str("\"status\":");
            let d = decimal_string(st as u32);
            s.append(d.as_str());
            join_push(&mut inner, s.as_str());
        }
        if let Some(ua) = &http.user_agent {
            let mut s = String::from_str("\"userAgent\":");
            let q = quoted(ua.as_str());
            s.append(q.as_str());
            join_push(&mut inner, s.as_str());
        }
        if let Some(ip) = &http.remote_ip {
            let mut s = String::from_str("\"remoteIp\":");
            let q = quoted(ip.as_str());
            s.append(q.as_str());
            join_push(&mut inner, s.as_str());
        }
        if let Some(ip) = &http.server_ip {
            let mut s = String::from_str("\"serverIp\":");
            let q = quoted(ip.as_str());
            s.append(q.as_str());
            join_push(&mut inner, s.as_str());
        }
        if let Some(lat) = &http.latency {
            let mut s = String::from_str("\"latency\":");
            let q = quoted(lat.as_str());
            s.append(q.as_str());
            join_push(&mut inner, s.as_str());
        }
        assert(inner@ == spec_http_body(http@));
        let mut seg = String::from_str("\"httpRequest\":{");
        seg.append(inner.as_str());
        seg.append("}");
        join_push(&mut body, seg.as_str());
    }
    let ghost before_labels = body@;
    let mut i: usize = 0;
    while i < rec.labels.len()
        invariant
            i <= rec.labels.len(),
            body@ == spec_labels_body(before_labels, rec@.labels.subrange(0, i as int)),
        decreases rec.labels.len() - i,
    {
        let mut s = quoted(rec.labels[i].0.as_str());
        s.append(":");
        let q = quoted(rec.labels[i].1.as_str());
        s.append(q.as_str());
        join_push(&mut body, s.as_str());
        proof {
            let ls = rec@.labels;
            assert(ls.subrange(0, i + 1).drop_last() =~= ls.subrange(0, i as int));
            assert(ls[i as int] == (rec.labels@[i as int].0@, rec.labels@[i as int].1@));
        }
        i = i + 1;
    }
    proof {
        assert(rec@.labels.subrange(0, rec@.labels.len() as int) =~= rec@.labels);
    }
    let mut out = String::from_str("{");
    out.append(body.as_str());
    out.append("}");
    out
}

} // verus!
