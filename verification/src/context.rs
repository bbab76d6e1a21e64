//! Per-span accumulated context and the field visitor that fills it.
//!
//! Attribute values arrive rendered through the host's debug capability,
//! so a string-typed value comes wrapped in quotation marks. Recognized
//! field names are parsed into their typed slot; every other name lands
//! in the label list verbatim.

use vstd::prelude::*;

use crate::text::ascii_lower;
use crate::text::parse_u16;
use crate::text::remove_quotes;
use crate::text::spec_ascii_lower;
use crate::text::spec_parse_u16;
use crate::text::spec_remove_quotes;
use crate::text::str_eq;

verus! {

/// The HTTP methods the schema knows.
#[derive(Clone, Copy, PartialEq, Eq, Structural, Debug)]
pub enum HttpMethod {
    Get,
    Post,
    Put,
    Head,
}

/// The context accumulated on one span: the recognized fields, each
/// independently optional, and the unrecognized ones in arrival order,
/// duplicates retained.
pub struct SpanContext {
    pub method: Option<HttpMethod>,
    pub url: Option<String>,
    pub status: Option<u16>,
    pub user_agent: Option<String>,
    pub remote_ip: Option<String>,
    pub server_ip: Option<String>,
    pub latency: Option<String>,
    pub message: Option<String>,
    pub labels: Vec<(String, String)>,
}

/// The mathematical value of a span context.
pub struct SpanContextView {
    pub method: Option<HttpMethod>,
    pub url: Option<Seq<char>>,
    pub status: Option<u16>,
    pub user_agent: Option<Seq<char>>,
    pub remote_ip: Option<Seq<char>>,
    pub server_ip: Option<Seq<char>>,
    pub latency: Option<Seq<char>>,
    pub message: Option<Seq<char>>,
    pub labels: Seq<(Seq<char>, Seq<char>)>,
}

impl View for SpanContext {
    type V = SpanContextView;

    open spec fn view(&self) -> SpanContextView {
        SpanContextView {
            method: self.method,
            url: self.url.deep_view(),
            status: self.status,
            user_agent: self.user_agent.deep_view(),
            remote_ip: self.remote_ip.deep_view(),
            server_ip: self.server_ip.deep_view(),
            latency: self.latency.deep_view(),
            message: self.message.deep_view(),
            labels: self.labels.deep_view(),
        }
    }
}

pub open spec fn empty_context() -> SpanContextView {
    SpanContextView {
        method: None,
        url: None,
        status: None,
        user_agent: None,
        remote_ip: None,
        server_ip: None,
        latency: None,
        message: None,
        labels: Seq::empty(),
    }
}

/// Which method a debug-rendered value stands for: the whole rendering,
/// quotation marks included, lowered, must spell a quoted method name.
pub open spec fn spec_method_of(value: Seq<char>) -> Option<HttpMethod> {
    let low = spec_ascii_lower(value);
    if low == "\"get\""@ {
        Some(HttpMethod::Get)
    } else if low == "\"post\""@ {
        Some(HttpMethod::Post)
    } else if low == "\"put\""@ {
        Some(HttpMethod::Put)
    } else if low == "\"head\""@ {
        Some(HttpMethod::Head)
    } else {
        None
    }
}

fn method_of(value: &str) -> (r: Option<HttpMethod>)
    ensures
        r == spec_method_of(value@),
{
    let low = ascii_lower(value);
    if str_eq(low.as_str(), "\"get\"") {
        Some(HttpMethod::Get)
    } else if str_eq(low.as_str(), "\"post\"") {
        Some(HttpMethod::Post)
    } else if str_eq(low.as_str(), "\"put\"") {
        Some(HttpMethod::Put)
    } else if str_eq(low.as_str(), "\"head\"") {
        Some(HttpMethod::Head)
    } else {
        None
    }
}

/// The effect of one attribute on a context. A typed field whose value
/// does not parse is dropped: the slot keeps what it had.
pub open spec fn spec_record_field(
    ctx: SpanContextView,
    name: Seq<char>,
    value: Seq<char>,
) -> SpanContextView {
    if name == "http.method"@ {
        match spec_method_of(value) {
            Some(m) => SpanContextView { method: Some(m), ..ctx },
            None => ctx,
        }
    } else if name == "http.url"@ {
        SpanContextView { url: Some(spec_remove_quotes(value)), ..ctx }
    } else if name == "http.status"@ {
        match spec_parse_u16(value) {
            Some(st) => SpanContextView { status: Some(st), ..ctx },
            None => ctx,
        }
    } else if name == "http.ua"@ {
        SpanContextView { user_agent: Some(spec_remove_quotes(value)), ..ctx }
    } else if name == "http.remote_ip"@ {
        SpanContextView { remote_ip: Some(spec_remove_quotes(value)), ..ctx }
    } else if name == "http.server_ip"@ {
        SpanContextView { server_ip: Some(spec_remove_quotes(value)), ..ctx }
    } else if name == "http.latency"@ {
        SpanContextView { latency: Some(spec_remove_quotes(value)), ..ctx }
    } else if name == "message"@ {
        SpanContextView { message: Some(value), ..ctx }
    } else {
        SpanContextView { labels: ctx.labels.push((name, value)), ..ctx }
    }
}

/// The effect of a whole field list, applied left to right.
pub open spec fn spec_record_fields(
    ctx: SpanContextView,
    fields: Seq<(Seq<char>, Seq<char>)>,
) -> SpanContextView
    decreases fields.len(),
{
    if fields.len() == 0 {
        ctx
    } else {
        spec_record_field(
            spec_record_fields(ctx, fields.drop_last()),
            fields.last().0,
            fields.last().1,
        )
    }
}

impl SpanContext {
    /// A context with nothing set.
    pub fn new() -> (r: SpanContext)
        ensures
            r@ == empty_context(),
    {
        let r = SpanContext {
            method: None,
            url: None,
            status: None,
            user_agent: None,
            remote_ip: None,
            server_ip: None,
            latency: None,
            message: None,
            labels: Vec::new(),
        };
        proof {
            assert(r@.labels =~= empty_context().labels);
        }
        r
    }

    /// Applies one attribute, given by name and debug-rendered value.
    pub fn record_field(&mut self, name: &str, value: String)
        ensures
            final(self)@ == spec_record_field(old(self)@, name@, value@),
    {
        if str_eq(name, "http.method") {
            match method_of(value.as_str()) {
                Some(m) => {
                    self.method = Some(m);
                },
                None => {},
            }
        } else if str_eq(name, "http.url") {
            self.url = Some(remove_quotes(value));
        } else if str_eq(name, "http.status") {
            match parse_u16(value.as_str()) {
                Some(st) => {
                    self.status = Some(st);
                },
                None => {},
            }
        } else if str_eq(name, "http.ua") {
            self.user_agent = Some(remove_quotes(value));
        } else if str_eq(name, "http.remote_ip") {
            self.remote_ip = Some(remove_quotes(value));
        } else if str_eq(name, "http.server_ip") {
            self.server_ip = Some(remove_quotes(value));
        } else if str_eq(name, "http.latency") {
            self.latency = Some(remove_quotes(value));
        } else if str_eq(name, "message") {
            self.message = Some(value);
        } else {
            self.labels.push((String::from_str(name), value));
            proof {
                assert(self@.labels =~= old(self)@.labels.push((name@, value@)));
            }
        }
    }

    /// Applies a whole field list, every entry exactly once, in order.
    pub fn record_fields(&mut self, fields: &Vec<(String, String)>)
        ensures
            final(self)@ == spec_record_fields(old(self)@, fields.deep_view()),
    {
        let mut i: usize = 0;
        while i < fields.len()
            invariant
                i <= fields.len(),
                self@ == spec_record_fields(old(self)@, fields.deep_view().subrange(0, i as int)),
            decreases fields.len() - i,
        {
            let name = &fields[i].0;
            let value = fields[i].1.clone();
            self.record_field(name.as_str(), value);
            proof {
                let fs = fields.deep_view();
                assert(fs.subrange(0, i + 1).drop_last() =~= fs.subrange(0, i as int));
                assert(fs[i as int] == (fields@[i as int].0@, fields@[i as int].1@));
            }
            i = i + 1;
        }
        proof {
            assert(fields.deep_view().subrange(0, fields.deep_view().len() as int) =~= fields.deep_view());
        }
    }
}

} // verus!
