//! Prometheus Text based exporter

use core::convert::Infallible;

use vstd::prelude::*;
use vstd::string::StringSliceAdditionalSpecFns;

use crate::fmt::{decimal_int, format_i64, memchr3, push_all};
use crate::label::{LabelGroup, LabelGroupVisitor, LabelName, LabelValue, LabelVisitor};
use crate::metric::group::{Encoding, EncodingEvent, MetricValue, SampleValue};
use crate::metric::name::MetricNameEncoder;

verus! {

/// Prometheus only supports these 5 types of metrics
#[derive(Clone, Copy, Debug, PartialEq, Eq, Structural)]
pub enum MetricType {
    /// Corresponds to [`Counter`](crate::Counter)
    Counter,
    /// A histogram
    Histogram,
    /// Corresponds to [`Gauge`](crate::Gauge)
    Gauge,
    /// Not currently supported
    Summary,
    /// Not currently supported
    Untyped,
}

// ---------------------------------------------------------------------------------------
// Escaping of label values
// ---------------------------------------------------------------------------------------

/// The escaped form of one byte of a label value: `\` becomes `\\`, `"` becomes `\"`, and a
/// newline becomes `\n`; every other byte stands for itself.
pub open spec fn escape_byte(c: u8) -> Seq<u8> {
    if c == 92 {
        seq![92u8, 92u8]
    } else if c == 34 {
        seq![92u8, 34u8]
    } else if c == 10 {
        seq![92u8, 110u8]
    } else {
        seq![c]
    }
}

/// Whether a byte has to be escaped inside a label value.
pub open spec fn needs_escape(c: u8) -> bool {
    c == 92 || c == 34 || c == 10
}

/// The escaped form of a label value, byte by byte.
pub open spec fn escape_label_value(s: Seq<u8>) -> Seq<u8>
    decreases s.len(),
{
    if s.len() == 0 {
        Seq::empty()
    } else {
        escape_label_value(s.drop_last()) + escape_byte(s.last())
    }
}

/// Reads back an escaped label value: `\n` is a newline, and `\` followed by any other byte
/// is that byte.
pub open spec fn unescape_label_value(s: Seq<u8>) -> Seq<u8>
    decreases s.len(),
{
    if s.len() == 0 {
        Seq::empty()
    } else if s[0] == 92 && s.len() >= 2 {
        (if s[1] == 110 {
            seq![10u8]
        } else {
            seq![s[1]]
        }) + unescape_label_value(s.skip(2))
    } else {
        seq![s[0]] + unescape_label_value(s.skip(1))
    }
}

/// Escaping distributes over concatenation.
pub proof fn lemma_escape_concat(a: Seq<u8>, b: Seq<u8>)
    ensures
        escape_label_value(a + b) == escape_label_value(a) + escape_label_value(b),
    decreases b.len(),
{
    if b.len() == 0 {
        assert(a + b == a);
        assert(escape_label_value(a) + escape_label_value(b) == escape_label_value(a));
    } else {
        lemma_escape_concat(a, b.drop_last());
        assert((a + b).drop_last() == a + b.drop_last());
        assert((a + b).last() == b.last());
    }
}

/// A byte string with no byte that needs escaping is its own escaped form.
pub proof fn lemma_escape_plain(s: Seq<u8>)
    requires
        forall|i: int| 0 <= i < s.len() ==> !needs_escape(#[trigger] s[i]),
    ensures
        escape_label_value(s) == s,
    decreases s.len(),
{
    if s.len() > 0 {
        lemma_escape_plain(s.drop_last());
        assert(s.drop_last().push(s.last()) == s);
    }
}

/// Escaping a one-byte string escapes that byte.
proof fn lemma_escape_single(c: u8)
    ensures
        escape_label_value(seq![c]) == escape_byte(c),
{
    assert(seq![c].drop_last() == Seq::<u8>::empty());
    assert(seq![c].last() == c);
    assert(escape_label_value(Seq::<u8>::empty()) == Seq::<u8>::empty());
    assert(escape_label_value(seq![c]) == escape_label_value(seq![c].drop_last()) + escape_byte(c));
}

/// Reading back an escaped label value gives the value that was escaped.
pub proof fn law_unescape_escape(s: Seq<u8>)
    ensures
        unescape_label_value(escape_label_value(s)) == s,
    decreases s.len(),
{
    if s.len() > 0 {
        let c: u8 = s[0];
        let rest: Seq<u8> = s.skip(1);
        assert(s == seq![c] + rest);
        lemma_escape_concat(seq![c], rest);
        lemma_escape_single(c);
        law_unescape_escape(rest);
        let e: Seq<u8> = escape_byte(c) + escape_label_value(rest);
        if needs_escape(c) {
            assert(e.skip(2) == escape_label_value(rest));
        } else {
            assert(e.skip(1) == escape_label_value(rest));
        }
    }
}

/// An escaped label value contains no newline byte, so it cannot end the line it appears
/// on.
pub proof fn law_escaped_has_no_newline(s: Seq<u8>)
    ensures
        forall|i: int| 0 <= i < escape_label_value(s).len() ==> #[trigger] escape_label_value(s)[i] != 10u8,
    decreases s.len(),
{
    if s.len() > 0 {
        law_escaped_has_no_newline(s.drop_last());
        let a: Seq<u8> = escape_label_value(s.drop_last());
        let b: Seq<u8> = escape_byte(s.last());
        assert(escape_label_value(s) == a + b);
        assert forall|i: int| 0 <= i < b.len() implies #[trigger] b[i] != 10u8 by {}
        assert forall|i: int| 0 <= i < (a + b).len() implies #[trigger] (a + b)[i] != 10u8 by {
            if i < a.len() {
                assert((a + b)[i] == a[i]);
            } else {
                assert((a + b)[i] == b[i - a.len()]);
            }
        }
    }
}

/// Write a label value, escaping `\`, `"` and newlines.
pub fn write_label_str_value(s: &str, b: &mut Vec<u8>)
    ensures
        final(b)@ == old(b)@ + escape_label_value(s.spec_bytes()),
{
    let bytes: &[u8] = s.as_bytes();
    let n: usize = bytes.len();
    let mut i: usize = 0;
    while i < n
        invariant
            n == bytes@.len(),
            bytes@ == s.spec_bytes(),
            i <= n,
            b@ == old(b)@ + escape_label_value(bytes@.subrange(0, i as int)),
        decreases n - i,
    {
        let rest: &[u8] = &bytes[i..n];
        match memchr3(92u8, 34u8, 10u8, rest) {
            Some(k) => {
                let j: usize = i + k;
                let plain: &[u8] = &bytes[i..j];
                push_all(b, plain);
                let c: u8 = bytes[j];
                if c == 92 {
                    b.push(92u8);
                    b.push(92u8);
                } else if c == 34 {
                    b.push(92u8);
                    b.push(34u8);
                } else {
                    b.push(92u8);
                    b.push(110u8);
                }
                proof {
                    assert forall|t: int| 0 <= t < plain@.len() implies !needs_escape(
                        #[trigger] plain@[t],
                    ) by {
                        assert(plain@[t] == rest@[t]);
                    }
                    lemma_escape_plain(plain@);
                    lemma_escape_single(c);
                    let pre: Seq<u8> = bytes@.subrange(0, i as int);
                    assert(bytes@.subrange(0, j + 1) == pre + plain@ + seq![c]);
                    lemma_escape_concat(pre, plain@);
                    lemma_escape_concat(pre + plain@, seq![c]);
                }
                i = j + 1;
            },
            None => {
                push_all(b, rest);
                proof {
                    lemma_escape_plain(rest@);
                    lemma_escape_concat(bytes@.subrange(0, i as int), rest@);
                    assert(bytes@.subrange(0, i as int) + rest@ == bytes@.subrange(0, n as int));
                }
                i = n;
            },
        }
    }
    proof {
        assert(bytes@.subrange(0, n as int) == bytes@);
    }
}

// ---------------------------------------------------------------------------------------
// The text format
// ---------------------------------------------------------------------------------------

/// `# HELP `
pub open spec fn help_prefix() -> Seq<u8> {
    seq![35u8, 32u8, 72u8, 69u8, 76u8, 80u8, 32u8]
}

/// `# TYPE `
pub open spec fn type_prefix() -> Seq<u8> {
    seq![35u8, 32u8, 84u8, 89u8, 80u8, 69u8, 32u8]
}

/// The word that names a metric type in a `# TYPE` line, preceded by a space and followed
/// by a newline.
pub open spec fn type_line_end(typ: MetricType) -> Seq<u8> {
    match typ {
        MetricType::Counter => seq![32u8, 99u8, 111u8, 117u8, 110u8, 116u8, 101u8, 114u8, 10u8],
        MetricType::Histogram => seq![
            32u8,
            104u8,
            105u8,
            115u8,
            116u8,
            111u8,
            103u8,
            114u8,
            97u8,
            109u8,
            10u8,
        ],
        MetricType::Gauge => seq![32u8, 103u8, 97u8, 117u8, 103u8, 101u8, 10u8],
        MetricType::Summary => seq![32u8, 115u8, 117u8, 109u8, 109u8, 97u8, 114u8, 121u8, 10u8],
        MetricType::Untyped => seq![32u8, 117u8, 110u8, 116u8, 121u8, 112u8, 101u8, 100u8, 10u8],
    }
}

/// A label value as it appears after its name: `="` escaped-value `"`.
pub open spec fn quoted_value(text: Seq<u8>) -> Seq<u8> {
    seq![61u8, 34u8] + escape_label_value(text) + seq![34u8]
}

/// One label pair: `name="value"`.
pub open spec fn render_pair(p: (Seq<u8>, Seq<u8>)) -> Seq<u8> {
    p.0 + quoted_value(p.1)
}

/// Label pairs separated by commas.
pub open spec fn join_pairs(ps: Seq<(Seq<u8>, Seq<u8>)>) -> Seq<u8>
    decreases ps.len(),
{
    if ps.len() == 0 {
        Seq::empty()
    } else if ps.len() == 1 {
        render_pair(ps[0])
    } else {
        join_pairs(ps.drop_last()) + seq![44u8] + render_pair(ps.last())
    }
}

/// The labels of a sample: nothing when there are none, else `{` pairs `}`.
pub open spec fn render_labels(ps: Seq<(Seq<u8>, Seq<u8>)>) -> Seq<u8> {
    if ps.len() == 0 {
        Seq::empty()
    } else {
        seq![123u8] + join_pairs(ps) + seq![125u8]
    }
}

/// The text of a sample's value.
pub open spec fn render_value(v: SampleValue) -> Seq<u8> {
    match v {
        SampleValue::Int(x) => decimal_int(x as int),
        SampleValue::Float(t) => t,
    }
}

/// Whether the last thing written was a sample line.
pub open spec fn after_samples(events: Seq<EncodingEvent>) -> bool {
    events.len() > 0 && events.last() is Sample
}

/// A blank line separates the samples of one family from the next family's header.
pub open spec fn family_separator(after: bool) -> Seq<u8> {
    if after {
        seq![10u8]
    } else {
        Seq::empty()
    }
}

/// The text one event renders to, given whether samples were written just before it.
pub open spec fn render_event(after: bool, e: EncodingEvent) -> Seq<u8> {
    match e {
        EncodingEvent::Help { name, help } => family_separator(after) + help_prefix() + name
            + seq![32u8] + help + seq![10u8],
        EncodingEvent::Type { name, typ } => family_separator(after) + type_prefix() + name
            + type_line_end(typ),
        EncodingEvent::Sample { name, labels, value } => name + render_labels(labels) + seq![32u8]
            + render_value(value) + seq![10u8],
        EncodingEvent::Flush => Seq::empty(),
    }
}

/// The Prometheus text exposition of a sequence of events.
pub open spec fn render_text(events: Seq<EncodingEvent>) -> Seq<u8>
    decreases events.len(),
{
    if events.len() == 0 {
        Seq::empty()
    } else {
        render_text(events.drop_last()) + render_event(
            after_samples(events.drop_last()),
            events.last(),
        )
    }
}

/// Rendering one more event appends that event's text.
pub proof fn lemma_render_push(events: Seq<EncodingEvent>, e: EncodingEvent)
    ensures
        render_text(events.push(e)) == render_text(events) + render_event(after_samples(events), e),
{
    assert(events.push(e).drop_last() == events);
}

/// Rendering two event sequences one after the other gives the rendering of both, when the
/// first does not end with a sample (so no blank line separates them).
pub proof fn law_render_concat(a: Seq<EncodingEvent>, b: Seq<EncodingEvent>)
    requires
        !after_samples(a),
    ensures
        render_text(a + b) == render_text(a) + render_text(b),
    decreases b.len(),
{
    if b.len() == 0 {
        assert(a + b == a);
    } else {
        law_render_concat(a, b.drop_last());
        assert((a + b).drop_last() == a + b.drop_last());
        if b.len() == 1 {
            assert(b.drop_last() == Seq::<EncodingEvent>::empty());
            assert(a + b.drop_last() == a);
        } else {
            assert(after_samples(a + b.drop_last()) == after_samples(b.drop_last()));
        }
    }
}

// ---------------------------------------------------------------------------------------
// Visitors that render labels into bytes
// ---------------------------------------------------------------------------------------

/// Renders a label value as `="escaped value"`.
pub struct TextValueVisitor;

impl LabelVisitor for TextValueVisitor {
    type Output = Vec<u8>;

    open spec fn produced(&self, text: Seq<u8>, out: &Vec<u8>) -> bool {
        out@ == quoted_value(text)
    }

    fn write_int(self, x: i64) -> (out: Vec<u8>) {
        let s: String = format_i64(x);
        self.write_str(s.as_str())
    }

    fn write_str(self, x: &str) -> (out: Vec<u8>) {
        let mut out: Vec<u8> = Vec::new();
        out.push(61u8);
        out.push(34u8);
        write_label_str_value(x, &mut out);
        out.push(34u8);
        proof {
            assert(out@ == quoted_value(x.spec_bytes()));
        }
        out
    }
}

/// The rendering of a prefix of a label list that has not been closed yet.
pub open spec fn opened_labels(ps: Seq<(Seq<u8>, Seq<u8>)>) -> Seq<u8> {
    if ps.len() == 0 {
        Seq::empty()
    } else {
        seq![123u8] + join_pairs(ps)
    }
}

/// Renders the label pairs of a group into a byte buffer.
struct TextGroupVisitor {
    first: bool,
    out: Vec<u8>,
    pairs: Ghost<Seq<(Seq<u8>, Seq<u8>)>>,
}

impl LabelGroupVisitor for TextGroupVisitor {
    closed spec fn visited(&self) -> Seq<(Seq<u8>, Seq<u8>)> {
        self.pairs@
    }

    closed spec fn visitor_wf(&self) -> bool {
        &&& self.out@ == opened_labels(self.pairs@)
        &&& self.first == (self.pairs@.len() == 0)
    }

    fn write_value<V: LabelValue + ?Sized>(&mut self, name: &LabelName, x: &V) {
        let ghost p: (Seq<u8>, Seq<u8>) = (name@, x.label_text());
        let ghost old_pairs: Seq<(Seq<u8>, Seq<u8>)> = self.pairs@;
        if self.first {
            self.first = false;
            self.out.push(123u8);
        } else {
            self.out.push(44u8);
        }
        push_all(&mut self.out, name.as_str().as_bytes());
        let value: Vec<u8> = x.visit(TextValueVisitor);
        push_all(&mut self.out, value.as_slice());
        self.pairs = Ghost(old_pairs.push(p));
        proof {
            let ps: Seq<(Seq<u8>, Seq<u8>)> = old_pairs.push(p);
            assert(ps.drop_last() == old_pairs);
            if old_pairs.len() == 0 {
                assert(ps.len() == 1);
                assert(ps[0] == p);
            }
            assert(self.out@ == opened_labels(ps));
        }
    }
}

impl TextGroupVisitor {
    /// Closes the label list and hands back the buffer.
    fn finish(self) -> (out: Vec<u8>)
        requires
            self.visitor_wf(),
        ensures
            out@ == render_labels(self.pairs@),
    {
        let mut out: Vec<u8> = self.out;
        if !self.first {
            out.push(125u8);
        }
        out
    }
}

// ---------------------------------------------------------------------------------------
// Encoders
// ---------------------------------------------------------------------------------------

#[derive(Clone, Copy, Debug, PartialEq, Eq, Structural)]
enum State {
    Info,
    Metrics,
}

/// The prometheus text encoder helper
pub struct TextEncoder {
    state: State,
    writer: Vec<u8>,
    prefix: Ghost<Seq<u8>>,
    events: Ghost<Seq<EncodingEvent>>,
}

impl TextEncoder {
    /// The bytes written so far, including those the writer held when it was handed in.
    pub closed spec fn output(&self) -> Seq<u8> {
        self.writer@
    }

    /// The bytes the writer held when it was handed in.
    pub closed spec fn prefix(&self) -> Seq<u8> {
        self.prefix@
    }

    /// The events written so far.
    pub closed spec fn text_events(&self) -> Seq<EncodingEvent> {
        self.events@
    }

    /// The encoder's internal consistency: the output is the rendering of its events.
    pub closed spec fn text_wf(&self) -> bool {
        &&& self.writer@ == self.prefix@ + render_text(self.events@)
        &&& (self.state == State::Metrics) == after_samples(self.events@)
    }

    /// A consistent encoder holds the rendering of its events after its prefix.
    pub proof fn lemma_output(&self)
        requires
            self.text_wf(),
        ensures
            self.output() == self.prefix() + render_text(self.text_events()),
    {
    }

    /// Create a new text encoder that appends to the given buffer.
    pub fn new(w: Vec<u8>) -> (e: TextEncoder)
        ensures
            e.text_wf(),
            e.text_events() == Seq::<EncodingEvent>::empty(),
            e.prefix() == w@,
    {
        let ghost p: Seq<u8> = w@;
        TextEncoder {
            state: State::Info,
            writer: w,
            prefix: Ghost(p),
            events: Ghost(Seq::empty()),
        }
    }

    /// Ends a batch of metric families: the next header follows without a blank line.
    pub fn flush(&mut self)
        requires
            old(self).text_wf(),
        ensures
            final(self).text_wf(),
            final(self).prefix() == old(self).prefix(),
            final(self).text_events() == old(self).text_events().push(EncodingEvent::Flush),
    {
        self.state = State::Info;
        proof {
            lemma_render_push(self.events@, EncodingEvent::Flush);
        }
        self.events = Ghost(self.events@.push(EncodingEvent::Flush));
    }

    fn write_line(&mut self)
        ensures
            final(self).writer@ == old(self).writer@.push(10u8),
            final(self).state == old(self).state,
            final(self).prefix == old(self).prefix,
            final(self).events == old(self).events,
    {
        self.writer.push(10u8);
    }

    /// Finish the text encoding and extract the bytes to send in a HTTP response. The
    /// encoder starts afresh with an empty buffer.
    pub fn finish(&mut self) -> (out: Vec<u8>)
        requires
            old(self).text_wf(),
        ensures
            out@ == old(self).prefix() + render_text(old(self).text_events()),
            final(self).text_wf(),
            final(self).prefix() == Seq::<u8>::empty(),
            final(self).text_events() == Seq::<EncodingEvent>::empty(),
    {
        let mut out: Vec<u8> = Vec::new();
        std::mem::swap(&mut out, &mut self.writer);
        self.state = State::Info;
        self.prefix = Ghost(Seq::empty());
        self.events = Ghost(Seq::empty());
        out
    }

    /// Write the help line for a metric
    pub fn write_help<N: MetricNameEncoder>(&mut self, name: N, help: &str)
        requires
            old(self).text_wf(),
        ensures
            final(self).text_wf(),
            final(self).prefix() == old(self).prefix(),
            final(self).text_events() == old(self).text_events().push(
                EncodingEvent::Help { name: name.spec_name(), help: help.spec_bytes() },
            ),
    {
        let ghost e: EncodingEvent = EncodingEvent::Help {
            name: name.spec_name(),
            help: help.spec_bytes(),
        };
        let ghost before: Seq<u8> = self.writer@;
        let ghost sep: Seq<u8> = family_separator(self.state == State::Metrics);
        if self.state == State::Metrics {
            self.write_line();
        }
        self.state = State::Info;
        let lit: [u8; 7] = [35u8, 32u8, 72u8, 69u8, 76u8, 80u8, 32u8];
        push_all(&mut self.writer, lit.as_slice());
        name.encode_utf8(&mut self.writer);
        self.writer.push(32u8);
        push_all(&mut self.writer, help.as_bytes());
        self.writer.push(10u8);
        proof {
            assert(lit@ == help_prefix());
            lemma_render_push(self.events@, e);
            assert(self.writer@ == before + render_event(after_samples(self.events@), e));
        }
        self.events = Ghost(self.events@.push(e));
        proof {
            assert(self.events@.last() == e);
            assert(self.writer@ == self.prefix@ + render_text(self.events@));
        }
    }

    /// Write the type line for a metric
    pub fn write_type<N: MetricNameEncoder>(&mut self, name: N, typ: MetricType)
        requires
            old(self).text_wf(),
        ensures
            final(self).text_wf(),
            final(self).prefix() == old(self).prefix(),
            final(self).text_events() == old(self).text_events().push(
                EncodingEvent::Type { name: name.spec_name(), typ },
            ),
    {
        let ghost e: EncodingEvent = EncodingEvent::Type { name: name.spec_name(), typ };
        let ghost before: Seq<u8> = self.writer@;
        if self.state == State::Metrics {
            self.write_line();
        }
        self.state = State::Info;
        let lit: [u8; 7] = [35u8, 32u8, 84u8, 89u8, 80u8, 69u8, 32u8];
        push_all(&mut self.writer, lit.as_slice());
        name.encode_utf8(&mut self.writer);
        let ghost mid: Seq<u8> = self.writer@;
        match typ {
            MetricType::Counter => {
                let w: [u8; 9] = [32u8, 99u8, 111u8, 117u8, 110u8, 116u8, 101u8, 114u8, 10u8];
                push_all(&mut self.writer, w.as_slice());
                proof {
                    assert(w@ == type_line_end(typ));
                }
            },
            MetricType::Histogram => {
                let w: [u8; 11] = [
                    32u8,
                    104u8,
                    105u8,
                    115u8,
                    116u8,
                    111u8,
                    103u8,
                    114u8,
                    97u8,
                    109u8,
                    10u8,
                ];
                push_all(&mut self.writer, w.as_slice());
                proof {
                    assert(w@ == type_line_end(typ));
                }
            },
            MetricType::Gauge => {
                let w: [u8; 7] = [32u8, 103u8, 97u8, 117u8, 103u8, 101u8, 10u8];
                push_all(&mut self.writer, w.as_slice());
                proof {
                    assert(w@ == type_line_end(typ));
                }
            },
            MetricType::Summary => {
                let w: [u8; 9] = [32u8, 115u8, 117u8, 109u8, 109u8, 97u8, 114u8, 121u8, 10u8];
                push_all(&mut self.writer, w.as_slice());
                proof {
                    assert(w@ == type_line_end(typ));
                }
            },
            MetricType::Untyped => {
                let w: [u8; 9] = [32u8, 117u8, 110u8, 116u8, 121u8, 112u8, 101u8, 100u8, 10u8];
                push_all(&mut self.writer, w.as_slice());
                proof {
                    assert(w@ == type_line_end(typ));
                }
            },
        }
        proof {
            assert(lit@ == type_prefix());
            lemma_render_push(self.events@, e);
            assert(self.writer@ == before + render_event(after_samples(self.events@), e));
        }
        self.events = Ghost(self.events@.push(e));
        proof {
            assert(self.events@.last() == e);
            assert(self.writer@ == self.prefix@ + render_text(self.events@));
        }
    }

    /// Write one sample line: the metric name, its labels, and its value.
    pub fn write_metric_value<N: MetricNameEncoder, L: LabelGroup>(
        &mut self,
        name: N,
        labels: L,
        value: MetricValue,
    )
        requires
            old(self).text_wf(),
        ensures
            final(self).text_wf(),
            final(self).prefix() == old(self).prefix(),
            final(self).text_events() == old(self).text_events().push(
                EncodingEvent::Sample {
                    name: name.spec_name(),
                    labels: labels.label_pairs(),
                    value: value.spec_value(),
                },
            ),
    {
        let ghost e: EncodingEvent = EncodingEvent::Sample {
            name: name.spec_name(),
            labels: labels.label_pairs(),
            value: value.spec_value(),
        };
        let ghost before: Seq<u8> = self.writer@;
        self.state = State::Metrics;
        name.encode_utf8(&mut self.writer);
        let mut visitor = TextGroupVisitor { first: true, out: Vec::new(), pairs: Ghost(Seq::empty()) };
        proof {
            assert(visitor.out@ == opened_labels(visitor.pairs@));
        }
        labels.visit_values(&mut visitor);
        proof {
            assert(visitor.pairs@ == Seq::<(Seq<u8>, Seq<u8>)>::empty() + labels.label_pairs());
            assert(visitor.pairs@ == labels.label_pairs());
        }
        let rendered: Vec<u8> = visitor.finish();
        push_all(&mut self.writer, rendered.as_slice());
        self.writer.push(32u8);
        let ghost with_labels: Seq<u8> = self.writer@;
        match value {
            MetricValue::Int(x) => {
                let s: String = format_i64(x);
                let digits: &[u8] = s.as_str().as_bytes();
                proof {
                    assert(digits@ == decimal_int(x as int));
                }
                push_all(&mut self.writer, digits);
            },
            MetricValue::Float(t) => {
                push_all(&mut self.writer, t.as_slice());
            },
        }
        proof {
            assert(self.writer@ == with_labels + render_value(value.spec_value()));
        }
        self.writer.push(10u8);
        proof {
            lemma_render_push(self.events@, e);
            assert(self.writer@ == before + render_event(after_samples(self.events@), e));
        }
        self.events = Ghost(self.events@.push(e));
        proof {
            assert(self.events@.last() == e);
            assert(self.writer@ == self.prefix@ + render_text(self.events@));
        }
    }
}

impl Encoding for TextEncoder {
    type Err = Infallible;

    closed spec fn events(&self) -> Seq<EncodingEvent> {
        self.events@
    }

    closed spec fn enc_wf(&self) -> bool {
        self.text_wf()
    }

    open spec fn infallible() -> bool {
        true
    }

    open spec fn errors(&self) -> Seq<Infallible> {
        Seq::empty()
    }

    fn write_help<N: MetricNameEncoder>(&mut self, name: N, help: &str) -> (r: Result<(), Infallible>) {
        TextEncoder::write_help(self, name, help);
        Ok(())
    }

    fn write_type<N: MetricNameEncoder>(&mut self, name: N, typ: MetricType) -> (r: Result<(), Infallible>) {
        TextEncoder::write_type(self, name, typ);
        Ok(())
    }

    fn write_metric_value<N: MetricNameEncoder, L: LabelGroup>(
        &mut self,
        name: N,
        labels: L,
        value: MetricValue,
    ) -> (r: Result<(), Infallible>) {
        TextEncoder::write_metric_value(self, name, labels, value);
        Ok(())
    }
}

/// The prometheus text encoder helper, buffering into memory
pub struct BufferedTextEncoder {
    inner: TextEncoder,
}

impl BufferedTextEncoder {
    /// Create a new text encoder.
    pub fn new() -> (e: BufferedTextEncoder)
        ensures
            e.enc_wf(),
            e.events() == Seq::<EncodingEvent>::empty(),
    {
        BufferedTextEncoder { inner: TextEncoder::new(Vec::new()) }
    }

    /// Finish the text encoding and extract the bytes to send in a HTTP response. The
    /// encoder starts afresh.
    pub fn finish(&mut self) -> (out: Vec<u8>)
        requires
            old(self).enc_wf(),
        ensures
            out@ == render_text(old(self).events()),
            final(self).enc_wf(),
            final(self).events() == Seq::<EncodingEvent>::empty(),
    {
        self.inner.flush();
        let out: Vec<u8> = self.inner.finish();
        proof {
            lemma_render_push(old(self).events(), EncodingEvent::Flush);
        }
        out
    }
}

impl Default for BufferedTextEncoder {
    fn default() -> (e: Self)
        ensures
            e.enc_wf(),
            e.events() == Seq::<EncodingEvent>::empty(),
    {
        Self::new()
    }
}

impl Encoding for BufferedTextEncoder {
    type Err = Infallible;

    closed spec fn events(&self) -> Seq<EncodingEvent> {
        self.inner.text_events()
    }

    closed spec fn enc_wf(&self) -> bool {
        self.inner.text_wf() && self.inner.prefix() == Seq::<u8>::empty()
    }

    open spec fn infallible() -> bool {
        true
    }

    open spec fn errors(&self) -> Seq<Infallible> {
        Seq::empty()
    }

    fn write_help<N: MetricNameEncoder>(&mut self, name: N, help: &str) -> (r: Result<(), Infallible>) {
        self.inner.write_help(name, help);
        Ok(())
    }

    fn write_type<N: MetricNameEncoder>(&mut self, name: N, typ: MetricType) -> (r: Result<(), Infallible>) {
        self.inner.write_type(name, typ);
        Ok(())
    }

    fn write_metric_value<N: MetricNameEncoder, L: LabelGroup>(
        &mut self,
        name: N,
        labels: L,
        value: MetricValue,
    ) -> (r: Result<(), Infallible>) {
        self.inner.write_metric_value(name, labels, value);
        Ok(())
    }
}

} // verus!
