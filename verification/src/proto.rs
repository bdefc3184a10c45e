//! The prometheus protobuf encoding: each metric family is one length-prefixed
//! `MetricFamily` message.

pub mod encoding;

use vstd::prelude::*;
use vstd::string::StringSliceAdditionalSpecFns;

use crate::fmt::format_i64;
use crate::label::{LabelGroup, LabelGroupVisitor, LabelName, LabelValue, LabelVisitor};
use crate::metric::name::MetricNameEncoder;
use crate::proto::encoding::string::length_delimited_bytes;
use crate::proto::encoding::{encode_key, encode_varint, encoded_len_varint, key_bytes, key_len, varint_bytes, WireType};

verus! {

/// Prometheus only supports these 5 types of metrics
#[derive(PartialEq, Eq, Structural)]
pub enum MetricType {
    /// A counter
    Counter,
    /// A histogram
    Histogram,
    /// A gauge
    Gauge,
    /// Not currently supported
    Summary,
    /// Not currently supported
    Untyped,
}

impl MetricType {
    /// The number of this metric type in the `MetricType` enumeration of the prometheus
    /// protobuf schema.
    pub open spec fn spec_code(&self) -> u64 {
        match self {
            MetricType::Counter => 0,
            MetricType::Gauge => 1,
            MetricType::Summary => 2,
            MetricType::Untyped => 3,
            MetricType::Histogram => 4,
        }
    }

    /// The number of this metric type in the `MetricType` enumeration of the prometheus
    /// protobuf schema.
    pub fn code(&self) -> (r: u64)
        ensures
            r == self.spec_code(),
    {
        match self {
            MetricType::Counter => 0,
            MetricType::Gauge => 1,
            MetricType::Summary => 2,
            MetricType::Untyped => 3,
            MetricType::Histogram => 4,
        }
    }
}

#[derive(PartialEq, Eq, Structural)]
enum State {
    Init,
    Help,
    Metrics,
}

/// The bytes of a varint field: its key, then the value as a varint.
pub open spec fn varint_field_bytes(tag: u32, value: u64) -> Seq<u8> {
    key_bytes(tag, WireType::Varint) + varint_bytes(value as nat)
}

/// The bytes of a fixed 64-bit field: its key, then the value in little-endian order.
pub open spec fn fixed64_field_bytes(tag: u32, value: u64) -> Seq<u8> {
    key_bytes(tag, WireType::SixtyFourBit) + le_bytes(value)
}

/// The eight little-endian bytes of a value.
pub open spec fn le_bytes(value: u64) -> Seq<u8> {
    Seq::new(8, |i: int| ((value >> ((8 * i) as u64)) & 0xff) as u8)
}

/// One message of a length-delimited stream: the length of the body as a varint, then the
/// body.
pub open spec fn framed(body: Seq<u8>) -> Seq<u8> {
    varint_bytes(body.len()) + body
}

/// The bytes of a `LabelPair` message field of a `Metric`.
pub open spec fn label_pair_bytes(pair: (Seq<u8>, Seq<u8>)) -> Seq<u8> {
    length_delimited_bytes(1, length_delimited_bytes(1, pair.0) + length_delimited_bytes(2, pair.1))
}

/// The bytes of a sequence of `LabelPair` message fields.
pub open spec fn label_pairs_bytes(pairs: Seq<(Seq<u8>, Seq<u8>)>) -> Seq<u8>
    decreases pairs.len(),
{
    if pairs.len() == 0 {
        Seq::empty()
    } else {
        label_pairs_bytes(pairs.drop_last()) + label_pair_bytes(pairs.last())
    }
}

/// The bytes of one `Metric` message field: the label pairs, then a message field
/// `value_tag` holding a double field whose IEEE-754 bits are `bits`.
pub open spec fn metric_bytes(labels: Seq<(Seq<u8>, Seq<u8>)>, value_tag: u32, bits: u64) -> Seq<u8> {
    length_delimited_bytes(4, label_pairs_bytes(labels) + length_delimited_bytes(value_tag, fixed64_field_bytes(1, bits)))
}

/// The bytes of the `Metric` message fields of labelled samples, one per sample.
pub open spec fn metrics_bytes(labels: Seq<Seq<(Seq<u8>, Seq<u8>)>>, value_tag: u32, bits: Seq<u64>) -> Seq<u8>
    decreases bits.len(),
{
    if bits.len() == 0 {
        Seq::empty()
    } else {
        metrics_bytes(labels, value_tag, bits.drop_last()) + metric_bytes(
            labels[bits.len() - 1],
            value_tag,
            bits.last(),
        )
    }
}

/// The label pairs of each labelled metric.
pub open spec fn labels_of<G: LabelGroup, M>(metrics: Seq<(G, &M)>) -> Seq<Seq<(Seq<u8>, Seq<u8>)>> {
    metrics.map_values(|p: (G, &M)| p.0.label_pairs())
}

/// Writes a length-delimited message field whose body has already been built.
pub fn encode_message(tag: u32, body: &Vec<u8>, buf: &mut Vec<u8>)
    requires
        encoding::MIN_TAG <= tag <= encoding::MAX_TAG,
    ensures
        final(buf)@ == old(buf)@ + length_delimited_bytes(tag, body@),
{
    encode_key(tag, WireType::LengthDelimited, buf);
    encode_varint(body.len() as u64, buf);
    crate::fmt::push_all(buf, body.as_slice());
    proof {
        assert(final(buf)@ == old(buf)@ + length_delimited_bytes(tag, body@));
    }
}

/// The length of a length-delimited message field whose body is `len` bytes long.
pub fn message_len(tag: u32, len: usize) -> (r: usize)
    requires
        encoding::MIN_TAG <= tag <= encoding::MAX_TAG,
        len + 15 <= usize::MAX,
    ensures
        forall|body: Seq<u8>| body.len() == len ==> r == #[trigger] length_delimited_bytes(tag, body).len(),
{
    let k: usize = key_len(tag);
    let l: usize = encoded_len_varint(len as u64);
    proof {
        assert(k == key_bytes(tag, WireType::LengthDelimited).len());
    }
    k + l + len
}

/// Writes a varint field.
pub fn encode_varint_field(tag: u32, value: u64, buf: &mut Vec<u8>)
    requires
        encoding::MIN_TAG <= tag <= encoding::MAX_TAG,
    ensures
        final(buf)@ == old(buf)@ + varint_field_bytes(tag, value),
{
    encode_key(tag, WireType::Varint, buf);
    encode_varint(value, buf);
}

/// Writes a fixed 64-bit field.
pub fn encode_fixed64_field(tag: u32, value: u64, buf: &mut Vec<u8>)
    requires
        encoding::MIN_TAG <= tag <= encoding::MAX_TAG,
    ensures
        final(buf)@ == old(buf)@ + fixed64_field_bytes(tag, value),
{
    encode_key(tag, WireType::SixtyFourBit, buf);
    let ghost mid: Seq<u8> = buf@;
    let mut v: u64 = value;
    let mut i: u64 = 0;
    assert(value >> 0u64 == value) by (bit_vector);
    while i < 8
        invariant
            i <= 8,
            buf@.len() == mid.len() + i,
            buf@.subrange(0, mid.len() as int) == mid,
            v == value >> ((8 * i) as u64),
            forall|j: int| 0 <= j < i ==> #[trigger] buf@[mid.len() + j] == le_bytes(value)[j],
        decreases 8 - i,
    {
        let byte: u8 = (v & 0xff) as u8;
        let next: u64 = v >> 8;
        assert(next == value >> ((8 * (i + 1)) as u64) && byte == ((value >> ((8 * i) as u64)) & 0xff) as u8) by (bit_vector)
            requires
                i < 8,
                v == value >> ((8 * i) as u64),
                next == v >> 8,
                byte == (v & 0xff) as u8,
        ;
        let ghost before: Seq<u8> = buf@;
        buf.push(byte);
        proof {
            assert(buf@.subrange(0, mid.len() as int) == before.subrange(0, mid.len() as int));
            assert(le_bytes(value)[i as int] == byte);
        }
        v = next;
        i = i + 1;
    }
    proof {
        let m: int = mid.len() as int;
        let tail: Seq<u8> = buf@.subrange(m, buf@.len() as int);
        assert forall|j: int| 0 <= j < 8 implies #[trigger] tail[j] == le_bytes(value)[j] by {
            assert(buf@[m + j] == le_bytes(value)[j]);
        }
        assert(tail =~= le_bytes(value));
        assert(buf@ =~= buf@.subrange(0, m) + tail);
        assert(buf@ =~= old(buf)@ + fixed64_field_bytes(tag, value));
    }
}

/// Writes the `LabelPair` message of a label name and value text.
fn encode_label_pair(name: &[u8], value: &[u8], buf: &mut Vec<u8>)
    ensures
        final(buf)@ == old(buf)@ + label_pair_bytes((name@, value@)),
{
    let mut body: Vec<u8> = Vec::new();
    encoding::string::encode_slice(1, name, &mut body);
    encoding::string::encode_slice(2, value, &mut body);
    proof {
        assert(body@ == length_delimited_bytes(1, name@) + length_delimited_bytes(2, value@));
    }
    encode_message(1, &body, buf);
}

/// A visitor that renders a label value as its text.
struct ValueTextVisitor;

impl LabelVisitor for ValueTextVisitor {
    type Output = Vec<u8>;

    open spec fn produced(&self, text: Seq<u8>, out: &Vec<u8>) -> bool {
        out@ == text
    }

    fn write_int(self, x: i64) -> (out: Vec<u8>) {
        let s: String = format_i64(x);
        self.write_str(s.as_str())
    }

    fn write_str(self, x: &str) -> (out: Vec<u8>) {
        let mut out: Vec<u8> = Vec::new();
        crate::fmt::push_all(&mut out, x.as_bytes());
        out
    }
}

/// A visitor that writes the `LabelPair` messages of a label group.
struct GroupVisitor {
    buf: Vec<u8>,
    pairs: Ghost<Seq<(Seq<u8>, Seq<u8>)>>,
}

impl LabelGroupVisitor for GroupVisitor {
    closed spec fn visited(&self) -> Seq<(Seq<u8>, Seq<u8>)> {
        self.pairs@
    }

    closed spec fn visitor_wf(&self) -> bool {
        self.buf@ == label_pairs_bytes(self.pairs@)
    }

    fn write_value<V: LabelValue + ?Sized>(&mut self, name: &LabelName, x: &V) {
        let ghost p: (Seq<u8>, Seq<u8>) = (name@, x.label_text());
        let ghost old_pairs: Seq<(Seq<u8>, Seq<u8>)> = self.pairs@;
        let text: Vec<u8> = x.visit(ValueTextVisitor);
        encode_label_pair(name.as_str().as_bytes(), text.as_slice(), &mut self.buf);
        self.pairs = Ghost(old_pairs.push(p));
        proof {
            let ps: Seq<(Seq<u8>, Seq<u8>)> = old_pairs.push(p);
            assert(ps.drop_last() == old_pairs);
            assert(self.buf@ == label_pairs_bytes(ps));
        }
    }
}

/// The prometheus protobuf encoder
pub struct ProtoEncoder {
    state: State,
    /// The length-delimited `MetricFamily` messages written so far
    pub writer: Vec<u8>,
    buf: Vec<u8>,
}

impl ProtoEncoder {
    /// The bytes of the writer: what it held when it was handed in, then the families
    /// written since.
    pub closed spec fn written(&self) -> Seq<u8> {
        self.writer@
    }

    /// Whether no metric family is being built.
    pub closed spec fn is_idle(&self) -> bool {
        self.state == State::Init
    }

    /// Whether the family being built has had samples written to it.
    pub closed spec fn has_metrics(&self) -> bool {
        self.state == State::Metrics
    }

    /// The body of the `MetricFamily` message being built.
    pub closed spec fn pending(&self) -> Seq<u8> {
        if self.buf@.len() >= 10 {
            self.buf@.subrange(10, self.buf@.len() as int)
        } else {
            Seq::empty()
        }
    }

    /// The encoder's internal consistency: ten bytes are reserved in front of the pending
    /// message for its length, once anything was written.
    pub closed spec fn proto_wf(&self) -> bool {
        self.buf@.len() >= 10 || (self.buf@.len() == 0 && self.state == State::Init)
    }

    /// Create a new protobuf encoder writing after the bytes of `w`.
    pub fn new(w: Vec<u8>) -> (e: Self)
        ensures
            e.proto_wf(),
            e.written() == w@,
            e.is_idle(),
            e.pending() == Seq::<u8>::empty(),
    {
        ProtoEncoder { state: State::Init, writer: w, buf: Vec::new() }
    }

    /// Writes the family being built, if samples were written to it, to the writer.
    fn flush_buf(&mut self)
        requires
            old(self).proto_wf(),
        ensures
            final(self).proto_wf(),
            final(self).buf@.len() >= 10,
            old(self).has_metrics() ==> {
                &&& final(self).written() == old(self).written() + framed(old(self).pending())
                &&& final(self).pending() == Seq::<u8>::empty()
                &&& final(self).is_idle()
            },
            !old(self).has_metrics() ==> {
                &&& final(self).written() == old(self).written()
                &&& final(self).pending() == old(self).pending()
                &&& final(self).state == old(self).state
            },
    {
        if self.state == State::Metrics {
            self.state = State::Init;
            let n: usize = self.buf.len();
            let len: usize = n - 10;
            encode_varint(len as u64, &mut self.writer);
            let ghost w0: Seq<u8> = self.writer@;
            let mut i: usize = 10;
            while i < n
                invariant
                    n == self.buf@.len(),
                    10 <= i <= n,
                    self.buf@ == old(self).buf@,
                    self.state == State::Init,
                    self.writer@ == w0 + self.buf@.subrange(10, i as int),
                decreases n - i,
            {
                self.writer.push(self.buf[i]);
                proof {
                    assert(self.buf@.subrange(10, i + 1) == self.buf@.subrange(10, i as int).push(self.buf@[i as int]));
                }
                i = i + 1;
            }
            self.buf.truncate(10);
            proof {
                assert(self.buf@.subrange(10, 10) == Seq::<u8>::empty());
                assert(self.writer@ =~= old(self).writer@ + framed(old(self).pending()));
            }
        } else if self.buf.len() == 0 {
            let mut i: usize = 0;
            while i < 10
                invariant
                    i <= 10,
                    self.buf@.len() == i,
                    self.state == old(self).state,
                    self.writer@ == old(self).writer@,
                decreases 10 - i,
            {
                self.buf.push(0u8);
                i = i + 1;
            }
            proof {
                assert(self.buf@.subrange(10, 10) == Seq::<u8>::empty());
            }
        }
    }

    /// Finish the family being built, writing it to the writer if samples were written to it.
    pub fn flush(&mut self)
        requires
            old(self).proto_wf(),
        ensures
            final(self).proto_wf(),
            old(self).has_metrics() ==> {
                &&& final(self).written() == old(self).written() + framed(old(self).pending())
                &&& final(self).pending() == Seq::<u8>::empty()
                &&& final(self).is_idle()
            },
            !old(self).has_metrics() ==> {
                &&& final(self).written() == old(self).written()
                &&& final(self).pending() == old(self).pending()
                &&& final(self).is_idle() == old(self).is_idle()
            },
    {
        self.flush_buf();
    }

    /// Write the help line for a metric family: its `name` and `help` fields
    pub fn write_help<N: MetricNameEncoder>(&mut self, name: N, help: &str)
        requires
            old(self).proto_wf(),
            name.spec_name().len() <= usize::MAX,
        ensures
            final(self).proto_wf(),
            !final(self).is_idle(),
            !final(self).has_metrics(),
            old(self).has_metrics() ==> {
                &&& final(self).written() == old(self).written() + framed(old(self).pending())
                &&& final(self).pending() == length_delimited_bytes(1, name.spec_name())
                    + length_delimited_bytes(2, help.spec_bytes())
            },
            !old(self).has_metrics() ==> {
                &&& final(self).written() == old(self).written()
                &&& final(self).pending() == old(self).pending() + length_delimited_bytes(
                    1,
                    name.spec_name(),
                ) + length_delimited_bytes(2, help.spec_bytes())
            },
    {
        self.flush_buf();
        let ghost before: Seq<u8> = self.buf@;
        encode_key(1, WireType::LengthDelimited, &mut self.buf);
        let n: usize = name.encode_len();
        encode_varint(n as u64, &mut self.buf);
        name.encode_utf8(&mut self.buf);
        encoding::string::encode(2, help, &mut self.buf);
        self.state = State::Help;
        proof {
            assert(self.buf@ == before + length_delimited_bytes(1, name.spec_name()) + length_delimited_bytes(2, help.spec_bytes()));
            assert(self.buf@.subrange(10, self.buf@.len() as int) == before.subrange(10, before.len() as int)
                + length_delimited_bytes(1, name.spec_name()) + length_delimited_bytes(2, help.spec_bytes()));
        }
    }

    /// Write the type of a metric family: its `type` field, preceded by its `name` field
    /// when no help line started the family.
    pub fn write_type<N: MetricNameEncoder>(&mut self, name: N, typ: MetricType)
        requires
            old(self).proto_wf(),
            name.spec_name().len() <= usize::MAX,
        ensures
            final(self).proto_wf(),
            !final(self).has_metrics(),
            final(self).written() == old(self).written() + if old(self).has_metrics() {
                framed(old(self).pending())
            } else {
                Seq::empty()
            },
            final(self).pending() == (if old(self).has_metrics() {
                Seq::empty()
            } else {
                old(self).pending()
            }) + (if old(self).has_metrics() || old(self).is_idle() {
                length_delimited_bytes(1, name.spec_name())
            } else {
                Seq::empty()
            }) + varint_field_bytes(3, typ.spec_code()),
    {
        self.flush_buf();
        let ghost before: Seq<u8> = self.buf@;
        if self.state == State::Init {
            encode_key(1, WireType::LengthDelimited, &mut self.buf);
            let n: usize = name.encode_len();
            encode_varint(n as u64, &mut self.buf);
            name.encode_utf8(&mut self.buf);
            self.state = State::Help;
        }
        let ghost mid: Seq<u8> = self.buf@;
        encode_varint_field(3, typ.code(), &mut self.buf);
        proof {
            assert(self.buf@.subrange(10, self.buf@.len() as int) == mid.subrange(10, mid.len() as int)
                + varint_field_bytes(3, typ.spec_code()));
            if old(self).has_metrics() || old(self).is_idle() {
                assert(mid == before + length_delimited_bytes(1, name.spec_name()));
                assert(mid.subrange(10, mid.len() as int) == before.subrange(10, before.len() as int)
                    + length_delimited_bytes(1, name.spec_name()));
            }
        }
    }

    /// Write one `Metric` message: the label pairs of the group, then a message field
    /// `value_tag` (3 for a counter, 2 for a gauge) that holds the sample as a double field
    /// whose IEEE-754 bits are `value_bits`.
    pub fn write_metric<L: LabelGroup>(&mut self, labels: L, value_tag: u32, value_bits: u64)
        requires
            old(self).proto_wf(),
            encoding::MIN_TAG <= value_tag <= encoding::MAX_TAG,
        ensures
            final(self).proto_wf(),
            final(self).has_metrics(),
            final(self).written() == old(self).written(),
            final(self).pending() == old(self).pending() + length_delimited_bytes(
                4,
                label_pairs_bytes(labels.label_pairs()) + length_delimited_bytes(
                    value_tag,
                    fixed64_field_bytes(1, value_bits),
                ),
            ),
    {
        let mut v = GroupVisitor { buf: Vec::new(), pairs: Ghost(Seq::empty()) };
        proof {
            assert(v.buf@ == label_pairs_bytes(Seq::empty()));
        }
        labels.visit_values(&mut v);
        let mut body: Vec<u8> = v.buf;
        let mut value: Vec<u8> = Vec::new();
        encode_fixed64_field(1, value_bits, &mut value);
        encode_message(value_tag, &value, &mut body);
        if self.buf.len() == 0 {
            let mut i: usize = 0;
            while i < 10
                invariant
                    i <= 10,
                    self.buf@.len() == i,
                    self.state == State::Init,
                    self.writer@ == old(self).writer@,
                decreases 10 - i,
            {
                self.buf.push(0u8);
                i = i + 1;
            }
        }
        proof {
            assert(body@ == label_pairs_bytes(labels.label_pairs()) + length_delimited_bytes(
                value_tag,
                fixed64_field_bytes(1, value_bits),
            ));
        }
        let ghost before: Seq<u8> = self.buf@;
        encode_message(4, &body, &mut self.buf);
        self.state = State::Metrics;
        proof {
            assert(self.buf@.subrange(10, self.buf@.len() as int) == before.subrange(10, before.len() as int)
                + length_delimited_bytes(4, body@));
        }
    }
}

impl ProtoEncoder {
    /// Write one `Metric` message per labelled metric, in order: the label pairs of the
    /// group, then a message field `value_tag` (3 for counters, 2 for gauges) holding the
    /// double whose IEEE-754 bits `value_bits` gives for the metric.
    pub fn write_metrics<G: LabelGroup, M, F: Fn(&M) -> u64>(
        &mut self,
        metrics: &[(G, &M)],
        value_tag: u32,
        value_bits: F,
    )
        requires
            old(self).proto_wf(),
            encoding::MIN_TAG <= value_tag <= encoding::MAX_TAG,
            forall|m: &M| #[trigger] value_bits.requires((m,)),
        ensures
            final(self).proto_wf(),
            final(self).written() == old(self).written(),
            metrics@.len() > 0 ==> final(self).has_metrics(),
            metrics@.len() == 0 ==> final(self).has_metrics() == old(self).has_metrics(),
            exists|bits: Seq<u64>|
                {
                    &&& bits.len() == metrics@.len()
                    &&& forall|i: int| 0 <= i < bits.len() ==> value_bits.ensures((metrics@[i].1,), #[trigger] bits[i])
                    &&& final(self).pending() == old(self).pending() + metrics_bytes(labels_of(metrics@), value_tag, bits)
                },
    {
        let ghost mut bits: Seq<u64> = Seq::empty();
        let n: usize = metrics.len();
        let mut i: usize = 0;
        while i < n
            invariant
                n == metrics@.len(),
                i <= n,
                self.proto_wf(),
                encoding::MIN_TAG <= value_tag <= encoding::MAX_TAG,
                forall|m: &M| #[trigger] value_bits.requires((m,)),
                self.written() == old(self).written(),
                i > 0 ==> self.has_metrics(),
                i == 0 ==> self.has_metrics() == old(self).has_metrics(),
                bits.len() == i,
                forall|j: int| 0 <= j < i ==> value_bits.ensures((metrics@[j].1,), #[trigger] bits[j]),
                self.pending() == old(self).pending() + metrics_bytes(labels_of(metrics@), value_tag, bits),
            decreases n - i,
        {
            let b: u64 = value_bits(metrics[i].1);
            let ghost before: Seq<u8> = self.pending();
            self.write_metric(&metrics[i].0, value_tag, b);
            proof {
                let next: Seq<u64> = bits.push(b);
                assert(next.drop_last() == bits);
                assert(labels_of(metrics@)[i as int] == metrics@[i as int].0.label_pairs());
                assert(self.pending() == old(self).pending() + metrics_bytes(labels_of(metrics@), value_tag, next));
                bits = next;
            }
            i = i + 1;
        }
    }
}

} // verus!
