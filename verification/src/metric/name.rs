//! Metric names and name encodings

use vstd::prelude::*;
use vstd::string::StringSliceAdditionalSpecFns;

use crate::fmt::push_all;
use crate::label::name::{is_ascii_digit, is_label_byte};

verus! {

/// Whether `b` may appear in a metric name: `[a-zA-Z0-9_:]`.
pub open spec fn is_metric_byte(b: u8) -> bool {
    is_label_byte(b) || b == 58
}

/// Whether `s` matches the metric name regex `[a-zA-Z_:][a-zA-Z0-9_:]*`.
pub open spec fn is_metric_name(s: Seq<u8>) -> bool {
    &&& s.len() > 0
    &&& forall|i: int| 0 <= i < s.len() ==> #[trigger] is_metric_byte(s[i])
    &&& !is_ascii_digit(s[0])
}

/// Error returned by [`MetricName::try_from_str`]
#[derive(Debug, PartialEq, Eq, Structural)]
pub enum InvalidMetricName {
    /// The metric name contained invalid characters
    InvalidChars,
    /// The metric name was empty
    Empty,
    /// The metric name started with a number
    StartsWithNumber,
}

impl InvalidMetricName {
    /// The message describing this error
    pub fn message(&self) -> (s: &'static str)
        ensures
            s@ == match self {
                InvalidMetricName::InvalidChars => "metric name contained invalid characters"@,
                InvalidMetricName::Empty => "metric name was empty"@,
                InvalidMetricName::StartsWithNumber => "metric name started with a number"@,
            },
    {
        match self {
            InvalidMetricName::InvalidChars => "metric name contained invalid characters",
            InvalidMetricName::Empty => "metric name was empty",
            InvalidMetricName::StartsWithNumber => "metric name started with a number",
        }
    }
}

/// The outcome of validating `s` as a metric name: emptiness is reported first, then
/// invalid characters, then a leading digit.
pub open spec fn metric_name_check(s: Seq<u8>) -> Result<(), InvalidMetricName> {
    if s.len() == 0 {
        Err(InvalidMetricName::Empty)
    } else if exists|i: int| 0 <= i < s.len() && !#[trigger] is_metric_byte(s[i]) {
        Err(InvalidMetricName::InvalidChars)
    } else if is_ascii_digit(s[0]) {
        Err(InvalidMetricName::StartsWithNumber)
    } else {
        Ok(())
    }
}

/// A metric name is accepted exactly when it matches the metric name regex.
pub proof fn lemma_metric_name_check(s: Seq<u8>)
    ensures
        metric_name_check(s) is Ok <==> is_metric_name(s),
{
}

/// Validate a metric name, reporting why it is invalid.
pub fn try_assert_metric_name(value: &str) -> (r: Result<(), InvalidMetricName>)
    ensures
        r == metric_name_check(value.spec_bytes()),
{
    let bytes: &[u8] = value.as_bytes();
    let n: usize = bytes.len();
    if n == 0 {
        return Err(InvalidMetricName::Empty);
    }
    let mut i: usize = 0;
    while i < n
        invariant
            n == bytes@.len(),
            bytes@ == value.spec_bytes(),
            i <= n,
            forall|j: int| 0 <= j < i ==> #[trigger] is_metric_byte(bytes@[j]),
        decreases n - i,
    {
        let b: u8 = bytes[i];
        if !((b >= 48 && b <= 57) || (b >= 65 && b <= 90) || (b >= 97 && b <= 122) || b == 95
            || b == 58) {
            proof {
                assert(!is_metric_byte(bytes@[i as int]));
            }
            return Err(InvalidMetricName::InvalidChars);
        }
        i = i + 1;
    }
    let first: u8 = bytes[0];
    if first >= 48 && first <= 57 {
        return Err(InvalidMetricName::StartsWithNumber);
    }
    Ok(())
}

/// Validates that a string is a metric name. Strings that do not match
/// `[a-zA-Z_:][a-zA-Z0-9_:]*` are outside the domain of this check.
pub fn const_assert_metric_name(name: &str)
    requires
        is_metric_name(name.spec_bytes()),
{
    let r: Result<(), InvalidMetricName> = try_assert_metric_name(name);
    proof {
        lemma_metric_name_check(name.spec_bytes());
        assert(r is Ok);
    }
}

/// `MetricNameEncoder` represents a type that can be encoded into the name of a metric when
/// collected.
pub trait MetricNameEncoder {
    /// The bytes this name encodes to.
    spec fn spec_name(&self) -> Seq<u8>;

    /// Append this name to the given buffer according to the Prometheus metric name
    /// encoding specification.
    fn encode_utf8(&self, b: &mut Vec<u8>)
        ensures
            final(b)@ == old(b)@ + self.spec_name(),
    ;

    /// The length of the utf8 string this metric name encodes to.
    fn encode_len(&self) -> (n: usize)
        requires
            self.spec_name().len() <= usize::MAX,
        ensures
            n == self.spec_name().len(),
    ;

    /// Borrow this metric name
    fn by_ref(&self) -> (r: &Self)
        ensures
            r == self,
    {
        self
    }
}

/// `Suffix` defines semantic suffixes as suggested by Prometheus
///
/// Included suffixes:
/// * [`Total`] - Good for counters
/// * [`Count`] - Used internally for histograms
/// * [`Sum`] - Used internally for histograms
/// * [`Bucket`] - Used internally for histograms
pub trait Suffix {
    /// The bytes of the suffix, starting with `_`.
    spec fn spec_suffix(&self) -> Seq<u8>;

    /// Write `_` followed by the suffix value to the buffer
    fn encode_text(&self, b: &mut Vec<u8>)
        ensures
            final(b)@ == old(b)@ + self.spec_suffix(),
    ;

    /// The length of the utf8 string this suffix encodes to.
    fn encode_len(&self) -> (n: usize)
        ensures
            n == self.spec_suffix().len(),
    ;
}

/// Represents a string-based [`MetricNameEncoder`]
///
/// Metric names may contain ASCII letters, digits, underscores, and colons. It must match the
/// regex `[a-zA-Z_:][a-zA-Z0-9_:]*`.
#[derive(Clone, Copy)]
pub struct MetricName<'a> {
    name: &'a str,
}

impl<'a> View for MetricName<'a> {
    type V = Seq<u8>;

    closed spec fn view(&self) -> Seq<u8> {
        self.name.spec_bytes()
    }
}

impl<'a> MetricName<'a> {
    /// Every metric name satisfies the metric name rules.
    #[verifier::type_invariant]
    closed spec fn inv(self) -> bool {
        is_metric_name(self.name.spec_bytes())
    }

    /// Construct a [`MetricName`] from a string that satisfies the metric name rules.
    pub fn from_str(value: &'a str) -> (n: MetricName<'a>)
        requires
            is_metric_name(value.spec_bytes()),
        ensures
            n@ == value.spec_bytes(),
    {
        const_assert_metric_name(value);
        MetricName { name: value }
    }

    /// Construct a [`MetricName`] from a string
    ///
    /// # Errors
    /// Returns the reason the string is not a metric name, if it is not one.
    pub fn try_from_str(value: &'a str) -> (r: Result<MetricName<'a>, InvalidMetricName>)
        ensures
            match r {
                Ok(n) => metric_name_check(value.spec_bytes()) is Ok && n@ == value.spec_bytes(),
                Err(e) => metric_name_check(value.spec_bytes()) == Err::<(), InvalidMetricName>(e),
            },
    {
        match try_assert_metric_name(value) {
            Ok(()) => {
                proof {
                    lemma_metric_name_check(value.spec_bytes());
                }
                Ok(MetricName { name: value })
            },
            Err(e) => Err(e),
        }
    }

    /// Get the metric name as a string
    pub fn as_str(&self) -> (s: &'a str)
        ensures
            s.spec_bytes() == self@,
    {
        self.name
    }

    /// Add a namespace prefix to this metric name.
    pub fn in_namespace(&self, ns: &'static str) -> (r: WithNamespace<&Self>)
        requires
            is_metric_name(ns.spec_bytes()),
        ensures
            r.spec_name() == ns.spec_bytes() + seq![95u8] + self@,
    {
        WithNamespace { namespace: MetricName::from_str(ns), inner: self }
    }

    /// Adds a semantic suffix to this metric name.
    pub fn with_suffix<S: Suffix>(&self, suffix: S) -> (r: WithSuffix<S, &Self>)
        ensures
            r.spec_name() == self@ + suffix.spec_suffix(),
    {
        WithSuffix { suffix, metric_name: self }
    }
}

impl<'a> MetricNameEncoder for MetricName<'a> {
    open spec fn spec_name(&self) -> Seq<u8> {
        self@
    }

    fn encode_utf8(&self, b: &mut Vec<u8>) {
        push_all(b, self.name.as_bytes());
    }

    fn encode_len(&self) -> (n: usize) {
        self.name.len()
    }
}

impl<'b, T: MetricNameEncoder> MetricNameEncoder for &'b T {
    open spec fn spec_name(&self) -> Seq<u8> {
        (**self).spec_name()
    }

    fn encode_utf8(&self, b: &mut Vec<u8>) {
        (**self).encode_utf8(b)
    }

    fn encode_len(&self) -> (n: usize) {
        (**self).encode_len()
    }
}

/// See [`MetricName::in_namespace`]
pub struct WithNamespace<T> {
    pub namespace: MetricName<'static>,
    pub inner: T,
}

impl<T> WithNamespace<T> {
    /// Create a new namespaced value. The namespace must satisfy the metric name rules.
    pub fn new(ns: &'static str, inner: T) -> (r: Self)
        requires
            is_metric_name(ns.spec_bytes()),
        ensures
            r.namespace@ == ns.spec_bytes(),
            r.inner == inner,
    {
        WithNamespace { namespace: MetricName::from_str(ns), inner }
    }

    /// Adds a semantic suffix to this metric name.
    pub fn with_suffix<S: Suffix>(self, suffix: S) -> (r: WithSuffix<S, Self>)
        ensures
            r.suffix == suffix,
            r.metric_name == self,
    {
        WithSuffix { suffix, metric_name: self }
    }
}

impl<T: MetricNameEncoder> MetricNameEncoder for WithNamespace<T> {
    open spec fn spec_name(&self) -> Seq<u8> {
        self.namespace@ + seq![95u8] + self.inner.spec_name()
    }

    fn encode_utf8(&self, b: &mut Vec<u8>) {
        self.namespace.encode_utf8(b);
        b.push(95u8);
        self.inner.encode_utf8(b);
    }

    fn encode_len(&self) -> (n: usize) {
        let ns: usize = self.namespace.encode_len();
        let inner: usize = self.inner.encode_len();
        ns + 1 + inner
    }
}

/// See [`MetricName::with_suffix`]
pub struct WithSuffix<S, T> {
    pub suffix: S,
    pub metric_name: T,
}

impl<S: Suffix, T: MetricNameEncoder> MetricNameEncoder for WithSuffix<S, T> {
    open spec fn spec_name(&self) -> Seq<u8> {
        self.metric_name.spec_name() + self.suffix.spec_suffix()
    }

    fn encode_utf8(&self, b: &mut Vec<u8>) {
        self.metric_name.encode_utf8(b);
        self.suffix.encode_text(b);
    }

    fn encode_len(&self) -> (n: usize) {
        let name: usize = self.metric_name.encode_len();
        let suffix: usize = self.suffix.encode_len();
        name + suffix
    }
}

/// `_total`. A [`Suffix`] that is good for counters
pub struct Total;

/// `_count`. A [`Suffix`] that is used internally for histograms
pub struct Count;

/// `_sum`. A [`Suffix`] that is used internally for histograms
pub struct Sum;

/// `_bucket`. A [`Suffix`] that is used internally for histograms
pub struct Bucket;

/// The bytes of `_total`.
pub open spec fn total_suffix() -> Seq<u8> {
    seq![95u8, 116u8, 111u8, 116u8, 97u8, 108u8]
}

/// The bytes of `_count`.
pub open spec fn count_suffix() -> Seq<u8> {
    seq![95u8, 99u8, 111u8, 117u8, 110u8, 116u8]
}

/// The bytes of `_sum`.
pub open spec fn sum_suffix() -> Seq<u8> {
    seq![95u8, 115u8, 117u8, 109u8]
}

/// The bytes of `_bucket`.
pub open spec fn bucket_suffix() -> Seq<u8> {
    seq![95u8, 98u8, 117u8, 99u8, 107u8, 101u8, 116u8]
}

/// Appends the given literal bytes to the buffer.
fn push_literal(b: &mut Vec<u8>, lit: &[u8])
    ensures
        final(b)@ == old(b)@ + lit@,
{
    push_all(b, lit);
}

impl Suffix for Total {
    open spec fn spec_suffix(&self) -> Seq<u8> {
        total_suffix()
    }

    fn encode_text(&self, b: &mut Vec<u8>) {
        let lit: [u8; 6] = [95u8, 116u8, 111u8, 116u8, 97u8, 108u8];
        push_literal(b, lit.as_slice());
        proof {
            assert(lit@ == total_suffix());
        }
    }

    fn encode_len(&self) -> (n: usize) {
        6
    }
}

impl Suffix for Count {
    open spec fn spec_suffix(&self) -> Seq<u8> {
        count_suffix()
    }

    fn encode_text(&self, b: &mut Vec<u8>) {
        let lit: [u8; 6] = [95u8, 99u8, 111u8, 117u8, 110u8, 116u8];
        push_literal(b, lit.as_slice());
        proof {
            assert(lit@ == count_suffix());
        }
    }

    fn encode_len(&self) -> (n: usize) {
        6
    }
}

impl Suffix for Sum {
    open spec fn spec_suffix(&self) -> Seq<u8> {
        sum_suffix()
    }

    fn encode_text(&self, b: &mut Vec<u8>) {
        let lit: [u8; 4] = [95u8, 115u8, 117u8, 109u8];
        push_literal(b, lit.as_slice());
        proof {
            assert(lit@ == sum_suffix());
        }
    }

    fn encode_len(&self) -> (n: usize) {
        4
    }
}

impl Suffix for Bucket {
    open spec fn spec_suffix(&self) -> Seq<u8> {
        bucket_suffix()
    }

    fn encode_text(&self, b: &mut Vec<u8>) {
        let lit: [u8; 7] = [95u8, 98u8, 117u8, 99u8, 107u8, 101u8, 116u8];
        push_literal(b, lit.as_slice());
        proof {
            assert(lit@ == bucket_suffix());
        }
    }

    fn encode_len(&self) -> (n: usize) {
        7
    }
}

} // verus!
