//! Validated label names.

use vstd::prelude::*;
use vstd::string::StringSliceAdditionalSpecFns;

verus! {

/// Whether `b` is an ASCII decimal digit.
pub open spec fn is_ascii_digit(b: u8) -> bool {
    48 <= b <= 57
}

/// Whether `b` is an ASCII letter.
pub open spec fn is_ascii_letter(b: u8) -> bool {
    (65 <= b <= 90) || (97 <= b <= 122)
}

/// Whether `b` may appear in a label name: `[a-zA-Z0-9_]`.
pub open spec fn is_label_byte(b: u8) -> bool {
    is_ascii_digit(b) || is_ascii_letter(b) || b == 95
}

/// Whether `s` matches the label name regex `[a-zA-Z_][a-zA-Z0-9_]*`.
pub open spec fn is_label_name(s: Seq<u8>) -> bool {
    &&& s.len() > 0
    &&& forall|i: int| 0 <= i < s.len() ==> #[trigger] is_label_byte(s[i])
    &&& !is_ascii_digit(s[0])
}

/// Checks whether `name` is a valid label name.
pub fn is_valid_label_name(name: &str) -> (b: bool)
    ensures
        b == is_label_name(name.spec_bytes()),
{
    let bytes: &[u8] = name.as_bytes();
    let n: usize = bytes.len();
    if n == 0 {
        return false;
    }
    let mut i: usize = 0;
    while i < n
        invariant
            n == bytes@.len(),
            bytes@ == name.spec_bytes(),
            i <= n,
            forall|j: int| 0 <= j < i ==> #[trigger] is_label_byte(bytes@[j]),
        decreases n - i,
    {
        let b: u8 = bytes[i];
        if !((b >= 48 && b <= 57) || (b >= 65 && b <= 90) || (b >= 97 && b <= 122) || b == 95) {
            proof {
                assert(!is_label_byte(bytes@[i as int]));
            }
            return false;
        }
        i = i + 1;
    }
    let first: u8 = bytes[0];
    !(first >= 48 && first <= 57)
}

/// Validates that a string is a label name. The string must be non-empty, contain only
/// `[a-zA-Z0-9_]`, and not start with a digit; any other string is outside the domain of
/// this check.
pub fn assert_label_name(name: &str)
    requires
        is_label_name(name.spec_bytes()),
{
    let ok: bool = is_valid_label_name(name);
    proof {
        assert(ok);
    }
}

/// A validated label name.
///
/// Labels may contain ASCII letters, numbers, as well as underscores. They must match the
/// regex `[a-zA-Z_][a-zA-Z0-9_]*`.
#[derive(Clone, Copy)]
pub struct LabelName<'a> {
    name: &'a str,
}

impl<'a> View for LabelName<'a> {
    type V = Seq<u8>;

    closed spec fn view(&self) -> Seq<u8> {
        self.name.spec_bytes()
    }
}

impl<'a> LabelName<'a> {
    /// Every label name satisfies the label name rules.
    #[verifier::type_invariant]
    closed spec fn inv(self) -> bool {
        is_label_name(self.name.spec_bytes())
    }

    /// Get the label name as a string
    pub fn as_str(&self) -> (s: &'a str)
        ensures
            s.spec_bytes() == self@,
    {
        self.name
    }

    /// Wrap a string that satisfies the label name rules.
    pub fn from_str(value: &'a str) -> (n: LabelName<'a>)
        requires
            is_label_name(value.spec_bytes()),
        ensures
            n@ == value.spec_bytes(),
    {
        assert_label_name(value);
        LabelName { name: value }
    }
}

} // verus!
