//! The request envelope crossing the name-based dispatch boundary, and the
//! splitting of its `"Component.operation"` name.

use crate::codec::decode_str;
use crate::codec::string_content;
use serde_json::Value;
use vstd::prelude::*;
use vstd::string::StrSliceExecFns;

verus! {

/// True when a request name holds the separator between its component part
/// and its operation part.
pub open spec fn has_dot(s: Seq<char>) -> bool {
    exists|i: int| 0 <= i < s.len() && s[i] == '.'
}

/// Index of the first separator in a request name.
pub open spec fn first_dot(s: Seq<char>) -> int
    decreases s.len(),
{
    if s.len() == 0 {
        0
    } else if s[0] == '.' {
        0
    } else {
        1 + first_dot(s.subrange(1, s.len() as int))
    }
}

/// The component part of a request name: everything before the first separator.
pub open spec fn comp_part(s: Seq<char>) -> Seq<char> {
    s.subrange(0, first_dot(s))
}

/// The operation part of a request name: everything after the first separator.
pub open spec fn op_part(s: Seq<char>) -> Seq<char> {
    s.subrange(first_dot(s) + 1, s.len() as int)
}

pub proof fn lemma_first_dot_witness(s: Seq<char>, i: int)
    requires
        0 <= i < s.len(),
        s[i] == '.',
        forall|j: int| 0 <= j < i ==> s[j] != '.',
    ensures
        has_dot(s),
        first_dot(s) == i,
    decreases s.len(),
{
    assert(has_dot(s)) by {
        assert(0 <= i < s.len() && s[i] == '.');
    }
    if i > 0 {
        let t = s.subrange(1, s.len() as int);
        assert(forall|j: int| 0 <= j < i - 1 ==> t[j] != '.');
        lemma_first_dot_witness(t, i - 1);
    }
}

/// Finds the first separator of a request name, by character index.
pub(crate) fn find_dot(s: &str) -> (r: Option<usize>)
    ensures
        match r {
            Some(i) => i < s@.len() && has_dot(s@) && first_dot(s@) == i,
            None => !has_dot(s@),
        },
{
    let n = s.unicode_len();
    let mut i: usize = 0;
    while i < n
        invariant
            i <= n,
            n == s@.len(),
            forall|j: int| 0 <= j < i ==> s@[j] != '.',
        decreases n - i,
    {
        if s.get_char(i) == '.' {
            proof {
                lemma_first_dot_witness(s@, i as int);
            }
            return Some(i);
        }
        i += 1;
    }
    None
}

/// Character-wise string equality.
pub(crate) fn str_eq(a: &str, b: &str) -> (r: bool)
    ensures
        r == (a@ == b@),
{
    let n = a.unicode_len();
    let m = b.unicode_len();
    if n != m {
        return false;
    }
    let mut i: usize = 0;
    while i < n
        invariant
            i <= n,
            n == a@.len(),
            n == b@.len(),
            forall|j: int| 0 <= j < i ==> a@[j] == b@[j],
        decreases n - i,
    {
        if a.get_char(i) != b.get_char(i) {
            return false;
        }
        i += 1;
    }
    proof {
        assert(a@ =~= b@);
    }
    true
}

/// A request envelope: a `"Component.operation"` name plus an optional
/// structured-value argument.
#[derive(Debug, Clone)]
pub struct Payload {
    pub name: String,
    pub data: Option<Value>,
    pub success: bool,
}

impl Payload {
    /// A request with no argument value.
    pub fn new(name: &str) -> (p: Payload)
        ensures
            p.name@ == name@,
            p.data is None,
            p.success,
    {
        Payload { name: name.to_owned(), data: None, success: true }
    }

    /// A request carrying an already-encoded structured value as argument.
    pub fn with_data(name: &str, data: Value) -> (p: Payload)
        ensures
            p.name@ == name@,
            p.data == Some(data),
            p.success,
    {
        Payload { name: name.to_owned(), data: Some(data), success: true }
    }

    /// The operation part of the request name, when the name is well formed.
    pub fn op_name(&self) -> (r: Option<&str>)
        ensures
            match r {
                Some(op) => has_dot(self.name@) && op@ == op_part(self.name@),
                None => !has_dot(self.name@),
            },
    {
        match find_dot(self.name.as_str()) {
            Some(i) => {
                let n = self.name.as_str().unicode_len();
                Some(self.name.as_str().substring_char(i + 1, n))
            },
            None => None,
        }
    }

    /// The operation part of a request name already known to be well formed.
    pub fn op_name_unchecked(&self) -> (r: &str)
        requires
            has_dot(self.name@),
        ensures
            r@ == op_part(self.name@),
    {
        match self.op_name() {
            Some(op) => op,
            None => vstd::pervasive::unreached(),
        }
    }

    /// The argument decoded as a string, when the request carries a string
    /// value; nothing when it carries no value or a value of another kind.
    pub fn input_string(&self) -> (r: Option<String>)
        ensures
            match self.data {
                Some(v) => match r {
                    Some(s) => string_content(v) == Some(s@),
                    None => string_content(v) is None,
                },
                None => r is None,
            },
    {
        match &self.data {
            Some(v) => decode_str(v),
            None => None,
        }
    }
}

} // verus!
