use vstd::prelude::*;

use crate::common::text::{chars_of, push_str, string_from_chars};
use crate::packet_registry::is_ascii_lower;

verus! {

/// Whether every character of `s` is a lower case ASCII letter or `_`.
pub open spec fn correct_format(s: Seq<char>) -> bool {
    forall|i: int| 0 <= i < s.len() ==> is_ascii_lower(#[trigger] s[i]) || s[i] == '_'
}

/// The part of `s` before its first `:` and the part after it, or nothing
/// when `s` has no `:`.
pub open spec fn split_at_colon(s: Seq<char>) -> Option<(Seq<char>, Seq<char>)> {
    if s.contains(':') {
        let i = choose|i: int| 0 <= i < s.len() && s[i] == ':' && forall|j: int| 0 <= j < i ==> s[j] != ':';
        Some((s.take(i), s.skip(i + 1)))
    } else {
        None
    }
}

/// A namespaced location of a game asset, `namespace:identifier`.
#[derive(Debug, PartialEq, Eq, Clone)]
pub struct ResourceLocation {
    pub namespace: String,
    pub identifier: String,
}

/// Whether every character of `input` is a lower case ASCII letter or `_`.
pub fn is_correct_format(input: &str) -> (r: bool)
    ensures
        r == correct_format(input@),
{
    let chars = chars_of(input);
    let mut i: usize = 0;
    while i < chars.len()
        invariant
            i <= chars@.len(),
            chars@ == input@,
            forall|j: int| 0 <= j < i ==> is_ascii_lower(#[trigger] chars@[j]) || chars@[j] == '_',
        decreases chars.len() - i,
    {
        let c = chars[i];
        if !(('a' <= c && c <= 'z') || c == '_') {
            return false;
        }
        i = i + 1;
    }
    true
}

impl ResourceLocation {
    /// Creates a location; both parts may hold only lower case ASCII letters
    /// and `_`.
    pub fn new(namespace: String, identifier: String) -> (r: Self)
        requires
            correct_format(namespace@),
            correct_format(identifier@),
        ensures
            r.namespace@ == namespace@,
            r.identifier@ == identifier@,
    {
        Self { namespace, identifier }
    }

    /// The location as text, `namespace:identifier`.
    pub fn as_string(&self) -> (s: String)
        ensures
            s@ == self.namespace@ + seq![':'] + self.identifier@,
    {
        let mut out: Vec<char> = Vec::new();
        push_str(&mut out, self.namespace.as_str());
        out.push(':');
        push_str(&mut out, self.identifier.as_str());
        string_from_chars(out)
    }

    /// Reads a location from `namespace:identifier`; fails when there is no
    /// `:` or when either part holds other characters than lower case ASCII
    /// letters and `_`.
    pub fn try_from(value: String) -> (r: Result<Self, ()>)
        ensures
            match split_at_colon(value@) {
                Some((ns, id)) => if correct_format(ns) && correct_format(id) {
                    r matches Ok(loc) && loc.namespace@ == ns && loc.identifier@ == id
                } else {
                    r is Err
                },
                None => r is Err,
            },
    {
        let chars = chars_of(value.as_str());
        let mut i: usize = 0;
        while i < chars.len()
            invariant
                i <= chars@.len(),
                chars@ == value@,
                forall|j: int| 0 <= j < i ==> chars@[j] != ':',
            ensures
                i <= chars@.len(),
                chars@ == value@,
                forall|j: int| 0 <= j < i ==> chars@[j] != ':',
                i < chars@.len() ==> chars@[i as int] == ':',
            decreases chars.len() - i,
        {
            if chars[i] == ':' {
                break;
            }
            i = i + 1;
        }
        if i == chars.len() {
            assert(!value@.contains(':'));
            return Err(());
        }
        assert(0 <= i < value@.len() && value@[i as int] == ':' && forall|j: int| 0 <= j < i ==> value@[j] != ':');
        let ghost k = choose|k: int| 0 <= k < value@.len() && value@[k] == ':' && forall|j: int| 0 <= j < k ==> value@[j] != ':';
        assert(k == i) by {
            if k < i {
                assert(chars@[k] != ':');
            } else if k > i {
                assert(value@[i as int] != ':');
            }
        }
        let mut namespace: Vec<char> = Vec::new();
        let mut j: usize = 0;
        while j < i
            invariant
                j <= i < chars@.len(),
                namespace@ == chars@.take(j as int),
            decreases i - j,
        {
            namespace.push(chars[j]);
            j = j + 1;
            assert(namespace@ =~= chars@.take(j as int));
        }
        let mut identifier: Vec<char> = Vec::new();
        let mut j: usize = i + 1;
        while j < chars.len()
            invariant
                i + 1 <= j <= chars@.len(),
                identifier@ == chars@.subrange(i + 1, j as int),
            decreases chars.len() - j,
        {
            identifier.push(chars[j]);
            j = j + 1;
            assert(identifier@ =~= chars@.subrange(i + 1, j as int));
        }
        assert(identifier@ =~= chars@.skip(i + 1));
        let namespace = string_from_chars(namespace);
        let identifier = string_from_chars(identifier);
        if !is_correct_format(namespace.as_str()) || !is_correct_format(identifier.as_str()) {
            Err(())
        } else {
            Ok(Self::new(namespace, identifier))
        }
    }
}

/// Reading back the text of a valid location gives the location.
pub proof fn lemma_resource_location_roundtrip(namespace: Seq<char>, identifier: Seq<char>)
    requires
        correct_format(namespace),
        correct_format(identifier),
    ensures
        split_at_colon(namespace + seq![':'] + identifier) == Some((namespace, identifier)),
{
    let s = namespace + seq![':'] + identifier;
    let n = namespace.len() as int;
    assert(s[n] == ':');
    assert(s.contains(':'));
    assert forall|j: int| 0 <= j < n implies s[j] != ':' by {
        assert(s[j] == namespace[j]);
    }
    let i = choose|i: int| 0 <= i < s.len() && s[i] == ':' && forall|j: int| 0 <= j < i ==> s[j] != ':';
    assert(i == n) by {
        if i > n {
            assert(s[n] != ':');
        } else if i < n {
            assert(s[i] == namespace[i]);
        }
    }
    assert(s.take(n) =~= namespace);
    assert(s.skip(n + 1) =~= identifier);
}

} // verus!
