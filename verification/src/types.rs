//! Error taxonomy shared by every handler: accumulated validation failures
//! keyed by field name, and the request-level error kinds they surface as.

use vstd::prelude::*;

verus! {

/// The view of a message list: each message as a sequence of characters.
pub open spec fn msgs_view(s: Seq<String>) -> Seq<Seq<char>> {
    Seq::new(s.len(), |i: int| s[i]@)
}

/// The view of the entry list: each field name with its messages.
pub open spec fn entries_view(s: Seq<(String, Vec<String>)>) -> Seq<(Seq<char>, Seq<Seq<char>>)> {
    Seq::new(s.len(), |i: int| (s[i].0@, msgs_view(s[i].1@)))
}

/// Whether field `k` already carries at least one message in `m`.
pub open spec fn has_err_key(m: Seq<(Seq<char>, Seq<Seq<char>>)>, k: Seq<char>) -> bool {
    exists|i: int| 0 <= i < m.len() && m[i].0 == k
}

/// The index of field `k` in `m`; unique whenever the keys are distinct.
pub open spec fn err_key_index(m: Seq<(Seq<char>, Seq<Seq<char>>)>, k: Seq<char>) -> int {
    choose|i: int| 0 <= i < m.len() && m[i].0 == k
}

/// Recording one more message: appended to the field's list if the field is
/// already present, else opening a new entry at the end.
pub open spec fn spec_add_error(
    m: Seq<(Seq<char>, Seq<Seq<char>>)>,
    k: Seq<char>,
    v: Seq<char>,
) -> Seq<(Seq<char>, Seq<Seq<char>>)> {
    if has_err_key(m, k) {
        let i = err_key_index(m, k);
        m.update(i, (k, m[i].1.push(v)))
    } else {
        m.push((k, seq![v]))
    }
}

/// Recording a whole list of messages for one field, in order.
pub open spec fn spec_add_list(
    m: Seq<(Seq<char>, Seq<Seq<char>>)>,
    k: Seq<char>,
    vs: Seq<Seq<char>>,
) -> Seq<(Seq<char>, Seq<Seq<char>>)>
    decreases vs.len(),
{
    if vs.len() == 0 {
        m
    } else {
        spec_add_error(spec_add_list(m, k, vs.drop_last()), k, vs.last())
    }
}

/// Folding a second error collection into `m`, entry by entry.
pub open spec fn spec_merge(
    m: Seq<(Seq<char>, Seq<Seq<char>>)>,
    other: Seq<(Seq<char>, Seq<Seq<char>>)>,
) -> Seq<(Seq<char>, Seq<Seq<char>>)>
    decreases other.len(),
{
    if other.len() == 0 {
        m
    } else {
        spec_add_list(spec_merge(m, other.drop_last()), other.last().0, other.last().1)
    }
}

/// Recording a message never shrinks the collection, and leaves it
/// non-empty.
pub proof fn lemma_spec_add_error_len(
    m: Seq<(Seq<char>, Seq<Seq<char>>)>,
    k: Seq<char>,
    v: Seq<char>,
)
    ensures
        spec_add_error(m, k, v).len() >= m.len(),
        spec_add_error(m, k, v).len() >= 1,
{
    if has_err_key(m, k) {
        assert(0 <= err_key_index(m, k) < m.len());
    }
}

/// Validation failures accumulated across all fields of one request, so the
/// caller sees every problem at once. Field names are pairwise distinct and
/// keep the order in which they were first recorded.
#[derive(Debug)]
pub struct ValidationError {
    entries: Vec<(String, Vec<String>)>,
}

impl View for ValidationError {
    type V = Seq<(Seq<char>, Seq<Seq<char>>)>;

    closed spec fn view(&self) -> Seq<(Seq<char>, Seq<Seq<char>>)> {
        entries_view(self.entries@)
    }
}

impl ValidationError {
    /// Field names are pairwise distinct.
    pub open spec fn wf(&self) -> bool {
        forall|i: int, j: int| 0 <= i < j < self@.len() ==> self@[i].0 != self@[j].0
    }

    /// An empty collection: no field has failed yet.
    pub fn new() -> (r: ValidationError)
        ensures
            r@ == Seq::<(Seq<char>, Seq<Seq<char>>)>::empty(),
            r.wf(),
    {
        ValidationError { entries: Vec::new() }
    }

    /// Records `val` as one more failure message for field `key`.
    pub fn add_error(&mut self, key: &str, val: &str)
        requires
            old(self).wf(),
        ensures
            final(self)@ == spec_add_error(old(self)@, key@, val@),
            final(self).wf(),
    {
        let key_s: String = key.to_owned();
        let n = self.entries.len();
        let mut i: usize = 0;
        while i < n
            invariant
                n == self.entries.len(),
                i <= n,
                key_s@ == key@,
                *self == *old(self),
                old(self).wf(),
                forall|j: int| 0 <= j < i ==> self@[j].0 != key@,
            decreases n - i,
        {
            if self.entries[i].0 == key_s {
                let mut entry = self.entries.remove(i);
                entry.1.push(val.to_owned());
                self.entries.insert(i, entry);
                proof {
                    let m = old(self)@;
                    assert(m[i as int].0 == key@);
                    assert(has_err_key(m, key@));
                    let ix = err_key_index(m, key@);
                    assert(0 <= ix < m.len() && m[ix].0 == key@);
                    assert(ix == i) by {
                        if ix != i {
                            assert(m[ix].0 != m[i as int].0);
                        }
                    }
                    let target = m.update(i as int, (key@, m[i as int].1.push(val@)));
                    assert forall|k: int| 0 <= k < self@.len() implies self@[k] == target[k] by {
                        if k == i {
                            assert(self.entries@[k].0@ == key@);
                            assert(msgs_view(self.entries@[k].1@) =~= m[i as int].1.push(val@));
                        } else {
                            assert(self.entries@[k] == old(self).entries@[k]);
                        }
                    }
                    assert(self@ =~= target);
                }
                return ;
            }
            i += 1;
        }
        self.entries.push((key_s, vec![val.to_owned()]));
        proof {
            let m = old(self)@;
            assert(!has_err_key(m, key@));
            let target = m.push((key@, seq![val@]));
            assert forall|k: int| 0 <= k < self@.len() implies self@[k] == target[k] by {
                if k == m.len() {
                    assert(self.entries@[k].0@ == key@);
                    assert(msgs_view(self.entries@[k].1@) =~= seq![val@]);
                } else {
                    assert(self.entries@[k] == old(self).entries@[k]);
                }
            }
            assert(self@ =~= target);
        }
    }

    /// A collection holding a single message for a single field.
    pub fn from(key: &str, val: &str) -> (r: ValidationError)
        ensures
            r@ == seq![(key@, seq![val@])],
            r.wf(),
    {
        let mut error = ValidationError::new();
        error.add_error(key, val);
        proof {
            assert(error@ =~= seq![(key@, seq![val@])]);
        }
        error
    }

    /// The number of fields that have failed.
    pub fn len(&self) -> (r: usize)
        ensures
            r == self@.len(),
    {
        self.entries.len()
    }

    /// Folds every message of `other` into `self`, field by field.
    pub fn merge(&mut self, other: ValidationError)
        requires
            old(self).wf(),
        ensures
            final(self)@ == spec_merge(old(self)@, other@),
            final(self).wf(),
    {
        let n = other.entries.len();
        let mut i: usize = 0;
        while i < n
            invariant
                n == other.entries.len(),
                i <= n,
                self@ == spec_merge(old(self)@, other@.take(i as int)),
                self.wf(),
            decreases n - i,
        {
            let m = other.entries[i].1.len();
            let mut j: usize = 0;
            while j < m
                invariant
                    n == other.entries.len(),
                    i < n,
                    m == other.entries@[i as int].1.len(),
                    j <= m,
                    self@ == spec_add_list(
                        spec_merge(old(self)@, other@.take(i as int)),
                        other@[i as int].0,
                        other@[i as int].1.take(j as int),
                    ),
                    self.wf(),
                decreases m - j,
            {
                self.add_error(other.entries[i].0.as_str(), other.entries[i].1[j].as_str());
                proof {
                    let vs = other@[i as int].1;
                    assert(vs.take(j + 1).drop_last() =~= vs.take(j as int));
                    assert(vs.take(j + 1).last() == vs[j as int]);
                }
                j += 1;
            }
            proof {
                assert(other@[i as int].1.take(m as int) =~= other@[i as int].1);
                assert(other@.take(i + 1).drop_last() =~= other@.take(i as int));
                assert(other@.take(i + 1).last() == other@[i as int]);
            }
            i += 1;
        }
        proof {
            assert(other@.take(n as int) =~= other@);
        }
    }

    /// Whether no field has failed.
    pub fn empty(&self) -> (r: bool)
        ensures
            r == (self@.len() == 0),
    {
        self.entries.len() == 0
    }

    /// The recorded entries, in order: each field with its messages.
    pub fn entries(&self) -> (r: &Vec<(String, Vec<String>)>)
        ensures
            entries_view(r@) == self@,
    {
        &self.entries
    }

    /// The messages recorded for field `key`, if any.
    pub fn messages(&self, key: &str) -> (r: Option<&Vec<String>>)
        requires
            self.wf(),
        ensures
            match r {
                Some(v) => has_err_key(self@, key@) && msgs_view(v@) == self@[err_key_index(
                    self@,
                    key@,
                )].1,
                None => !has_err_key(self@, key@),
            },
    {
        let key_s: String = key.to_owned();
        let n = self.entries.len();
        let mut i: usize = 0;
        while i < n
            invariant
                n == self.entries.len(),
                i <= n,
                key_s@ == key@,
                self.wf(),
                forall|j: int| 0 <= j < i ==> self@[j].0 != key@,
            decreases n - i,
        {
            if self.entries[i].0 == key_s {
                proof {
                    assert(self@[i as int].0 == key@);
                    assert(has_err_key(self@, key@));
                    let ix = err_key_index(self@, key@);
                    assert(0 <= ix < self@.len() && self@[ix].0 == key@);
                    assert(ix == i) by {
                        if ix != i {
                            assert(self@[ix].0 != self@[i as int].0);
                        }
                    }
                }
                return Some(&self.entries[i].1);
            }
            i += 1;
        }
        None
    }
}

impl Default for ValidationError {
    fn default() -> (r: ValidationError)
        ensures
            r@ == Seq::<(Seq<char>, Seq<Seq<char>>)>::empty(),
            r.wf(),
    {
        ValidationError::new()
    }
}

/// How a request fails: the targeted entity is absent, the request body is
/// invalid, the caller is unauthenticated, the caller is authenticated but
/// not entitled, or the store itself failed.
#[derive(Debug)]
pub enum ApiError {
    NotFound,
    Validation(ValidationError),
    Unauthorized,
    Forbidden,
    Internal,
}

impl ApiError {
    /// The HTTP status each kind surfaces as.
    pub fn http_status(&self) -> (r: u16)
        ensures
            r == match self {
                ApiError::NotFound => 404u16,
                ApiError::Validation(_) => 422u16,
                ApiError::Unauthorized => 401u16,
                ApiError::Forbidden => 403u16,
                ApiError::Internal => 500u16,
            },
    {
        match self {
            ApiError::NotFound => 404,
            ApiError::Validation(_) => 422,
            ApiError::Unauthorized => 401,
            ApiError::Forbidden => 403,
            ApiError::Internal => 500,
        }
    }
}

impl From<ValidationError> for ApiError {
    fn from(v: ValidationError) -> (r: ApiError) {
        ApiError::Validation(v)
    }
}

impl vstd::std_specs::convert::FromSpecImpl<ValidationError> for ApiError {
    open spec fn obeys_from_spec() -> bool {
        true
    }

    open spec fn from_spec(v: ValidationError) -> ApiError {
        ApiError::Validation(v)
    }
}

} // verus!
