//! The field/value pairs of a hash reply, read as a map.

use vstd::prelude::*;
use vstd::utf8::valid_utf8;

use crate::decode::pairs_of;
use crate::reply::{int_of, try_get_int, DecodeError, Reply};

verus! {

/// The field name that a reply element stands for: only a byte string or a
/// status line that is well-formed UTF-8 names a field.
pub open spec fn key_of(v: Reply) -> Option<Seq<u8>> {
    match v {
        Reply::Data(b) => if valid_utf8(b@) {
            Some(b@)
        } else {
            None
        },
        Reply::Status(b) => if valid_utf8(b@) {
            Some(b@)
        } else {
            None
        },
        _ => None,
    }
}

/// The map that the field/value pairs `p` build when each is written in turn,
/// so that a later pair overwrites an earlier one of the same field; nothing
/// when a field is not a byte string.
pub open spec fn hash_of_pairs(p: Seq<(Reply, Reply)>) -> Option<Map<Seq<u8>, Reply>>
    decreases p.len(),
{
    if p.len() == 0 {
        Some(Map::empty())
    } else {
        match (hash_of_pairs(p.drop_last()), key_of(p.last().0)) {
            (Some(m), Some(k)) => Some(m.insert(k, p.last().1)),
            _ => None,
        }
    }
}

/// The map that the hash reply elements `s` stand for. A trailing field
/// without a value is set to nil; a field that names nothing fails the whole
/// map with `TypeMismatch`.
pub open spec fn hash_of(s: Seq<Reply>) -> Result<Map<Seq<u8>, Reply>, DecodeError> {
    match hash_of_pairs(pairs_of(s)) {
        Some(m) => if s.len() % 2 == 0 {
            Ok(m)
        } else {
            match key_of(s.last()) {
                Some(k) => Ok(m.insert(k, Reply::Nil)),
                None => Err(DecodeError::TypeMismatch),
            }
        },
        None => Err(DecodeError::TypeMismatch),
    }
}

/// Whether `b` is well-formed UTF-8.
///
/// Relies on `std::str::from_utf8`: it succeeds exactly on well-formed UTF-8.
#[verifier::external_body]
fn is_utf8(b: &[u8]) -> (r: bool)
    ensures
        r == valid_utf8(b@),
{
    std::str::from_utf8(b).is_ok()
}

/// The field name that the reply element `v` stands for, if any.
fn field_name(v: &Reply) -> (r: Option<&[u8]>)
    ensures
        match r {
            Some(b) => key_of(*v) == Some(b@),
            None => key_of(*v) is None,
        },
{
    match v {
        Reply::Data(b) => if is_utf8(b.as_slice()) {
            Some(b.as_slice())
        } else {
            None
        },
        Reply::Status(b) => if is_utf8(b.as_slice()) {
            Some(b.as_slice())
        } else {
            None
        },
        _ => None,
    }
}

/// The integer that field `k` of `m` holds: zero when the field is absent or
/// its value does not coerce.
pub open spec fn field_int(m: Map<Seq<u8>, Reply>, k: Seq<u8>) -> i64 {
    if m.contains_key(k) {
        match int_of(m[k]) {
            Some(n) => n,
            None => 0,
        }
    } else {
        0
    }
}

/// The value an entry holds: nil where it has none.
pub open spec fn entry_value(v: Option<&Reply>) -> Reply {
    match v {
        Some(r) => *r,
        None => Reply::Nil,
    }
}

/// The map that a list of entries stands for, a later entry overwriting an
/// earlier one of the same field.
pub open spec fn entries_map(e: Seq<(&[u8], Option<&Reply>)>) -> Map<Seq<u8>, Reply>
    decreases e.len(),
{
    if e.len() == 0 {
        Map::empty()
    } else {
        entries_map(e.drop_last()).insert(e.last().0@, entry_value(e.last().1))
    }
}

/// The fields of a hash reply, borrowed from the reply. A field without a
/// value holds nil.
pub struct FieldMap<'a> {
    entries: Vec<(&'a [u8], Option<&'a Reply>)>,
    nil: Reply,
}

impl<'a> View for FieldMap<'a> {
    type V = Map<Seq<u8>, Reply>;

    closed spec fn view(&self) -> Map<Seq<u8>, Reply> {
        entries_map(self.entries@)
    }
}

/// Whether the byte strings `a` and `b` are equal.
fn bytes_eq(a: &[u8], b: &[u8]) -> (r: bool)
    ensures
        r == (a@ == b@),
{
    if a.len() != b.len() {
        return false;
    }
    let mut i: usize = 0;
    while i < a.len()
        invariant
            i <= a@.len(),
            a@.len() == b@.len(),
            forall|j: int| 0 <= j < i ==> a@[j] == b@[j],
        decreases a@.len() - i,
    {
        if a[i] != b[i] {
            return false;
        }
        i = i + 1;
    }
    assert(a@ =~= b@);
    true
}

impl<'a> FieldMap<'a> {
    #[verifier::type_invariant]
    spec fn holds_nil(&self) -> bool {
        self.nil is Nil
    }

    /// The value of field `key`, if the map has it.
    pub fn get(&self, key: &[u8]) -> (r: Option<&Reply>)
        ensures
            r == (if self@.contains_key(key@) {
                Some(&self@[key@])
            } else {
                None::<&Reply>
            }),
    {
        proof {
            use_type_invariant(self);
        }
        let mut found: Option<&Reply> = None;
        let mut i: usize = 0;
        while i < self.entries.len()
            invariant
                i <= self.entries@.len(),
                self.nil is Nil,
                found == (if entries_map(self.entries@.take(i as int)).contains_key(key@) {
                    Some(&entries_map(self.entries@.take(i as int))[key@])
                } else {
                    None::<&Reply>
                }),
            decreases self.entries@.len() - i,
        {
            proof {
                assert(self.entries@.take(i + 1).drop_last() =~= self.entries@.take(i as int));
            }
            let (k, v) = self.entries[i];
            if bytes_eq(k, key) {
                found = match v {
                    Some(r) => Some(r),
                    None => Some(&self.nil),
                };
            }
            i = i + 1;
        }
        proof {
            assert(self.entries@.take(i as int) =~= self.entries@);
        }
        found
    }

    /// Whether the map has field `key`.
    pub fn contains_key(&self, key: &[u8]) -> (r: bool)
        ensures
            r == self@.contains_key(key@),
    {
        self.get(key).is_some()
    }
}

proof fn lemma_hash_of_pairs_fails_on(p: Seq<(Reply, Reply)>, i: int, j: int)
    requires
        0 <= i <= j <= p.len(),
        hash_of_pairs(p.take(i)) is None,
    ensures
        hash_of_pairs(p.take(j)) is None,
    decreases j - i,
{
    if i < j {
        lemma_hash_of_pairs_fails_on(p, i, j - 1);
        assert(p.take(j).drop_last() =~= p.take(j - 1));
    }
}

/// Reads the elements of a hash reply two at a time as field and value, a
/// later pair overwriting an earlier one of the same field; a trailing field
/// without a value is set to nil. Fails with `TypeMismatch` when a field is
/// not text in UTF-8.
pub fn hash_to_map<'a>(values: &'a Vec<Reply>) -> (r: Result<FieldMap<'a>, DecodeError>)
    ensures
        match r {
            Ok(m) => hash_of(values@) == Ok::<Map<Seq<u8>, Reply>, DecodeError>(m@),
            Err(e) => hash_of(values@) == Err::<Map<Seq<u8>, Reply>, DecodeError>(e),
        },
{
    let len = values.len();
    let ghost p = pairs_of(values@);
    let n = len / 2;
    let mut entries: Vec<(&'a [u8], Option<&'a Reply>)> = Vec::new();
    let mut i: usize = 0;
    while i < n
        invariant
            i <= n,
            n == values@.len() / 2,
            len == values@.len(),
            p == pairs_of(values@),
            hash_of_pairs(p.take(i as int)) == Some(entries_map(entries@)),
        decreases n - i,
    {
        assert(2 * i + 1 < len);
        proof {
            assert(p.take(i + 1).drop_last() =~= p.take(i as int));
            assert(p.take(i + 1).last() == (values@[2 * i], values@[2 * i + 1]));
        }
        match field_name(&values[2 * i]) {
            Some(k) => {
                let ghost before = entries@;
                entries.push((k, Some(&values[2 * i + 1])));
                proof {
                    assert(entries@.drop_last() =~= before);
                }
            },
            None => {
                proof {
                    assert(hash_of_pairs(p.take(i + 1)) is None);
                    lemma_hash_of_pairs_fails_on(p, i + 1, n as int);
                    assert(p.take(n as int) =~= p);
                }
                return Err(DecodeError::TypeMismatch);
            },
        }
        i = i + 1;
    }
    proof {
        assert(p.take(i as int) =~= p);
    }
    if len % 2 != 0 {
        match field_name(&values[len - 1]) {
            Some(k) => {
                let ghost before = entries@;
                entries.push((k, None));
                proof {
                    assert(entries@.drop_last() =~= before);
                }
            },
            None => {
                return Err(DecodeError::TypeMismatch);
            },
        }
    }
    Ok(FieldMap { entries, nil: Reply::Nil })
}

/// The integer that field `key` of `map` holds, zero when it is absent or
/// does not coerce.
pub fn redis_map_get_i64(map: &FieldMap, key: &[u8]) -> (r: i64)
    ensures
        r == field_int(map@, key@),
{
    match map.get(key) {
        Some(v) => match try_get_int(v) {
            Some(n) => n,
            None => 0,
        },
        None => 0,
    }
}

} // verus!
