//! The document capability: a storable type supplies its primary key, its
//! static set of index key names, and its per-instance index values.

use vstd::prelude::*;
use crate::codec::IndexValue;
use crate::codec::IndexValueModel;
use crate::codec::encode_index_value;
use crate::codec::spec_encode_index;

verus! {

/// A 128-bit universally-unique value usable as a primary key.  It is
/// stored as sixteen big-endian bytes, so the byte-wise order of stored
/// keys is the numeric order of the underlying unsigned 128-bit integers.
#[derive(Clone, Copy, Debug, PartialEq, Eq)]
pub struct Id {
    bytes: [u8; 16],
}

impl View for Id {
    type V = Seq<u8>;

    closed spec fn view(&self) -> Seq<u8> {
        self.bytes@
    }
}

/// Byte-wise lexicographic comparison of two stored keys.
pub open spec fn spec_key_cmp(a: Seq<u8>, b: Seq<u8>) -> core::cmp::Ordering
    decreases a.len(),
{
    if a.len() == 0 && b.len() == 0 {
        core::cmp::Ordering::Equal
    } else if a.len() == 0 {
        core::cmp::Ordering::Less
    } else if b.len() == 0 {
        core::cmp::Ordering::Greater
    } else if a[0] < b[0] {
        core::cmp::Ordering::Less
    } else if a[0] > b[0] {
        core::cmp::Ordering::Greater
    } else {
        spec_key_cmp(a.drop_first(), b.drop_first())
    }
}

/// Equal-length keys compare as equal exactly when they are equal.
pub proof fn lemma_key_cmp_equal(a: Seq<u8>, b: Seq<u8>)
    requires
        a.len() == b.len(),
    ensures
        spec_key_cmp(a, b) == core::cmp::Ordering::Equal <==> a == b,
    decreases a.len(),
{
    if a.len() == 0 {
        assert(a =~= b);
    } else {
        lemma_key_cmp_equal(a.drop_first(), b.drop_first());
        if a[0] == b[0] && a.drop_first() == b.drop_first() {
            assert forall|i: int| 0 <= i < a.len() implies a[i] == b[i] by {
                if i > 0 {
                    assert(a[i] == a.drop_first()[i - 1]);
                    assert(b[i] == b.drop_first()[i - 1]);
                }
            }
            assert(a =~= b);
        }
        if a == b {
            assert(a.drop_first() =~= b.drop_first());
        }
    }
}

impl Id {
    /// Reads an identifier back from its sixteen stored bytes.
    pub fn from_bytes(data: &[u8]) -> (r: Id)
        requires
            data@.len() == 16,
        ensures
            r@ == data@,
    {
        let r = Id {
            bytes: [
                data[0],
                data[1],
                data[2],
                data[3],
                data[4],
                data[5],
                data[6],
                data[7],
                data[8],
                data[9],
                data[10],
                data[11],
                data[12],
                data[13],
                data[14],
                data[15],
            ],
        };
        proof {
            assert(r@ =~= data@);
        }
        r
    }

    /// The sixteen bytes under which this identifier is stored.
    pub fn as_bytes(&self) -> (r: [u8; 16])
        ensures
            r@ == self@,
    {
        self.bytes
    }

    /// Stored identifiers always take exactly sixteen bytes.
    pub fn fixed_width() -> (r: Option<usize>)
        ensures
            r == Some(16usize),
    {
        Some(16)
    }

    /// The name under which the engine files this key type.
    pub fn stored_type_name() -> (r: String)
        ensures
            r@ == "scarf::Id"@,
    {
        "scarf::Id".to_owned()
    }

    /// Compares two stored keys; the order is the numeric order of the
    /// 128-bit values the bytes spell in big-endian.
    pub fn compare(data1: &[u8], data2: &[u8]) -> (r: core::cmp::Ordering)
        requires
            data1@.len() == 16,
            data2@.len() == 16,
        ensures
            r == spec_key_cmp(data1@, data2@),
            r == core::cmp::Ordering::Equal <==> data1@ == data2@,
    {
        proof {
            lemma_key_cmp_equal(data1@, data2@);
            assert(data1@.skip(0) =~= data1@);
            assert(data2@.skip(0) =~= data2@);
        }
        let mut i: usize = 0;
        while i < 16
            invariant
                i <= 16,
                data1@.len() == 16,
                data2@.len() == 16,
                spec_key_cmp(data1@, data2@) == spec_key_cmp(
                    data1@.skip(i as int),
                    data2@.skip(i as int),
                ),
            decreases 16 - i,
        {
            let b1 = data1[i];
            let b2 = data2[i];
            proof {
                assert(data1@.skip(i as int)[0] == data1@[i as int]);
                assert(data2@.skip(i as int)[0] == data2@[i as int]);
                assert(data1@.skip(i as int).drop_first() =~= data1@.skip(i + 1));
                assert(data2@.skip(i as int).drop_first() =~= data2@.skip(i + 1));
            }
            if b1 < b2 {
                return core::cmp::Ordering::Less;
            }
            if b1 > b2 {
                return core::cmp::Ordering::Greater;
            }
            i = i + 1;
        }
        proof {
            assert(data1@.skip(16) =~= Seq::<u8>::empty());
            assert(data2@.skip(16) =~= Seq::<u8>::empty());
        }
        core::cmp::Ordering::Equal
    }
}

/// Renders each named index value as its text-safe encoded key, keeping
/// names and order.
pub fn encode_indices(vals: &Vec<(String, IndexValue)>) -> (r: Vec<(String, String)>)
    ensures
        r@.len() == vals@.len(),
        forall|i: int|
            0 <= i < vals@.len() ==> (#[trigger] r@[i]).0@ == vals@[i].0@ && r@[i].1@
                == spec_encode_index(vals@[i].1@),
{
    let mut r: Vec<(String, String)> = Vec::new();
    let mut i: usize = 0;
    while i < vals.len()
        invariant
            i <= vals@.len(),
            r@.len() == i,
            forall|j: int|
                0 <= j < i ==> (#[trigger] r@[j]).0@ == vals@[j].0@ && r@[j].1@
                    == spec_encode_index(vals@[j].1@),
        decreases vals@.len() - i,
    {
        let key = vals[i].0.clone();
        let enc = encode_index_value(&vals[i].1);
        r.push((key, enc));
        i = i + 1;
    }
    r
}

/// A text that is the canonical index encoding of some structured value.
pub open spec fn canonical_entry(t: Seq<char>) -> bool {
    exists|v: IndexValueModel| t == spec_encode_index(v)
}

/// Renders each named index value as [`encode_indices`] does, and states
/// besides that every rendered entry is the canonical encoding of some
/// structured value.
fn encode_indices_canonical(vals: &Vec<(String, IndexValue)>) -> (r: Vec<(String, String)>)
    ensures
        forall|i: int| 0 <= i < r@.len() ==> canonical_entry((#[trigger] r@[i]).1@),
{
    let r = encode_indices(vals);
    proof {
        assert forall|i: int| 0 <= i < r@.len() implies canonical_entry(
            (#[trigger] r@[i]).1@,
        ) by {
            assert(r@[i].1@ == spec_encode_index(vals@[i].1@));
        }
    }
    r
}

/// The contract every storable document type implements: it serializes its
/// full body, reports a fixed-width primary key, enumerates a static set of
/// index key names, and produces the per-instance value for each of them.
pub trait Document: Sized + Clone {
    /// The primary key of this instance.
    fn id(&self) -> Id;

    /// The field name under which the primary key is declared.
    fn id_field() -> String;

    /// The static set of secondary-index key names, fixed per type.
    fn index_keys() -> Vec<String>;

    /// The mapping from each index key name to this instance's value.
    fn index_vals(&self) -> Vec<(String, IndexValue)>;

    /// Serializes the full document body.
    fn to_body(&self) -> Vec<u8>;

    /// Reads a document back from its body; `None` when the bytes are no
    /// valid body.
    fn from_body(bytes: &[u8]) -> Option<Self>;

    /// The per-instance index values, each rendered as a text-safe key:
    /// every returned entry is the canonical encoding of some structured
    /// value, so equal values always meet under the same key.
    fn serialized_indices(&self) -> (r: Vec<(String, String)>)
        ensures
            forall|i: int| 0 <= i < r@.len() ==> canonical_entry((#[trigger] r@[i]).1@),
    {
        encode_indices_canonical(&self.index_vals())
    }
}

} // verus!
