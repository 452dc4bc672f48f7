//! The stored password records and their binary encoding (bincode's fixed-width
//! little-endian format for a sequence of `(id, value)` string pairs).
use vstd::prelude::*;
use vstd::bytes::spec_u64_to_le_bytes;
use vstd::bytes::spec_u64_from_le_bytes;
use vstd::bytes::lemma_auto_spec_u64_to_from_le_bytes;
use vstd::utf8::encode_utf8;
use vstd::utf8::encode_utf8_decode_utf8;

verus! {

/// One stored password: its identifier and its value.
pub struct PasswordData {
    pub id: String,
    pub value: String,
}

/// The model of a stored password: `(id, value)`.
pub type Entry = (Seq<char>, Seq<char>);

impl DeepView for PasswordData {
    type V = Entry;

    open spec fn deep_view(&self) -> Entry {
        (self.id@, self.value@)
    }
}

impl PasswordData {
    pub fn new(id: String, value: String) -> (res: PasswordData)
        ensures
            res.deep_view() == (id@, value@),
    {
        PasswordData { id, value }
    }
}

/// The encoding of a length: eight bytes, little endian.
pub open spec fn le64(n: nat) -> Seq<u8> {
    spec_u64_to_le_bytes(n as u64)
}

/// A string: its UTF-8 length, then its UTF-8 bytes.
pub open spec fn encode_str(s: Seq<char>) -> Seq<u8> {
    le64(encode_utf8(s).len()) + encode_utf8(s)
}

pub open spec fn encode_entry(e: Entry) -> Seq<u8> {
    encode_str(e.0) + encode_str(e.1)
}

/// The records one after the other.
pub open spec fn encode_entries(es: Seq<Entry>) -> Seq<u8>
    decreases es.len(),
{
    if es.len() == 0 {
        Seq::<u8>::empty()
    } else {
        encode_entry(es[0]) + encode_entries(es.drop_first())
    }
}

/// The whole passfile plaintext: the number of records, then the records.
pub open spec fn encode_passwords(es: Seq<Entry>) -> Seq<u8> {
    le64(es.len()) + encode_entries(es)
}

/// Every length of `es` fits the eight-byte length fields.
pub open spec fn fits(es: Seq<Entry>) -> bool {
    &&& es.len() <= u64::MAX
    &&& forall|i: int|
        0 <= i < es.len() ==> {
            &&& #[trigger] encode_utf8(es[i].0).len() <= u64::MAX
            &&& encode_utf8(es[i].1).len() <= u64::MAX
        }
}

/// `bytes` starts with the encoding of `es` (bytes after it are ignored).
pub open spec fn parses_as(bytes: Seq<u8>, es: Seq<Entry>) -> bool {
    fits(es) && encode_passwords(es).is_prefix_of(bytes)
}

/// `bytes` starts with the encoding of some list of records.
pub open spec fn parseable(bytes: Seq<u8>) -> bool {
    exists|es: Seq<Entry>| parses_as(bytes, es)
}

/// `bincode::serialize` on the records viewed as `(id, value)` pairs: bincode's
/// default configuration writes a sequence as its length (u64, little endian)
/// followed by its items, a tuple as its fields in order, and a string as its
/// UTF-8 length (u64, little endian) followed by its UTF-8 bytes; serializing into
/// a `Vec` with a known sequence length does not fail.
#[verifier::external_body]
fn bincode_serialize(entries: &Vec<PasswordData>) -> (res: Option<Vec<u8>>)
    ensures
        res is Some,
        res.unwrap()@ == encode_passwords(entries.deep_view()),
{
    let pairs: Vec<(&String, &String)> = entries.iter().map(|p| (&p.id, &p.value)).collect();
    bincode::serialize(&pairs).ok()
}

/// `bincode::deserialize` into `(id, value)` pairs: it reads the encoding that
/// `bincode_serialize` describes from the front of `bytes`, ignores what follows,
/// and fails exactly when the bytes run out early or a string is not UTF-8, that
/// is when no list of records is encoded at the front of `bytes`.
#[verifier::external_body]
fn bincode_deserialize(bytes: &[u8]) -> (res: Option<Vec<PasswordData>>)
    ensures
        match res {
            Some(v) => parses_as(bytes@, v.deep_view()),
            None => !parseable(bytes@),
        },
{
    let pairs: Vec<(String, String)> = bincode::deserialize(bytes).ok()?;
    Some(pairs.into_iter().map(|(id, value)| PasswordData { id, value }).collect())
}

/// The passfile plaintext for `passfile_data`.
pub fn serialize_passwords(passfile_data: &Vec<PasswordData>) -> (res: Vec<u8>)
    ensures
        res@ == encode_passwords(passfile_data.deep_view()),
{
    match bincode_serialize(passfile_data) {
        Some(b) => b,
        None => {
            assert(false);
            Vec::new()
        },
    }
}

/// The records encoded at the front of `passfile_data_bytes`, or `None` where
/// there are none.
pub fn deserialize_passwords(passfile_data_bytes: &Vec<u8>) -> (res: Option<Vec<PasswordData>>)
    ensures
        res is Some <==> parseable(passfile_data_bytes@),
        res matches Some(v) ==> parses_as(passfile_data_bytes@, v.deep_view()),
        res matches Some(v) ==> forall|es: Seq<Entry>|
            parses_as(passfile_data_bytes@, es) ==> es == v.deep_view(),
{
    let res = bincode_deserialize(passfile_data_bytes.as_slice());
    proof {
        if res is Some {
            let v = res.unwrap().deep_view();
            assert forall|es: Seq<Entry>| parses_as(passfile_data_bytes@, es) implies es
                == v by {
                lemma_parse_unique(passfile_data_bytes@, es, v);
            }
        }
    }
    res
}

pub proof fn lemma_le64_injective(a: nat, b: nat)
    requires
        a <= u64::MAX,
        b <= u64::MAX,
        le64(a) == le64(b),
    ensures
        a == b,
{
    lemma_auto_spec_u64_to_from_le_bytes();
    assert(spec_u64_from_le_bytes(spec_u64_to_le_bytes(a as u64)) == a as u64);
    assert(spec_u64_from_le_bytes(spec_u64_to_le_bytes(b as u64)) == b as u64);
}

proof fn lemma_le64_len(n: nat)
    ensures
        le64(n).len() == 8,
{
    lemma_auto_spec_u64_to_from_le_bytes();
    assert(spec_u64_to_le_bytes(n as u64).len() == 8);
}

/// Two strings whose encodings both start `b` are equal, and so are their
/// encodings.
proof fn lemma_str_prefix_unique(b: Seq<u8>, s: Seq<char>, t: Seq<char>)
    requires
        encode_utf8(s).len() <= u64::MAX,
        encode_utf8(t).len() <= u64::MAX,
        encode_str(s).is_prefix_of(b),
        encode_str(t).is_prefix_of(b),
    ensures
        s == t,
        encode_str(s) == encode_str(t),
{
    lemma_le64_len(encode_utf8(s).len());
    lemma_le64_len(encode_utf8(t).len());
    let es = encode_str(s);
    let et = encode_str(t);
    assert(le64(encode_utf8(s).len()) =~= b.take(8)) by {
        assert forall|i: int| 0 <= i < 8 implies le64(encode_utf8(s).len())[i] == b.take(8)[i] by {
            assert(es[i] == b[i]);
        }
    }
    assert(le64(encode_utf8(t).len()) =~= b.take(8)) by {
        assert forall|i: int| 0 <= i < 8 implies le64(encode_utf8(t).len())[i] == b.take(8)[i] by {
            assert(et[i] == b[i]);
        }
    }
    lemma_le64_injective(encode_utf8(s).len(), encode_utf8(t).len());
    let n = encode_utf8(s).len();
    assert(encode_utf8(s) =~= encode_utf8(t)) by {
        assert forall|i: int| 0 <= i < n implies encode_utf8(s)[i] == encode_utf8(t)[i] by {
            assert(es[8 + i] == b[8 + i]);
            assert(et[8 + i] == b[8 + i]);
        }
    }
    encode_utf8_decode_utf8(s);
    encode_utf8_decode_utf8(t);
}

proof fn lemma_prefix_skip(a: Seq<u8>, rest: Seq<u8>, b: Seq<u8>)
    requires
        (a + rest).is_prefix_of(b),
    ensures
        a.is_prefix_of(b),
        rest.is_prefix_of(b.skip(a.len() as int)),
{
    assert forall|i: int| 0 <= i < rest.len() implies rest[i] == b.skip(a.len() as int)[i] by {
        assert((a + rest)[a.len() + i] == b[a.len() + i]);
    }
    assert forall|i: int| 0 <= i < a.len() implies a[i] == b[i] by {
        assert((a + rest)[i] == b[i]);
    }
}

proof fn lemma_entries_prefix_unique(b: Seq<u8>, x: Seq<Entry>, y: Seq<Entry>)
    requires
        x.len() == y.len(),
        fits(x),
        fits(y),
        encode_entries(x).is_prefix_of(b),
        encode_entries(y).is_prefix_of(b),
    ensures
        x == y,
    decreases x.len(),
{
    if x.len() == 0 {
        assert(x =~= y);
    } else {
        let (x0, y0) = (x[0], y[0]);
        assert(encode_utf8(x[0].0).len() <= u64::MAX);
        assert(encode_utf8(y[0].0).len() <= u64::MAX);
        let ex = encode_entries(x.drop_first());
        let ey = encode_entries(y.drop_first());
        assert(encode_entries(x) =~= encode_str(x0.0) + (encode_str(x0.1) + ex));
        assert(encode_entries(y) =~= encode_str(y0.0) + (encode_str(y0.1) + ey));
        lemma_prefix_skip(encode_str(x0.0), encode_str(x0.1) + ex, b);
        lemma_prefix_skip(encode_str(y0.0), encode_str(y0.1) + ey, b);
        lemma_str_prefix_unique(b, x0.0, y0.0);
        let b1 = b.skip(encode_str(x0.0).len() as int);
        lemma_prefix_skip(encode_str(x0.1), ex, b1);
        lemma_prefix_skip(encode_str(y0.1), ey, b1);
        lemma_str_prefix_unique(b1, x0.1, y0.1);
        let b2 = b1.skip(encode_str(x0.1).len() as int);
        assert(fits(x.drop_first())) by {
            assert forall|i: int| 0 <= i < x.drop_first().len() implies encode_utf8(
                #[trigger] x.drop_first()[i].0,
            ).len() <= u64::MAX && encode_utf8(x.drop_first()[i].1).len() <= u64::MAX by {
                assert(x.drop_first()[i] == x[i + 1]);
            }
        }
        assert(fits(y.drop_first())) by {
            assert forall|i: int| 0 <= i < y.drop_first().len() implies encode_utf8(
                #[trigger] y.drop_first()[i].0,
            ).len() <= u64::MAX && encode_utf8(y.drop_first()[i].1).len() <= u64::MAX by {
                assert(y.drop_first()[i] == y[i + 1]);
            }
        }
        lemma_entries_prefix_unique(b2, x.drop_first(), y.drop_first());
        assert(x =~= y) by {
            assert forall|i: int| 0 <= i < x.len() implies x[i] == y[i] by {
                if i > 0 {
                    assert(x[i] == x.drop_first()[i - 1]);
                    assert(y[i] == y.drop_first()[i - 1]);
                }
            }
        }
    }
}

/// At most one list of records is encoded at the front of any byte string.
pub proof fn lemma_parse_unique(b: Seq<u8>, x: Seq<Entry>, y: Seq<Entry>)
    requires
        parses_as(b, x),
        parses_as(b, y),
    ensures
        x == y,
{
    lemma_le64_len(x.len());
    lemma_le64_len(y.len());
    lemma_prefix_skip(le64(x.len()), encode_entries(x), b);
    lemma_prefix_skip(le64(y.len()), encode_entries(y), b);
    assert(le64(x.len()) =~= le64(y.len())) by {
        assert forall|i: int| 0 <= i < 8 implies le64(x.len())[i] == le64(y.len())[i] by {
            assert(le64(x.len())[i] == b[i]);
            assert(le64(y.len())[i] == b[i]);
        }
    }
    lemma_le64_injective(x.len(), y.len());
    lemma_entries_prefix_unique(b.skip(8), x, y);
}

/// Decoding gives back what encoding wrote: the bytes that `serialize_passwords`
/// produces for a list of records decode to that list and to no other.
pub proof fn law_decode_encode(es: Seq<Entry>)
    requires
        fits(es),
    ensures
        parses_as(encode_passwords(es), es),
        parseable(encode_passwords(es)),
        forall|other: Seq<Entry>| parses_as(encode_passwords(es), other) ==> other == es,
{
    assert(encode_passwords(es).is_prefix_of(encode_passwords(es)));
    assert forall|other: Seq<Entry>| parses_as(encode_passwords(es), other) implies other
        == es by {
        lemma_parse_unique(encode_passwords(es), other, es);
    }
}

} // verus!
