//! Field descriptors and their synthesis from a type and a count.
use vstd::prelude::*;
use vstd::string::*;
use crate::base62::{base62, encode, lemma_base62_injective};

verus! {

/// One generated field: its identifier, its serialization key and its type.
#[derive(Debug, PartialEq, Eq)]
pub struct FieldDescriptor {
    /// `_` followed by the key, so that the name never starts with a digit.
    pub identifier: String,
    /// The base62 numeral of the field's index.
    pub external_key: String,
    /// The element type, as text.
    pub field_type: String,
}

/// What a `FieldDescriptor` holds, as character sequences.
pub struct FieldView {
    pub identifier: Seq<char>,
    pub external_key: Seq<char>,
    pub field_type: Seq<char>,
}

impl View for FieldDescriptor {
    type V = FieldView;

    open spec fn view(&self) -> FieldView {
        FieldView {
            identifier: self.identifier@,
            external_key: self.external_key@,
            field_type: self.field_type@,
        }
    }
}

/// The descriptor of the field at `index`.
pub open spec fn field_at(field_type: Seq<char>, index: nat) -> FieldView {
    FieldView {
        identifier: seq!['_'] + base62(index),
        external_key: base62(index),
        field_type: field_type,
    }
}

/// The descriptors of fields `0 .. count`, in ascending order.
pub open spec fn synthesized(field_type: Seq<char>, count: nat) -> Seq<FieldView> {
    Seq::new(count, |i: int| field_at(field_type, i as nat))
}

/// No two descriptors share an identifier or a key.
pub open spec fn names_distinct(fields: Seq<FieldView>) -> bool {
    forall|i: int, j: int|
        0 <= i < fields.len() && 0 <= j < fields.len() && i != j ==> {
            &&& (#[trigger] fields[i]).identifier != (#[trigger] fields[j]).identifier
            &&& fields[i].external_key != fields[j].external_key
        }
}

/// The views of a sequence of descriptors.
pub open spec fn fields_view(fields: Seq<FieldDescriptor>) -> Seq<FieldView> {
    fields.map_values(|f: FieldDescriptor| f@)
}

/// The descriptor of the field at `index`.
pub fn describe_field(field_type: &str, index: u32) -> (r: FieldDescriptor)
    ensures
        r@ == field_at(field_type@, index as nat),
{
    let key = encode(index);
    let mut identifier = String::from_str("_");
    identifier.append(key.as_str());
    proof {
        reveal_strlit("_");
        assert("_"@ =~= seq!['_']);
    }
    let field_type = field_type.to_string();
    FieldDescriptor { identifier, external_key: key, field_type }
}

/// The `field_count` descriptors of fields of type `field_type`, one per
/// index from zero up, in that order.
pub fn synthesize(field_type: &str, field_count: u32) -> (r: Vec<FieldDescriptor>)
    ensures
        r@.len() == field_count,
        fields_view(r@) == synthesized(field_type@, field_count as nat),
        names_distinct(fields_view(r@)),
{
    let capacity: usize = field_count as usize;
    assert(capacity == field_count);
    let mut fields: Vec<FieldDescriptor> = Vec::with_capacity(capacity);
    let mut index: u32 = 0;
    while index < field_count
        invariant
            index <= field_count,
            fields@.len() == index,
            forall|i: int| 0 <= i < index ==> #[trigger] fields@[i]@ == field_at(field_type@, i as nat),
        decreases field_count - index,
    {
        fields.push(describe_field(field_type, index));
        index = index + 1;
    }
    assert(fields_view(fields@) =~= synthesized(field_type@, field_count as nat));
    proof {
        lemma_fields_distinct(field_type@, field_count as nat);
    }
    fields
}

/// Synthesis is deterministic: two results for the same type and count hold
/// the same descriptors in the same order.
pub proof fn lemma_synthesize_deterministic(
    field_type: Seq<char>,
    count: nat,
    a: Seq<FieldDescriptor>,
    b: Seq<FieldDescriptor>,
)
    requires
        fields_view(a) == synthesized(field_type, count),
        fields_view(b) == synthesized(field_type, count),
    ensures
        a.len() == b.len(),
        forall|i: int| 0 <= i < a.len() ==> #[trigger] a[i]@ == b[i]@,
{
    assert(fields_view(a).len() == a.len());
    assert(fields_view(b).len() == b.len());
    assert forall|i: int| 0 <= i < a.len() implies #[trigger] a[i]@ == b[i]@ by {
        assert(fields_view(a)[i] == a[i]@);
        assert(fields_view(b)[i] == b[i]@);
    }
}

/// Every identifier is `_` followed by the field's key.
pub proof fn lemma_identifier_is_prefixed_key(field_type: Seq<char>, count: nat)
    ensures
        forall|i: int|
            0 <= i < count ==> (#[trigger] synthesized(field_type, count)[i]).identifier == seq!['_']
                + synthesized(field_type, count)[i].external_key,
{
}

/// Distinct fields have distinct identifiers and distinct keys.
pub proof fn lemma_fields_distinct(field_type: Seq<char>, count: nat)
    ensures
        names_distinct(synthesized(field_type, count)),
{
    let fs = synthesized(field_type, count);
    assert forall|i: int, j: int|
        0 <= i < fs.len() && 0 <= j < fs.len() && i != j implies {
            &&& (#[trigger] fs[i]).identifier != (#[trigger] fs[j]).identifier
            &&& fs[i].external_key != fs[j].external_key
        } by {
        lemma_base62_injective(i as nat, j as nat);
        let a = seq!['_'] + base62(i as nat);
        let b = seq!['_'] + base62(j as nat);
        if a == b {
            assert(a.skip(1) =~= base62(i as nat));
            assert(b.skip(1) =~= base62(j as nat));
        }
    }
}

} // verus!
