//! The source text of an assembled declaration.
use vstd::prelude::*;
use vstd::string::*;
use crate::fields::{FieldDescriptor, FieldView, fields_view};
use crate::skeleton::{StructSkeleton, texts};

verus! {

/// The annotation that gives a field `key` as its serialization name.
pub open spec fn rename_annotation(key: Seq<char>) -> Seq<char> {
    "#[serde(rename = \""@ + key + "\")]"@
}

/// One field's lines: its annotation, then `identifier: type,`.
pub open spec fn field_text(f: FieldView) -> Seq<char> {
    "    "@ + rename_annotation(f.external_key) + "\n    "@ + f.identifier + ": "@ + f.field_type
        + ",\n"@
}

/// The lines of all fields, in order.
pub open spec fn fields_text(fields: Seq<FieldView>) -> Seq<char>
    decreases fields.len(),
{
    if fields.len() == 0 {
        Seq::empty()
    } else {
        fields_text(fields.drop_last()) + field_text(fields.last())
    }
}

/// The attributes, one per line, in order.
pub open spec fn attributes_text(attrs: Seq<Seq<char>>) -> Seq<char>
    decreases attrs.len(),
{
    if attrs.len() == 0 {
        Seq::empty()
    } else {
        attributes_text(attrs.drop_last()) + attrs.last() + "\n"@
    }
}

/// The visibility followed by a space, or nothing for a private record.
pub open spec fn visibility_text(vis: Seq<char>) -> Seq<char> {
    if vis.len() == 0 {
        Seq::empty()
    } else {
        vis + " "@
    }
}

/// The whole declaration of `d`.
pub open spec fn declaration_text(d: StructSkeleton) -> Seq<char> {
    attributes_text(texts(d.attributes@)) + visibility_text(d.visibility@) + "struct "@ + d.name@
        + d.generics@ + " {\n"@ + fields_text(fields_view(d.fields@)) + "}\n"@
}

/// The annotation that gives a field `key` as its serialization name.
pub fn rename_attribute(key: &str) -> (r: String)
    ensures
        r@ == rename_annotation(key@),
{
    let mut s = String::from_str("#[serde(rename = \"");
    s.append(key);
    s.append("\")]");
    s
}

fn push_field(out: &mut String, f: &FieldDescriptor)
    ensures
        final(out)@ == old(out)@ + field_text(f@),
{
    let annotation = rename_attribute(f.external_key.as_str());
    out.append("    ");
    out.append(annotation.as_str());
    out.append("\n    ");
    out.append(f.identifier.as_str());
    out.append(": ");
    out.append(f.field_type.as_str());
    out.append(",\n");
    assert(final(out)@ =~= old(out)@ + field_text(f@));
}

/// The source text of `d`: its attributes one per line, then
/// `<visibility> struct <name><generics> {`, each field as its annotation
/// and `identifier: type,`, and the closing brace.
pub fn render_declaration(d: &StructSkeleton) -> (r: String)
    ensures
        r@ == declaration_text(*d),
{
    let ghost attrs = texts(d.attributes@);
    let ghost fields = fields_view(d.fields@);
    let mut out = String::new();
    let mut i: usize = 0;
    while i < d.attributes.len()
        invariant
            attrs == texts(d.attributes@),
            i <= d.attributes@.len(),
            out@ == attributes_text(attrs.take(i as int)),
        decreases d.attributes@.len() - i,
    {
        assert(attrs.take(i + 1).drop_last() =~= attrs.take(i as int));
        out.append(d.attributes[i].as_str());
        out.append("\n");
        i = i + 1;
    }
    assert(attrs.take(i as int) =~= attrs);
    if d.visibility.as_str().unicode_len() > 0 {
        out.append(d.visibility.as_str());
        out.append(" ");
    }
    out.append("struct ");
    out.append(d.name.as_str());
    out.append(d.generics.as_str());
    out.append(" {\n");
    let ghost head = out@;
    let mut j: usize = 0;
    assert(fields.take(0) =~= Seq::<FieldView>::empty());
    while j < d.fields.len()
        invariant
            fields == fields_view(d.fields@),
            j <= d.fields@.len(),
            out@ == head + fields_text(fields.take(j as int)),
        decreases d.fields@.len() - j,
    {
        assert(fields.take(j + 1).drop_last() =~= fields.take(j as int));
        assert(fields[j as int] == d.fields@[j as int]@);
        push_field(&mut out, &d.fields[j]);
        assert(out@ =~= head + fields_text(fields.take(j + 1)));
        j = j + 1;
    }
    assert(fields.take(j as int) =~= fields);
    out.append("}\n");
    assert(out@ =~= declaration_text(*d));
    out
}

} // verus!
