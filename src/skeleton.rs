//! Record declarations: the caller's skeleton, its assembly with the
//! synthesized fields, and the declaration's text.
use vstd::prelude::*;
use vstd::string::*;
use crate::arguments::{parse_arguments, parse_outcome, outcome_view, Arguments, ErrorView, FauxArrayError};
use crate::fields::{synthesize, synthesized, fields_view, FieldDescriptor};
use crate::text::{is_space, is_space_char};

verus! {

/// A record declaration, with its parts as source text.
#[derive(Debug, PartialEq, Eq)]
pub struct StructSkeleton {
    /// Outer attributes, each as its own text (such as `#[derive(Serialize)]`).
    pub attributes: Vec<String>,
    /// The visibility, empty for a private record.
    pub visibility: String,
    /// The record's name.
    pub name: String,
    /// The generic parameter list with its angle brackets, or empty.
    pub generics: String,
    /// The fields, in declaration order.
    pub fields: Vec<FieldDescriptor>,
}

/// The texts of a sequence of strings.
pub open spec fn texts(v: Seq<String>) -> Seq<Seq<char>> {
    v.map_values(|s: String| s@)
}

/// `s` without its whitespace.
pub open spec fn compact(s: Seq<char>) -> Seq<char>
    decreases s.len(),
{
    if s.len() == 0 {
        s
    } else if is_space(s.last()) {
        compact(s.drop_last())
    } else {
        compact(s.drop_last()).push(s.last())
    }
}

/// The list of paths in an attribute `#[derive(...)]` written without
/// whitespace, or `None` for any other attribute.
pub open spec fn derive_list(c: Seq<char>) -> Option<Seq<char>> {
    let open = "#[derive("@;
    let close = ")]"@;
    if c.len() >= open.len() + close.len() && c.take(open.len() as int) == open && c.skip(
        c.len() - close.len(),
    ) == close {
        Some(c.subrange(open.len() as int, c.len() - close.len()))
    } else {
        None
    }
}

/// In the path list `l`, a path whose last segment is `Serialize` ends at
/// `k + 9`: the name stands at `k`, after the start, a `,` or the `::` of a
/// path, and before the end or a `,`.
pub open spec fn names_serialize_at(l: Seq<char>, k: int) -> bool {
    let name = "Serialize"@;
    &&& 0 <= k && k + name.len() <= l.len()
    &&& l.subrange(k, k + name.len()) == name
    &&& k == 0 || l[k - 1] == ',' || l[k - 1] == ':'
    &&& k + name.len() == l.len() || l[k + name.len()] == ','
}

/// The attribute derives the serialization capability: with whitespace
/// removed it reads `#[derive(...)]`, and one of the listed paths ends in the
/// segment `Serialize` (`Serialize`, `serde::Serialize`). This is a test on
/// the attribute's text alone: an implementation of `Serialize` written by
/// hand elsewhere is not seen, and such a record is refused.
pub open spec fn derives_serialize(attr: Seq<char>) -> bool {
    derive_list(compact(attr)) is Some && exists|k: int|
        #[trigger] names_serialize_at(derive_list(compact(attr))->Some_0, k)
}

/// `s` without its whitespace.
fn compact_chars(s: &str) -> (r: Vec<char>)
    ensures
        r@ == compact(s@),
{
    let n = s.unicode_len();
    let mut out: Vec<char> = Vec::new();
    let mut i: usize = 0;
    assert(s@.take(0) =~= Seq::<char>::empty());
    while i < n
        invariant
            n == s@.len(),
            i <= n,
            out@ == compact(s@.take(i as int)),
        decreases n - i,
    {
        let c = s.get_char(i);
        assert(s@.take(i + 1).drop_last() =~= s@.take(i as int));
        if !is_space_char(c) {
            out.push(c);
        }
        i = i + 1;
    }
    assert(s@.take(n as int) =~= s@);
    out
}

/// Whether `lit` stands in `v` at `start`.
fn matches_at(v: &Vec<char>, start: usize, lit: &str) -> (r: bool)
    requires
        start <= v@.len(),
    ensures
        r == (start + lit@.len() <= v@.len() && v@.subrange(
            start as int,
            start + lit@.len(),
        ) == lit@),
{
    let m = lit.unicode_len();
    if m > v.len() - start {
        return false;
    }
    let mut i: usize = 0;
    while i < m
        invariant
            m == lit@.len(),
            start + m <= v@.len(),
            v@.len() <= usize::MAX,
            i <= m,
            forall|j: int| 0 <= j < i ==> v@[start + j] == lit@[j],
        decreases m - i,
    {
        if v[start + i] != lit.get_char(i) {
            assert(v@.subrange(start as int, start + m)[i as int] != lit@[i as int]);
            return false;
        }
        i = i + 1;
    }
    assert(v@.subrange(start as int, start + m) =~= lit@);
    true
}

/// Whether the attribute `attr` derives the serialization capability.
pub fn derives_serialize_text(attr: &str) -> (r: bool)
    ensures
        r == derives_serialize(attr@),
{
    let c = compact_chars(attr);
    let n = c.len();
    let o = "#[derive(".unicode_len();
    let e = ")]".unicode_len();
    if n < e || n - e < o || !matches_at(&c, 0, "#[derive(") || !matches_at(&c, n - e, ")]") {
        assert(derive_list(c@) is None) by {
            if n >= o + e {
                assert(c@.take(o as int) =~= c@.subrange(0, o as int));
                assert(c@.skip(n - e) =~= c@.subrange(n - e, n as int));
            }
        }
        return false;
    }
    assert(c@.take(o as int) =~= c@.subrange(0, o as int));
    assert(c@.skip(n - e) =~= c@.subrange(n - e, n as int));
    let ghost l = c@.subrange(o as int, n - e);
    assert(derive_list(c@) == Some(l));
    let m = "Serialize".unicode_len();
    proof {
        reveal_strlit("Serialize");
    }
    assert(m == 9);
    let mut k: usize = o;
    while m <= n - e - k
        invariant
            c@.len() == n,
            c@ == compact(attr@),
            derive_list(c@) == Some(l),
            o + e <= n,
            m == "Serialize"@.len(),
            m == 9,
            l == c@.subrange(o as int, n - e),
            o <= k <= n - e,
            forall|p: int| 0 <= p < k - o ==> !names_serialize_at(l, p),
        decreases n - k,
    {
        if matches_at(&c, k, "Serialize") && (k == o || c[k - 1] == ',' || c[k - 1] == ':') && (k
            + m == n - e || c[k + m] == ',') {
            assert(l.subrange(k - o, k - o + m) =~= c@.subrange(k as int, k + m));
            assert(names_serialize_at(l, k - o));
            assert(exists|p: int| names_serialize_at(l, p));
            assert(derive_list(compact(attr@)) == Some(l));
            assert(derive_list(compact(attr@))->Some_0 == l);
            assert(names_serialize_at(derive_list(compact(attr@))->Some_0, k - o));
            assert(derives_serialize(attr@));
            return true;
        }
        assert(!names_serialize_at(l, k - o)) by {
            if names_serialize_at(l, k - o) {
                assert(l.subrange(k - o, k - o + m) =~= c@.subrange(k as int, k + m));
            }
        }
        k = k + 1;
    }
    assert forall|p: int| !names_serialize_at(l, p) by {
        if 0 <= p < k - o {
        }
    }
    assert(!derives_serialize(attr@));
    false
}

/// Some attribute derives the serialization capability (see
/// `derives_serialize`).
pub open spec fn declares_serialization(attrs: Seq<Seq<char>>) -> bool {
    exists|i: int| 0 <= i < attrs.len() && derives_serialize(#[trigger] attrs[i])
}

/// Whether one of `attributes` derives the serialization capability.
pub fn has_serialization(attributes: &Vec<String>) -> (r: bool)
    ensures
        r == declares_serialization(texts(attributes@)),
{
    let ghost t = texts(attributes@);
    let mut i: usize = 0;
    while i < attributes.len()
        invariant
            t == texts(attributes@),
            i <= attributes@.len(),
            forall|j: int| 0 <= j < i ==> !derives_serialize(#[trigger] t[j]),
        decreases attributes@.len() - i,
    {
        let a = attributes[i].as_str();
        assert(t[i as int] == a@);
        if derives_serialize_text(a) {
            return true;
        }
        i = i + 1;
    }
    false
}

/// `skeleton` with its field list replaced by `fields`. Fields already on
/// the skeleton are not kept: a skeleton is expected to declare none.
pub fn assemble(skeleton: StructSkeleton, fields: Vec<FieldDescriptor>) -> (r: StructSkeleton)
    ensures
        r.attributes@ == skeleton.attributes@,
        r.visibility@ == skeleton.visibility@,
        r.name@ == skeleton.name@,
        r.generics@ == skeleton.generics@,
        r.fields@ == fields@,
{
    StructSkeleton {
        attributes: skeleton.attributes,
        visibility: skeleton.visibility,
        name: skeleton.name,
        generics: skeleton.generics,
        fields,
    }
}

/// What turning `skeleton` into a pseudo-array gives, where `o` is the
/// outcome of reading the argument list: its error; else
/// `SerializationCapabilityMissing` where no attribute derives `Serialize`
/// (see `derives_serialize`); else `FieldsAlreadyDeclared` where the skeleton
/// has fields; else the skeleton, unchanged but for the synthesized fields.
pub open spec fn expansion_matches(
    o: Result<(Seq<char>, u32), ErrorView>,
    skeleton: StructSkeleton,
    r: Result<StructSkeleton, FauxArrayError>,
) -> bool {
    let serializable = declares_serialization(texts(skeleton.attributes@));
    &&& o is Err ==> (r matches Err(e) && e@ == o->Err_0)
    &&& o is Ok && !serializable ==> (r matches Err(e) && e@
        == ErrorView::SerializationCapabilityMissing)
    &&& o is Ok && serializable && skeleton.fields@.len() > 0 ==> (r matches Err(e) && e@
        == ErrorView::FieldsAlreadyDeclared)
    &&& o is Ok && serializable && skeleton.fields@.len() == 0 ==> (r matches Ok(d) && {
        &&& d.attributes@ == skeleton.attributes@
        &&& d.visibility@ == skeleton.visibility@
        &&& d.name@ == skeleton.name@
        &&& d.generics@ == skeleton.generics@
        &&& fields_view(d.fields@) == synthesized(o->Ok_0.0, o->Ok_0.1 as nat)
    })
}

/// Turns `skeleton` into a pseudo-array with the fields that `arguments`
/// ask for.
pub fn expand(arguments: &Arguments, skeleton: StructSkeleton) -> (r: Result<
    StructSkeleton,
    FauxArrayError,
>)
    ensures
        expansion_matches(Ok((arguments.field_type@, arguments.field_count)), skeleton, r),
{
    if !has_serialization(&skeleton.attributes) {
        return Err(FauxArrayError::SerializationCapabilityMissing);
    }
    if skeleton.fields.len() > 0 {
        return Err(FauxArrayError::FieldsAlreadyDeclared);
    }
    let fields = synthesize(arguments.field_type.as_str(), arguments.field_count);
    Ok(assemble(skeleton, fields))
}

/// Turns `skeleton` into a pseudo-array: reads the argument list `args`
/// (`<type>, <count>`), then expands the skeleton as `expand` does.
pub fn faux_array(args: &str, skeleton: StructSkeleton) -> (r: Result<StructSkeleton, FauxArrayError>)
    ensures
        exists|type_ok: bool| #[trigger]
            expansion_matches(parse_outcome(args@, type_ok), skeleton, r),
{
    let arguments = parse_arguments(args);
    let ghost type_ok = choose|type_ok: bool| outcome_view(arguments) == #[trigger] parse_outcome(
        args@,
        type_ok,
    );
    match arguments {
        Ok(a) => {
            let r = expand(&a, skeleton);
            assert(expansion_matches(parse_outcome(args@, type_ok), skeleton, r));
            r
        },
        Err(e) => {
            let r = Err(e);
            assert(expansion_matches(parse_outcome(args@, type_ok), skeleton, r));
            r
        },
    }
}

} // verus!
