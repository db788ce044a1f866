use vstd::prelude::*;

verus! {

use crate::json::{JsonValue, JsonV, JsonMember, views_of, member_views_of};
use crate::schema::{Registry, RegV, lookup_enum, lookup_struct};
use crate::text::{
    split_on, split_kv, kv_pairs_of, parse_i32_spec, parse_i64_spec, parse_bool_spec, numeric_ok,
    split_str, split_pair, parse_i32, parse_i64, parse_bool, numeric_check, str_eq,
};
use crate::types::{Type, TyV, FieldV, EnumVariantV, Field, EnumVariant, fields_view, variants_view,
    lemma_fields_view_len, lemma_variants_view_len};
use crate::codec::{is_json_text, json_syntax_ok};

/// How many reference resolutions one conversion may chain through; a
/// schema that nests references deeper than this is treated as unresolved,
/// which also rules out reference cycles.
pub const REF_DEPTH: u32 = 64;

/// Why a textual input does not convert under a schema type.
pub enum ConvertError {
    /// The text is not a valid rendering of the scalar type.
    InvalidScalar { ty: Type, text: String },
    /// The text names no variant of the enumeration.
    UnknownVariant { enum_name: String, text: String },
    /// A reference names no registered entity, or resolution chained too
    /// deep.
    UnresolvedReference { name: String },
    /// An element of a sequence failed, at this position.
    AtIndex { index: usize, inner: Box<ConvertError> },
}

/// The mathematical shape of a `ConvertError`.
pub enum CErrV {
    InvalidScalar { ty: TyV, text: Seq<char> },
    UnknownVariant { enum_name: Seq<char>, text: Seq<char> },
    UnresolvedReference { name: Seq<char> },
    AtIndex { index: int, inner: Box<CErrV> },
}

impl View for ConvertError {
    type V = CErrV;

    open spec fn view(&self) -> CErrV
        decreases self,
    {
        match self {
            ConvertError::InvalidScalar { ty, text } => CErrV::InvalidScalar {
                ty: ty@,
                text: text@,
            },
            ConvertError::UnknownVariant { enum_name, text } => CErrV::UnknownVariant {
                enum_name: enum_name@,
                text: text@,
            },
            ConvertError::UnresolvedReference { name } => CErrV::UnresolvedReference {
                name: name@,
            },
            ConvertError::AtIndex { index, inner } => CErrV::AtIndex {
                index: *index as int,
                inner: Box::new((**inner)@),
            },
        }
    }
}

/// Does the variant list contain a variant of exactly this name?
pub open spec fn has_variant(vs: Seq<EnumVariantV>, s: Seq<char>) -> bool {
    exists|i: int| 0 <= i < vs.len() && (#[trigger] vs[i]).name == s
}

/// The value stored under `key`, the last pair winning, as repeated
/// insertion into a map would leave it.
pub open spec fn assoc_last(ps: Seq<(Seq<char>, Seq<char>)>, key: Seq<char>) -> Option<Seq<char>>
    decreases ps.len(),
{
    if ps.len() == 0 {
        None
    } else if ps.last().0 == key {
        Some(ps.last().1)
    } else {
        assoc_last(ps.drop_last(), key)
    }
}

/// What `convert` returns, for every type and every input text.
///
/// `fuel` bounds how many reference resolutions may chain; every layer of
/// plain structure keeps it unchanged, and only `StructRef` spends it.
pub open spec fn spec_convert(fuel: nat, t: TyV, s: Seq<char>, reg: RegV) -> Result<JsonV, CErrV>
    decreases fuel, t, 0int, 0int,
{
    match t {
        TyV::String => Ok(JsonV::Str(s)),
        TyV::Date => Ok(JsonV::Str(s)),
        TyV::UUID => Ok(JsonV::Str(s)),
        TyV::Inet => Ok(JsonV::Str(s)),
        TyV::Bytea => Ok(JsonV::Str(s)),
        TyV::BlockchainDecimal => Ok(JsonV::Str(s)),
        TyV::BlockchainAddress => Ok(JsonV::Str(s)),
        TyV::BlockchainTransactionHash => Ok(JsonV::Str(s)),
        TyV::Int => match parse_i32_spec(s) {
            Some(v) => Ok(JsonV::Int(v as i64)),
            None => Err(CErrV::InvalidScalar { ty: t, text: s }),
        },
        TyV::BigInt => match parse_i64_spec(s) {
            Some(v) => Ok(JsonV::Int(v)),
            None => Err(CErrV::InvalidScalar { ty: t, text: s }),
        },
        TyV::TimeStampMs => match parse_i64_spec(s) {
            Some(v) => Ok(JsonV::Int(v)),
            None => Err(CErrV::InvalidScalar { ty: t, text: s }),
        },
        TyV::Numeric => if numeric_ok(s) {
            Ok(JsonV::NumText(s))
        } else {
            Err(CErrV::InvalidScalar { ty: t, text: s })
        },
        TyV::Boolean => match parse_bool_spec(s) {
            Some(v) => Ok(JsonV::Bool(v)),
            None => Err(CErrV::InvalidScalar { ty: t, text: s }),
        },
        TyV::Optional(inner) => if s.len() == 0 {
            Ok(JsonV::Null)
        } else {
            spec_convert(fuel, *inner, s, reg)
        },
        TyV::Vec(inner) => match conv_elems(fuel, *inner, split_on(s, ','), 0, reg) {
            Ok(vs) => Ok(JsonV::Array(vs)),
            Err(e) => Err(e),
        },
        TyV::Struct { fields, .. } => match conv_struct(fuel, fields, kv_pairs_of(s), 0, reg) {
            Ok(ms) => Ok(JsonV::Object(ms)),
            Err(e) => Err(e),
        },
        TyV::DataTable { fields, .. } => match conv_rows(fuel, fields, split_on(s, ';'), 0, reg) {
            Ok(rows) => Ok(JsonV::Array(rows)),
            Err(e) => Err(e),
        },
        TyV::Enum { name, variants } => if has_variant(variants, s) {
            Ok(JsonV::Str(s))
        } else {
            Err(CErrV::UnknownVariant { enum_name: name, text: s })
        },
        TyV::EnumRef(name) => match lookup_enum(reg.enums, name) {
            Some(variants) => if has_variant(variants, s) {
                Ok(JsonV::Str(s))
            } else {
                Err(CErrV::UnknownVariant { enum_name: name, text: s })
            },
            None => Err(CErrV::UnresolvedReference { name }),
        },
        TyV::StructRef(name) => match lookup_struct(reg.structs, name) {
            Some(fields) => if fuel == 0 {
                Err(CErrV::UnresolvedReference { name })
            } else {
                match conv_struct((fuel - 1) as nat, fields, kv_pairs_of(s), 0, reg) {
                    Ok(ms) => Ok(JsonV::Object(ms)),
                    Err(e) => Err(e),
                }
            },
            None => Err(CErrV::UnresolvedReference { name }),
        },
        TyV::Object => if is_json_text(s) {
            Ok(JsonV::Raw(s))
        } else {
            Ok(JsonV::Str(s))
        },
        TyV::Unit => Ok(JsonV::Null),
    }
}

/// Converts the elements of a sequence from position `i` on; the first
/// failure is reported with its position.
pub open spec fn conv_elems(fuel: nat, t: TyV, parts: Seq<Seq<char>>, i: int, reg: RegV) -> Result<
    Seq<JsonV>,
    CErrV,
>
    decreases fuel, t, 0int, parts.len() - i,
{
    if i < 0 || i >= parts.len() {
        Ok(Seq::empty())
    } else {
        match spec_convert(fuel, t, parts[i], reg) {
            Ok(j) => match conv_elems(fuel, t, parts, i + 1, reg) {
                Ok(rest) => Ok(seq![j] + rest),
                Err(e) => Err(e),
            },
            Err(e) => Err(CErrV::AtIndex { index: i, inner: Box::new(e) }),
        }
    }
}

/// Converts the fields of a struct from position `k` on against the split
/// `key:value` pairs of the input: a field with no pair is omitted, the
/// last pair under a name wins, and the first failing field is reported.
pub open spec fn conv_struct(
    fuel: nat,
    fields: Seq<FieldV>,
    pairs: Seq<(Seq<char>, Seq<char>)>,
    k: int,
    reg: RegV,
) -> Result<Seq<(Seq<char>, JsonV)>, CErrV>
    decreases fuel, fields, 0int, fields.len() - k,
{
    if k < 0 || k >= fields.len() {
        Ok(Seq::empty())
    } else {
        let f = fields[k];
        match assoc_last(pairs, f.name) {
            None => conv_struct(fuel, fields, pairs, k + 1, reg),
            Some(text) => match spec_convert(fuel, f.ty, text, reg) {
                Ok(j) => match conv_struct(fuel, fields, pairs, k + 1, reg) {
                    Ok(ms) => Ok(seq![(f.name, j)] + ms),
                    Err(e) => Err(e),
                },
                Err(e) => Err(e),
            },
        }
    }
}

/// Converts the rows of a table from position `i` on, each row under the
/// struct rule.
pub open spec fn conv_rows(
    fuel: nat,
    fields: Seq<FieldV>,
    rows: Seq<Seq<char>>,
    i: int,
    reg: RegV,
) -> Result<Seq<JsonV>, CErrV>
    decreases fuel, fields, 1int, rows.len() - i,
{
    if i < 0 || i >= rows.len() {
        Ok(Seq::empty())
    } else {
        match conv_struct(fuel, fields, kv_pairs_of(rows[i]), 0, reg) {
            Ok(ms) => match conv_rows(fuel, fields, rows, i + 1, reg) {
                Ok(rest) => Ok(seq![JsonV::Object(ms)] + rest),
                Err(e) => Err(e),
            },
            Err(e) => Err(e),
        }
    }
}

} // verus!

verus! {

use crate::text::strs_view;
use crate::json::{lemma_views_of_len, lemma_member_views_of_len};

// ---------------------------------------------------------------------------
// The conversion engine
// ---------------------------------------------------------------------------

/// The views of split `key:value` pairs.
pub open spec fn pairs_view(v: Seq<(String, String)>) -> Seq<(Seq<char>, Seq<char>)> {
    v.map_values(|p: (String, String)| (p.0@, p.1@))
}

/// Splits a comma-separated list into its `key:value` pairs.
fn kv_split(s: &str) -> (r: Vec<(String, String)>)
    ensures
        pairs_view(r@) == kv_pairs_of(s@),
{
    let pieces = split_str(s, ',');
    let mut r: Vec<(String, String)> = Vec::new();
    let n = pieces.len();
    let mut i: usize = 0;
    while i < n
        invariant
            n == pieces@.len(),
            0 <= i <= n,
            strs_view(pieces@) == split_on(s@, ','),
            r@.len() == i,
            forall|j: int|
                0 <= j < i ==> (#[trigger] r@[j]).0@ == kv_pairs_of(s@)[j].0 && r@[j].1@
                    == kv_pairs_of(s@)[j].1,
        decreases n - i,
    {
        let p = split_pair(pieces[i].as_str());
        r.push(p);
        proof {
            assert(strs_view(pieces@)[i as int] == pieces@[i as int]@);
            assert(kv_pairs_of(s@)[i as int] == split_kv(split_on(s@, ',')[i as int]));
        }
        i += 1;
    }
    proof {
        assert(pairs_view(r@) =~= kv_pairs_of(s@));
    }
    r
}

/// Finds the value stored under `key`, the last pair winning.
fn assoc_find<'a>(pairs: &'a Vec<(String, String)>, key: &str) -> (r: Option<&'a String>)
    ensures
        match r {
            Some(v) => assoc_last(pairs_view(pairs@), key@) == Some(v@),
            None => assoc_last(pairs_view(pairs@), key@) is None,
        },
{
    let ghost pv = pairs_view(pairs@);
    let n = pairs.len();
    proof {
        assert(pv.take(n as int) =~= pv);
    }
    let mut i: usize = n;
    while i > 0
        invariant
            n == pairs@.len(),
            pv == pairs_view(pairs@),
            pv.len() == n,
            0 <= i <= n,
            assoc_last(pv, key@) == assoc_last(pv.take(i as int), key@),
        decreases i,
    {
        proof {
            assert(pv.take(i as int).last() == pv[i - 1]);
            assert(pv.take(i as int).drop_last() =~= pv.take(i - 1));
            assert(pv[i - 1] == (pairs@[i - 1].0@, pairs@[i - 1].1@));
        }
        if str_eq(pairs[i - 1].0.as_str(), key) {
            return Some(&pairs[i - 1].1);
        }
        i -= 1;
    }
    proof {
        assert(pv.take(0).len() == 0);
    }
    None
}

/// Does the variant list contain a variant named exactly `s`?
fn variant_matches(vs: &Vec<EnumVariant>, s: &str) -> (r: bool)
    ensures
        r == has_variant(variants_view(vs@), s@),
{
    proof {
        lemma_variants_view_len(vs@);
    }
    let n = vs.len();
    let mut i: usize = 0;
    while i < n
        invariant
            n == vs@.len(),
            variants_view(vs@).len() == n,
            forall|j: int| 0 <= j < n ==> #[trigger] variants_view(vs@)[j] == vs@[j]@,
            0 <= i <= n,
            forall|j: int| 0 <= j < i ==> (#[trigger] variants_view(vs@)[j]).name != s@,
        decreases n - i,
    {
        if str_eq(vs[i].name.as_str(), s) {
            proof {
                assert(variants_view(vs@)[i as int].name == s@);
            }
            return true;
        }
        i += 1;
    }
    false
}

impl Type {
    /// Converts operator text to a JSON value under this schema type,
    /// resolving references against `reg`.  The outcome — the value built,
    /// or the error and its cause — is exactly what `spec_convert` says for
    /// this type and text.
    pub fn convert_value(&self, value: &str, reg: &Registry) -> (r: Result<
        JsonValue,
        ConvertError,
    >)
        ensures
            match r {
                Ok(j) => spec_convert(REF_DEPTH as nat, self@, value@, reg@) == Ok::<
                    JsonV,
                    CErrV,
                >(j@),
                Err(e) => spec_convert(REF_DEPTH as nat, self@, value@, reg@) == Err::<
                    JsonV,
                    CErrV,
                >(e@),
            },
    {
        self.convert_at(value, reg, REF_DEPTH)
    }

    fn convert_at(&self, value: &str, reg: &Registry, fuel: u32) -> (r: Result<
        JsonValue,
        ConvertError,
    >)
        ensures
            match r {
                Ok(j) => spec_convert(fuel as nat, self@, value@, reg@) == Ok::<JsonV, CErrV>(j@),
                Err(e) => spec_convert(fuel as nat, self@, value@, reg@) == Err::<JsonV, CErrV>(
                    e@,
                ),
            },
        decreases fuel, self, 0int, 0int,
    {
        match self {
            Type::String => Ok(JsonValue::Str(String::from_str(value))),
            Type::Date => Ok(JsonValue::Str(String::from_str(value))),
            Type::UUID => Ok(JsonValue::Str(String::from_str(value))),
            Type::Inet => Ok(JsonValue::Str(String::from_str(value))),
            Type::Bytea => Ok(JsonValue::Str(String::from_str(value))),
            Type::BlockchainDecimal => Ok(JsonValue::Str(String::from_str(value))),
            Type::BlockchainAddress => Ok(JsonValue::Str(String::from_str(value))),
            Type::BlockchainTransactionHash => Ok(JsonValue::Str(String::from_str(value))),
            Type::Int => match parse_i32(value) {
                Some(v) => Ok(JsonValue::Int(v as i64)),
                None => Err(
                    ConvertError::InvalidScalar { ty: Type::Int, text: String::from_str(value) },
                ),
            },
            Type::BigInt => match parse_i64(value) {
                Some(v) => Ok(JsonValue::Int(v)),
                None => Err(
                    ConvertError::InvalidScalar { ty: Type::BigInt, text: String::from_str(value) },
                ),
            },
            Type::TimeStampMs => match parse_i64(value) {
                Some(v) => Ok(JsonValue::Int(v)),
                None => Err(
                    ConvertError::InvalidScalar {
                        ty: Type::TimeStampMs,
                        text: String::from_str(value),
                    },
                ),
            },
            Type::Numeric => if numeric_check(value) {
                Ok(JsonValue::NumText(String::from_str(value)))
            } else {
                Err(ConvertError::InvalidScalar { ty: Type::Numeric, text: String::from_str(value) })
            },
            Type::Boolean => match parse_bool(value) {
                Some(v) => Ok(JsonValue::Bool(v)),
                None => Err(
                    ConvertError::InvalidScalar {
                        ty: Type::Boolean,
                        text: String::from_str(value),
                    },
                ),
            },
            Type::Optional(inner) => if value.is_empty() {
                Ok(JsonValue::Null)
            } else {
                proof {
                    assert(decreases_to!(self => self->Optional_0));
                }
                inner.convert_at(value, reg, fuel)
            },
            Type::Vec(inner) => {
                let parts = split_str(value, ',');
                proof {
                    assert(decreases_to!(self => self->Vec_0));
                }
                match convert_elems(inner, &parts, 0, reg, fuel) {
                    Ok(vs) => Ok(JsonValue::Array(vs)),
                    Err(e) => Err(e),
                }
            },
            Type::Struct { name, fields } => {
                let pairs = kv_split(value);
                proof {
                    assert(decreases_to!(self => self->Struct_fields));
                }
                match convert_struct(fields, &pairs, 0, reg, fuel) {
                    Ok(ms) => Ok(JsonValue::Object(ms)),
                    Err(e) => Err(e),
                }
            },
            Type::DataTable { name, fields } => {
                let rows = split_str(value, ';');
                proof {
                    assert(decreases_to!(self => self->DataTable_fields));
                }
                match convert_rows(fields, &rows, 0, reg, fuel) {
                    Ok(vs) => Ok(JsonValue::Array(vs)),
                    Err(e) => Err(e),
                }
            },
            Type::Enum { name, variants } => if variant_matches(variants, value) {
                Ok(JsonValue::Str(String::from_str(value)))
            } else {
                Err(
                    ConvertError::UnknownVariant {
                        enum_name: name.clone(),
                        text: String::from_str(value),
                    },
                )
            },
            Type::EnumRef(name) => match reg.find_enum(name.as_str()) {
                Some(vs) => if variant_matches(vs, value) {
                    Ok(JsonValue::Str(String::from_str(value)))
                } else {
                    Err(
                        ConvertError::UnknownVariant {
                            enum_name: name.clone(),
                            text: String::from_str(value),
                        },
                    )
                },
                None => Err(ConvertError::UnresolvedReference { name: name.clone() }),
            },
            Type::StructRef(name) => match reg.find_struct(name.as_str()) {
                Some(fs) => if fuel == 0 {
                    Err(ConvertError::UnresolvedReference { name: name.clone() })
                } else {
                    let pairs = kv_split(value);
                    match convert_struct(fs, &pairs, 0, reg, fuel - 1) {
                        Ok(ms) => Ok(JsonValue::Object(ms)),
                        Err(e) => Err(e),
                    }
                },
                None => Err(ConvertError::UnresolvedReference { name: name.clone() }),
            },
            Type::Object => if json_syntax_ok(value) {
                Ok(JsonValue::Raw(String::from_str(value)))
            } else {
                Ok(JsonValue::Str(String::from_str(value)))
            },
            Type::Unit => Ok(JsonValue::Null),
        }
    }
}

/// Converts the elements of a split sequence from position `k` on.
fn convert_elems(t: &Type, parts: &Vec<String>, k: usize, reg: &Registry, fuel: u32) -> (r: Result<
    Vec<JsonValue>,
    ConvertError,
>)
    ensures
        match r {
            Ok(vs) => conv_elems(fuel as nat, t@, strs_view(parts@), k as int, reg@) == Ok::<
                Seq<JsonV>,
                CErrV,
            >(views_of(vs@)),
            Err(e) => conv_elems(fuel as nat, t@, strs_view(parts@), k as int, reg@) == Err::<
                Seq<JsonV>,
                CErrV,
            >(e@),
        },
    decreases fuel, t, 0int, parts@.len() - k,
{
    if k >= parts.len() {
        let r: Vec<JsonValue> = Vec::new();
        proof {
            assert(views_of(r@) =~= Seq::<JsonV>::empty());
        }
        Ok(r)
    } else {
        proof {
            assert(strs_view(parts@)[k as int] == parts@[k as int]@);
        }
        match t.convert_at(parts[k].as_str(), reg, fuel) {
            Ok(j) => match convert_elems(t, parts, k + 1, reg, fuel) {
                Ok(vs) => {
                    let mut vs = vs;
                    let ghost vold = vs@;
                    let ghost jv = j@;
                    vs.insert(0, j);
                    proof {
                        lemma_views_of_len(vs@);
                        lemma_views_of_len(vold);
                        assert(views_of(vs@) =~= seq![jv] + views_of(vold));
                    }
                    Ok(vs)
                },
                Err(e) => Err(e),
            },
            Err(e) => Err(ConvertError::AtIndex { index: k, inner: Box::new(e) }),
        }
    }
}

/// Converts the fields of a struct from position `k` on against split
/// pairs.
fn convert_struct(
    fields: &Vec<Field>,
    pairs: &Vec<(String, String)>,
    k: usize,
    reg: &Registry,
    fuel: u32,
) -> (r: Result<Vec<JsonMember>, ConvertError>)
    ensures
        match r {
            Ok(ms) => conv_struct(
                fuel as nat,
                fields_view(fields@),
                pairs_view(pairs@),
                k as int,
                reg@,
            ) == Ok::<Seq<(Seq<char>, JsonV)>, CErrV>(member_views_of(ms@)),
            Err(e) => conv_struct(
                fuel as nat,
                fields_view(fields@),
                pairs_view(pairs@),
                k as int,
                reg@,
            ) == Err::<Seq<(Seq<char>, JsonV)>, CErrV>(e@),
        },
    decreases fuel, fields, 0int, fields@.len() - k,
{
    proof {
        lemma_fields_view_len(fields@);
    }
    if k >= fields.len() {
        let r: Vec<JsonMember> = Vec::new();
        proof {
            assert(member_views_of(r@) =~= Seq::<(Seq<char>, JsonV)>::empty());
        }
        Ok(r)
    } else {
        let f = &fields[k];
        proof {
            assert(fields_view(fields@)[k as int] == fields@[k as int]@);
        }
        match assoc_find(pairs, f.name.as_str()) {
            None => convert_struct(fields, pairs, k + 1, reg, fuel),
            Some(text) => {
                proof {
                    assert(decreases_to!(fields => fields@));
                    assert(decreases_to!(fields@ => fields@[k as int]));
                    assert(decreases_to!(fields@[k as int] => fields@[k as int].ty));
                    assert(decreases_to!(fields => fields@[k as int].ty));
                }
                match f.ty.convert_at(text.as_str(), reg, fuel) {
                    Ok(j) => match convert_struct(fields, pairs, k + 1, reg, fuel) {
                        Ok(ms) => {
                            let mut ms = ms;
                            let ghost mold = ms@;
                            let ghost jv = j@;
                            let member = JsonMember { key: f.name.clone(), value: j };
                            ms.insert(0, member);
                            proof {
                                lemma_member_views_of_len(ms@);
                                lemma_member_views_of_len(mold);
                                assert(member_views_of(ms@) =~= seq![
                                    (fields@[k as int].name@, jv),
                                ] + member_views_of(mold));
                            }
                            Ok(ms)
                        },
                        Err(e) => Err(e),
                    },
                    Err(e) => Err(e),
                }
            },
        }
    }
}

/// Converts the rows of a split table from position `i` on.
fn convert_rows(
    fields: &Vec<Field>,
    rows: &Vec<String>,
    i: usize,
    reg: &Registry,
    fuel: u32,
) -> (r: Result<Vec<JsonValue>, ConvertError>)
    ensures
        match r {
            Ok(vs) => conv_rows(
                fuel as nat,
                fields_view(fields@),
                strs_view(rows@),
                i as int,
                reg@,
            ) == Ok::<Seq<JsonV>, CErrV>(views_of(vs@)),
            Err(e) => conv_rows(fuel as nat, fields_view(fields@), strs_view(rows@), i as int, reg@)
                == Err::<Seq<JsonV>, CErrV>(e@),
        },
    decreases fuel, fields, 1int, rows@.len() - i,
{
    if i >= rows.len() {
        let r: Vec<JsonValue> = Vec::new();
        proof {
            assert(views_of(r@) =~= Seq::<JsonV>::empty());
        }
        Ok(r)
    } else {
        proof {
            assert(strs_view(rows@)[i as int] == rows@[i as int]@);
        }
        let pairs = kv_split(rows[i].as_str());
        match convert_struct(fields, &pairs, 0, reg, fuel) {
            Ok(ms) => match convert_rows(fields, rows, i + 1, reg, fuel) {
                Ok(vs) => {
                    let mut vs = vs;
                    let ghost vold = vs@;
                    let row = JsonValue::Object(ms);
                    let ghost rv = row@;
                    vs.insert(0, row);
                    proof {
                        lemma_views_of_len(vs@);
                        lemma_views_of_len(vold);
                        assert(views_of(vs@) =~= seq![rv] + views_of(vold));
                    }
                    Ok(vs)
                },
                Err(e) => Err(e),
            },
            Err(e) => Err(e),
        }
    }
}

} // verus!

verus! {

use crate::json::json_text;
use crate::text::{
    lemma_i32_text_round_trip, lemma_i64_text_round_trip, lemma_unescape_escape, int_text,
    unescape_str, escape_str,
};

// ---------------------------------------------------------------------------
// Laws of the conversion engine
// ---------------------------------------------------------------------------

/// Under `Optional`, an empty text is JSON null, and any non-empty text
/// converts exactly as the inner type converts it — for every type.
pub proof fn lemma_optional_convert(fuel: nat, t: TyV, s: Seq<char>, reg: RegV)
    ensures
        spec_convert(fuel, TyV::Optional(Box::new(t)), Seq::empty(), reg) == Ok::<JsonV, CErrV>(
            JsonV::Null,
        ),
        s.len() > 0 ==> spec_convert(fuel, TyV::Optional(Box::new(t)), s, reg) == spec_convert(
            fuel,
            t,
            s,
            reg,
        ),
{
}

/// Every representable 64-bit integer round-trips: its canonical decimal
/// text converts back to it, under `BigInt` and under `TimeStampMs`, and
/// re-serializing the converted value writes that same text again.
pub proof fn lemma_bigint_round_trip(fuel: nat, v: i64, reg: RegV)
    ensures
        json_text(JsonV::Int(v)) == int_text(v as int),
        spec_convert(fuel, TyV::BigInt, int_text(v as int), reg) == Ok::<JsonV, CErrV>(
            JsonV::Int(v),
        ),
        spec_convert(fuel, TyV::TimeStampMs, int_text(v as int), reg) == Ok::<JsonV, CErrV>(
            JsonV::Int(v),
        ),
{
    lemma_i64_text_round_trip(v);
}

/// Every representable 32-bit integer round-trips under `Int`.
pub proof fn lemma_int_round_trip(fuel: nat, v: i32, reg: RegV)
    ensures
        json_text(JsonV::Int(v as i64)) == int_text(v as int),
        spec_convert(fuel, TyV::Int, int_text(v as int), reg) == Ok::<JsonV, CErrV>(
            JsonV::Int(v as i64),
        ),
{
    lemma_i32_text_round_trip(v);
}

/// Both boolean tokens round-trip: serializing the converted value writes
/// the token it was converted from.
pub proof fn lemma_bool_round_trip(fuel: nat, b: bool, reg: RegV)
    ensures
        spec_convert(fuel, TyV::Boolean, json_text(JsonV::Bool(b)), reg) == Ok::<JsonV, CErrV>(
            JsonV::Bool(b),
        ),
{
}

/// Every text accepted by the numeric grammar round-trips verbatim: the
/// converted value serializes to the original text.
pub proof fn lemma_numeric_round_trip(fuel: nat, s: Seq<char>, reg: RegV)
    requires
        numeric_ok(s),
    ensures
        json_text(JsonV::NumText(s)) == s,
        spec_convert(fuel, TyV::Numeric, s, reg) == Ok::<JsonV, CErrV>(JsonV::NumText(s)),
{
}

/// Every text converts under the textual scalars, and the body of its JSON
/// string literal reads back to the original text.
pub proof fn lemma_text_scalar_round_trip(fuel: nat, s: Seq<char>, reg: RegV)
    ensures
        spec_convert(fuel, TyV::String, s, reg) == Ok::<JsonV, CErrV>(JsonV::Str(s)),
        spec_convert(fuel, TyV::Date, s, reg) == Ok::<JsonV, CErrV>(JsonV::Str(s)),
        spec_convert(fuel, TyV::UUID, s, reg) == Ok::<JsonV, CErrV>(JsonV::Str(s)),
        spec_convert(fuel, TyV::Inet, s, reg) == Ok::<JsonV, CErrV>(JsonV::Str(s)),
        spec_convert(fuel, TyV::Bytea, s, reg) == Ok::<JsonV, CErrV>(JsonV::Str(s)),
        spec_convert(fuel, TyV::BlockchainDecimal, s, reg) == Ok::<JsonV, CErrV>(JsonV::Str(s)),
        spec_convert(fuel, TyV::BlockchainAddress, s, reg) == Ok::<JsonV, CErrV>(JsonV::Str(s)),
        spec_convert(fuel, TyV::BlockchainTransactionHash, s, reg) == Ok::<JsonV, CErrV>(
            JsonV::Str(s),
        ),
        json_text(JsonV::Str(s)) == seq!['"'] + escape_str(s) + seq!['"'],
        unescape_str(escape_str(s)) == Some(s),
{
    lemma_unescape_escape(s);
}

} // verus!

verus! {

use crate::text::{u64_to_string, dec_digits_of};

// ---------------------------------------------------------------------------
// Error messages
// ---------------------------------------------------------------------------

/// The name a schema type goes by in messages.
pub open spec fn ty_name(t: TyV) -> Seq<char> {
    match t {
        TyV::TimeStampMs => "timestamp"@,
        TyV::Date => "date"@,
        TyV::Int => "integer"@,
        TyV::BigInt => "big integer"@,
        TyV::Numeric => "number"@,
        TyV::Boolean => "boolean"@,
        TyV::String => "string"@,
        TyV::Bytea => "byte string"@,
        TyV::UUID => "UUID"@,
        TyV::Inet => "network address"@,
        TyV::Struct { .. } => "struct"@,
        TyV::StructRef(_) => "struct reference"@,
        TyV::Object => "object"@,
        TyV::DataTable { .. } => "table"@,
        TyV::Vec(_) => "sequence"@,
        TyV::Unit => "unit"@,
        TyV::Optional(_) => "optional"@,
        TyV::Enum { .. } => "enum"@,
        TyV::EnumRef(_) => "enum reference"@,
        TyV::BlockchainDecimal => "blockchain decimal"@,
        TyV::BlockchainAddress => "blockchain address"@,
        TyV::BlockchainTransactionHash => "blockchain transaction hash"@,
    }
}

/// What a conversion error says when it is shown to the operator.
pub open spec fn err_text(e: CErrV) -> Seq<char>
    decreases e,
{
    match e {
        CErrV::InvalidScalar { ty, text } => "Invalid value for "@ + ty_name(ty) + ": "@ + text,
        CErrV::UnknownVariant { enum_name, text } => "Invalid variant for enum "@ + enum_name
            + ": "@ + text,
        CErrV::UnresolvedReference { name } => "Unresolved reference: "@ + name,
        CErrV::AtIndex { index, inner } => "At index "@ + dec_digits_of(index) + ": "@ + err_text(
            *inner,
        ),
    }
}

impl Type {
    /// The name this type goes by in messages.
    pub fn name_text(&self) -> (r: String)
        ensures
            r@ == ty_name(self@),
    {
        match self {
            Type::TimeStampMs => String::from_str("timestamp"),
            Type::Date => String::from_str("date"),
            Type::Int => String::from_str("integer"),
            Type::BigInt => String::from_str("big integer"),
            Type::Numeric => String::from_str("number"),
            Type::Boolean => String::from_str("boolean"),
            Type::String => String::from_str("string"),
            Type::Bytea => String::from_str("byte string"),
            Type::UUID => String::from_str("UUID"),
            Type::Inet => String::from_str("network address"),
            Type::Struct { .. } => String::from_str("struct"),
            Type::StructRef(_) => String::from_str("struct reference"),
            Type::Object => String::from_str("object"),
            Type::DataTable { .. } => String::from_str("table"),
            Type::Vec(_) => String::from_str("sequence"),
            Type::Unit => String::from_str("unit"),
            Type::Optional(_) => String::from_str("optional"),
            Type::Enum { .. } => String::from_str("enum"),
            Type::EnumRef(_) => String::from_str("enum reference"),
            Type::BlockchainDecimal => String::from_str("blockchain decimal"),
            Type::BlockchainAddress => String::from_str("blockchain address"),
            Type::BlockchainTransactionHash => String::from_str("blockchain transaction hash"),
        }
    }
}

impl ConvertError {
    /// Writes this error as the operator sees it.
    pub fn message(&self) -> (r: String)
        ensures
            r@ == err_text(self@),
        decreases self,
    {
        match self {
            ConvertError::InvalidScalar { ty, text } => {
                let mut r = String::from_str("Invalid value for ");
                r.append(ty.name_text().as_str());
                r.append(": ");
                r.append(text.as_str());
                r
            },
            ConvertError::UnknownVariant { enum_name, text } => {
                let mut r = String::from_str("Invalid variant for enum ");
                r.append(enum_name.as_str());
                r.append(": ");
                r.append(text.as_str());
                r
            },
            ConvertError::UnresolvedReference { name } => {
                let mut r = String::from_str("Unresolved reference: ");
                r.append(name.as_str());
                r
            },
            ConvertError::AtIndex { index, inner } => {
                proof {
                    assert(decreases_to!(self => self->AtIndex_inner));
                }
                let mut r = String::from_str("At index ");
                r.append(u64_to_string(*index as u64).as_str());
                r.append(": ");
                r.append(inner.message().as_str());
                r
            },
        }
    }
}

} // verus!
