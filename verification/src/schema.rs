use vstd::prelude::*;

verus! {

use crate::json::JsonValue;
use crate::text::str_eq;
use crate::types::{
    Field, FieldV, EnumVariant, EnumVariantV, Type, fields_view, variants_view, clone_variants,
};

/// A named enumeration definition from the schema document.
pub struct EnumDef {
    pub name: String,
    pub variants: Vec<EnumVariant>,
}

/// The envelope a schema document wraps around one enum definition.
pub struct EnumData {
    enum_def: EnumDef,
}

impl EnumData {
    pub fn new(enum_def: EnumDef) -> (r: EnumData)
        ensures
            r.spec_def() == enum_def,
    {
        EnumData { enum_def }
    }

    /// The wrapped definition.
    pub fn def(&self) -> (r: &EnumDef)
        ensures
            r == self.spec_def(),
    {
        &self.enum_def
    }

    pub closed spec fn spec_def(&self) -> EnumDef {
        self.enum_def
    }
}

/// One callable endpoint as the schema document describes it.
pub struct EndpointSchema {
    pub name: String,
    pub code: u32,
    pub parameters: Vec<Field>,
    pub returns: Vec<Field>,
    pub stream_response: Option<Type>,
    pub description: String,
    pub json_schema: JsonValue,
}

/// One service: an ordered list of endpoints.
pub struct EndpointsType {
    pub endpoints: Vec<EndpointSchema>,
    pub id: u32,
    pub name: String,
}

/// The root of a schema document: enum definitions and services.
pub struct Services {
    pub enums: Vec<EnumData>,
    pub services: Vec<EndpointsType>,
}

/// A bare list of endpoint names.
pub struct Endpoints(pub Vec<String>);

/// One entry of an error-code listing.
pub struct ErrorCode {
    pub code: u32,
    pub symbol: String,
    pub message: String,
    pub source: String,
}

/// An error-code listing for one language.
pub struct ErrorCodes {
    pub language: String,
    pub codes: Vec<ErrorCode>,
}

/// What the session needs to know about one endpoint: its owning service,
/// wire code, resolved parameters, and whether it streams.
pub struct EndpointMetadata {
    pub service_name: String,
    pub method_id: u32,
    pub params: Vec<ParameterMetadata>,
    pub is_stream: bool,
}

/// One resolved parameter of an endpoint.
pub struct ParameterMetadata {
    pub name: String,
    pub ty: Type,
}

impl Clone for ParameterMetadata {
    fn clone(&self) -> (r: ParameterMetadata)
        ensures
            r.name == self.name,
            r.ty@ == self.ty@,
    {
        ParameterMetadata { name: self.name.clone(), ty: self.ty.clone() }
    }
}

/// Copies a parameter list; the copy has pointwise equal names and type
/// shapes.
pub fn clone_params(ps: &Vec<ParameterMetadata>) -> (r: Vec<ParameterMetadata>)
    ensures
        r@.len() == ps@.len(),
        forall|j: int|
            0 <= j < ps@.len() ==> (#[trigger] r@[j]).name == ps@[j].name && r@[j].ty@
                == ps@[j].ty@,
{
    let mut r: Vec<ParameterMetadata> = Vec::new();
    let n = ps.len();
    let mut i: usize = 0;
    while i < n
        invariant
            n == ps@.len(),
            0 <= i <= n,
            r@.len() == i,
            forall|j: int|
                0 <= j < i ==> (#[trigger] r@[j]).name == ps@[j].name && r@[j].ty@ == ps@[j].ty@,
        decreases n - i,
    {
        r.push(ps[i].clone());
        i += 1;
    }
    r
}

// ---------------------------------------------------------------------------
// The registry of named entities
// ---------------------------------------------------------------------------

/// Resolves `EnumRef` and `StructRef` names to their definitions.  Built
/// from a schema document's enum definitions; struct definitions are
/// registered by the caller.
pub struct Registry {
    pub enums: Vec<(String, Vec<EnumVariant>)>,
    pub structs: Vec<(String, Vec<Field>)>,
}

/// The mathematical shape of a `Registry`.
pub struct RegV {
    pub enums: Seq<(Seq<char>, Seq<EnumVariantV>)>,
    pub structs: Seq<(Seq<char>, Seq<FieldV>)>,
}

/// The views of registered enum entries.
pub open spec fn enum_entries_view(es: Seq<(String, Vec<EnumVariant>)>) -> Seq<
    (Seq<char>, Seq<EnumVariantV>),
> {
    es.map_values(|e: (String, Vec<EnumVariant>)| (e.0@, variants_view(e.1@)))
}

/// The views of registered struct entries.
pub open spec fn struct_entries_view(es: Seq<(String, Vec<Field>)>) -> Seq<
    (Seq<char>, Seq<FieldV>),
> {
    es.map_values(|e: (String, Vec<Field>)| (e.0@, fields_view(e.1@)))
}

impl View for Registry {
    type V = RegV;

    open spec fn view(&self) -> RegV {
        RegV { enums: enum_entries_view(self.enums@), structs: struct_entries_view(self.structs@) }
    }
}

/// The first entry under `name`, if any.
pub open spec fn lookup_enum(es: Seq<(Seq<char>, Seq<EnumVariantV>)>, name: Seq<char>) -> Option<
    Seq<EnumVariantV>,
>
    decreases es.len(),
{
    if es.len() == 0 {
        None
    } else if es[0].0 == name {
        Some(es[0].1)
    } else {
        lookup_enum(es.subrange(1, es.len() as int), name)
    }
}

/// The first entry under `name`, if any.
pub open spec fn lookup_struct(es: Seq<(Seq<char>, Seq<FieldV>)>, name: Seq<char>) -> Option<
    Seq<FieldV>,
>
    decreases es.len(),
{
    if es.len() == 0 {
        None
    } else if es[0].0 == name {
        Some(es[0].1)
    } else {
        lookup_struct(es.subrange(1, es.len() as int), name)
    }
}

proof fn lemma_lookup_enum_step(es: Seq<(Seq<char>, Seq<EnumVariantV>)>, name: Seq<char>, i: int)
    requires
        0 <= i <= es.len(),
        forall|j: int| 0 <= j < i ==> (#[trigger] es[j]).0 != name,
    ensures
        lookup_enum(es, name) == lookup_enum(es.subrange(i, es.len() as int), name),
    decreases i,
{
    if i > 0 {
        assert(es[0].0 != name);
        let sub = es.subrange(1, es.len() as int);
        assert(forall|j: int| 0 <= j < i - 1 ==> (#[trigger] sub[j]).0 != name);
        lemma_lookup_enum_step(sub, name, i - 1);
        assert(sub.subrange(i - 1, sub.len() as int) =~= es.subrange(i, es.len() as int));
    } else {
        assert(es.subrange(0, es.len() as int) =~= es);
    }
}

proof fn lemma_lookup_struct_step(es: Seq<(Seq<char>, Seq<FieldV>)>, name: Seq<char>, i: int)
    requires
        0 <= i <= es.len(),
        forall|j: int| 0 <= j < i ==> (#[trigger] es[j]).0 != name,
    ensures
        lookup_struct(es, name) == lookup_struct(es.subrange(i, es.len() as int), name),
    decreases i,
{
    if i > 0 {
        assert(es[0].0 != name);
        let sub = es.subrange(1, es.len() as int);
        assert(forall|j: int| 0 <= j < i - 1 ==> (#[trigger] sub[j]).0 != name);
        lemma_lookup_struct_step(sub, name, i - 1);
        assert(sub.subrange(i - 1, sub.len() as int) =~= es.subrange(i, es.len() as int));
    } else {
        assert(es.subrange(0, es.len() as int) =~= es);
    }
}

impl Registry {
    /// An empty registry, which resolves nothing.
    pub fn new() -> (r: Registry)
        ensures
            r@.enums.len() == 0,
            r@.structs.len() == 0,
    {
        Registry { enums: Vec::new(), structs: Vec::new() }
    }

    /// Registers an enum definition under its name.
    pub fn add_enum(&mut self, name: String, variants: Vec<EnumVariant>)
        ensures
            final(self)@.enums == old(self)@.enums.push((name@, variants_view(variants@))),
            final(self)@.structs == old(self)@.structs,
    {
        self.enums.push((name, variants));
        proof {
            assert(final(self)@.enums =~= old(self)@.enums.push(
                (final(self).enums@.last().0@, variants_view(final(self).enums@.last().1@)),
            ));
            assert(final(self)@.structs =~= old(self)@.structs);
        }
    }

    /// Registers a struct definition under its name.
    pub fn add_struct(&mut self, name: String, fields: Vec<Field>)
        ensures
            final(self)@.structs == old(self)@.structs.push((name@, fields_view(fields@))),
            final(self)@.enums == old(self)@.enums,
    {
        self.structs.push((name, fields));
        proof {
            assert(final(self)@.structs =~= old(self)@.structs.push(
                (final(self).structs@.last().0@, fields_view(final(self).structs@.last().1@)),
            ));
            assert(final(self)@.enums =~= old(self)@.enums);
        }
    }

    /// Builds a registry from a schema document: every enum definition in
    /// order, and every named struct or table definition occurring inside
    /// the endpoints' types.
    pub fn from_services(services: &Services) -> (r: Registry)
        ensures
            r@.enums.len() == services.enums@.len(),
            forall|j: int|
                0 <= j < services.enums@.len() ==> #[trigger] r@.enums[j] == (
                    services.enums@[j].spec_def().name@,
                    variants_view(services.enums@[j].spec_def().variants@),
                ),
            r@.structs == services_struct_defs(services.services@, 0),
    {
        let mut r = Registry::new();
        let n = services.enums.len();
        let mut i: usize = 0;
        while i < n
            invariant
                n == services.enums@.len(),
                0 <= i <= n,
                r@.enums.len() == i,
                forall|j: int|
                    0 <= j < i ==> #[trigger] r@.enums[j] == (
                        services.enums@[j].spec_def().name@,
                        variants_view(services.enums@[j].spec_def().variants@),
                    ),
                r@.structs.len() == 0,
            decreases n - i,
        {
            let def = services.enums[i].def();
            r.add_enum(def.name.clone(), clone_variants(&def.variants));
            i += 1;
        }
        r.register_struct_defs(services);
        proof {
            assert(r@.structs =~= services_struct_defs(services.services@, 0));
        }
        r
    }

    /// Finds the enum definition registered first under `name`.
    pub fn find_enum(&self, name: &str) -> (r: Option<&Vec<EnumVariant>>)
        ensures
            match r {
                Some(vs) => lookup_enum(self@.enums, name@) == Some(variants_view(vs@)),
                None => lookup_enum(self@.enums, name@) is None,
            },
    {
        let n = self.enums.len();
        let mut i: usize = 0;
        while i < n
            invariant
                n == self.enums@.len(),
                0 <= i <= n,
                forall|j: int| 0 <= j < i ==> (#[trigger] self@.enums[j]).0 != name@,
            decreases n - i,
        {
            if str_eq(self.enums[i].0.as_str(), name) {
                proof {
                    lemma_lookup_enum_step(self@.enums, name@, i as int);
                    assert(self@.enums.subrange(i as int, self@.enums.len() as int)[0]
                        == self@.enums[i as int]);
                }
                return Some(&self.enums[i].1);
            }
            proof {
                assert(self@.enums[i as int].0 == self.enums@[i as int].0@);
            }
            i += 1;
        }
        proof {
            lemma_lookup_enum_step(self@.enums, name@, n as int);
            assert(self@.enums.subrange(n as int, self@.enums.len() as int).len() == 0);
        }
        None
    }

    /// Finds the struct definition registered first under `name`.
    pub fn find_struct(&self, name: &str) -> (r: Option<&Vec<Field>>)
        ensures
            match r {
                Some(fs) => lookup_struct(self@.structs, name@) == Some(fields_view(fs@)),
                None => lookup_struct(self@.structs, name@) is None,
            },
    {
        let n = self.structs.len();
        let mut i: usize = 0;
        while i < n
            invariant
                n == self.structs@.len(),
                0 <= i <= n,
                forall|j: int| 0 <= j < i ==> (#[trigger] self@.structs[j]).0 != name@,
            decreases n - i,
        {
            if str_eq(self.structs[i].0.as_str(), name) {
                proof {
                    lemma_lookup_struct_step(self@.structs, name@, i as int);
                    assert(self@.structs.subrange(i as int, self@.structs.len() as int)[0]
                        == self@.structs[i as int]);
                }
                return Some(&self.structs[i].1);
            }
            proof {
                assert(self@.structs[i as int].0 == self.structs@[i as int].0@);
            }
            i += 1;
        }
        proof {
            lemma_lookup_struct_step(self@.structs, name@, n as int);
            assert(self@.structs.subrange(n as int, self@.structs.len() as int).len() == 0);
        }
        None
    }
}

} // verus!

verus! {

// ---------------------------------------------------------------------------
// Deriving endpoint metadata from a schema document
// ---------------------------------------------------------------------------

/// The endpoint names of one service, in order.
pub open spec fn svc_names(svc: EndpointsType) -> Seq<String> {
    svc.endpoints@.map_values(|e: EndpointSchema| e.name)
}

/// The endpoint names of a list of services, service by service.
pub open spec fn flat_names(ss: Seq<EndpointsType>) -> Seq<String>
    decreases ss,
{
    if ss.len() == 0 {
        Seq::empty()
    } else {
        svc_names(ss[0]) + flat_names(ss.subrange(1, ss.len() as int))
    }
}

/// Every endpoint of one service, paired with its service.
pub open spec fn svc_pairs(svc: EndpointsType) -> Seq<(EndpointsType, EndpointSchema)> {
    svc.endpoints@.map_values(|e: EndpointSchema| (svc, e))
}

/// Every endpoint of a list of services, paired with its service, in order.
pub open spec fn flat_pairs(ss: Seq<EndpointsType>) -> Seq<(EndpointsType, EndpointSchema)>
    decreases ss,
{
    if ss.len() == 0 {
        Seq::empty()
    } else {
        svc_pairs(ss[0]) + flat_pairs(ss.subrange(1, ss.len() as int))
    }
}

/// A parameter list mirrors a field list: same length, same names, same
/// type shapes.
pub open spec fn params_match(ps: Seq<ParameterMetadata>, fs: Seq<Field>) -> bool {
    &&& ps.len() == fs.len()
    &&& forall|i: int|
        0 <= i < fs.len() ==> (#[trigger] ps[i]).name == fs[i].name && ps[i].ty@ == fs[i].ty@
}

/// The metadata of an endpoint records its service's name, its wire code,
/// its parameters, and whether its response streams.
pub open spec fn meta_matches(m: EndpointMetadata, svc: EndpointsType, e: EndpointSchema) -> bool {
    &&& m.service_name == svc.name
    &&& m.method_id == e.code
    &&& m.is_stream == (e.stream_response is Some)
    &&& params_match(m.params@, e.parameters@)
}

pub proof fn lemma_flat_names_concat(a: Seq<EndpointsType>, b: Seq<EndpointsType>)
    ensures
        flat_names(a + b) == flat_names(a) + flat_names(b),
    decreases a,
{
    if a.len() == 0 {
        assert(a + b =~= b);
        assert(flat_names(a) + flat_names(b) =~= flat_names(b));
    } else {
        assert((a + b)[0] == a[0]);
        assert((a + b).subrange(1, (a + b).len() as int) =~= a.subrange(1, a.len() as int) + b);
        lemma_flat_names_concat(a.subrange(1, a.len() as int), b);
        assert(flat_names(a + b) =~= flat_names(a) + flat_names(b));
    }
}

pub proof fn lemma_flat_pairs_concat(a: Seq<EndpointsType>, b: Seq<EndpointsType>)
    ensures
        flat_pairs(a + b) == flat_pairs(a) + flat_pairs(b),
    decreases a,
{
    if a.len() == 0 {
        assert(a + b =~= b);
        assert(flat_pairs(a) + flat_pairs(b) =~= flat_pairs(b));
    } else {
        assert((a + b)[0] == a[0]);
        assert((a + b).subrange(1, (a + b).len() as int) =~= a.subrange(1, a.len() as int) + b);
        lemma_flat_pairs_concat(a.subrange(1, a.len() as int), b);
        assert(flat_pairs(a + b) =~= flat_pairs(a) + flat_pairs(b));
    }
}

/// Builds parameter metadata mirroring a field list.
pub fn params_from_fields(fs: &Vec<Field>) -> (r: Vec<ParameterMetadata>)
    ensures
        params_match(r@, fs@),
{
    let mut r: Vec<ParameterMetadata> = Vec::new();
    let n = fs.len();
    let mut i: usize = 0;
    while i < n
        invariant
            n == fs@.len(),
            0 <= i <= n,
            r@.len() == i,
            forall|j: int|
                0 <= j < i ==> (#[trigger] r@[j]).name == fs@[j].name && r@[j].ty@ == fs@[j].ty@,
        decreases n - i,
    {
        let f = &fs[i];
        r.push(ParameterMetadata { name: f.name.clone(), ty: f.ty.clone() });
        i += 1;
    }
    r
}

impl Services {
    /// Walks every service and lists endpoint names in order, together with
    /// a table from endpoint name to its metadata.  A name that occurs twice
    /// has two entries; lookups take the later one, as the session does.
    pub fn extract_endpoints(&self) -> (r: (Vec<String>, Vec<(String, EndpointMetadata)>))
        ensures
            r.0@ == flat_names(self.services@),
            r.1@.len() == flat_pairs(self.services@).len(),
            forall|k: int|
                0 <= k < r.1@.len() ==> (#[trigger] r.1@[k]).0 == flat_pairs(self.services@)[k].1.name
                    && meta_matches(
                    r.1@[k].1,
                    flat_pairs(self.services@)[k].0,
                    flat_pairs(self.services@)[k].1,
                ),
    {
        let ghost ss = self.services@;
        let mut names: Vec<String> = Vec::new();
        let mut table: Vec<(String, EndpointMetadata)> = Vec::new();
        let ns = self.services.len();
        let mut si: usize = 0;
        proof {
            assert(ss.take(0) =~= Seq::<EndpointsType>::empty());
            assert(names@ =~= flat_names(ss.take(0)));
        }
        while si < ns
            invariant
                ns == ss.len(),
                ss == self.services@,
                0 <= si <= ns,
                names@ == flat_names(ss.take(si as int)),
                table@.len() == flat_pairs(ss.take(si as int)).len(),
                forall|k: int|
                    0 <= k < table@.len() ==> (#[trigger] table@[k]).0 == flat_pairs(
                        ss.take(si as int),
                    )[k].1.name && meta_matches(
                        table@[k].1,
                        flat_pairs(ss.take(si as int))[k].0,
                        flat_pairs(ss.take(si as int))[k].1,
                    ),
            decreases ns - si,
        {
            let svc = &self.services[si];
            let ghost base_names = names@;
            let ghost base_table = table@;
            let ne = svc.endpoints.len();
            let mut ej: usize = 0;
            while ej < ne
                invariant
                    ns == ss.len(),
                    ss == self.services@,
                    0 <= si < ns,
                    svc == &self.services[si as int],
                    ne == svc.endpoints@.len(),
                    0 <= ej <= ne,
                    names@ == base_names + svc.endpoints@.take(ej as int).map_values(
                        |e: EndpointSchema| e.name,
                    ),
                    table@.len() == base_table.len() + ej,
                    table@.subrange(0, base_table.len() as int) == base_table,
                    forall|j: int|
                        0 <= j < ej ==> (#[trigger] table@[base_table.len() + j]).0
                            == svc.endpoints@[j].name && meta_matches(
                            table@[base_table.len() + j].1,
                            self.services@[si as int],
                            svc.endpoints@[j],
                        ),
                decreases ne - ej,
            {
                let e = &svc.endpoints[ej];
                names.push(e.name.clone());
                let meta = EndpointMetadata {
                    service_name: svc.name.clone(),
                    method_id: e.code,
                    params: params_from_fields(&e.parameters),
                    is_stream: e.stream_response.is_some(),
                };
                table.push((e.name.clone(), meta));
                proof {
                    assert(svc.endpoints@.take(ej + 1) =~= svc.endpoints@.take(ej as int).push(
                        svc.endpoints@[ej as int],
                    ));
                    assert(names@ =~= base_names + svc.endpoints@.take(ej + 1).map_values(
                        |e: EndpointSchema| e.name,
                    ));
                    assert(table@.subrange(0, base_table.len() as int) =~= base_table);
                }
                ej += 1;
            }
            proof {
                let here = seq![ss[si as int]];
                assert(ss.take(si + 1) =~= ss.take(si as int) + here);
                lemma_flat_names_concat(ss.take(si as int), here);
                lemma_flat_pairs_concat(ss.take(si as int), here);
                let emp = here.subrange(1, 1);
                assert(emp.len() == 0);
                assert(flat_names(emp) == Seq::<String>::empty());
                assert(flat_pairs(emp) == Seq::<(EndpointsType, EndpointSchema)>::empty());
                assert(here[0] == ss[si as int]);
                assert(flat_names(here) == svc_names(here[0]) + flat_names(emp));
                assert(flat_pairs(here) == svc_pairs(here[0]) + flat_pairs(emp));
                assert(flat_names(here) =~= svc_names(ss[si as int]));
                assert(flat_pairs(here) =~= svc_pairs(ss[si as int]));
                assert(svc.endpoints@.take(ne as int) =~= svc.endpoints@);
                assert(names@ =~= flat_names(ss.take(si + 1)));
                assert(table@.len() == flat_pairs(ss.take(si + 1)).len());
                assert forall|k: int|
                    0 <= k < table@.len() implies (#[trigger] table@[k]).0 == flat_pairs(
                    ss.take(si + 1),
                )[k].1.name && meta_matches(
                    table@[k].1,
                    flat_pairs(ss.take(si + 1))[k].0,
                    flat_pairs(ss.take(si + 1))[k].1,
                ) by {
                    let fp0 = flat_pairs(ss.take(si as int));
                    let sp = svc_pairs(ss[si as int]);
                    assert(flat_pairs(ss.take(si + 1)) == fp0 + sp);
                    assert(sp.len() == ss[si as int].endpoints@.len());
                    if k < base_table.len() {
                        assert(flat_pairs(ss.take(si + 1))[k] == fp0[k]);
                        assert(table@.subrange(0, base_table.len() as int)[k] == table@[k]);
                        assert(table@[k] == base_table[k]);
                        assert(base_table[k].0 == fp0[k].1.name);
                        assert(meta_matches(base_table[k].1, fp0[k].0, fp0[k].1));
                    } else {
                        let j = k - base_table.len();
                        assert(0 <= j < ne);
                        assert(flat_pairs(ss.take(si + 1))[k] == sp[j]);
                        assert(sp[j] == (ss[si as int], ss[si as int].endpoints@[j]));
                        assert(svc.endpoints@ == ss[si as int].endpoints@);
                        assert(table@[base_table.len() + j].0 == svc.endpoints@[j].name);
                        assert(meta_matches(
                            table@[base_table.len() + j].1,
                            self.services@[si as int],
                            svc.endpoints@[j],
                        ));
                    }
                }
            }
            si += 1;
        }
        proof {
            assert(ss.take(ns as int) =~= ss);
        }
        (names, table)
    }
}

// ---------------------------------------------------------------------------
// Lookup in the endpoint table
// ---------------------------------------------------------------------------

/// The metadata stored under `name`: the last entry wins, as repeated
/// insertion into a map would leave it.
pub open spec fn table_lookup(t: Seq<(String, EndpointMetadata)>, name: Seq<char>) -> Option<
    EndpointMetadata,
>
    decreases t.len(),
{
    if t.len() == 0 {
        None
    } else if t.last().0@ == name {
        Some(t.last().1)
    } else {
        table_lookup(t.drop_last(), name)
    }
}

/// Finds the metadata stored under `name`, the last entry winning.
pub fn find_endpoint<'a>(t: &'a Vec<(String, EndpointMetadata)>, name: &str) -> (r: Option<
    &'a EndpointMetadata,
>)
    ensures
        match r {
            Some(m) => table_lookup(t@, name@) == Some(*m),
            None => table_lookup(t@, name@) is None,
        },
{
    let n = t.len();
    proof {
        assert(t@.take(n as int) =~= t@);
    }
    let mut i: usize = n;
    while i > 0
        invariant
            n == t@.len(),
            0 <= i <= n,
            table_lookup(t@, name@) == table_lookup(t@.take(i as int), name@),
        decreases i,
    {
        proof {
            assert(t@.take(i as int).last() == t@[i - 1]);
            assert(t@.take(i as int).drop_last() =~= t@.take(i - 1));
        }
        if str_eq(t[i - 1].0.as_str(), name) {
            return Some(&t[i - 1].1);
        }
        i -= 1;
    }
    proof {
        assert(t@.take(0).len() == 0);
    }
    None
}

} // verus!

verus! {

use crate::types::{TyV, clone_fields, lemma_fields_view_len};

// ---------------------------------------------------------------------------
// Collecting named struct definitions from the document
// ---------------------------------------------------------------------------

/// The named struct and table definitions occurring inside one type: the
/// definition itself first, those nested in its fields after it.
pub open spec fn ty_struct_defs(t: TyV) -> Seq<(Seq<char>, Seq<FieldV>)>
    decreases t, 0int, 0int,
{
    match t {
        TyV::Struct { name, fields } => seq![(name, fields)] + fields_struct_defs(fields, 0),
        TyV::DataTable { name, fields } => seq![(name, fields)] + fields_struct_defs(fields, 0),
        TyV::Vec(inner) => ty_struct_defs(*inner),
        TyV::Optional(inner) => ty_struct_defs(*inner),
        _ => Seq::empty(),
    }
}

/// The definitions occurring inside a field list, from position `k` on.
pub open spec fn fields_struct_defs(fs: Seq<FieldV>, k: int) -> Seq<(Seq<char>, Seq<FieldV>)>
    decreases fs, 1int, fs.len() - k,
{
    if k < 0 || k >= fs.len() {
        Seq::empty()
    } else {
        ty_struct_defs(fs[k].ty) + fields_struct_defs(fs, k + 1)
    }
}

/// The definitions one endpoint contributes: from its parameters, its
/// returns, then its streamed-return type.
pub open spec fn endpoint_struct_defs(e: EndpointSchema) -> Seq<(Seq<char>, Seq<FieldV>)> {
    fields_struct_defs(fields_view(e.parameters@), 0) + fields_struct_defs(
        fields_view(e.returns@),
        0,
    ) + (match e.stream_response {
        Some(t) => ty_struct_defs(t@),
        None => Seq::empty(),
    })
}

/// The definitions of a list of endpoints, from position `i` on.
pub open spec fn endpoints_struct_defs(eps: Seq<EndpointSchema>, i: int) -> Seq<
    (Seq<char>, Seq<FieldV>),
>
    decreases eps.len() - i,
{
    if i < 0 || i >= eps.len() {
        Seq::empty()
    } else {
        endpoint_struct_defs(eps[i]) + endpoints_struct_defs(eps, i + 1)
    }
}

/// The definitions of a list of services, from position `i` on.
pub open spec fn services_struct_defs(ss: Seq<EndpointsType>, i: int) -> Seq<
    (Seq<char>, Seq<FieldV>),
>
    decreases ss.len() - i,
{
    if i < 0 || i >= ss.len() {
        Seq::empty()
    } else {
        endpoints_struct_defs(ss[i].endpoints@, 0) + services_struct_defs(ss, i + 1)
    }
}

/// Registers every named definition occurring inside `t`.
fn add_ty_defs(reg: &mut Registry, t: &Type)
    ensures
        final(reg)@.structs == old(reg)@.structs + ty_struct_defs(t@),
        final(reg)@.enums == old(reg)@.enums,
    decreases t, 1int, 0int,
{
    match t {
        Type::Struct { name, fields } => {
            reg.add_struct(name.clone(), clone_fields(fields));
            proof {
                assert(decreases_to!(t => t->Struct_fields));
            }
            add_fields_defs(reg, t, fields, 0);
            proof {
                assert(final(reg)@.structs =~= old(reg)@.structs + ty_struct_defs(t@));
            }
        },
        Type::DataTable { name, fields } => {
            reg.add_struct(name.clone(), clone_fields(fields));
            proof {
                assert(decreases_to!(t => t->DataTable_fields));
            }
            add_fields_defs(reg, t, fields, 0);
            proof {
                assert(final(reg)@.structs =~= old(reg)@.structs + ty_struct_defs(t@));
            }
        },
        Type::Vec(inner) => {
            proof {
                assert(decreases_to!(t => t->Vec_0));
            }
            add_ty_defs(reg, inner);
        },
        Type::Optional(inner) => {
            proof {
                assert(decreases_to!(t => t->Optional_0));
            }
            add_ty_defs(reg, inner);
        },
        _ => {
            proof {
                assert(final(reg)@.structs =~= old(reg)@.structs + ty_struct_defs(t@));
            }
        },
    }
}

/// Registers the definitions inside the fields of `owner`, from position
/// `k` on.
fn add_fields_defs(reg: &mut Registry, owner: &Type, fields: &Vec<Field>, k: usize)
    requires
        decreases_to!(owner => fields),
    ensures
        final(reg)@.structs == old(reg)@.structs + fields_struct_defs(
            fields_view(fields@),
            k as int,
        ),
        final(reg)@.enums == old(reg)@.enums,
    decreases owner, 0int, fields@.len() - k,
{
    proof {
        lemma_fields_view_len(fields@);
    }
    if k >= fields.len() {
        proof {
            assert(final(reg)@.structs =~= old(reg)@.structs + fields_struct_defs(
                fields_view(fields@),
                k as int,
            ));
        }
        return ;
    }
    proof {
        assert(decreases_to!(fields => fields@));
        assert(decreases_to!(fields@ => fields@[k as int]));
        assert(decreases_to!(fields@[k as int] => fields@[k as int].ty));
        assert(decreases_to!(owner => fields@[k as int].ty));
        assert(fields_view(fields@)[k as int] == fields@[k as int]@);
    }
    add_ty_defs(reg, &fields[k].ty);
    add_fields_defs(reg, owner, fields, k + 1);
    proof {
        assert(final(reg)@.structs =~= old(reg)@.structs + fields_struct_defs(
            fields_view(fields@),
            k as int,
        ));
    }
}

/// Registers the definitions inside one standalone field list.
fn add_field_list_defs(reg: &mut Registry, fields: &Vec<Field>, k: usize)
    ensures
        final(reg)@.structs == old(reg)@.structs + fields_struct_defs(
            fields_view(fields@),
            k as int,
        ),
        final(reg)@.enums == old(reg)@.enums,
    decreases fields@.len() - k,
{
    proof {
        lemma_fields_view_len(fields@);
    }
    if k >= fields.len() {
        proof {
            assert(final(reg)@.structs =~= old(reg)@.structs + fields_struct_defs(
                fields_view(fields@),
                k as int,
            ));
        }
        return ;
    }
    proof {
        assert(fields_view(fields@)[k as int] == fields@[k as int]@);
    }
    add_ty_defs(reg, &fields[k].ty);
    add_field_list_defs(reg, fields, k + 1);
    proof {
        assert(final(reg)@.structs =~= old(reg)@.structs + fields_struct_defs(
            fields_view(fields@),
            k as int,
        ));
    }
}

/// Registers the definitions one endpoint contributes.
fn add_endpoint_defs(reg: &mut Registry, e: &EndpointSchema)
    ensures
        final(reg)@.structs == old(reg)@.structs + endpoint_struct_defs(*e),
        final(reg)@.enums == old(reg)@.enums,
{
    add_field_list_defs(reg, &e.parameters, 0);
    add_field_list_defs(reg, &e.returns, 0);
    match &e.stream_response {
        Some(t) => add_ty_defs(reg, t),
        None => {},
    }
    proof {
        assert(final(reg)@.structs =~= old(reg)@.structs + endpoint_struct_defs(*e));
    }
}

/// Registers the definitions of a list of endpoints, from position `i` on.
fn add_endpoints_defs(reg: &mut Registry, eps: &Vec<EndpointSchema>, i: usize)
    ensures
        final(reg)@.structs == old(reg)@.structs + endpoints_struct_defs(eps@, i as int),
        final(reg)@.enums == old(reg)@.enums,
    decreases eps@.len() - i,
{
    if i >= eps.len() {
        proof {
            assert(final(reg)@.structs =~= old(reg)@.structs + endpoints_struct_defs(
                eps@,
                i as int,
            ));
        }
        return ;
    }
    add_endpoint_defs(reg, &eps[i]);
    add_endpoints_defs(reg, eps, i + 1);
    proof {
        assert(final(reg)@.structs =~= old(reg)@.structs + endpoints_struct_defs(eps@, i as int));
    }
}

impl Registry {
    /// Registers every named struct and table definition occurring inside
    /// the document's endpoint types, in document order.
    pub fn register_struct_defs(&mut self, services: &Services)
        ensures
            final(self)@.structs == old(self)@.structs + services_struct_defs(
                services.services@,
                0,
            ),
            final(self)@.enums == old(self)@.enums,
    {
        add_services_defs(self, &services.services, 0);
    }
}

/// Registers the definitions of a list of services, from position `i` on.
fn add_services_defs(reg: &mut Registry, ss: &Vec<EndpointsType>, i: usize)
    ensures
        final(reg)@.structs == old(reg)@.structs + services_struct_defs(ss@, i as int),
        final(reg)@.enums == old(reg)@.enums,
    decreases ss@.len() - i,
{
    if i >= ss.len() {
        proof {
            assert(final(reg)@.structs =~= old(reg)@.structs + services_struct_defs(
                ss@,
                i as int,
            ));
        }
        return ;
    }
    add_endpoints_defs(reg, &ss[i].endpoints, 0);
    add_services_defs(reg, ss, i + 1);
    proof {
        assert(final(reg)@.structs =~= old(reg)@.structs + services_struct_defs(ss@, i as int));
    }
}

} // verus!
