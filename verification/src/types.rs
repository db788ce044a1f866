use vstd::prelude::*;

verus! {

/// A named, typed slot: a struct member, a table column, or a call
/// parameter.
pub struct Field {
    pub name: String,
    pub ty: Type,
}

/// One variant of a named enumeration.
pub struct EnumVariant {
    pub name: String,
    pub value: i64,
    pub comment: String,
}

/// A schema type: the recursive description of what a parameter or return
/// slot holds.  References (`StructRef`, `EnumRef`) name an entity that a
/// registry must resolve.
pub enum Type {
    TimeStampMs,
    Date,
    Int,
    BigInt,
    Numeric,
    Boolean,
    String,
    Bytea,
    UUID,
    Inet,
    Struct { name: String, fields: Vec<Field> },
    StructRef(String),
    Object,
    DataTable { name: String, fields: Vec<Field> },
    Vec(Box<Type>),
    Unit,
    Optional(Box<Type>),
    Enum { name: String, variants: Vec<EnumVariant> },
    EnumRef(String),
    BlockchainDecimal,
    BlockchainAddress,
    BlockchainTransactionHash,
}

/// The mathematical shape of a `Field`.
pub struct FieldV {
    pub name: Seq<char>,
    pub ty: TyV,
}

/// The mathematical shape of an `EnumVariant`.
pub struct EnumVariantV {
    pub name: Seq<char>,
    pub value: i64,
    pub comment: Seq<char>,
}

/// The mathematical shape of a `Type`.
pub enum TyV {
    TimeStampMs,
    Date,
    Int,
    BigInt,
    Numeric,
    Boolean,
    String,
    Bytea,
    UUID,
    Inet,
    Struct { name: Seq<char>, fields: Seq<FieldV> },
    StructRef(Seq<char>),
    Object,
    DataTable { name: Seq<char>, fields: Seq<FieldV> },
    Vec(Box<TyV>),
    Unit,
    Optional(Box<TyV>),
    Enum { name: Seq<char>, variants: Seq<EnumVariantV> },
    EnumRef(Seq<char>),
    BlockchainDecimal,
    BlockchainAddress,
    BlockchainTransactionHash,
}

impl View for EnumVariant {
    type V = EnumVariantV;

    open spec fn view(&self) -> EnumVariantV {
        EnumVariantV { name: self.name@, value: self.value, comment: self.comment@ }
    }
}

impl View for Field {
    type V = FieldV;

    open spec fn view(&self) -> FieldV
        decreases self,
    {
        FieldV { name: self.name@, ty: self.ty@ }
    }
}

impl View for Type {
    type V = TyV;

    open spec fn view(&self) -> TyV
        decreases self,
    {
        match self {
            Type::TimeStampMs => TyV::TimeStampMs,
            Type::Date => TyV::Date,
            Type::Int => TyV::Int,
            Type::BigInt => TyV::BigInt,
            Type::Numeric => TyV::Numeric,
            Type::Boolean => TyV::Boolean,
            Type::String => TyV::String,
            Type::Bytea => TyV::Bytea,
            Type::UUID => TyV::UUID,
            Type::Inet => TyV::Inet,
            Type::Object => TyV::Object,
            Type::Unit => TyV::Unit,
            Type::BlockchainDecimal => TyV::BlockchainDecimal,
            Type::BlockchainAddress => TyV::BlockchainAddress,
            Type::BlockchainTransactionHash => TyV::BlockchainTransactionHash,
            Type::StructRef(name) => TyV::StructRef(name@),
            Type::EnumRef(name) => TyV::EnumRef(name@),
            Type::Vec(inner) => TyV::Vec(Box::new((**inner)@)),
            Type::Optional(inner) => TyV::Optional(Box::new((**inner)@)),
            Type::Enum { name, variants } => TyV::Enum {
                name: name@,
                variants: variants_view(variants@),
            },
            Type::Struct { name, fields } => TyV::Struct {
                name: name@,
                fields: fields_view(fields@),
            },
            Type::DataTable { name, fields } => TyV::DataTable {
                name: name@,
                fields: fields_view(fields@),
            },
        }
    }
}

/// The views of a sequence of fields, element by element.
pub open spec fn fields_view(fs: Seq<Field>) -> Seq<FieldV>
    decreases fs,
{
    if fs.len() == 0 {
        Seq::empty()
    } else {
        seq![fs[0]@] + fields_view(fs.subrange(1, fs.len() as int))
    }
}

/// The views of a sequence of enum variants, element by element.
pub open spec fn variants_view(vs: Seq<EnumVariant>) -> Seq<EnumVariantV>
    decreases vs,
{
    if vs.len() == 0 {
        Seq::empty()
    } else {
        seq![vs[0]@] + variants_view(vs.subrange(1, vs.len() as int))
    }
}

pub proof fn lemma_fields_view_len(fs: Seq<Field>)
    ensures
        fields_view(fs).len() == fs.len(),
        forall|j: int| 0 <= j < fs.len() ==> #[trigger] fields_view(fs)[j] == fs[j]@,
    decreases fs,
{
    if fs.len() > 0 {
        let sub = fs.subrange(1, fs.len() as int);
        lemma_fields_view_len(sub);
        assert(fields_view(fs) == seq![fs[0]@] + fields_view(sub));
        assert forall|j: int| 0 <= j < fs.len() implies #[trigger] fields_view(fs)[j] == fs[j]@ by {
            if j > 0 {
                assert(sub[j - 1] == fs[j]);
                assert(fields_view(fs)[j] == fields_view(sub)[j - 1]);
            }
        }
    }
}

pub proof fn lemma_variants_view_len(vs: Seq<EnumVariant>)
    ensures
        variants_view(vs).len() == vs.len(),
        forall|j: int| 0 <= j < vs.len() ==> #[trigger] variants_view(vs)[j] == vs[j]@,
    decreases vs,
{
    if vs.len() > 0 {
        let sub = vs.subrange(1, vs.len() as int);
        lemma_variants_view_len(sub);
        assert(variants_view(vs) == seq![vs[0]@] + variants_view(sub));
        assert forall|j: int| 0 <= j < vs.len() implies #[trigger] variants_view(vs)[j] == vs[j]@ by {
            if j > 0 {
                assert(sub[j - 1] == vs[j]);
                assert(variants_view(vs)[j] == variants_view(sub)[j - 1]);
            }
        }
    }
}

impl Field {
    pub fn new(name: String, ty: Type) -> (r: Field)
        ensures
            r.name == name,
            r.ty == ty,
    {
        Field { name, ty }
    }
}

impl EnumVariant {
    pub fn new(name: String, value: i64) -> (r: EnumVariant)
        ensures
            r.name == name,
            r.value == value,
            r.comment@ == Seq::<char>::empty(),
    {
        EnumVariant { name, value, comment: String::new() }
    }

    pub fn new_with_comment(name: String, value: i64, comment: String) -> (r: EnumVariant)
        ensures
            r.name == name,
            r.value == value,
            r.comment == comment,
    {
        EnumVariant { name, value, comment }
    }
}

impl Type {
    pub fn struct_(name: String, fields: Vec<Field>) -> (r: Type)
        ensures
            r == (Type::Struct { name, fields }),
    {
        Type::Struct { name, fields }
    }

    pub fn struct_ref(name: String) -> (r: Type)
        ensures
            r == Type::StructRef(name),
    {
        Type::StructRef(name)
    }

    pub fn datatable(name: String, fields: Vec<Field>) -> (r: Type)
        ensures
            r == (Type::DataTable { name, fields }),
    {
        Type::DataTable { name, fields }
    }

    pub fn vec(ty: Type) -> (r: Type)
        ensures
            r@ == TyV::Vec(Box::new(ty@)),
    {
        Type::Vec(Box::new(ty))
    }

    pub fn optional(ty: Type) -> (r: Type)
        ensures
            r@ == TyV::Optional(Box::new(ty@)),
    {
        Type::Optional(Box::new(ty))
    }

    pub fn enum_ref(name: String) -> (r: Type)
        ensures
            r == Type::EnumRef(name),
    {
        Type::EnumRef(name)
    }

    pub fn enum_(name: String, fields: Vec<EnumVariant>) -> (r: Type)
        ensures
            r == (Type::Enum { name, variants: fields }),
    {
        Type::Enum { name, variants: fields }
    }
}

impl Clone for EnumVariant {
    fn clone(&self) -> (r: EnumVariant)
        ensures
            r == *self,
    {
        EnumVariant { name: self.name.clone(), value: self.value, comment: self.comment.clone() }
    }
}

/// Copies a list of enum variants.
pub fn clone_variants(vs: &Vec<EnumVariant>) -> (r: Vec<EnumVariant>)
    ensures
        r@ == vs@,
{
    let mut r: Vec<EnumVariant> = Vec::new();
    let n = vs.len();
    let mut i: usize = 0;
    while i < n
        invariant
            n == vs@.len(),
            0 <= i <= n,
            r@ == vs@.take(i as int),
        decreases n - i,
    {
        r.push(vs[i].clone());
        proof {
            assert(r@ =~= vs@.take(i + 1));
        }
        i += 1;
    }
    proof {
        assert(vs@.take(n as int) =~= vs@);
    }
    r
}

/// Copies a schema type; the copy has the same mathematical shape.
pub fn clone_type(t: &Type) -> (r: Type)
    ensures
        r@ == t@,
    decreases t, 1int,
{
    match t {
        Type::TimeStampMs => Type::TimeStampMs,
        Type::Date => Type::Date,
        Type::Int => Type::Int,
        Type::BigInt => Type::BigInt,
        Type::Numeric => Type::Numeric,
        Type::Boolean => Type::Boolean,
        Type::String => Type::String,
        Type::Bytea => Type::Bytea,
        Type::UUID => Type::UUID,
        Type::Inet => Type::Inet,
        Type::Object => Type::Object,
        Type::Unit => Type::Unit,
        Type::BlockchainDecimal => Type::BlockchainDecimal,
        Type::BlockchainAddress => Type::BlockchainAddress,
        Type::BlockchainTransactionHash => Type::BlockchainTransactionHash,
        Type::StructRef(name) => Type::StructRef(name.clone()),
        Type::EnumRef(name) => Type::EnumRef(name.clone()),
        Type::Vec(inner) => {
            proof {
                assert(decreases_to!(t => t->Vec_0));
            }
            Type::Vec(Box::new(clone_type(inner)))
        },
        Type::Optional(inner) => {
            proof {
                assert(decreases_to!(t => t->Optional_0));
            }
            Type::Optional(Box::new(clone_type(inner)))
        },
        Type::Enum { name, variants } => {
            let r = Type::Enum { name: name.clone(), variants: clone_variants(variants) };
            proof {
                assert(r@ =~= t@);
            }
            r
        },
        Type::Struct { name, fields } => {
            let r = Type::Struct { name: name.clone(), fields: clone_fields_of(t, fields) };
            proof {
                assert(r@ =~= t@);
            }
            r
        },
        Type::DataTable { name, fields } => {
            let r = Type::DataTable { name: name.clone(), fields: clone_fields_of(t, fields) };
            proof {
                assert(r@ =~= t@);
            }
            r
        },
    }
}

/// Copies the field list of a struct or table type; `owner` is the type the
/// list belongs to, which bounds the recursion.
fn clone_fields_of(owner: &Type, fields: &Vec<Field>) -> (r: Vec<Field>)
    requires
        decreases_to!(owner => fields),
    ensures
        fields_view(r@) == fields_view(fields@),
    decreases owner, 0int,
{
    let mut r: Vec<Field> = Vec::new();
    let n = fields.len();
    let mut i: usize = 0;
    while i < n
        invariant
            n == fields@.len(),
            0 <= i <= n,
            r@.len() == i,
            forall|j: int| 0 <= j < i ==> #[trigger] r@[j]@ == fields@[j]@,
            decreases_to!(owner => fields),
        decreases n - i,
    {
        proof {
            assert(decreases_to!(fields => fields@));
            assert(decreases_to!(fields@ => fields@[i as int]));
            assert(decreases_to!(fields@[i as int] => fields@[i as int].ty));
            assert(decreases_to!(owner => fields@[i as int].ty));
        }
        let f = &fields[i];
        let copied = Field { name: f.name.clone(), ty: clone_type(&f.ty) };
        r.push(copied);
        i += 1;
    }
    proof {
        lemma_fields_view_len(r@);
        lemma_fields_view_len(fields@);
        assert(fields_view(r@) =~= fields_view(fields@));
    }
    r
}

impl Clone for Type {
    fn clone(&self) -> (r: Type)
        ensures
            r@ == self@,
    {
        clone_type(self)
    }
}

impl Clone for Field {
    fn clone(&self) -> (r: Field)
        ensures
            r@ == self@,
    {
        Field { name: self.name.clone(), ty: self.ty.clone() }
    }
}

} // verus!

verus! {

/// Copies a field list; the copy has the same mathematical shape.
pub fn clone_fields(fs: &Vec<Field>) -> (r: Vec<Field>)
    ensures
        fields_view(r@) == fields_view(fs@),
{
    let mut r: Vec<Field> = Vec::new();
    let n = fs.len();
    let mut i: usize = 0;
    while i < n
        invariant
            n == fs@.len(),
            0 <= i <= n,
            r@.len() == i,
            forall|j: int| 0 <= j < i ==> #[trigger] r@[j]@ == fs@[j]@,
        decreases n - i,
    {
        r.push(fs[i].clone());
        i += 1;
    }
    proof {
        lemma_fields_view_len(r@);
        lemma_fields_view_len(fs@);
        assert(fields_view(r@) =~= fields_view(fs@));
    }
    r
}

} // verus!
