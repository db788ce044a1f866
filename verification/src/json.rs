use vstd::prelude::*;

verus! {

/// A JSON document as this library models it.
///
/// Numbers are either 64-bit integers or decimal text that has already been
/// checked against the numeric grammar; keeping the text avoids committing to
/// any binary floating-point reading of it.  `Raw` carries a fragment that is
/// already known to be valid JSON and is emitted verbatim.  Object members
/// keep their insertion order.
pub enum JsonValue {
    Null,
    Bool(bool),
    Int(i64),
    NumText(String),
    Str(String),
    Raw(String),
    Array(Vec<JsonValue>),
    Object(Vec<JsonMember>),
}

/// One member of a JSON object: a key and the value stored under it.
pub struct JsonMember {
    pub key: String,
    pub value: JsonValue,
}

/// The mathematical shape of a `JsonValue`: strings become sequences of
/// characters, vectors become sequences.
pub enum JsonV {
    Null,
    Bool(bool),
    Int(i64),
    NumText(Seq<char>),
    Str(Seq<char>),
    Raw(Seq<char>),
    Array(Seq<JsonV>),
    Object(Seq<(Seq<char>, JsonV)>),
}

impl View for JsonValue {
    type V = JsonV;

    open spec fn view(&self) -> JsonV
        decreases self,
    {
        match self {
            JsonValue::Null => JsonV::Null,
            JsonValue::Bool(b) => JsonV::Bool(*b),
            JsonValue::Int(n) => JsonV::Int(*n),
            JsonValue::NumText(s) => JsonV::NumText(s@),
            JsonValue::Str(s) => JsonV::Str(s@),
            JsonValue::Raw(s) => JsonV::Raw(s@),
            JsonValue::Array(xs) => JsonV::Array(views_of(xs@)),
            JsonValue::Object(ps) => JsonV::Object(member_views_of(ps@)),
        }
    }
}

/// The views of a sequence of JSON values, element by element.
pub open spec fn views_of(xs: Seq<JsonValue>) -> Seq<JsonV>
    decreases xs,
{
    if xs.len() == 0 {
        Seq::empty()
    } else {
        seq![xs[0]@] + views_of(xs.subrange(1, xs.len() as int))
    }
}

/// The views of a sequence of object members, element by element.
pub open spec fn member_views_of(ps: Seq<JsonMember>) -> Seq<(Seq<char>, JsonV)>
    decreases ps,
{
    if ps.len() == 0 {
        Seq::empty()
    } else {
        seq![(ps[0].key@, ps[0].value@)] + member_views_of(ps.subrange(1, ps.len() as int))
    }
}

} // verus!

verus! {

use crate::text::{true_text, false_text, int_text, escape_str, escape_string, i64_to_string};

// ---------------------------------------------------------------------------
// Compact rendering
// ---------------------------------------------------------------------------

/// The compact text of a JSON value: no whitespace, object members in their
/// stored order, strings escaped, numbers and raw fragments verbatim.
pub open spec fn json_text(v: JsonV) -> Seq<char>
    decreases v,
{
    match v {
        JsonV::Null => seq!['n', 'u', 'l', 'l'],
        JsonV::Bool(b) => if b {
            true_text()
        } else {
            false_text()
        },
        JsonV::Int(n) => int_text(n as int),
        JsonV::NumText(s) => s,
        JsonV::Str(s) => seq!['"'] + escape_str(s) + seq!['"'],
        JsonV::Raw(s) => s,
        JsonV::Array(xs) => seq!['['] + arr_body(xs) + seq![']'],
        JsonV::Object(ps) => seq!['{'] + obj_body(ps) + seq!['}'],
    }
}

/// The comma-separated compact texts of array elements.
pub open spec fn arr_body(xs: Seq<JsonV>) -> Seq<char>
    decreases xs,
{
    if xs.len() == 0 {
        Seq::empty()
    } else if xs.len() == 1 {
        json_text(xs[0])
    } else {
        json_text(xs[0]) + seq![','] + arr_body(xs.drop_first())
    }
}

/// The comma-separated compact texts of object members.
pub open spec fn obj_body(ps: Seq<(Seq<char>, JsonV)>) -> Seq<char>
    decreases ps,
{
    if ps.len() == 0 {
        Seq::empty()
    } else if ps.len() == 1 {
        member_text(ps[0])
    } else {
        member_text(ps[0]) + seq![','] + obj_body(ps.drop_first())
    }
}

/// The compact text of one object member.
pub open spec fn member_text(p: (Seq<char>, JsonV)) -> Seq<char>
    decreases p,
{
    seq!['"'] + escape_str(p.0) + seq!['"', ':'] + json_text(p.1)
}

pub proof fn lemma_arr_body_snoc(xs: Seq<JsonV>, x: JsonV)
    ensures
        arr_body(xs.push(x)) == if xs.len() == 0 {
            json_text(x)
        } else {
            arr_body(xs) + seq![','] + json_text(x)
        },
    decreases xs,
{
    if xs.len() == 0 {
        assert(xs.push(x)[0] == x);
        assert(arr_body(xs.push(x)) == json_text(x));
    } else if xs.len() == 1 {
        assert(xs.push(x)[0] == xs[0]);
        assert(xs.push(x).drop_first() =~= seq![x]);
        assert(arr_body(seq![x]) == json_text(x));
        assert(arr_body(xs) == json_text(xs[0]));
        assert(arr_body(xs.push(x)) == json_text(xs[0]) + seq![','] + json_text(x));
    } else {
        assert(xs.push(x)[0] == xs[0]);
        assert(xs.push(x).drop_first() =~= xs.drop_first().push(x));
        lemma_arr_body_snoc(xs.drop_first(), x);
        assert(arr_body(xs.push(x)) =~= arr_body(xs) + seq![','] + json_text(x));
    }
}

pub proof fn lemma_obj_body_snoc(ps: Seq<(Seq<char>, JsonV)>, p: (Seq<char>, JsonV))
    ensures
        obj_body(ps.push(p)) == if ps.len() == 0 {
            member_text(p)
        } else {
            obj_body(ps) + seq![','] + member_text(p)
        },
    decreases ps,
{
    if ps.len() == 0 {
        assert(ps.push(p)[0] == p);
        assert(obj_body(ps.push(p)) == member_text(p));
    } else if ps.len() == 1 {
        assert(ps.push(p)[0] == ps[0]);
        assert(ps.push(p).drop_first() =~= seq![p]);
        assert(obj_body(seq![p]) == member_text(p));
        assert(obj_body(ps.push(p)) == member_text(ps[0]) + seq![','] + member_text(p));
    } else {
        assert(ps.push(p)[0] == ps[0]);
        assert(ps.push(p).drop_first() =~= ps.drop_first().push(p));
        lemma_obj_body_snoc(ps.drop_first(), p);
        assert(obj_body(ps.push(p)) =~= obj_body(ps) + seq![','] + member_text(p));
    }
}

impl JsonValue {
    /// Writes this value as compact JSON text.
    pub fn render_compact(&self) -> (r: String)
        ensures
            r@ == json_text(self@),
        decreases self,
    {
        match self {
            JsonValue::Null => {
                let r = String::from_str("null");
                proof {
                    reveal_strlit("null");
                    assert(r@ =~= json_text(self@));
                }
                r
            },
            JsonValue::Bool(b) => {
                let r = if *b {
                    String::from_str("true")
                } else {
                    String::from_str("false")
                };
                proof {
                    reveal_strlit("true");
                    reveal_strlit("false");
                    assert(r@ =~= json_text(self@));
                }
                r
            },
            JsonValue::Int(n) => i64_to_string(*n),
            JsonValue::NumText(s) => s.clone(),
            JsonValue::Str(s) => {
                let mut r = String::from_str("\"");
                let body = escape_string(s.as_str());
                r.append(body.as_str());
                r.append("\"");
                proof {
                    reveal_strlit("\"");
                    assert(r@ =~= json_text(self@));
                }
                r
            },
            JsonValue::Raw(s) => s.clone(),
            JsonValue::Array(xs) => {
                let ghost vxs = views_of(xs@);
                proof {
                    lemma_views_of_len(xs@);
                }
                let mut r = String::from_str("[");
                proof {
                    reveal_strlit("[");
                    assert(vxs.take(0) =~= Seq::<JsonV>::empty());
                    assert(r@ =~= seq!['['] + arr_body(vxs.take(0)));
                }
                let n = xs.len();
                let mut i: usize = 0;
                while i < n
                    invariant
                        n == xs@.len(),
                        0 <= i <= n,
                        vxs == views_of(xs@),
                        vxs.len() == n,
                        forall|j: int| 0 <= j < n ==> vxs[j] == #[trigger] xs@[j]@,
                        r@ == seq!['['] + arr_body(vxs.take(i as int)),
                        self == JsonValue::Array(*xs),
                    decreases n - i,
                {
                    proof {
                        assert(decreases_to!(self => self->Array_0));
                        assert(decreases_to!(self->Array_0 => self->Array_0@));
                        assert(decreases_to!(self->Array_0@ => self->Array_0@[i as int]));
                        assert(decreases_to!(self => xs@[i as int]));
                    }
                    let piece = xs[i].render_compact();
                    if i > 0 {
                        r.append(",");
                    }
                    r.append(piece.as_str());
                    proof {
                        reveal_strlit(",");
                        lemma_arr_body_snoc(vxs.take(i as int), vxs[i as int]);
                        assert(vxs.take(i + 1) =~= vxs.take(i as int).push(vxs[i as int]));
                        assert(r@ =~= seq!['['] + arr_body(vxs.take(i + 1)));
                    }
                    i += 1;
                }
                r.append("]");
                proof {
                    reveal_strlit("[");
                    reveal_strlit("]");
                    assert(vxs.take(n as int) =~= vxs);
                    assert(r@ =~= json_text(self@));
                }
                r
            },
            JsonValue::Object(ps) => {
                let ghost vps = member_views_of(ps@);
                proof {
                    lemma_member_views_of_len(ps@);
                }
                let mut r = String::from_str("{");
                proof {
                    reveal_strlit("{");
                    assert(vps.take(0) =~= Seq::<(Seq<char>, JsonV)>::empty());
                    assert(r@ =~= seq!['{'] + obj_body(vps.take(0)));
                }
                let n = ps.len();
                let mut i: usize = 0;
                while i < n
                    invariant
                        n == ps@.len(),
                        0 <= i <= n,
                        vps == member_views_of(ps@),
                        vps.len() == n,
                        forall|j: int|
                            0 <= j < n ==> vps[j] == (
                            #[trigger] ps@[j].key@,
                            ps@[j].value@,
                            ),
                        r@ == seq!['{'] + obj_body(vps.take(i as int)),
                        self == JsonValue::Object(*ps),
                    decreases n - i,
                {
                    proof {
                        assert(decreases_to!(self => self->Object_0));
                        assert(decreases_to!(self->Object_0 => self->Object_0@));
                        assert(decreases_to!(self->Object_0@ => self->Object_0@[i as int]));
                        assert(decreases_to!(self->Object_0@[i as int] => self->Object_0@[i as int].value));
                        assert(decreases_to!(self => ps@[i as int].value));
                    }
                    let piece = ps[i].value.render_compact();
                    let key = escape_string(ps[i].key.as_str());
                    if i > 0 {
                        r.append(",");
                    }
                    r.append("\"");
                    r.append(key.as_str());
                    r.append("\":");
                    proof {
                        reveal_strlit(",");
                        reveal_strlit("\"");
                        reveal_strlit("\":");
                    }
                    r.append(piece.as_str());
                    proof {
                        lemma_obj_body_snoc(vps.take(i as int), vps[i as int]);
                        assert(vps.take(i + 1) =~= vps.take(i as int).push(vps[i as int]));
                        assert(member_text(vps[i as int]) =~= seq!['"'] + escape_str(
                            ps@[i as int].key@,
                        ) + seq!['"', ':'] + json_text(ps@[i as int].value@));
                        assert(r@ =~= seq!['{'] + obj_body(vps.take(i + 1)));
                    }
                    i += 1;
                }
                r.append("}");
                proof {
                    reveal_strlit("{");
                    reveal_strlit("}");
                    assert(vps.take(n as int) =~= vps);
                    assert(r@ =~= json_text(self@));
                }
                r
            },
        }
    }
}

pub proof fn lemma_views_of_len(xs: Seq<JsonValue>)
    ensures
        views_of(xs).len() == xs.len(),
        forall|j: int|
            #![trigger views_of(xs)[j]]
            #![trigger xs[j]@]
            0 <= j < xs.len() ==> views_of(xs)[j] == xs[j]@,
    decreases xs,
{
    if xs.len() > 0 {
        let sub = xs.subrange(1, xs.len() as int);
        lemma_views_of_len(sub);
        assert(views_of(xs) == seq![xs[0]@] + views_of(sub));
        assert(views_of(xs).len() == xs.len());
        assert forall|j: int| 0 <= j < xs.len() implies views_of(xs)[j] == #[trigger] xs[j]@ by {
            if j == 0 {
                assert(views_of(xs)[0] == xs[0]@);
            } else {
                assert(sub[j - 1] == xs[j]);
                assert(views_of(xs)[j] == views_of(sub)[j - 1]);
            }
        }
    }
}

pub proof fn lemma_member_views_of_len(ps: Seq<JsonMember>)
    ensures
        member_views_of(ps).len() == ps.len(),
        forall|j: int|
            #![trigger member_views_of(ps)[j]]
            #![trigger ps[j].key@]
            0 <= j < ps.len() ==> member_views_of(ps)[j] == (ps[j].key@, ps[j].value@),
    decreases ps,
{
    if ps.len() > 0 {
        let sub = ps.subrange(1, ps.len() as int);
        lemma_member_views_of_len(sub);
        assert(member_views_of(ps) == seq![(ps[0].key@, ps[0].value@)] + member_views_of(sub));
        assert(member_views_of(ps).len() == ps.len());
        assert forall|j: int|
            0 <= j < ps.len() implies member_views_of(ps)[j] == (
            #[trigger] ps[j].key@,
            ps[j].value@,
        ) by {
            if j == 0 {
                assert(member_views_of(ps)[0] == (ps[0].key@, ps[0].value@));
            } else {
                assert(sub[j - 1] == ps[j]);
                assert(member_views_of(ps)[j] == member_views_of(sub)[j - 1]);
            }
        }
    }
}

} // verus!

verus! {

// ---------------------------------------------------------------------------
// Indented rendering
// ---------------------------------------------------------------------------

/// The indented text of a JSON value as it is shown on screen: containers
/// spread over lines, two further spaces of indentation per level, members
/// written as `"key": value`.  `pad` is the indentation of the enclosing
/// container.
pub open spec fn json_pretty(v: JsonV, pad: Seq<char>) -> Seq<char>
    decreases v,
{
    match v {
        JsonV::Array(xs) => if xs.len() == 0 {
            seq!['[', ']']
        } else {
            seq!['['] + pretty_arr_body(xs, pad + seq![' ', ' ']) + seq!['\n'] + pad + seq![']']
        },
        JsonV::Object(ps) => if ps.len() == 0 {
            seq!['{', '}']
        } else {
            seq!['{'] + pretty_obj_body(ps, pad + seq![' ', ' ']) + seq!['\n'] + pad + seq!['}']
        },
        _ => json_text(v),
    }
}

/// Array elements, each on its own indented line, comma-separated.
pub open spec fn pretty_arr_body(xs: Seq<JsonV>, pad: Seq<char>) -> Seq<char>
    decreases xs,
{
    if xs.len() == 0 {
        Seq::empty()
    } else if xs.len() == 1 {
        seq!['\n'] + pad + json_pretty(xs[0], pad)
    } else {
        seq!['\n'] + pad + json_pretty(xs[0], pad) + seq![','] + pretty_arr_body(
            xs.drop_first(),
            pad,
        )
    }
}

/// Object members, each on its own indented line, comma-separated.
pub open spec fn pretty_obj_body(ps: Seq<(Seq<char>, JsonV)>, pad: Seq<char>) -> Seq<char>
    decreases ps,
{
    if ps.len() == 0 {
        Seq::empty()
    } else if ps.len() == 1 {
        pretty_member(ps[0], pad)
    } else {
        pretty_member(ps[0], pad) + seq![','] + pretty_obj_body(ps.drop_first(), pad)
    }
}

/// One object member on its own indented line.
pub open spec fn pretty_member(p: (Seq<char>, JsonV), pad: Seq<char>) -> Seq<char>
    decreases p,
{
    seq!['\n'] + pad + seq!['"'] + escape_str(p.0) + seq!['"', ':', ' '] + json_pretty(p.1, pad)
}

pub proof fn lemma_pretty_arr_body_snoc(xs: Seq<JsonV>, x: JsonV, pad: Seq<char>)
    ensures
        pretty_arr_body(xs.push(x), pad) == if xs.len() == 0 {
            seq!['\n'] + pad + json_pretty(x, pad)
        } else {
            pretty_arr_body(xs, pad) + seq![','] + (seq!['\n'] + pad + json_pretty(x, pad))
        },
    decreases xs,
{
    if xs.len() == 0 {
        assert(xs.push(x)[0] == x);
        assert(pretty_arr_body(xs.push(x), pad) == seq!['\n'] + pad + json_pretty(x, pad));
    } else if xs.len() == 1 {
        assert(xs.push(x)[0] == xs[0]);
        assert(xs.push(x).drop_first() =~= seq![x]);
        assert(pretty_arr_body(seq![x], pad) == seq!['\n'] + pad + json_pretty(x, pad));
        assert(pretty_arr_body(xs.push(x), pad) =~= pretty_arr_body(xs, pad) + seq![','] + (
        seq!['\n'] + pad + json_pretty(x, pad)));
    } else {
        assert(xs.push(x)[0] == xs[0]);
        assert(xs.push(x).drop_first() =~= xs.drop_first().push(x));
        lemma_pretty_arr_body_snoc(xs.drop_first(), x, pad);
        assert(pretty_arr_body(xs.push(x), pad) =~= pretty_arr_body(xs, pad) + seq![','] + (
        seq!['\n'] + pad + json_pretty(x, pad)));
    }
}

pub proof fn lemma_pretty_obj_body_snoc(
    ps: Seq<(Seq<char>, JsonV)>,
    p: (Seq<char>, JsonV),
    pad: Seq<char>,
)
    ensures
        pretty_obj_body(ps.push(p), pad) == if ps.len() == 0 {
            pretty_member(p, pad)
        } else {
            pretty_obj_body(ps, pad) + seq![','] + pretty_member(p, pad)
        },
    decreases ps,
{
    if ps.len() == 0 {
        assert(ps.push(p)[0] == p);
        assert(pretty_obj_body(ps.push(p), pad) == pretty_member(p, pad));
    } else if ps.len() == 1 {
        assert(ps.push(p)[0] == ps[0]);
        assert(ps.push(p).drop_first() =~= seq![p]);
        assert(pretty_obj_body(seq![p], pad) == pretty_member(p, pad));
        assert(pretty_obj_body(ps.push(p), pad) =~= pretty_obj_body(ps, pad) + seq![',']
            + pretty_member(p, pad));
    } else {
        assert(ps.push(p)[0] == ps[0]);
        assert(ps.push(p).drop_first() =~= ps.drop_first().push(p));
        lemma_pretty_obj_body_snoc(ps.drop_first(), p, pad);
        assert(pretty_obj_body(ps.push(p), pad) =~= pretty_obj_body(ps, pad) + seq![',']
            + pretty_member(p, pad));
    }
}

impl JsonValue {
    /// Writes this value as indented JSON text, inside a container whose
    /// indentation is `pad`.
    pub fn render_pretty_at(&self, pad: &str) -> (r: String)
        ensures
            r@ == json_pretty(self@, pad@),
        decreases self,
    {
        match self {
            JsonValue::Array(xs) => {
                let n = xs.len();
                if n == 0 {
                    let r = String::from_str("[]");
                    proof {
                        reveal_strlit("[]");
                        assert(r@ =~= json_pretty(self@, pad@));
                    }
                    return r;
                }
                let ghost vxs = views_of(xs@);
                proof {
                    lemma_views_of_len(xs@);
                }
                let mut inner = String::from_str(pad);
                inner.append("  ");
                proof {
                    reveal_strlit("  ");
                    assert(inner@ =~= pad@ + seq![' ', ' ']);
                }
                let mut r = String::from_str("[");
                proof {
                    reveal_strlit("[");
                    assert(vxs.take(0) =~= Seq::<JsonV>::empty());
                    assert(r@ =~= seq!['['] + pretty_arr_body(vxs.take(0), inner@));
                }
                let mut i: usize = 0;
                while i < n
                    invariant
                        n == xs@.len(),
                        n > 0,
                        0 <= i <= n,
                        vxs == views_of(xs@),
                        vxs.len() == n,
                        forall|j: int| 0 <= j < n ==> vxs[j] == #[trigger] xs@[j]@,
                        inner@ == pad@ + seq![' ', ' '],
                        r@ == seq!['['] + pretty_arr_body(vxs.take(i as int), inner@),
                        self == JsonValue::Array(*xs),
                    decreases n - i,
                {
                    proof {
                        assert(decreases_to!(self => self->Array_0));
                        assert(decreases_to!(self->Array_0 => self->Array_0@));
                        assert(decreases_to!(self->Array_0@ => self->Array_0@[i as int]));
                        assert(decreases_to!(self => xs@[i as int]));
                    }
                    let piece = xs[i].render_pretty_at(inner.as_str());
                    if i > 0 {
                        r.append(",");
                    }
                    r.append("\n");
                    r.append(inner.as_str());
                    r.append(piece.as_str());
                    proof {
                        reveal_strlit(",");
                        reveal_strlit("\n");
                        lemma_pretty_arr_body_snoc(vxs.take(i as int), vxs[i as int], inner@);
                        assert(vxs.take(i + 1) =~= vxs.take(i as int).push(vxs[i as int]));
                        assert(r@ =~= seq!['['] + pretty_arr_body(vxs.take(i + 1), inner@));
                    }
                    i += 1;
                }
                r.append("\n");
                r.append(pad);
                r.append("]");
                proof {
                    reveal_strlit("\n");
                    reveal_strlit("]");
                    assert(vxs.take(n as int) =~= vxs);
                    assert(r@ =~= json_pretty(self@, pad@));
                }
                r
            },
            JsonValue::Object(ps) => {
                let n = ps.len();
                if n == 0 {
                    let r = String::from_str("{}");
                    proof {
                        reveal_strlit("{}");
                        assert(r@ =~= json_pretty(self@, pad@));
                    }
                    return r;
                }
                let ghost vps = member_views_of(ps@);
                proof {
                    lemma_member_views_of_len(ps@);
                }
                let mut inner = String::from_str(pad);
                inner.append("  ");
                proof {
                    reveal_strlit("  ");
                    assert(inner@ =~= pad@ + seq![' ', ' ']);
                }
                let mut r = String::from_str("{");
                proof {
                    reveal_strlit("{");
                    assert(vps.take(0) =~= Seq::<(Seq<char>, JsonV)>::empty());
                    assert(r@ =~= seq!['{'] + pretty_obj_body(vps.take(0), inner@));
                }
                let mut i: usize = 0;
                while i < n
                    invariant
                        n == ps@.len(),
                        n > 0,
                        0 <= i <= n,
                        vps == member_views_of(ps@),
                        vps.len() == n,
                        forall|j: int|
                            0 <= j < n ==> vps[j] == (
                            #[trigger] ps@[j].key@,
                            ps@[j].value@,
                            ),
                        inner@ == pad@ + seq![' ', ' '],
                        r@ == seq!['{'] + pretty_obj_body(vps.take(i as int), inner@),
                        self == JsonValue::Object(*ps),
                    decreases n - i,
                {
                    proof {
                        assert(decreases_to!(self => self->Object_0));
                        assert(decreases_to!(self->Object_0 => self->Object_0@));
                        assert(decreases_to!(self->Object_0@ => self->Object_0@[i as int]));
                        assert(decreases_to!(
                            self->Object_0@[i as int] => self->Object_0@[i as int].value));
                        assert(decreases_to!(self => ps@[i as int].value));
                    }
                    let piece = ps[i].value.render_pretty_at(inner.as_str());
                    let key = escape_string(ps[i].key.as_str());
                    if i > 0 {
                        r.append(",");
                    }
                    r.append("\n");
                    r.append(inner.as_str());
                    r.append("\"");
                    r.append(key.as_str());
                    r.append("\": ");
                    r.append(piece.as_str());
                    proof {
                        reveal_strlit(",");
                        reveal_strlit("\n");
                        reveal_strlit("\"");
                        reveal_strlit("\": ");
                        lemma_pretty_obj_body_snoc(vps.take(i as int), vps[i as int], inner@);
                        assert(vps.take(i + 1) =~= vps.take(i as int).push(vps[i as int]));
                        assert(pretty_member(vps[i as int], inner@) =~= seq!['\n'] + inner@ + (
                        seq!['"'] + escape_str(ps@[i as int].key@) + seq!['"', ':', ' ']
                            + json_pretty(ps@[i as int].value@, inner@)));
                        assert(r@ =~= seq!['{'] + pretty_obj_body(vps.take(i + 1), inner@));
                    }
                    i += 1;
                }
                r.append("\n");
                r.append(pad);
                r.append("}");
                proof {
                    reveal_strlit("\n");
                    reveal_strlit("}");
                    assert(vps.take(n as int) =~= vps);
                    assert(r@ =~= json_pretty(self@, pad@));
                }
                r
            },
            _ => {
                let r = self.render_compact();
                proof {
                    assert(r@ =~= json_pretty(self@, pad@));
                }
                r
            },
        }
    }

    /// Writes this value as indented JSON text.
    pub fn render_pretty(&self) -> (r: String)
        ensures
            r@ == json_pretty(self@, Seq::empty()),
    {
        let r = self.render_pretty_at("");
        proof {
            reveal_strlit("");
            assert(""@ =~= Seq::<char>::empty());
        }
        r
    }
}

} // verus!
