use vstd::prelude::*;

verus! {

use crate::text::{int_text, true_text, false_text, i64_to_string};

/// The connection configuration a session can be preloaded with.
pub struct Config {
    pub server_url: String,
    pub credentials: String,
    pub method_id: u32,
    pub params: String,
}

/// The command-line surface: two optional paths; anything missing is asked
/// for interactively.
pub struct Cli {
    pub services_path: Option<String>,
    pub config_path: Option<String>,
}

/// Paths collected interactively.
pub struct CliPaths {
    pub services_path: String,
    pub error_codes_path: String,
}

/// A default value for one parameter, as a configuration file carries it.
pub enum ParamValue {
    String(String),
    Number(i64),
    Bool(bool),
    Array(Vec<String>),
    Object(Vec<(String, String)>),
}

/// The mathematical shape of a `ParamValue`.
pub enum ParamValueV {
    String(Seq<char>),
    Number(i64),
    Bool(bool),
    Array(Seq<Seq<char>>),
    Object(Seq<(Seq<char>, Seq<char>)>),
}

impl View for ParamValue {
    type V = ParamValueV;

    open spec fn view(&self) -> ParamValueV {
        match self {
            ParamValue::String(s) => ParamValueV::String(s@),
            ParamValue::Number(n) => ParamValueV::Number(*n),
            ParamValue::Bool(b) => ParamValueV::Bool(*b),
            ParamValue::Array(xs) => ParamValueV::Array(
                xs@.map_values(|x: String| x@),
            ),
            ParamValue::Object(ps) => ParamValueV::Object(
                ps@.map_values(|p: (String, String)| (p.0@, p.1@)),
            ),
        }
    }
}

/// Preconfigured defaults for one endpoint's parameters.
pub struct EndpointData {
    pub params: Vec<(String, ParamValue)>,
}

/// Texts joined with a comma and a space.
pub open spec fn join_texts(xs: Seq<Seq<char>>) -> Seq<char>
    decreases xs,
{
    if xs.len() == 0 {
        Seq::empty()
    } else if xs.len() == 1 {
        xs[0]
    } else {
        xs[0] + seq![',', ' '] + join_texts(xs.drop_first())
    }
}

/// `key: value` pairs joined with a comma and a space.
pub open spec fn join_pairs(ps: Seq<(Seq<char>, Seq<char>)>) -> Seq<char>
    decreases ps,
{
    if ps.len() == 0 {
        Seq::empty()
    } else if ps.len() == 1 {
        ps[0].0 + seq![':', ' '] + ps[0].1
    } else {
        ps[0].0 + seq![':', ' '] + ps[0].1 + seq![',', ' '] + join_pairs(ps.drop_first())
    }
}

/// How one default value is written into a parameter buffer: scalars in
/// their textual form, lists bracketed, key-value sets braced.
pub open spec fn param_text(v: ParamValueV) -> Seq<char> {
    match v {
        ParamValueV::String(s) => s,
        ParamValueV::Number(n) => int_text(n as int),
        ParamValueV::Bool(b) => if b {
            true_text()
        } else {
            false_text()
        },
        ParamValueV::Array(xs) => seq!['['] + join_texts(xs) + seq![']'],
        ParamValueV::Object(ps) => seq!['{'] + join_pairs(ps) + seq!['}'],
    }
}

pub proof fn lemma_join_texts_snoc(xs: Seq<Seq<char>>, x: Seq<char>)
    ensures
        join_texts(xs.push(x)) == if xs.len() == 0 {
            x
        } else {
            join_texts(xs) + seq![',', ' '] + x
        },
    decreases xs,
{
    if xs.len() == 0 {
        assert(xs.push(x)[0] == x);
        assert(join_texts(xs.push(x)) == x);
    } else if xs.len() == 1 {
        assert(xs.push(x)[0] == xs[0]);
        assert(xs.push(x).drop_first() =~= seq![x]);
        assert(join_texts(seq![x]) == x);
        assert(join_texts(xs.push(x)) =~= join_texts(xs) + seq![',', ' '] + x);
    } else {
        assert(xs.push(x)[0] == xs[0]);
        assert(xs.push(x).drop_first() =~= xs.drop_first().push(x));
        lemma_join_texts_snoc(xs.drop_first(), x);
        assert(join_texts(xs.push(x)) =~= join_texts(xs) + seq![',', ' '] + x);
    }
}

pub proof fn lemma_join_pairs_snoc(ps: Seq<(Seq<char>, Seq<char>)>, p: (Seq<char>, Seq<char>))
    ensures
        join_pairs(ps.push(p)) == if ps.len() == 0 {
            p.0 + seq![':', ' '] + p.1
        } else {
            join_pairs(ps) + seq![',', ' '] + (p.0 + seq![':', ' '] + p.1)
        },
    decreases ps,
{
    if ps.len() == 0 {
        assert(ps.push(p)[0] == p);
        assert(join_pairs(ps.push(p)) =~= p.0 + seq![':', ' '] + p.1);
    } else if ps.len() == 1 {
        assert(ps.push(p)[0] == ps[0]);
        assert(ps.push(p).drop_first() =~= seq![p]);
        assert(join_pairs(seq![p]) =~= p.0 + seq![':', ' '] + p.1);
        assert(join_pairs(ps.push(p)) =~= join_pairs(ps) + seq![',', ' '] + (p.0 + seq![':', ' ']
            + p.1));
    } else {
        assert(ps.push(p)[0] == ps[0]);
        assert(ps.push(p).drop_first() =~= ps.drop_first().push(p));
        lemma_join_pairs_snoc(ps.drop_first(), p);
        assert(join_pairs(ps.push(p)) =~= join_pairs(ps) + seq![',', ' '] + (p.0 + seq![':', ' ']
            + p.1));
    }
}

impl ParamValue {
    /// Writes this default value as parameter-buffer text.
    pub fn value_string(&self) -> (r: String)
        ensures
            r@ == param_text(self@),
    {
        match self {
            ParamValue::String(s) => s.clone(),
            ParamValue::Number(n) => i64_to_string(*n),
            ParamValue::Bool(b) => {
                let r = if *b {
                    String::from_str("true")
                } else {
                    String::from_str("false")
                };
                proof {
                    reveal_strlit("true");
                    reveal_strlit("false");
                    assert(r@ =~= param_text(self@));
                }
                r
            },
            ParamValue::Array(xs) => {
                let ghost vxs = xs@.map_values(|x: String| x@);
                let mut r = String::from_str("[");
                proof {
                    reveal_strlit("[");
                    assert(vxs.take(0) =~= Seq::<Seq<char>>::empty());
                    assert(r@ =~= seq!['['] + join_texts(vxs.take(0)));
                }
                let n = xs.len();
                let mut i: usize = 0;
                while i < n
                    invariant
                        n == xs@.len(),
                        0 <= i <= n,
                        vxs == xs@.map_values(|x: String| x@),
                        vxs.len() == n,
                        r@ == seq!['['] + join_texts(vxs.take(i as int)),
                        self == ParamValue::Array(*xs),
                    decreases n - i,
                {
                    if i > 0 {
                        r.append(", ");
                    }
                    r.append(xs[i].as_str());
                    proof {
                        reveal_strlit(", ");
                        lemma_join_texts_snoc(vxs.take(i as int), vxs[i as int]);
                        assert(vxs.take(i + 1) =~= vxs.take(i as int).push(vxs[i as int]));
                        assert(r@ =~= seq!['['] + join_texts(vxs.take(i + 1)));
                    }
                    i += 1;
                }
                r.append("]");
                proof {
                    reveal_strlit("]");
                    assert(vxs.take(n as int) =~= vxs);
                    assert(r@ =~= param_text(self@));
                }
                r
            },
            ParamValue::Object(ps) => {
                let ghost vps = ps@.map_values(|p: (String, String)| (p.0@, p.1@));
                let mut r = String::from_str("{");
                proof {
                    reveal_strlit("{");
                    assert(vps.take(0) =~= Seq::<(Seq<char>, Seq<char>)>::empty());
                    assert(r@ =~= seq!['{'] + join_pairs(vps.take(0)));
                }
                let n = ps.len();
                let mut i: usize = 0;
                while i < n
                    invariant
                        n == ps@.len(),
                        0 <= i <= n,
                        vps == ps@.map_values(|p: (String, String)| (p.0@, p.1@)),
                        vps.len() == n,
                        r@ == seq!['{'] + join_pairs(vps.take(i as int)),
                        self == ParamValue::Object(*ps),
                    decreases n - i,
                {
                    if i > 0 {
                        r.append(", ");
                    }
                    r.append(ps[i].0.as_str());
                    r.append(": ");
                    r.append(ps[i].1.as_str());
                    proof {
                        reveal_strlit(", ");
                        reveal_strlit(": ");
                        lemma_join_pairs_snoc(vps.take(i as int), vps[i as int]);
                        assert(vps.take(i + 1) =~= vps.take(i as int).push(vps[i as int]));
                        assert(r@ =~= seq!['{'] + join_pairs(vps.take(i + 1)));
                    }
                    i += 1;
                }
                r.append("}");
                proof {
                    reveal_strlit("}");
                    assert(vps.take(n as int) =~= vps);
                    assert(r@ =~= param_text(self@));
                }
                r
            },
        }
    }
}

/// Lists every endpoint's default parameter texts, in table order: each
/// endpoint keeps its name and gets one `(parameter, text)` pair per
/// configured default.
pub fn extract_param_defaults(endpoints: &Vec<(String, EndpointData)>) -> (r: Vec<
    (String, Vec<(String, String)>),
>)
    ensures
        r@.len() == endpoints@.len(),
        forall|k: int|
            0 <= k < endpoints@.len() ==> {
                &&& (#[trigger] r@[k]).0 == endpoints@[k].0
                &&& r@[k].1@.len() == endpoints@[k].1.params@.len()
                &&& forall|j: int|
                    0 <= j < endpoints@[k].1.params@.len() ==> {
                        &&& (#[trigger] r@[k].1@[j]).0 == endpoints@[k].1.params@[j].0
                        &&& r@[k].1@[j].1@ == param_text(endpoints@[k].1.params@[j].1@)
                    }
            },
{
    let mut r: Vec<(String, Vec<(String, String)>)> = Vec::new();
    let n = endpoints.len();
    let mut k: usize = 0;
    while k < n
        invariant
            n == endpoints@.len(),
            0 <= k <= n,
            r@.len() == k,
            forall|t: int|
                0 <= t < k ==> {
                    &&& (#[trigger] r@[t]).0 == endpoints@[t].0
                    &&& r@[t].1@.len() == endpoints@[t].1.params@.len()
                    &&& forall|j: int|
                        0 <= j < endpoints@[t].1.params@.len() ==> {
                            &&& (#[trigger] r@[t].1@[j]).0 == endpoints@[t].1.params@[j].0
                            &&& r@[t].1@[j].1@ == param_text(endpoints@[t].1.params@[j].1@)
                        }
                },
        decreases n - k,
    {
        let entry = &endpoints[k];
        let mut out: Vec<(String, String)> = Vec::new();
        let np = entry.1.params.len();
        let mut j: usize = 0;
        while j < np
            invariant
                0 <= k < n,
                n == endpoints@.len(),
                entry == &endpoints@[k as int],
                np == entry.1.params@.len(),
                0 <= j <= np,
                out@.len() == j,
                forall|t: int|
                    0 <= t < j ==> {
                        &&& (#[trigger] out@[t]).0 == entry.1.params@[t].0
                        &&& out@[t].1@ == param_text(entry.1.params@[t].1@)
                    },
            decreases np - j,
        {
            let p = &entry.1.params[j];
            out.push((p.0.clone(), p.1.value_string()));
            j += 1;
        }
        r.push((entry.0.clone(), out));
        k += 1;
    }
    r
}

} // verus!
