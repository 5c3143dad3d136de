use vstd::prelude::*;

verus! {

/// An extension value carried in a token payload: a tagged variant over
/// strings, integers, booleans, null, arrays and nested objects.
pub enum ClaimValue {
    Null,
    Bool(bool),
    Int(i64),
    Str(String),
    Arr(Vec<ClaimValue>),
    Obj(Vec<(String, ClaimValue)>),
}

/// The mathematical model of a `ClaimValue`.
#[verifier::ext_equal]
pub enum JsonVal {
    Null,
    Bool(bool),
    Int(int),
    Strv(Seq<char>),
    Arr(Seq<JsonVal>),
    Obj(Seq<(Seq<char>, JsonVal)>),
}

/// The model of an extension value.
pub open spec fn val_model(v: ClaimValue) -> JsonVal
    decreases v,
{
    match v {
        ClaimValue::Null => JsonVal::Null,
        ClaimValue::Bool(b) => JsonVal::Bool(b),
        ClaimValue::Int(n) => JsonVal::Int(n as int),
        ClaimValue::Str(s) => JsonVal::Strv(s@),
        ClaimValue::Arr(es) => JsonVal::Arr(
            Seq::new(
                es@.len(),
                |i: int|
                    if 0 <= i < es@.len() {
                        val_model(es@[i])
                    } else {
                        JsonVal::Null
                    },
            ),
        ),
        ClaimValue::Obj(ms) => JsonVal::Obj(
            Seq::new(
                ms@.len(),
                |i: int|
                    if 0 <= i < ms@.len() {
                        (ms@[i].0@, val_model(ms@[i].1))
                    } else {
                        (Seq::empty(), JsonVal::Null)
                    },
            ),
        ),
    }
}

/// The model of an extension map.
pub open spec fn extra_model(ms: Seq<(String, ClaimValue)>) -> Seq<(Seq<char>, JsonVal)> {
    Seq::new(ms.len(), |i: int| (ms[i].0@, val_model(ms[i].1)))
}

/// A model value whose integers fit the machine types that carry them.
pub open spec fn wf_val(v: JsonVal) -> bool
    decreases v,
{
    match v {
        JsonVal::Null => true,
        JsonVal::Bool(_) => true,
        JsonVal::Int(n) => i64::MIN <= n <= i64::MAX,
        JsonVal::Strv(_) => true,
        JsonVal::Arr(es) => forall|i: int| 0 <= i < es.len() ==> wf_val(#[trigger] es[i]),
        JsonVal::Obj(ms) => forall|i: int| 0 <= i < ms.len() ==> wf_val(#[trigger] ms[i].1),
    }
}

/// The signed token payload: fixed fields plus an open extension map.
/// Extension keys should not collide with the fixed field names; the
/// engine does not enforce this, it is the caller's responsibility.
pub struct Claims {
    pub id: Option<i128>,
    pub exp: u64,
    pub ttl: u64,
    pub token: String,
    pub jti: String,
    pub extra: Vec<(String, ClaimValue)>,
}

/// The mathematical model of a `Claims` record.
#[verifier::ext_equal]
pub struct ClaimsModel {
    pub id: Option<int>,
    pub exp: int,
    pub ttl: int,
    pub token: Seq<char>,
    pub jti: Seq<char>,
    pub extra: Seq<(Seq<char>, JsonVal)>,
}

pub open spec fn claims_model(c: Claims) -> ClaimsModel {
    ClaimsModel {
        id: match c.id {
            Some(n) => Some(n as int),
            None => None,
        },
        exp: c.exp as int,
        ttl: c.ttl as int,
        token: c.token@,
        jti: c.jti@,
        extra: extra_model(c.extra@),
    }
}

/// A model claims record whose numbers fit the machine types that carry
/// them.
pub open spec fn wf_claims(c: ClaimsModel) -> bool {
    &&& match c.id {
        Some(n) => i128::MIN <= n <= i128::MAX,
        None => true,
    }
    &&& 0 <= c.exp <= u64::MAX
    &&& 0 <= c.ttl <= u64::MAX
    &&& forall|i: int| 0 <= i < c.extra.len() ==> wf_val(#[trigger] c.extra[i].1)
}

/// The model of any executable extension value is well formed.
pub proof fn lemma_val_model_wf(v: ClaimValue)
    ensures
        wf_val(val_model(v)),
    decreases v,
{
    match v {
        ClaimValue::Arr(es) => {
            assert forall|i: int| 0 <= i < es@.len() implies wf_val(
                #[trigger] val_model(v)->Arr_0[i],
            ) by {
                lemma_val_model_wf(es@[i]);
            }
        },
        ClaimValue::Obj(ms) => {
            assert forall|i: int| 0 <= i < ms@.len() implies wf_val(
                #[trigger] val_model(v)->Obj_0[i].1,
            ) by {
                lemma_val_model_wf(ms@[i].1);
            }
        },
        _ => {},
    }
}

/// The model of any executable claims record is well formed.
pub proof fn lemma_claims_model_wf(c: Claims)
    ensures
        wf_claims(claims_model(c)),
{
    assert forall|i: int| 0 <= i < c.extra@.len() implies wf_val(
        #[trigger] claims_model(c).extra[i].1,
    ) by {
        lemma_val_model_wf(c.extra@[i].1);
    }
}

} // verus!
