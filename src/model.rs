//! A model of the guest values that a build plan produces, and the proof
//! that the plan of a host value builds exactly that value.

use vstd::prelude::*;
use crate::bigint::JsBigInt;
use crate::value::JsValue;
use crate::serialize::{
    BuildStep, MAX_ARRAY_LEN, elements_fault, elements_plan, plan_fault, plan_of,
    properties_fault, properties_plan,
};

verus! {

/// A guest value as seen through the build plan: arrays hold their elements
/// in index order, objects map each key to its value (the runtime decides
/// the order in which it enumerates them).
pub enum GuestModel<G, R> {
    Undefined,
    Null,
    Bool(bool),
    Int(i32),
    Float(u64),
    String(Seq<char>),
    Date(i64),
    BigInt(JsBigInt),
    Ref(G),
    Resource(R),
    Array(Seq<GuestModel<G, R>>),
    Object(Map<Seq<char>, GuestModel<G, R>>),
}

/// The guest value that models the host value `v`.
pub open spec fn model_of<G, R>(v: JsValue<G, R>) -> GuestModel<G, R>
    decreases v,
{
    match v {
        JsValue::Undefined => GuestModel::Undefined,
        JsValue::Null => GuestModel::Null,
        JsValue::Bool(b) => GuestModel::Bool(b),
        JsValue::Int(i) => GuestModel::Int(i),
        JsValue::Float(f) => GuestModel::Float(f),
        JsValue::String(s) => GuestModel::String(s@),
        JsValue::Date(d) => GuestModel::Date(d),
        JsValue::BigInt(b) => GuestModel::BigInt(b),
        JsValue::Raw(g) => GuestModel::Ref(g),
        JsValue::Exception(g) => GuestModel::Ref(g),
        JsValue::Resource(r) => GuestModel::Resource(r),
        JsValue::Array(items) => GuestModel::Array(models_of(items@)),
        JsValue::Object(props) => GuestModel::Object(define_all(Map::empty(), props@)),
    }
}

/// The models of the elements `s`.
pub open spec fn models_of<G, R>(s: Seq<JsValue<G, R>>) -> Seq<GuestModel<G, R>>
    decreases s,
{
    if s.len() == 0 {
        seq![]
    } else {
        seq![model_of(s[0])] + models_of(s.subrange(1, s.len() as int))
    }
}

/// The object `done` after defining each property of `s` in order.
pub open spec fn define_all<G, R>(
    done: Map<Seq<char>, GuestModel<G, R>>,
    s: Seq<(String, JsValue<G, R>)>,
) -> Map<Seq<char>, GuestModel<G, R>>
    decreases s,
{
    if s.len() == 0 {
        done
    } else {
        define_all(done.insert(s[0].0@, model_of(s[0].1)), s.subrange(1, s.len() as int))
    }
}

/// The stack after one step, or `None` where the step does not apply.
pub open spec fn apply_step<G, R>(st: Seq<GuestModel<G, R>>, step: BuildStep<G, R>) -> Option<Seq<GuestModel<G, R>>> {
    match step {
        BuildStep::Undefined => Some(st.push(GuestModel::Undefined)),
        BuildStep::Null => Some(st.push(GuestModel::Null)),
        BuildStep::Bool(b) => Some(st.push(GuestModel::Bool(b))),
        BuildStep::Int(i) => Some(st.push(GuestModel::Int(i))),
        BuildStep::Float(f) => Some(st.push(GuestModel::Float(f))),
        BuildStep::String(s) => Some(st.push(GuestModel::String(s@))),
        BuildStep::Date(d) => Some(st.push(GuestModel::Date(d))),
        BuildStep::BigInt(b) => Some(st.push(GuestModel::BigInt(b))),
        BuildStep::Guest(g) => Some(st.push(GuestModel::Ref(g))),
        BuildStep::Resource(r) => Some(st.push(GuestModel::Resource(r))),
        BuildStep::NewArray => Some(st.push(GuestModel::Array(seq![]))),
        BuildStep::NewObject => Some(st.push(GuestModel::Object(Map::empty()))),
        BuildStep::DefineIndex(i) => if st.len() >= 2 {
            match st[st.len() - 2] {
                GuestModel::Array(items) => if i as int == items.len() {
                    Some(st.subrange(0, st.len() - 2).push(GuestModel::Array(items.push(st.last()))))
                } else {
                    None
                },
                _ => None,
            }
        } else {
            None
        },
        BuildStep::DefineKey(k) => if st.len() >= 2 {
            match st[st.len() - 2] {
                GuestModel::Object(props) => Some(
                    st.subrange(0, st.len() - 2).push(GuestModel::Object(props.insert(k@, st.last()))),
                ),
                _ => None,
            }
        } else {
            None
        },
    }
}

/// The stack after carrying out `steps` in order, or `None` where one of
/// them does not apply.
pub open spec fn replay<G, R>(steps: Seq<BuildStep<G, R>>, st: Seq<GuestModel<G, R>>) -> Option<Seq<GuestModel<G, R>>>
    decreases steps.len(),
{
    if steps.len() == 0 {
        Some(st)
    } else {
        match apply_step(st, steps[0]) {
            Some(next) => replay(steps.subrange(1, steps.len() as int), next),
            None => None,
        }
    }
}

proof fn lemma_replay_append<G, R>(a: Seq<BuildStep<G, R>>, b: Seq<BuildStep<G, R>>, st: Seq<GuestModel<G, R>>)
    ensures
        replay(a + b, st) == match replay(a, st) {
            Some(mid) => replay(b, mid),
            None => None,
        },
    decreases a.len(),
{
    if a.len() == 0 {
        assert(a + b =~= b);
    } else {
        assert((a + b)[0] == a[0]);
        assert((a + b).subrange(1, (a + b).len() as int) =~= a.subrange(1, a.len() as int) + b);
        match apply_step(st, a[0]) {
            Some(next) => lemma_replay_append(a.subrange(1, a.len() as int), b, next),
            None => {},
        }
    }
}

proof fn lemma_replay_one<G, R>(step: BuildStep<G, R>, st: Seq<GuestModel<G, R>>)
    ensures
        replay(seq![step], st) == apply_step(st, step),
{
    assert(seq![step].subrange(1, 1) =~= Seq::<BuildStep<G, R>>::empty());
    match apply_step(st, step) {
        Some(next) => {
            assert(replay(Seq::<BuildStep<G, R>>::empty(), next) == Some(next));
        },
        None => {},
    }
}

proof fn lemma_replay_plan<G, R>(v: JsValue<G, R>, st: Seq<GuestModel<G, R>>)
    requires
        plan_fault(v) is None,
    ensures
        replay(plan_of(v), st) == Some(st.push(model_of(v))),
    decreases v,
{
    match v {
        JsValue::Array(items) => {
            let opened = st.push(GuestModel::<G, R>::Array(seq![]));
            lemma_replay_one(BuildStep::<G, R>::NewArray, st);
            lemma_replay_append(seq![BuildStep::NewArray], elements_plan(items@, 0), st);
            lemma_replay_elements(items@, 0, opened, seq![]);
            assert(seq![] + models_of(items@) =~= models_of(items@));
            assert(opened.drop_last() =~= st);
        },
        JsValue::Object(props) => {
            let opened = st.push(GuestModel::<G, R>::Object(Map::empty()));
            lemma_replay_one(BuildStep::<G, R>::NewObject, st);
            lemma_replay_append(seq![BuildStep::NewObject], properties_plan(props@), st);
            lemma_replay_properties(props@, seq![], opened, Map::empty());
            assert(opened.drop_last() =~= st);
        },
        _ => {
            assert(plan_of(v) == seq![plan_of(v)[0]]);
            lemma_replay_one(plan_of(v)[0], st);
        },
    }
}

proof fn lemma_replay_elements<G, R>(
    s: Seq<JsValue<G, R>>,
    base: nat,
    st: Seq<GuestModel<G, R>>,
    done: Seq<GuestModel<G, R>>,
)
    requires
        st.len() >= 1,
        st.last() == GuestModel::<G, R>::Array(done),
        done.len() == base,
        base + s.len() <= MAX_ARRAY_LEN,
        elements_fault(s) is None,
    ensures
        replay(elements_plan(s, base), st) == Some(
            st.drop_last().push(GuestModel::Array(done + models_of(s))),
        ),
    decreases s,
{
    if s.len() == 0 {
        assert(done + models_of(s) =~= done);
        assert(st.drop_last().push(st.last()) =~= st);
    } else {
        let rest = s.subrange(1, s.len() as int);
        let m0 = model_of(s[0]);
        let define = seq![BuildStep::<G, R>::DefineIndex(base as u32)];
        lemma_replay_append(plan_of(s[0]) + define, elements_plan(rest, base + 1), st);
        lemma_replay_append(plan_of(s[0]), define, st);
        lemma_replay_plan(s[0], st);
        let pushed = st.push(m0);
        let next = st.drop_last().push(GuestModel::Array(done.push(m0)));
        assert(replay(define, pushed) == Some(next)) by {
            assert(pushed[pushed.len() - 2] == st.last());
            assert(pushed.subrange(0, pushed.len() - 2) =~= st.drop_last());
            lemma_replay_one(define[0], pushed);
            assert(define == seq![define[0]]);
        };
        lemma_replay_elements(rest, base + 1, next, done.push(m0));
        assert(done.push(m0) + models_of(rest) =~= done + models_of(s));
        assert(next.drop_last() =~= st.drop_last());
    }
}

proof fn lemma_replay_properties<G, R>(
    s: Seq<(String, JsValue<G, R>)>,
    seen: Seq<Seq<char>>,
    st: Seq<GuestModel<G, R>>,
    done: Map<Seq<char>, GuestModel<G, R>>,
)
    requires
        st.len() >= 1,
        st.last() == GuestModel::<G, R>::Object(done),
        properties_fault(s, seen) is None,
    ensures
        replay(properties_plan(s), st) == Some(
            st.drop_last().push(GuestModel::Object(define_all(done, s))),
        ),
    decreases s,
{
    if s.len() == 0 {
        assert(st.drop_last().push(st.last()) =~= st);
    } else {
        let rest = s.subrange(1, s.len() as int);
        let m0 = model_of(s[0].1);
        let define = seq![BuildStep::<G, R>::DefineKey(s[0].0)];
        lemma_replay_append(plan_of(s[0].1) + define, properties_plan(rest), st);
        lemma_replay_append(plan_of(s[0].1), define, st);
        lemma_replay_plan(s[0].1, st);
        let pushed = st.push(m0);
        let done2 = done.insert(s[0].0@, m0);
        let next = st.drop_last().push(GuestModel::Object(done2));
        assert(replay(define, pushed) == Some(next)) by {
            assert(pushed[pushed.len() - 2] == st.last());
            assert(pushed.subrange(0, pushed.len() - 2) =~= st.drop_last());
            lemma_replay_one(define[0], pushed);
            assert(define == seq![define[0]]);
        };
        lemma_replay_properties(rest, seen.push(s[0].0@), next, done2);
        assert(next.drop_last() =~= st.drop_last());
    }
}

/// The plan of any host value that serializes, carried out on an empty
/// stack, leaves exactly one guest value: the one that models it, with the
/// same primitives, the same elements at the same indices, and each key
/// bound to the model of its value.
pub proof fn lemma_plan_builds_value<G, R>(v: JsValue<G, R>)
    requires
        plan_fault(v) is None,
    ensures
        replay(plan_of(v), seq![]) == Some(seq![model_of(v)]),
{
    lemma_replay_plan(v, seq![]);
    assert(Seq::<GuestModel<G, R>>::empty().push(model_of(v)) =~= seq![model_of(v)]);
}

} // verus!
