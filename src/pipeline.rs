use vstd::prelude::*;
use std::marker::PhantomData;

verus! {

/// A function from `A` to `B`, built up stage by stage and run once.
#[verifier::reject_recursive_types(A)]
#[verifier::reject_recursive_types(B)]
pub struct Pipeline<A, B, F> where F: Fn(A) -> B {
    pub f: F,
    pub marker: PhantomData<(A, B)>,
}

impl<A, B, F> Pipeline<A, B, F> where F: Fn(A) -> B {
    /// Whether the pipeline may be run on `a`.
    pub open spec fn accepts(&self, a: A) -> bool {
        call_requires(self.f, (a,))
    }

    /// Whether running the pipeline on `a` may give `b`.
    pub open spec fn yields(&self, a: A, b: B) -> bool {
        call_ensures(self.f, (a,), b)
    }

    /// Adds a stage that applies `g` to what the pipeline gives.
    pub fn then<C, G: Fn(B) -> C>(self, g: G) -> (r: Pipeline<A, C, impl Fn(A) -> C>)
        ensures
            forall|a: A|
                #![trigger r.accepts(a)]
                self.accepts(a) && (forall|b: B| self.yields(a, b) ==> call_requires(g, (b,)))
                    ==> r.accepts(a),
            forall|a: A, c: C|
                #[trigger] r.yields(a, c) ==> exists|b: B|
                    self.yields(a, b) && call_ensures(g, (b,), c),
    {
        let f = self.f;
        let ghost f_req = |a: A| call_requires(f, (a,));
        let ghost f_ens = |a: A, b: B| call_ensures(f, (a,), b);
        let ghost g_req = |b: B| call_requires(g, (b,));
        let ghost g_ens = |b: B, c: C| call_ensures(g, (b,), c);
        let h = (move |a: A| -> (c: C)
                requires
                    f_req(a),
                    forall|b: B| #[trigger] f_ens(a, b) ==> g_req(b),
                ensures
                    exists|b: B| #[trigger] f_ens(a, b) && g_ens(b, c),
                {
                    let b = f(a);
                    assert(f_ens(a, b));
                    let c = g(b);
                    assert(g_ens(b, c));
                    c
                });
        let r = Pipeline { f: h, marker: PhantomData };
        proof {
            assert forall|a: A|
                self.accepts(a) && (forall|b: B| self.yields(a, b) ==> call_requires(g, (b,)))
                    implies r.accepts(a) by {
                assert(f_req(a));
                assert forall|b: B| #[trigger] f_ens(a, b) implies g_req(b) by {
                    assert(self.yields(a, b));
                }
            }
            assert forall|a: A, c: C| #[trigger] r.yields(a, c) implies exists|b: B|
                self.yields(a, b) && call_ensures(g, (b,), c) by {
                let b = choose|b: B| #[trigger] f_ens(a, b) && g_ens(b, c);
                assert(self.yields(a, b) && call_ensures(g, (b,), c));
            }
        }
        r
    }

    /// Adds a stage that applies `g` to what the pipeline gives where `cond`
    /// holds of it, and gives `None` where it does not.
    pub fn then_if<C, P: Fn(&B) -> bool, G: Fn(B) -> C>(self, cond: P, g: G) -> (r: Pipeline<
        A,
        Option<C>,
        impl Fn(A) -> Option<C>,
    >)
        ensures
            forall|a: A|
                #![trigger r.accepts(a)]
                self.accepts(a) && (forall|b: B|
                    self.yields(a, b) ==> call_requires(cond, (&b,))) && (forall|b: B|
                    self.yields(a, b) && call_ensures(cond, (&b,), true) ==> call_requires(
                        g,
                        (b,),
                    )) ==> r.accepts(a),
            forall|a: A, o: Option<C>|
                #[trigger] r.yields(a, o) ==> exists|b: B|
                    self.yields(a, b) && match o {
                        Some(c) => call_ensures(cond, (&b,), true) && call_ensures(g, (b,), c),
                        None => call_ensures(cond, (&b,), false),
                    },
    {
        let f = self.f;
        let ghost f_req = |a: A| call_requires(f, (a,));
        let ghost f_ens = |a: A, b: B| call_ensures(f, (a,), b);
        let ghost g_req = |b: B| call_requires(g, (b,));
        let ghost g_ens = |b: B, c: C| call_ensures(g, (b,), c);
        let ghost c_req = |b: B| call_requires(cond, (&b,));
        let ghost c_ens = |b: B, t: bool| call_ensures(cond, (&b,), t);
        let h = (move |a: A| -> (o: Option<C>)
                requires
                    f_req(a),
                    forall|b: B| #[trigger] f_ens(a, b) ==> c_req(b),
                    forall|b: B|
                        #[trigger] f_ens(a, b) && c_ens(b, true)
                            ==> g_req(b),
                ensures
                    exists|b: B|
                        #[trigger] f_ens(a, b) && match o {
                            Some(c) => c_ens(b, true) && g_ens(b, c),
                            None => c_ens(b, false),
                        },
                {
                    let b = f(a);
                    assert(f_ens(a, b));
                    let t = cond(&b);
                    assert(c_ens(b, t));
                    if t {
                        let c = g(b);
                        assert(g_ens(b, c));
                        Some(c)
                    } else {
                        None
                    }
                });
        let r = Pipeline { f: h, marker: PhantomData };
        proof {
            assert forall|a: A|
                self.accepts(a) && (forall|b: B|
                    self.yields(a, b) ==> call_requires(cond, (&b,))) && (forall|b: B|
                    self.yields(a, b) && call_ensures(cond, (&b,), true) ==> call_requires(g, (b,)))
                    implies r.accepts(a) by {
                assert(f_req(a));
                assert forall|b: B| #[trigger] f_ens(a, b) implies c_req(b) by {
                    assert(self.yields(a, b));
                }
                assert forall|b: B| #[trigger] f_ens(a, b) && c_ens(b, true) implies g_req(b) by {
                    assert(self.yields(a, b));
                }
            }
            assert forall|a: A, o: Option<C>| #[trigger] r.yields(a, o) implies exists|b: B|
                self.yields(a, b) && match o {
                    Some(c) => call_ensures(cond, (&b,), true) && call_ensures(g, (b,), c),
                    None => call_ensures(cond, (&b,), false),
                } by {
                let b = choose|b: B|
                    #[trigger] f_ens(a, b) && match o {
                        Some(c) => c_ens(b, true) && g_ens(b, c),
                        None => c_ens(b, false),
                    };
                assert(self.yields(a, b));
            }
        }
        r
    }

    /// Runs the pipeline on `input`.
    pub fn run(self, input: A) -> (r: B)
        requires
            self.accepts(input),
        ensures
            self.yields(input, r),
    {
        (self.f)(input)
    }
}

/// Starts a pipeline with the single stage `f`.
pub fn pipe<A, B, F: Fn(A) -> B>(f: F) -> (r: Pipeline<A, B, F>)
    ensures
        r.f == f,
{
    Pipeline { f: f, marker: PhantomData }
}

} // verus!
