use vstd::prelude::*;

verus! {

/// Whether two strings are equal, character by character.
pub fn str_equal(a: &str, b: &str) -> (r: bool)
    ensures
        r == (a@ == b@),
{
    let n = a.unicode_len();
    if n != b.unicode_len() {
        return false;
    }
    let mut i: usize = 0;
    while i < n
        invariant
            n == a@.len() == b@.len(),
            i <= n,
            forall|j: int| 0 <= j < i ==> a@[j] == b@[j],
        decreases n - i,
    {
        if a.get_char(i) != b.get_char(i) {
            return false;
        }
        i = i + 1;
    }
    proof {
        assert(a@ =~= b@);
    }
    true
}

/// The handler registered last under `method`.
pub open spec fn route_of<H>(routes: Seq<(Seq<char>, H)>, method: Seq<char>) -> Option<H>
    decreases routes.len(),
{
    if routes.len() == 0 {
        None
    } else if routes.last().0 == method {
        Some(routes.last().1)
    } else {
        route_of(routes.drop_last(), method)
    }
}

/// Method names and the handlers that serve them.
pub struct Router<H> {
    routes: Vec<(String, H)>,
}

impl<H> Router<H> {
    /// The registrations, oldest first.
    pub closed spec fn spec_routes(&self) -> Seq<(Seq<char>, H)> {
        self.routes@.map_values(|r: (String, H)| (r.0@, r.1))
    }

    pub fn new() -> (r: Router<H>)
        ensures
            r.spec_routes() == Seq::<(Seq<char>, H)>::empty(),
    {
        let r = Router { routes: Vec::new() };
        proof {
            assert(r.spec_routes() =~= Seq::<(Seq<char>, H)>::empty());
        }
        r
    }

    /// Registers `handler` under `method`, replacing any earlier one.
    pub fn add(&mut self, method: String, handler: H)
        ensures
            final(self).spec_routes() == old(self).spec_routes().push((method@, handler)),
    {
        self.routes.push((method, handler));
        proof {
            assert(self.spec_routes() =~= old(self).spec_routes().push((method@, handler)));
        }
    }

    /// The handler for `method`; `None` for a method nobody registered.
    pub fn get(&self, method: &str) -> (r: Option<&H>)
        ensures
            r is None <==> route_of(self.spec_routes(), method@) is None,
            r is Some ==> *r->0 == route_of(self.spec_routes(), method@)->0,
    {
        let mut i: usize = self.routes.len();
        proof {
            assert(self.spec_routes().subrange(0, i as int) =~= self.spec_routes());
        }
        while i > 0
            invariant
                i <= self.routes@.len(),
                route_of(self.spec_routes(), method@) == route_of(
                    self.spec_routes().subrange(0, i as int),
                    method@,
                ),
            decreases i,
        {
            let ghost pre = self.spec_routes().subrange(0, i as int);
            proof {
                assert(pre.drop_last() =~= self.spec_routes().subrange(0, i - 1));
                assert(pre.last() == (self.routes@[i - 1].0@, self.routes@[i - 1].1));
            }
            if str_equal(self.routes[i - 1].0.as_str(), method) {
                return Some(&self.routes[i - 1].1);
            }
            i = i - 1;
        }
        None
    }

    pub fn len(&self) -> (r: usize)
        ensures
            r == self.spec_routes().len(),
    {
        self.routes.len()
    }
}

} // verus!
