//! The Permission Gate boundary: the external authority answering whether
//! a session may access a given stream. The registry consults it once per
//! referenced stream and fails on the first denial. [`StreamAcl`] is the
//! library's own implementation over an explicit grant list.

use vstd::prelude::*;

verus! {

/// Answers whether a session may access a stream.
pub trait PermissionGate {
    /// The access relation the permission gate decides.
    spec fn allows(&self, session: Seq<char>, stream: Seq<char>) -> bool;

    /// Decide access for one session and one stream.
    fn authorize(&self, session: &String, stream: &String) -> (r: bool)
        ensures
            r == self.allows(session@, stream@),
    ;
}

/// A permission gate over an explicit list of `(session, stream)` grants.
pub struct StreamAcl {
    grants: Vec<(String, String)>,
}

impl StreamAcl {
    /// A gate that denies everything.
    pub fn new() -> (r: Self)
        ensures
            forall|s: Seq<char>, t: Seq<char>| !r.allows(s, t),
    {
        StreamAcl { grants: Vec::new() }
    }

    /// Grant `session` access to `stream`.
    pub fn grant(&mut self, session: String, stream: String)
        ensures
            forall|s: Seq<char>, t: Seq<char>|
                final(self).allows(s, t) <==> (old(self).allows(s, t) || (s == session@
                    && t == stream@)),
    {
        let ghost sv = session@;
        let ghost tv = stream@;
        self.grants.push((session, stream));
        proof {
            let os = old(self).grants@;
            let ns = self.grants@;
            assert forall|s: Seq<char>, t: Seq<char>|
                final(self).allows(s, t) == (old(self).allows(s, t) || (s == sv && t
                    == tv)) by {
                if final(self).allows(s, t) {
                    let i = choose|i: int|
                        0 <= i < ns.len() && ns[i].0@ == s && ns[i].1@ == t;
                    if i < os.len() {
                        assert(os[i].0@ == s && os[i].1@ == t);
                        assert(old(self).allows(s, t));
                    }
                }
                if old(self).allows(s, t) {
                    let i = choose|i: int|
                        0 <= i < os.len() && os[i].0@ == s && os[i].1@ == t;
                    assert(ns[i].0@ == s && ns[i].1@ == t);
                    assert(final(self).allows(s, t));
                }
                if s == sv && t == tv {
                    assert(ns[os.len() as int].0@ == s && ns[os.len() as int].1@ == t);
                    assert(final(self).allows(s, t));
                }
            }
        }
    }
}

impl PermissionGate for StreamAcl {
    closed spec fn allows(&self, session: Seq<char>, stream: Seq<char>) -> bool {
        exists|i: int|
            0 <= i < self.grants@.len() && self.grants@[i].0@ == session && self.grants@[i].1@
                == stream
    }

    fn authorize(&self, session: &String, stream: &String) -> (r: bool) {
        let n = self.grants.len();
        let mut i: usize = 0;
        while i < n
            invariant
                n == self.grants@.len(),
                i <= n,
                forall|j: int|
                    0 <= j < i ==> !(self.grants@[j].0@ == session@ && self.grants@[j].1@
                        == stream@),
            decreases n - i,
        {
            if self.grants[i].0 == *session && self.grants[i].1 == *stream {
                return true;
            }
            i += 1;
        }
        false
    }
}

} // verus!
