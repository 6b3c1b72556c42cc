//! Resolving a machine URI through the drivers registered by scheme.
use vstd::prelude::*;
use vstd::string::*;
use crate::error::Error;
use crate::text::{find_char, first_index, same_text, split_around};

verus! {

/// Gives a machine handle for the body of a URI.
pub trait DriverFactory {
    type Machine;

    /// `r` is an answer that the factory may give for the body `uri`; a
    /// factory that states nothing of its answers may give any.
    open spec fn gives(&self, uri: Seq<char>, r: Option<Self::Machine>) -> bool {
        true
    }

    fn machine_for_uri(&self, uri: &str) -> (r: Option<Self::Machine>)
        ensures
            self.gives(uri@, r),
    ;
}

/// The scheme and body of a URI: the parts before and after its first `:`;
/// a URI without one has the scheme `file` and is all body.
pub open spec fn uri_parts(uri: Seq<char>) -> (Seq<char>, Seq<char>) {
    let c = first_index(uri, ':', 0);
    if c < uri.len() {
        (uri.take(c), uri.skip(c + 1))
    } else {
        ("file"@, uri)
    }
}

/// A URI cut into its scheme and its body.
pub struct VmUri<'a> {
    pub schema: &'a str,
    pub path: &'a str,
}

impl<'a> VmUri<'a> {
    pub fn parse(uri: &'a str) -> (r: VmUri<'a>)
        ensures
            (r.schema@, r.path@) == uri_parts(uri@),
    {
        match find_char(uri, ':') {
            Some(c) => {
                let (schema, path) = split_around(uri, c);
                VmUri { schema, path }
            },
            None => VmUri { schema: "file", path: uri },
        }
    }
}

/// The map that a list of registrations leaves: a later registration of a
/// scheme replaces an earlier one.
pub open spec fn registered<F>(s: Seq<(Seq<char>, F)>) -> Map<Seq<char>, F>
    decreases s.len(),
{
    if s.len() == 0 {
        Map::empty()
    } else {
        registered(s.drop_last()).insert(s.last().0, s.last().1)
    }
}

pub open spec fn entry_views<F>(s: Seq<(String, F)>) -> Seq<(Seq<char>, F)> {
    s.map_values(|e: (String, F)| (e.0@, e.1))
}

proof fn lemma_registered_last<F>(s: Seq<(Seq<char>, F)>, k: Seq<char>, i: int)
    requires
        0 <= i < s.len(),
        s[i].0 == k,
        forall|j: int| i < j < s.len() ==> (#[trigger] s[j]).0 != k,
    ensures
        registered(s).contains_key(k),
        registered(s)[k] == s[i].1,
    decreases s.len(),
{
    if i < s.len() - 1 {
        assert forall|j: int| i < j < s.drop_last().len() implies (#[trigger] s.drop_last()[j]).0
            != k by {
            assert(s.drop_last()[j] == s[j]);
        }
        lemma_registered_last(s.drop_last(), k, i);
    }
}

proof fn lemma_registered_absent<F>(s: Seq<(Seq<char>, F)>, k: Seq<char>)
    requires
        forall|j: int| 0 <= j < s.len() ==> (#[trigger] s[j]).0 != k,
    ensures
        !registered(s).contains_key(k),
    decreases s.len(),
{
    if s.len() > 0 {
        assert forall|j: int| 0 <= j < s.drop_last().len() implies (#[trigger] s.drop_last()[j]).0
            != k by {
            assert(s.drop_last()[j] == s[j]);
        }
        lemma_registered_absent(s.drop_last(), k);
    }
}

/// The driver factories, by the URI scheme that selects them.
pub struct DriverRepo<F> {
    scheme: Vec<(String, F)>,
}

impl<F> View for DriverRepo<F> {
    type V = Map<Seq<char>, F>;

    closed spec fn view(&self) -> Map<Seq<char>, F> {
        registered(entry_views(self.scheme@))
    }
}

impl<F> DriverRepo<F> {
    /// A registry with no scheme.
    pub fn new() -> (r: DriverRepo<F>)
        ensures
            r@ == Map::<Seq<char>, F>::empty(),
    {
        let r = DriverRepo { scheme: Vec::new() };
        assert(entry_views(r.scheme@) =~= seq![]);
        r
    }

    /// Installs `factory` under `scheme`, in place of any earlier one.
    pub fn register(&mut self, scheme: &str, factory: F)
        ensures
            final(self)@ == old(self)@.insert(scheme@, factory),
    {
        let ghost s0 = self.scheme@;
        let ghost f = factory;
        self.scheme.push((String::from_str(scheme), factory));
        proof {
            assert(entry_views(self.scheme@).drop_last() =~= entry_views(s0));
        }
    }

    /// The factory registered under `scheme`.
    pub fn find(&self, scheme: &str) -> (r: Option<&F>)
        ensures
            match r {
                Some(f) => self@.contains_key(scheme@) && *f == self@[scheme@],
                None => !self@.contains_key(scheme@),
            },
    {
        let ghost s = entry_views(self.scheme@);
        let mut i: usize = self.scheme.len();
        while i > 0
            invariant
                i <= self.scheme@.len(),
                s == entry_views(self.scheme@),
                forall|j: int| i <= j < s.len() ==> (#[trigger] s[j]).0 != scheme@,
            decreases i,
        {
            i -= 1;
            if same_text(self.scheme[i].0.as_str(), scheme) {
                proof {
                    lemma_registered_last(s, scheme@, i as int);
                }
                return Some(&self.scheme[i].1);
            }
        }
        proof {
            lemma_registered_absent(s, scheme@);
        }
        None
    }

    /// Hands the factory registered under `scheme` to `f`; none where the
    /// scheme has no factory.
    pub fn apply<G, T>(&self, scheme: &str, f: G) -> (r: Option<T>) where G: FnOnce(&F) -> Option<T>
        requires
            self@.contains_key(scheme@) ==> f.requires((&self@[scheme@],)),
        ensures
            !self@.contains_key(scheme@) ==> r is None,
            self@.contains_key(scheme@) ==> f.ensures((&self@[scheme@],), r),
    {
        match self.find(scheme) {
            Some(factory) => f(factory),
            None => None,
        }
    }
}

impl<F> Default for DriverRepo<F> {
    fn default() -> (r: DriverRepo<F>)
        ensures
            r@ == Map::<Seq<char>, F>::empty(),
    {
        DriverRepo::new()
    }
}

impl<F: DriverFactory> DriverRepo<F> {
    /// The machine that a URI names: its scheme selects the factory, which
    /// gets the body.
    pub fn from_path(&self, uri: &str) -> (r: Result<F::Machine, Error>)
        ensures
            !self@.contains_key(uri_parts(uri@).0) ==> (r matches Err(Error::SchemeNotFound(s))
                && s@ == uri_parts(uri@).0),
            self@.contains_key(uri_parts(uri@).0) ==> (r is Ok || (r matches Err(
                Error::InvalidUri(b),
            ) && b@ == uri_parts(uri@).1)),
            self@.contains_key(uri_parts(uri@).0) ==> self@[uri_parts(uri@).0].gives(
                uri_parts(uri@).1,
                match r {
                    Ok(m) => Some(m),
                    Err(_) => None,
                },
            ),
    {
        let parts = VmUri::parse(uri);
        match self.find(parts.schema) {
            Some(factory) => match factory.machine_for_uri(parts.path) {
                Some(m) => Ok(m),
                None => Err(Error::InvalidUri(String::from_str(parts.path))),
            },
            None => Err(Error::SchemeNotFound(String::from_str(parts.schema))),
        }
    }
}

} // verus!
