//! Drivers that reach their backend on a remote host through `ssh`.
use vstd::prelude::*;
use crate::command::{ssh, FromCommandRunner, Spawn, Ssh};
use crate::text::{find_char, first_index, split_around, strip_prefix};
use crate::error::Error;
use crate::uri::DriverFactory;
use crate::Driver;

verus! {

/// A remote body after its leading `//`, if it has one.
pub open spec fn remote_rest(p: Seq<char>) -> Seq<char> {
    if "//"@.is_prefix_of(p) {
        p.skip(2)
    } else {
        p
    }
}

/// The host and path of a remote body: after a leading `//` is dropped, the
/// body is cut at its first `:`, or else at its first `/`; with neither it
/// names no host.
pub open spec fn parse_ssh_spec(p: Seq<char>) -> Option<(Seq<char>, Seq<char>)> {
    let s = remote_rest(p);
    let c = first_index(s, ':', 0);
    let d = first_index(s, '/', 0);
    if c < s.len() {
        Some((s.take(c), s.skip(c + 1)))
    } else if d < s.len() {
        Some((s.take(d), s.skip(d + 1)))
    } else {
        None
    }
}

proof fn lemma_first_index_absent(s: Seq<char>, c: char, i: int)
    requires
        0 <= i <= s.len(),
        !s.contains(c),
    ensures
        first_index(s, c, i) == s.len(),
    decreases s.len() - i,
{
    if i < s.len() {
        assert(s[i] != c);
        lemma_first_index_absent(s, c, i + 1);
    }
}

/// A remote body that holds neither `:` nor `/` names no host.
pub proof fn lemma_no_separator_no_host(p: Seq<char>)
    requires
        !p.contains(':'),
        !p.contains('/'),
    ensures
        parse_ssh_spec(p) is None,
{
    reveal_strlit("//");
    let s = remote_rest(p);
    if "//"@.is_prefix_of(p) {
        assert forall|c: char| s.contains(c) implies p.contains(c) by {
            let j = choose|j: int| 0 <= j < s.len() && s[j] == c;
            assert(p[j + 2] == c);
        }
    }
    lemma_first_index_absent(s, ':', 0);
    lemma_first_index_absent(s, '/', 0);
}

/// Splits a remote body into its host and its path.
pub fn parse_ssh(path: &str) -> (r: Option<(&str, &str)>)
    ensures
        match r {
            Some((h, p)) => parse_ssh_spec(path@) == Some((h@, p@)),
            None => parse_ssh_spec(path@) is None,
        },
{
    proof {
        reveal_strlit("//");
    }
    let s = match strip_prefix(path, "//") {
        Some(rest) => rest,
        None => path,
    };
    assert(s@ == remote_rest(path@));
    match find_char(s, ':') {
        Some(c) => Some(split_around(s, c)),
        None => match find_char(s, '/') {
            Some(d) => Some(split_around(s, d)),
            None => None,
        },
    }
}

/// The driver refused the path: it answered it with some error.
pub open spec fn refused<D: Driver>(d: D, p: Seq<char>) -> bool {
    exists|e: Error| #[trigger] d.found(p, Err::<D::Machine, Error>(e))
}

/// Makes machines on remote hosts: a URI body names the host and the path
/// there, and the backend's driver runs its commands through `ssh`.
pub struct RemoteFactory<R, P> {
    factory: R,
    spawner: P,
}

impl<R, P> RemoteFactory<R, P> {
    pub fn new(factory: R, spawner: P) -> (r: RemoteFactory<R, P>)
        ensures
            r.factory() == factory,
            r.spawner() == spawner,
    {
        RemoteFactory { factory, spawner }
    }

    pub closed spec fn factory(&self) -> R {
        self.factory
    }

    pub closed spec fn spawner(&self) -> P {
        self.spawner
    }
}

impl<R, P, D> RemoteFactory<R, P> where
    R: FromCommandRunner<Command = Ssh<P>, Output = D>,
    D: Driver,
    P: Spawn + Clone,
 {
    /// The machine at the path of a remote body, through a driver bound to
    /// its host; none where the body names no host or the driver refuses
    /// the path.
    pub fn machine_for_uri(&self, uri: &str) -> (r: Option<D::Machine>)
        ensures
            self.remote_gives(uri@, r),
    {
        match parse_ssh(uri) {
            Some((host, path)) => {
                let cmd = ssh(host, self.spawner.clone());
                let ghost c = cmd;
                let driver = self.factory.from_cmd(cmd);
                let found = driver.from_path(path);
                let ghost fr = found;
                match found {
                    Ok(m) => {
                        assert(fr == Ok::<D::Machine, Error>(m));
                        assert(self.factory().made(c, driver) && c.host@ == host@ && cloned(
                            self.spawner(),
                            c.spawner,
                        ) && driver.found(path@, Ok::<D::Machine, Error>(m)));
                        let r = Some(m);
                        assert(parse_ssh_spec(uri@) == Some((host@, path@)));
                        assert(self.remote_gives(uri@, r));
                        r
                    },
                    Err(e) => {
                        assert(fr == Err::<D::Machine, Error>(e));
                        assert(self.factory().made(c, driver) && c.host@ == host@ && cloned(
                            self.spawner(),
                            c.spawner,
                        ) && driver.found(path@, Err::<D::Machine, Error>(e)));
                        let r = None;
                        assert(parse_ssh_spec(uri@) == Some((host@, path@)));
                        assert(refused(driver, path@));
                        assert(self.remote_gives(uri@, r));
                        r
                    },
                }
            },
            None => None,
        }
    }

    /// `r` is an answer for the remote body `uri`: none where it names no
    /// host. Where it names one, a driver was made by the factory over `ssh`
    /// to that host, with a clone of the spawner, and the answer is that
    /// driver's for the path: its machine, or none where it refused the path.
    pub open spec fn remote_gives(&self, uri: Seq<char>, r: Option<D::Machine>) -> bool {
        match parse_ssh_spec(uri) {
            None => r is None,
            Some((h, p)) => exists|c: Ssh<P>, d: D|
                #[trigger] self.factory().made(c, d) && c.host@ == h && cloned(self.spawner(), c.spawner)
                    && match r {
                    Some(m) => d.found(p, Ok::<D::Machine, Error>(m)),
                    None => refused(d, p),
                },
        }
    }
}

impl<R, P, D> DriverFactory for RemoteFactory<R, P> where
    R: FromCommandRunner<Command = Ssh<P>, Output = D>,
    D: Driver,
    P: Spawn + Clone,
 {
    type Machine = D::Machine;

    open spec fn gives(&self, uri: Seq<char>, r: Option<D::Machine>) -> bool {
        self.remote_gives(uri, r)
    }

    fn machine_for_uri(&self, uri: &str) -> Option<D::Machine> {
        RemoteFactory::machine_for_uri(self, uri)
    }
}

} // verus!
