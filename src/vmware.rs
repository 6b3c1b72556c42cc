//! The backend whose management program prints a summary line with a count,
//! then one line per item.
use std::marker::PhantomData;
use std::rc::Rc;
use vstd::prelude::*;
use crate::command::{
    local, share, views, words2, words3, CommandRunner, Context, FromCommandRunner, Local, Output, done_outcome, strings_result,
    Spawn, Ssh,
};
use crate::error::Error;
use crate::remote::{parse_ssh_spec, refused, RemoteFactory};
use crate::text::{parse_usize, strip_prefix, usize_from_text};
use crate::uri::DriverFactory;

verus! {

/// The count that a summary line states after `prefix`, where it has one.
pub open spec fn summary_count(line: Seq<char>, prefix: Seq<char>) -> Option<usize> {
    if prefix.is_prefix_of(line) {
        usize_from_text(line.skip(prefix.len() as int))
    } else {
        None
    }
}

/// The items that follow the summary line: at most `n` of them, in order.
pub open spec fn listed(lines: Seq<Seq<char>>, n: int) -> Seq<Seq<char>> {
    let end = if n + 1 < lines.len() {
        n + 1
    } else {
        lines.len() as int
    };
    lines.subrange(1, end)
}

/// The items of a listing that starts with `prefix` and a count, where the
/// listing is well formed.
pub open spec fn listing(lines: Seq<Seq<char>>, prefix: Seq<char>) -> Option<Seq<Seq<char>>> {
    if lines.len() > 0 && summary_count(lines[0], prefix) is Some {
        Some(listed(lines, summary_count(lines[0], prefix)->Some_0 as int))
    } else {
        None
    }
}

pub open spec fn running_prefix() -> Seq<char> {
    "Total running VMs: "@
}

pub open spec fn snapshots_prefix() -> Seq<char> {
    "Total snapshots: "@
}

/// `r` is what a listing command amounts to when it printed `out`: its
/// items, or `MissingSummary` for an empty output, or `InvalidResponse` with
/// the first line where that line is no summary.
pub open spec fn listing_answer(out: Seq<Seq<char>>, prefix: Seq<char>, r: Result<Seq<Seq<char>>, Error>) -> bool {
    match listing(out, prefix) {
        Some(items) => r == Ok::<Seq<Seq<char>>, Error>(items),
        None => if out.len() == 0 {
            r matches Err(Error::MissingSummary)
        } else {
            r matches Err(Error::InvalidResponse(l)) && l@ == out[0]
        },
    }
}

/// `r` follows from the runner's answer `o` to a listing command: the
/// listing of what it printed, or the runner's error unchanged.
pub open spec fn listing_outcome(o: Result<Output, Error>, prefix: Seq<char>, r: Result<Seq<Seq<char>>, Error>) -> bool {
    match o {
        Ok(out) => listing_answer(out@, prefix, r),
        Err(e) => r == Err::<Seq<Seq<char>>, Error>(e),
    }
}

/// Two listings of the same answer agree: they succeed together, with the
/// same items, and fail together.
pub proof fn lemma_listing_repeatable(
    o: Result<Output, Error>,
    prefix: Seq<char>,
    r1: Result<Seq<Seq<char>>, Error>,
    r2: Result<Seq<Seq<char>>, Error>,
)
    requires
        listing_outcome(o, prefix, r1),
        listing_outcome(o, prefix, r2),
    ensures
        r1 is Ok <==> r2 is Ok,
        r1 is Ok ==> r1 == r2,
        o is Err ==> r1 == r2,
{
}

pub open spec fn list_words() -> Seq<Seq<char>> {
    seq!["list"@]
}

pub open spec fn snapshots_words(path: Seq<char>) -> Seq<Seq<char>> {
    seq!["listSnapshots"@, path]
}

pub open spec fn start_words(path: Seq<char>) -> Seq<Seq<char>> {
    seq!["start"@, path, "nogui"@]
}

pub open spec fn stop_words(path: Seq<char>) -> Seq<Seq<char>> {
    seq!["stop"@, path, "hard"@]
}

pub open spec fn snapshot_words(path: Seq<char>, name: Seq<char>) -> Seq<Seq<char>> {
    seq!["snapshot"@, path, name]
}

pub open spec fn revert_words(path: Seq<char>, name: Seq<char>) -> Seq<Seq<char>> {
    seq!["revertToSnapshot"@, path, name]
}

/// Reads a listing: a summary line of `prefix` and a count, then the items.
/// Lines past the count are ignored; fewer lines give fewer items.
pub fn parse_listing(lines: &Vec<String>, prefix: &str) -> (r: Result<Vec<String>, Error>)
    ensures
        lines@.len() == 0 ==> r matches Err(Error::MissingSummary),
        lines@.len() > 0 && summary_count(lines@[0]@, prefix@) is None ==> (r matches Err(
            Error::InvalidResponse(l),
        ) && l@ == lines@[0]@),
        r is Ok <==> listing(views(lines@), prefix@) is Some,
        r matches Ok(v) ==> Some(views(v@)) == listing(views(lines@), prefix@),
        listing_answer(views(lines@), prefix@, strings_result(r)),
{
    if lines.len() == 0 {
        return Err(Error::MissingSummary);
    }
    proof {
        assert(views(lines@)[0] == lines@[0]@);
    }
    let n = match strip_prefix(lines[0].as_str(), prefix) {
        Some(rest) => match parse_usize(rest) {
            Some(n) => n,
            None => {
                return Err(Error::InvalidResponse(lines[0].clone()));
            },
        },
        None => {
            return Err(Error::InvalidResponse(lines[0].clone()));
        },
    };
    let len = lines.len();
    let end = if n < len - 1 {
        n + 1
    } else {
        len
    };
    let mut v: Vec<String> = Vec::new();
    let mut i: usize = 1;
    while i < end
        invariant
            1 <= i <= end <= len,
            len == lines@.len(),
            views(v@) == views(lines@).subrange(1, i as int),
        decreases end - i,
    {
        let ghost v0 = v@;
        v.push(lines[i].clone());
        proof {
            assert(v@ == v0.push(lines@[i as int]));
            assert(views(v@) =~= views(v0).push(lines@[i as int]@));
            assert(views(v@) =~= views(lines@).subrange(1, i + 1));
        }
        i += 1;
    }
    Ok(v)
}

/// Reads the output of `list`: the paths of the running machines.
pub fn parse_running(lines: &Vec<String>) -> (r: Result<Vec<String>, Error>)
    ensures
        r is Ok <==> listing(views(lines@), running_prefix()) is Some,
        r matches Ok(v) ==> Some(views(v@)) == listing(views(lines@), running_prefix()),
        listing_answer(views(lines@), running_prefix(), strings_result(r)),
        lines@.len() == 0 ==> r matches Err(Error::MissingSummary),
        lines@.len() > 0 && summary_count(lines@[0]@, running_prefix()) is None ==> (r matches Err(
            Error::InvalidResponse(l),
        ) && l@ == lines@[0]@),
{
    parse_listing(lines, "Total running VMs: ")
}

/// Reads the output of `listSnapshots`: the snapshot names, in order.
pub fn parse_snapshots(lines: &Vec<String>) -> (r: Result<Vec<String>, Error>)
    ensures
        r is Ok <==> listing(views(lines@), snapshots_prefix()) is Some,
        r matches Ok(v) ==> Some(views(v@)) == listing(views(lines@), snapshots_prefix()),
        listing_answer(views(lines@), snapshots_prefix(), strings_result(r)),
        lines@.len() == 0 ==> r matches Err(Error::MissingSummary),
        lines@.len() > 0 && summary_count(lines@[0]@, snapshots_prefix()) is None ==> (r matches Err(
            Error::InvalidResponse(l),
        ) && l@ == lines@[0]@),
{
    parse_listing(lines, "Total snapshots: ")
}

/// The arguments that list the running machines.
pub fn list_args() -> (r: Vec<String>)
    ensures
        views(r@) == list_words(),
{
    let mut r: Vec<String> = Vec::new();
    r.push(String::from_str("list"));
    assert(views(r@) =~= seq!["list"@]);
    r
}

/// A driver for this backend over one command runner.
pub struct Driver<C> {
    inner: Rc<Context<C>>,
}

/// Makes drivers for this backend from command runners.
pub struct Factory<C> {
    marker: PhantomData<C>,
}

/// A factory of drivers for this backend.
pub fn factory<C: CommandRunner>() -> Factory<C> {
    Factory { marker: PhantomData }
}

impl<C: CommandRunner> Factory<C> {
    /// A driver that runs `vmrun` through `cmd`.
    pub fn from_cmd(&self, cmd: C) -> (r: Driver<C>)
        ensures
            r.context().program@ == "vmrun"@,
            r.context().runner == cmd,
    {
        Driver { inner: Rc::new(Context { program: String::from_str("vmrun"), runner: cmd }) }
    }
}

impl<C: CommandRunner + Default> Default for Driver<C> {
    /// A driver that runs `vmrun` through the default runner.
    fn default() -> (r: Driver<C>)
        ensures
            r.context().program@ == "vmrun"@,
    {
        Driver { inner: Rc::new(Context { program: String::from_str("vmrun"), runner: C::default() }) }
    }
}

impl<C: CommandRunner> FromCommandRunner for Factory<C> {
    type Command = C;

    type Output = Driver<C>;

    open spec fn made(&self, cmd: C, d: Driver<C>) -> bool {
        d.context().program@ == "vmrun"@ && d.context().runner == cmd
    }

    fn from_cmd(&self, cmd: C) -> Driver<C> {
        Factory::from_cmd(self, cmd)
    }
}

/// One machine of this backend, named by the path of its configuration.
pub struct MachineRef<C> {
    driver_ref: Rc<Context<C>>,
    path: String,
}

impl<C> Driver<C> {
    /// The execution context that every machine of this driver shares.
    pub closed spec fn context(&self) -> Context<C> {
        *self.inner
    }
}

impl<C> MachineRef<C> {
    /// The execution context that this machine runs its commands in.
    pub closed spec fn context(&self) -> Context<C> {
        *self.driver_ref
    }

    /// The path of the machine's configuration.
    pub closed spec fn path(&self) -> Seq<char> {
        self.path@
    }
}

/// The paths of a sequence of machines.
pub open spec fn paths<C>(ms: Seq<MachineRef<C>>) -> Seq<Seq<char>> {
    ms.map_values(|m: MachineRef<C>| m.path())
}

impl<C: CommandRunner> Driver<C> {
    fn machine(&self, path: &str) -> (r: MachineRef<C>)
        ensures
            r.path() == path@,
            r.context() == self.context(),
    {
        MachineRef { driver_ref: share(&self.inner), path: String::from_str(path) }
    }

    /// The machine whose configuration is at `path`.
    pub fn from_path(&self, path: &str) -> (r: Result<MachineRef<C>, Error>)
        ensures
            r matches Ok(m) && m.path() == path@ && m.context() == self.context(),
    {
        Ok(self.machine(path))
    }

    /// The machines that `list` reports as running, in the order printed:
    /// the runner runs `list`, and its answer is read as a listing.
    pub fn list_running(&self) -> (r: Result<Vec<MachineRef<C>>, Error>)
        ensures
            exists|o: Result<Output, Error>|
                self.context().runner.ran(self.context().program@, list_words(), o)
                    && #[trigger] listing_outcome(o, running_prefix(), machines_result(r)),
            r matches Ok(ms) ==> forall|i: int|
                0 <= i < ms@.len() ==> (#[trigger] ms@[i]).context() == self.context(),
    {
        let args = list_args();
        let answer = self.inner.run(&args);
        let ghost o = answer;
        let out = match answer {
            Ok(out) => out,
            Err(e) => {
                let r = Err(e);
                assert(listing_outcome(o, running_prefix(), machines_result(r)));
                return r;
            },
        };
        let names = match parse_running(out.lines()) {
            Ok(v) => v,
            Err(e) => {
                let r = Err(e);
                assert(listing_outcome(o, running_prefix(), machines_result(r)));
                return r;
            },
        };
        let mut ms: Vec<MachineRef<C>> = Vec::new();
        let mut i: usize = 0;
        assert(paths(ms@) =~= views(names@).subrange(0, 0));
        while i < names.len()
            invariant
                i <= names@.len(),
                paths(ms@) == views(names@).subrange(0, i as int),
                forall|j: int| 0 <= j < ms@.len() ==> (#[trigger] ms@[j]).context() == self.context(),
            decreases names@.len() - i,
        {
            let m = self.machine(names[i].as_str());
            let ghost ms0 = ms@;
            ms.push(m);
            proof {
                assert(ms@ == ms0.push(m));
                assert(paths(ms@) =~= paths(ms0).push(names@[i as int]@));
                assert(paths(ms@) =~= views(names@).subrange(0, i + 1));
            }
            i += 1;
        }
        assert(views(names@).subrange(0, names@.len() as int) =~= views(names@));
        let r = Ok(ms);
        assert(listing_outcome(o, running_prefix(), machines_result(r)));
        r
    }
}

/// The paths of a result's machines, or its error.
pub open spec fn machines_result<C>(r: Result<Vec<MachineRef<C>>, Error>) -> Result<Seq<Seq<char>>, Error> {
    match r {
        Ok(ms) => Ok(paths(ms@)),
        Err(e) => Err(e),
    }
}

impl<C: CommandRunner> MachineRef<C> {
    /// The path that names this machine.
    pub fn name(&self) -> (r: &str)
        ensures
            r@ == self.path(),
    {
        self.path.as_str()
    }

    /// The arguments that list this machine's snapshots.
    pub fn snapshots_args(&self) -> (r: Vec<String>)
        ensures
            views(r@) == snapshots_words(self.path()),
    {
        words2("listSnapshots", self.path.as_str())
    }

    /// The arguments that start this machine without a window.
    pub fn start_args(&self) -> (r: Vec<String>)
        ensures
            views(r@) == start_words(self.path()),
    {
        words3("start", self.path.as_str(), "nogui")
    }

    /// The arguments that power this machine off at once.
    pub fn stop_args(&self) -> (r: Vec<String>)
        ensures
            views(r@) == stop_words(self.path()),
    {
        words3("stop", self.path.as_str(), "hard")
    }

    /// The arguments that take a snapshot named `snapshot_name`.
    pub fn snapshot_args(&self, snapshot_name: &str) -> (r: Vec<String>)
        ensures
            views(r@) == snapshot_words(self.path(), snapshot_name@),
    {
        words3("snapshot", self.path.as_str(), snapshot_name)
    }

    /// The arguments that restore the snapshot named `snapshot_name`.
    pub fn revert_args(&self, snapshot_name: &str) -> (r: Vec<String>)
        ensures
            views(r@) == revert_words(self.path(), snapshot_name@),
    {
        words3("revertToSnapshot", self.path.as_str(), snapshot_name)
    }

    /// The snapshot names that `listSnapshots` reports, in the order
    /// printed: the runner runs `listSnapshots`, and its answer is read as
    /// a listing.
    pub fn list_snapshots(&self) -> (r: Result<Vec<String>, Error>)
        ensures
            exists|o: Result<Output, Error>|
                self.context().runner.ran(self.context().program@, snapshots_words(self.path()), o)
                    && #[trigger] listing_outcome(o, snapshots_prefix(), strings_result(r)),
    {
        let answer = self.driver_ref.run(&self.snapshots_args());
        let ghost o = answer;
        let r = match answer {
            Ok(out) => parse_snapshots(out.lines()),
            Err(e) => Err(e),
        };
        assert(listing_outcome(o, snapshots_prefix(), strings_result(r)));
        r
    }

    /// Runs one command of this machine and passes its outcome on.
    fn run_done(&self, args: &Vec<String>) -> (r: Result<(), Error>)
        ensures
            exists|o: Result<Output, Error>|
                self.context().runner.ran(self.context().program@, views(args@), o)
                    && #[trigger] done_outcome(o, r),
    {
        let answer = self.driver_ref.run(args);
        let ghost o = answer;
        let r = match answer {
            Ok(_) => Ok(()),
            Err(e) => Err(e),
        };
        assert(done_outcome(o, r));
        r
    }

    /// Powers the machine off: the runner runs `stop <path> hard`, and its
    /// success or error is the result.
    pub fn stop(&mut self) -> (r: Result<(), Error>)
        ensures
            final(self).path() == old(self).path(),
            final(self).context() == old(self).context(),
            exists|o: Result<Output, Error>|
                old(self).context().runner.ran(old(self).context().program@, stop_words(old(self).path()), o)
                    && #[trigger] done_outcome(o, r),
    {
        self.run_done(&self.stop_args())
    }

    /// Starts the machine without a window: the runner runs
    /// `start <path> nogui`, and its success or error is the result.
    pub fn start(&mut self) -> (r: Result<(), Error>)
        ensures
            final(self).path() == old(self).path(),
            final(self).context() == old(self).context(),
            exists|o: Result<Output, Error>|
                old(self).context().runner.ran(old(self).context().program@, start_words(old(self).path()), o)
                    && #[trigger] done_outcome(o, r),
    {
        self.run_done(&self.start_args())
    }

    /// The commands that a revert runs, in order: restore the snapshot, then
    /// start the machine. This backend leaves a machine powered off after a
    /// restore, and a revert leaves it running.
    pub fn revert_plan(&self, snapshot_name: &str) -> (r: Vec<Vec<String>>)
        ensures
            r@.len() == 2,
            views(r@[0]@) == revert_words(self.path(), snapshot_name@),
            views(r@[1]@) == start_words(self.path()),
    {
        let mut r: Vec<Vec<String>> = Vec::new();
        r.push(self.revert_args(snapshot_name));
        r.push(self.start_args());
        r
    }

    /// Restores a snapshot, then starts the machine, as `revert_plan` says.
    /// A failed restore is the result, and no start follows; else the
    /// start's success or error is the result.
    pub fn revert_to(&mut self, snapshot_name: &str) -> (r: Result<(), Error>)
        ensures
            final(self).path() == old(self).path(),
            final(self).context() == old(self).context(),
            exists|o1: Result<Output, Error>|
                #[trigger] old(self).context().runner.ran(
                    old(self).context().program@,
                    revert_words(old(self).path(), snapshot_name@),
                    o1,
                ) && (o1 matches Err(e) ==> r == Err::<(), Error>(e)) && (o1 is Ok ==> exists|
                    o2: Result<Output, Error>,
                |
                    old(self).context().runner.ran(old(self).context().program@, start_words(old(self).path()), o2)
                        && #[trigger] done_outcome(o2, r)),
    {
        let answer = self.driver_ref.run(&self.revert_args(snapshot_name));
        let ghost o1 = answer;
        assert(self.context().runner.ran(
            self.context().program@,
            revert_words(self.path(), snapshot_name@),
            o1,
        ));
        match answer {
            Ok(_) => {
                let r = self.run_done(&self.start_args());
                r
            },
            Err(e) => {
                let r = Err(e);
                assert(o1 matches Err(e) ==> r == Err::<(), Error>(e));
                r
            },
        }
    }

    /// Takes a snapshot named `snapshot_name`: the runner runs
    /// `snapshot <path> <name>`, and its success or error is the result.
    pub fn create_snapshot(&mut self, snapshot_name: &str) -> (r: Result<(), Error>)
        ensures
            final(self).path() == old(self).path(),
            final(self).context() == old(self).context(),
            exists|o: Result<Output, Error>|
                old(self).context().runner.ran(
                    old(self).context().program@,
                    snapshot_words(old(self).path(), snapshot_name@),
                    o,
                ) && #[trigger] done_outcome(o, r),
    {
        self.run_done(&self.snapshot_args(snapshot_name))
    }
}

impl<C: CommandRunner> crate::Driver for Driver<C> {
    type Machine = MachineRef<C>;

    open spec fn found(&self, path: Seq<char>, r: Result<MachineRef<C>, Error>) -> bool {
        r matches Ok(m) && m.path() == path && m.context() == self.context()
    }

    fn list_running(&self) -> Result<Vec<MachineRef<C>>, Error> {
        Driver::list_running(self)
    }

    fn from_path(&self, path: &str) -> Result<MachineRef<C>, Error> {
        Driver::from_path(self, path)
    }
}

impl<C: CommandRunner> crate::Machine for MachineRef<C> {
    open spec fn named(&self, n: Seq<char>) -> bool {
        n == self.path()
    }

    fn name(&self) -> &str {
        MachineRef::name(self)
    }

    fn list_snapshots(&self) -> Result<Vec<String>, Error> {
        MachineRef::list_snapshots(self)
    }

    fn stop(&mut self) -> Result<(), Error> {
        MachineRef::stop(self)
    }

    fn start(&mut self) -> Result<(), Error> {
        MachineRef::start(self)
    }

    fn revert_to(&mut self, snapshot_name: &str) -> Result<(), Error> {
        MachineRef::revert_to(self, snapshot_name)
    }

    fn create_snapshot(&mut self, snapshot_name: &str) -> Result<(), Error> {
        MachineRef::create_snapshot(self, snapshot_name)
    }
}

impl<C: CommandRunner> DriverFactory for Driver<C> {
    type Machine = MachineRef<C>;

    open spec fn gives(&self, uri: Seq<char>, r: Option<MachineRef<C>>) -> bool {
        r matches Some(m) && m.path() == uri && m.context() == self.context()
    }

    fn machine_for_uri(&self, uri: &str) -> Option<MachineRef<C>> {
        Some(self.machine(uri))
    }
}

/// A driver that runs `vmrun` on this host.
pub fn local_driver<P: Spawn>(spawner: P) -> (r: Driver<Local<P>>)
    ensures
        r.context().program@ == "vmrun"@,
        r.context().runner.spawner == spawner,
{
    factory().from_cmd(local(spawner))
}

/// A factory of machines on remote hosts, whose driver runs `vmrun` there
/// through `ssh`.
pub fn remote_driver<P: Spawn + Clone>(spawner: P) -> (r: RemoteFactory<Factory<Ssh<P>>, P>)
    ensures
        r.spawner() == spawner,
{
    RemoteFactory::new(factory(), spawner)
}

/// A remote factory of this backend answers a body that names a host and a
/// path with the machine at that path, whose `vmrun` runs through `ssh` to
/// that host with a clone of the factory's spawner.
pub proof fn lemma_remote_machine<P: Spawn + Clone>(
    f: RemoteFactory<Factory<Ssh<P>>, P>,
    uri: Seq<char>,
    r: Option<MachineRef<Ssh<P>>>,
    h: Seq<char>,
    p: Seq<char>,
)
    requires
        f.remote_gives(uri, r),
        parse_ssh_spec(uri) == Some((h, p)),
    ensures
        r matches Some(m) && m.path() == p && m.context().program@ == "vmrun"@
            && m.context().runner.host@ == h && cloned(f.spawner(), m.context().runner.spawner),
{
    let (c, d) = choose|c: Ssh<P>, d: Driver<Ssh<P>>|
        #[trigger] f.factory().made(c, d) && c.host@ == h && cloned(f.spawner(), c.spawner)
            && match r {
            Some(m) => crate::Driver::found(&d, p, Ok::<MachineRef<Ssh<P>>, Error>(m)),
            None => refused(d, p),
        };
    if r is None {
        let e = choose|e: Error| #[trigger] crate::Driver::found(&d, p, Err::<MachineRef<Ssh<P>>, Error>(e));
        assert(false);
    }
}

} // verus!
