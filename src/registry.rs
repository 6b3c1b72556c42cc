//! One registry that holds every backend, on this host and over `ssh`.
use vstd::prelude::*;
use crate::command::{Local, Spawn, Ssh};
use crate::error::Error;
use crate::remote::{parse_ssh_spec, RemoteFactory};
use crate::uri::{DriverFactory, DriverRepo};
use crate::{virtual_box, vmware, Machine};

verus! {

pub type RemoteVmware<P> = RemoteFactory<vmware::Factory<Ssh<P>>, P>;

pub type RemoteVirtualBox<P> = RemoteFactory<virtual_box::Factory<Ssh<P>>, P>;

/// The factory of any backend, on this host or on a remote one.
pub enum AnyFactory<P> {
    Vmware(vmware::Driver<Local<P>>),
    RemoteVmware(RemoteVmware<P>),
    VirtualBox(virtual_box::Driver<Local<P>>),
    RemoteVirtualBox(RemoteVirtualBox<P>),
}

/// A machine of any backend, on this host or on a remote one.
pub enum AnyMachine<P> {
    Vmware(vmware::MachineRef<Local<P>>),
    RemoteVmware(vmware::MachineRef<Ssh<P>>),
    VirtualBox(virtual_box::MachineRef<Local<P>>),
    RemoteVirtualBox(virtual_box::MachineRef<Ssh<P>>),
}

impl<P: Spawn + Clone> DriverFactory for AnyFactory<P> {
    type Machine = AnyMachine<P>;

    /// An answer of the factory in the variant, given as a machine of the
    /// same variant.
    open spec fn gives(&self, uri: Seq<char>, r: Option<AnyMachine<P>>) -> bool {
        match self {
            AnyFactory::Vmware(f) => match r {
                None => f.gives(uri, None),
                Some(AnyMachine::Vmware(m)) => f.gives(uri, Some(m)),
                Some(_) => false,
            },
            AnyFactory::RemoteVmware(f) => match r {
                None => f.gives(uri, None),
                Some(AnyMachine::RemoteVmware(m)) => f.gives(uri, Some(m)),
                Some(_) => false,
            },
            AnyFactory::VirtualBox(f) => match r {
                None => f.gives(uri, None),
                Some(AnyMachine::VirtualBox(m)) => f.gives(uri, Some(m)),
                Some(_) => false,
            },
            AnyFactory::RemoteVirtualBox(f) => match r {
                None => f.gives(uri, None),
                Some(AnyMachine::RemoteVirtualBox(m)) => f.gives(uri, Some(m)),
                Some(_) => false,
            },
        }
    }

    fn machine_for_uri(&self, uri: &str) -> (r: Option<AnyMachine<P>>) {
        match self {
            AnyFactory::Vmware(f) => match f.machine_for_uri(uri) {
                Some(m) => Some(AnyMachine::Vmware(m)),
                None => None,
            },
            AnyFactory::RemoteVmware(f) => match f.machine_for_uri(uri) {
                Some(m) => Some(AnyMachine::RemoteVmware(m)),
                None => None,
            },
            AnyFactory::VirtualBox(f) => match f.machine_for_uri(uri) {
                Some(m) => Some(AnyMachine::VirtualBox(m)),
                None => None,
            },
            AnyFactory::RemoteVirtualBox(f) => match f.machine_for_uri(uri) {
                Some(m) => Some(AnyMachine::RemoteVirtualBox(m)),
                None => None,
            },
        }
    }
}

impl<P: Spawn + Clone> Machine for AnyMachine<P> {
    open spec fn named(&self, n: Seq<char>) -> bool {
        match self {
            AnyMachine::Vmware(m) => m.named(n),
            AnyMachine::RemoteVmware(m) => m.named(n),
            AnyMachine::VirtualBox(m) => m.named(n),
            AnyMachine::RemoteVirtualBox(m) => m.named(n),
        }
    }

    fn name(&self) -> &str {
        match self {
            AnyMachine::Vmware(m) => m.name(),
            AnyMachine::RemoteVmware(m) => m.name(),
            AnyMachine::VirtualBox(m) => m.name(),
            AnyMachine::RemoteVirtualBox(m) => m.name(),
        }
    }

    fn list_snapshots(&self) -> Result<Vec<String>, Error> {
        match self {
            AnyMachine::Vmware(m) => m.list_snapshots(),
            AnyMachine::RemoteVmware(m) => m.list_snapshots(),
            AnyMachine::VirtualBox(m) => m.list_snapshots(),
            AnyMachine::RemoteVirtualBox(m) => m.list_snapshots(),
        }
    }

    fn stop(&mut self) -> Result<(), Error> {
        match self {
            AnyMachine::Vmware(m) => m.stop(),
            AnyMachine::RemoteVmware(m) => m.stop(),
            AnyMachine::VirtualBox(m) => m.stop(),
            AnyMachine::RemoteVirtualBox(m) => m.stop(),
        }
    }

    fn start(&mut self) -> Result<(), Error> {
        match self {
            AnyMachine::Vmware(m) => m.start(),
            AnyMachine::RemoteVmware(m) => m.start(),
            AnyMachine::VirtualBox(m) => m.start(),
            AnyMachine::RemoteVirtualBox(m) => m.start(),
        }
    }

    fn revert_to(&mut self, snapshot_name: &str) -> Result<(), Error> {
        match self {
            AnyMachine::Vmware(m) => m.revert_to(snapshot_name),
            AnyMachine::RemoteVmware(m) => m.revert_to(snapshot_name),
            AnyMachine::VirtualBox(m) => m.revert_to(snapshot_name),
            AnyMachine::RemoteVirtualBox(m) => m.revert_to(snapshot_name),
        }
    }

    fn create_snapshot(&mut self, snapshot_name: &str) -> Result<(), Error> {
        match self {
            AnyMachine::Vmware(m) => m.create_snapshot(snapshot_name),
            AnyMachine::RemoteVmware(m) => m.create_snapshot(snapshot_name),
            AnyMachine::VirtualBox(m) => m.create_snapshot(snapshot_name),
            AnyMachine::RemoteVirtualBox(m) => m.create_snapshot(snapshot_name),
        }
    }
}

/// A local factory answers a body with the machine at that path, run by
/// its own program on this host.
pub proof fn lemma_local_gives<P: Spawn + Clone>(f: AnyFactory<P>, uri: Seq<char>, r: Option<AnyMachine<P>>)
    requires
        f is Vmware || f is VirtualBox,
        f.gives(uri, r),
    ensures
        f is Vmware ==> (r matches Some(AnyMachine::Vmware(m)) && m.path() == uri && m.context()
            == f->Vmware_0.context()),
        f is VirtualBox ==> (r matches Some(AnyMachine::VirtualBox(m)) && m.path() == uri
            && m.uuid() is None && m.context() == f->VirtualBox_0.context()),
{
}

/// A remote factory answers a body that names a host and a path with the
/// machine at that path, whose commands run through `ssh` to that host with
/// a clone of the factory's spawner.
pub proof fn lemma_remote_gives<P: Spawn + Clone>(
    f: AnyFactory<P>,
    uri: Seq<char>,
    r: Option<AnyMachine<P>>,
    h: Seq<char>,
    p: Seq<char>,
)
    requires
        f is RemoteVmware || f is RemoteVirtualBox,
        f.gives(uri, r),
        parse_ssh_spec(uri) == Some((h, p)),
    ensures
        f is RemoteVmware ==> (r matches Some(AnyMachine::RemoteVmware(m)) && m.path() == p
            && m.context().program@ == "vmrun"@ && m.context().runner.host@ == h && cloned(
            f->RemoteVmware_0.spawner(),
            m.context().runner.spawner,
        )),
        f is RemoteVirtualBox ==> (r matches Some(AnyMachine::RemoteVirtualBox(m)) && m.path() == p
            && m.context().program@ == "vboxmanage"@ && m.context().runner.host@ == h && cloned(
            f->RemoteVirtualBox_0.spawner(),
            m.context().runner.spawner,
        )),
{
    match f {
        AnyFactory::RemoteVmware(g) => {
            let inner = match r {
                Some(AnyMachine::RemoteVmware(m)) => Some(m),
                _ => None,
            };
            vmware::lemma_remote_machine(g, uri, inner, h, p);
        },
        AnyFactory::RemoteVirtualBox(g) => {
            let inner = match r {
                Some(AnyMachine::RemoteVirtualBox(m)) => Some(m),
                _ => None,
            };
            virtual_box::lemma_remote_machine(g, uri, inner, h, p);
        },
        _ => {},
    }
}

/// The registry of every backend: `vmware` and `virtualbox` on this host,
/// `ssh+vmware` and `ssh+virtualbox` on the host that the URI body names.
pub fn driver<P: Spawn + Clone>(spawner: P) -> (r: DriverRepo<AnyFactory<P>>)
    ensures
        r@.dom() =~= set!["vmware"@, "ssh+vmware"@, "virtualbox"@, "ssh+virtualbox"@],
        r@["vmware"@] matches AnyFactory::Vmware(d) && d.context().program@ == "vmrun"@ && cloned(
            spawner,
            d.context().runner.spawner,
        ),
        r@["ssh+vmware"@] matches AnyFactory::RemoteVmware(f) && cloned(spawner, f.spawner()),
        r@["virtualbox"@] matches AnyFactory::VirtualBox(d) && d.context().program@ == "vboxmanage"@
            && cloned(spawner, d.context().runner.spawner),
        r@["ssh+virtualbox"@] matches AnyFactory::RemoteVirtualBox(f) && cloned(spawner, f.spawner()),
{
    proof {
        reveal_strlit("vmware");
        reveal_strlit("ssh+vmware");
        reveal_strlit("virtualbox");
        reveal_strlit("ssh+virtualbox");
    }
    let mut uri = DriverRepo::new();
    uri.register("vmware", AnyFactory::Vmware(vmware::local_driver(spawner.clone())));
    uri.register("ssh+vmware", AnyFactory::RemoteVmware(vmware::remote_driver(spawner.clone())));
    uri.register("virtualbox", AnyFactory::VirtualBox(virtual_box::local_driver(spawner.clone())));
    uri.register(
        "ssh+virtualbox",
        AnyFactory::RemoteVirtualBox(virtual_box::remote_driver(spawner)),
    );
    assert("vmware"@.len() == 6 && "ssh+vmware"@.len() == 10 && "virtualbox"@.len() == 10
        && "ssh+virtualbox"@.len() == 14);
    assert("ssh+vmware"@[0] != "virtualbox"@[0]);
    uri
}

} // verus!
