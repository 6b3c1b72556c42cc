use std::borrow::Cow;
use std::cell::RefCell;
use std::rc::Rc;

use vmctrl::command::{
    escape_shell_chars, quote_shell_word, process_result, shell_command_line, ssh_args, CommandRunner, Finished,
    Output, Spawn,
};
use vmctrl::error::Error;
use vmctrl::registry;
use vmctrl::remote::parse_ssh;
use vmctrl::uri::{DriverFactory, DriverRepo, VmUri};
use vmctrl::virtual_box;
use vmctrl::virtual_box::{parse_property, vmslist_parse};
use vmctrl::vmware;
use vmctrl::Machine;

type Log = Rc<RefCell<Vec<(String, Vec<String>)>>>;

/// Answers each command with the next scripted output and records it.
struct Scripted {
    replies: RefCell<Vec<Vec<String>>>,
    log: Log,
}

fn scripted(replies: &[&[&str]]) -> (Scripted, Log) {
    let log: Log = Rc::new(RefCell::new(Vec::new()));
    let replies = replies
        .iter()
        .map(|r| r.iter().map(|l| l.to_string()).collect())
        .collect();
    (
        Scripted {
            replies: RefCell::new(replies),
            log: log.clone(),
        },
        log,
    )
}

impl CommandRunner for Scripted {
    fn run_with_output(&self, cmd: &str, args: &Vec<String>) -> Result<Output, Error> {
        self.log
            .borrow_mut()
            .push((cmd.to_string(), args.clone()));
        let mut replies = self.replies.borrow_mut();
        if replies.is_empty() {
            return Ok(Output::new(Vec::new()));
        }
        Ok(Output::new(replies.remove(0)))
    }
}

/// Records each command and fails it.
struct Failing {
    log: Log,
}

impl CommandRunner for Failing {
    fn run_with_output(&self, cmd: &str, args: &Vec<String>) -> Result<Output, Error> {
        self.log
            .borrow_mut()
            .push((cmd.to_string(), args.clone()));
        Err(Error::Io("no such program".to_string()))
    }
}

/// A process starter that records its calls and prints fixed output.
#[derive(Clone)]
struct FakeSpawn {
    stdout: Vec<u8>,
    log: Log,
}

impl Spawn for FakeSpawn {
    fn spawn(&self, program: &str, args: &Vec<String>) -> Result<Finished, Error> {
        self.log
            .borrow_mut()
            .push((program.to_string(), args.clone()));
        Ok(Finished {
            success: true,
            code: Some(0),
            stdout: self.stdout.clone(),
            stderr: Vec::new(),
        })
    }
}

fn strings(v: &[&str]) -> Vec<String> {
    v.iter().map(|s| s.to_string()).collect()
}

#[test]
fn test_escape_shell_chars() {
    assert_eq!(escape_shell_chars("ala"), "ala");
    assert_eq!(escape_shell_chars("ala ma kota"), "'ala ma kota'");
}

#[test]
fn escape_single_quote() {
    assert_eq!(escape_shell_chars("it's"), "'it'\\''s'");
    assert_eq!(escape_shell_chars("/a/b"), "'/a/b'");
    assert_eq!(escape_shell_chars("Abc123"), "Abc123");
}

#[test]
fn shell_line_joins_escaped_words() {
    let args = strings(&["listSnapshots", "/vm/a b.vmx"]);
    assert_eq!(
        shell_command_line("vmrun", &args),
        "vmrun listSnapshots '/vm/a b.vmx'"
    );
    assert_eq!(shell_command_line("ls", &Vec::new()), "ls");
    assert_eq!(
        ssh_args("host", "vmrun", &strings(&["list"])),
        strings(&["host", "vmrun list"])
    );
}

#[test]
fn output_drops_one_trailing_empty_line() {
    let o = Output::new(strings(&["a", "b", ""]));
    assert_eq!(o.into_lines(), strings(&["a", "b"]));
    let o = Output::new(strings(&["a", "", ""]));
    assert_eq!(o.into_lines(), strings(&["a", ""]));
    let o = Output::new(Vec::new());
    assert_eq!(o.len(), 0);
}

#[test]
fn process_output_is_split_into_lines() {
    let r = process_result(true, Some(0), b"a\nb\n".to_vec(), Vec::new()).unwrap();
    assert_eq!(r.into_lines(), strings(&["a", "b"]));
    let r = process_result(true, Some(0), b"a\n\nb".to_vec(), Vec::new()).unwrap();
    assert_eq!(r.into_lines(), strings(&["a", "", "b"]));
    let r = process_result(true, Some(0), Vec::new(), Vec::new()).unwrap();
    assert_eq!(r.len(), 0);
}

#[test]
fn process_output_that_is_not_utf8_fails() {
    let r = process_result(true, Some(0), vec![0x61, 0xff, 0x0a], Vec::new());
    assert!(matches!(r, Err(Error::Utf8)));
}

#[test]
fn failed_process_reports_code_and_output() {
    match process_result(false, Some(3), b"out".to_vec(), b"err".to_vec()) {
        Err(Error::Exec(code, stderr, stdout)) => {
            assert_eq!(code, 3);
            assert_eq!(stderr.bytes(), &b"err".to_vec());
            assert_eq!(stdout.bytes(), &b"out".to_vec());
        }
        _ => panic!("expected an exec failure"),
    }
    assert!(matches!(
        process_result(false, None, Vec::new(), Vec::new()),
        Err(Error::Exec(0, _, _))
    ));
}

#[test]
fn vmware_lists_running_machines() {
    let (runner, log) = scripted(&[&["Total running VMs: 2", "/a/path", "/b/path", ""]]);
    let driver = vmware::factory().from_cmd(runner);
    let ms = driver.list_running().unwrap();
    let names: Vec<&str> = ms.iter().map(|m| m.name()).collect();
    assert_eq!(names, vec!["/a/path", "/b/path"]);
    assert_eq!(log.borrow()[0], ("vmrun".to_string(), strings(&["list"])));
}

#[test]
fn vmware_listing_with_wrong_summary_fails() {
    let (runner, _log) = scripted(&[&["Running: 2", "/a/path"]]);
    let driver = vmware::factory().from_cmd(runner);
    match driver.list_running() {
        Err(Error::InvalidResponse(line)) => assert_eq!(line, "Running: 2"),
        _ => panic!("expected an invalid response"),
    }
    let (runner, _log) = scripted(&[&["Total running VMs: two"]]);
    let driver = vmware::factory().from_cmd(runner);
    assert!(matches!(driver.list_running(), Err(Error::InvalidResponse(_))));
    let (runner, _log) = scripted(&[&[]]);
    let driver = vmware::factory().from_cmd(runner);
    assert!(matches!(driver.list_running(), Err(Error::MissingSummary)));
}

#[test]
fn vmware_listing_follows_the_count() {
    let lines = strings(&["Total running VMs: 1", "/a", "/b"]);
    assert_eq!(vmware::parse_running(&lines).unwrap(), strings(&["/a"]));
    let lines = strings(&["Total running VMs: 5", "/a"]);
    assert_eq!(vmware::parse_running(&lines).unwrap(), strings(&["/a"]));
    let lines = strings(&["Total running VMs: 0"]);
    assert_eq!(vmware::parse_running(&lines).unwrap().len(), 0);
}

#[test]
fn vmware_lists_snapshots_in_order() {
    let (runner, log) = scripted(&[
        &["Total snapshots: 2", "clean", "work"],
        &["Total snapshots: 2", "clean", "work"],
    ]);
    let driver = vmware::factory().from_cmd(runner);
    let m = driver.from_path("/vm/a.vmx").unwrap();
    let first = m.list_snapshots().unwrap();
    let second = m.list_snapshots().unwrap();
    assert_eq!(first, strings(&["clean", "work"]));
    assert_eq!(first, second);
    assert_eq!(
        log.borrow()[0],
        ("vmrun".to_string(), strings(&["listSnapshots", "/vm/a.vmx"]))
    );
}

#[test]
fn vmware_revert_restores_then_starts() {
    let (runner, log) = scripted(&[]);
    let driver = vmware::factory().from_cmd(runner);
    let mut m = driver.from_path("/vm/a.vmx").unwrap();
    m.revert_to("clean").unwrap();
    let log = log.borrow();
    assert_eq!(log.len(), 2);
    assert_eq!(
        log[0].1,
        strings(&["revertToSnapshot", "/vm/a.vmx", "clean"])
    );
    assert_eq!(log[1].1, strings(&["start", "/vm/a.vmx", "nogui"]));
}

#[test]
fn vmware_revert_plan_restores_then_starts() {
    let (runner, _log) = scripted(&[]);
    let driver = vmware::factory().from_cmd(runner);
    let m = driver.from_path("/vm/a.vmx").unwrap();
    let plan = m.revert_plan("clean");
    assert_eq!(
        plan,
        vec![
            strings(&["revertToSnapshot", "/vm/a.vmx", "clean"]),
            strings(&["start", "/vm/a.vmx", "nogui"]),
        ]
    );
}

#[test]
fn vmware_failed_restore_does_not_start() {
    let log: Log = Rc::new(RefCell::new(Vec::new()));
    let driver = vmware::factory().from_cmd(Failing { log: log.clone() });
    let mut m = driver.from_path("/vm/a.vmx").unwrap();
    assert!(matches!(m.revert_to("clean"), Err(Error::Io(_))));
    assert_eq!(log.borrow().len(), 1);
}

#[test]
fn vmware_lifecycle_commands() {
    let (runner, log) = scripted(&[]);
    let driver = vmware::factory().from_cmd(runner);
    let mut m = driver.from_path("/vm/a.vmx").unwrap();
    m.stop().unwrap();
    m.start().unwrap();
    m.create_snapshot("s1").unwrap();
    let log = log.borrow();
    assert_eq!(log[0].1, strings(&["stop", "/vm/a.vmx", "hard"]));
    assert_eq!(log[1].1, strings(&["start", "/vm/a.vmx", "nogui"]));
    assert_eq!(log[2].1, strings(&["snapshot", "/vm/a.vmx", "s1"]));
}

#[test]
fn test_vmslist_parse() {
    let (a, b) = vmslist_parse("\"ubuntu-a\" {c777e3e8-b82e-40a4-bf3d-550f0f0da9e9}").unwrap();

    assert_eq!(a, "ubuntu-a");
    assert_eq!(b, "{c777e3e8-b82e-40a4-bf3d-550f0f0da9e9}");
}

#[test]
fn vmslist_parse_rejects_missing_braces() {
    match vmslist_parse("\"ubuntu-a\" c777e3e8") {
        Err(Error::InvalidResponse(line)) => assert_eq!(line, "\"ubuntu-a\" c777e3e8"),
        _ => panic!("expected an invalid response"),
    }
    assert!(vmslist_parse("\"ubuntu-a\"{c777}").is_err());
    assert!(vmslist_parse("ubuntu-a {c777}").is_err());
    assert!(vmslist_parse("\"ubuntu-a {c777}").is_err());
}

#[test]
fn vmslist_parse_decodes_escapes() {
    let (a, b) = vmslist_parse("\"my \\\"vm\\\"\\\\x\\n\"\t{ab-12}").unwrap();
    assert_eq!(a, "my \"vm\"\\x\n");
    assert_eq!(b, "{ab-12}");
}

#[test]
fn property_lines() {
    assert_eq!(
        parse_property("SnapshotName=\"clean\""),
        Some(("SnapshotName".to_string(), "clean".to_string()))
    );
    assert_eq!(
        parse_property("Key-1=\"\""),
        Some(("Key-1".to_string(), String::new()))
    );
    assert_eq!(parse_property("=\"x\""), None);
    assert_eq!(parse_property("K=\"a\"b\""), None);
    assert_eq!(parse_property("K=\"a\" "), None);
}

#[test]
fn virtualbox_lists_running_machines_with_uuids() {
    let (runner, log) = scripted(&[&[
        "\"ubuntu-a\" {c777e3e8-b82e-40a4-bf3d-550f0f0da9e9}",
        "\"win\" {0000}",
    ]]);
    let driver = virtual_box::Driver::from_cmd(runner);
    let ms = driver.list_running().unwrap();
    assert_eq!(ms.len(), 2);
    assert_eq!(ms[0].name(), "ubuntu-a");
    assert_eq!(ms[0].vmid(), "{c777e3e8-b82e-40a4-bf3d-550f0f0da9e9}");
    assert_eq!(ms[1].vmid(), "{0000}");
    assert_eq!(
        log.borrow()[0],
        ("vboxmanage".to_string(), strings(&["list", "runningvms"]))
    );
}

#[test]
fn virtualbox_listing_with_bad_line_fails() {
    let (runner, _log) = scripted(&[&["\"a\" {1}", "garbage"]]);
    let driver = virtual_box::Driver::from_cmd(runner);
    match driver.list_running() {
        Err(Error::InvalidResponse(line)) => assert_eq!(line, "garbage"),
        _ => panic!("expected an invalid response"),
    }
}

#[test]
fn virtualbox_snapshot_names_only() {
    let (runner, log) = scripted(&[&[
        "SnapshotName=\"clean\"",
        "SnapshotUUID=\"5a2d0b4c-0000\"",
        "CurrentSnapshotName=\"clean\"",
        "SnapshotName-1=\"work\"",
    ]]);
    let driver = virtual_box::Driver::from_cmd(runner);
    let m = driver.from_path("ubuntu-a").unwrap();
    assert_eq!(m.list_snapshots().unwrap(), strings(&["clean", "work"]));
    assert_eq!(
        log.borrow()[0].1,
        strings(&["snapshot", "ubuntu-a", "list", "--machinereadable"])
    );
    let (runner, _log) = scripted(&[&["SnapshotName=\"clean\"", "SnapshotUUID=\"x\""]]);
    let driver = virtual_box::Driver::from_cmd(runner);
    let m = driver.from_path("ubuntu-a").unwrap();
    assert_eq!(m.list_snapshots().unwrap(), strings(&["clean"]));
}

#[test]
fn virtualbox_bad_property_fails() {
    let (runner, _log) = scripted(&[&["SnapshotName=\"clean\"", "not a property"]]);
    let driver = virtual_box::Driver::from_cmd(runner);
    let m = driver.from_path("ubuntu-a").unwrap();
    match m.list_snapshots() {
        Err(Error::InvalidResponse(line)) => assert_eq!(line, "not a property"),
        _ => panic!("expected an invalid response"),
    }
}

#[test]
fn virtualbox_commands_use_uuid_when_known() {
    let (runner, log) = scripted(&[&["\"ubuntu-a\" {c777}"]]);
    let driver = virtual_box::Driver::from_cmd(runner);
    let mut m = driver.list_running().unwrap().remove(0);
    m.start().unwrap();
    m.stop().unwrap();
    m.revert_to("clean").unwrap();
    m.create_snapshot("s2").unwrap();
    let log = log.borrow();
    assert_eq!(log.len(), 5);
    assert_eq!(log[1].1, strings(&["startvm", "{c777}", "--type", "headless"]));
    assert_eq!(log[2].1, strings(&["controlvm", "{c777}", "poweroff"]));
    assert_eq!(log[3].1, strings(&["snapshot", "{c777}", "restore", "clean"]));
    assert_eq!(log[4].1, strings(&["snapshot", "{c777}", "take", "s2"]));
}

struct Nop;

struct NopMachine(String);

impl DriverFactory for Nop {
    type Machine = NopMachine;

    fn machine_for_uri(&self, path: &str) -> Option<NopMachine> {
        println!("me new {}", path);
        Some(NopMachine(path.into()))
    }
}

impl Machine for NopMachine {
    fn name(&self) -> &str {
        self.0.as_ref()
    }

    fn list_snapshots(&self) -> Result<Vec<String>, Error> {
        Ok(Vec::new())
    }

    fn stop(&mut self) -> Result<(), Error> {
        Ok(())
    }

    fn start(&mut self) -> Result<(), Error> {
        Ok(())
    }

    fn revert_to(&mut self, _snapshot_name: &str) -> Result<(), Error> {
        Ok(())
    }

    fn create_snapshot(&mut self, _snapshot_name: &str) -> Result<(), Error> {
        Ok(())
    }
}

#[test]
fn test_repo() {
    let mut repo = Box::new(DriverRepo::default());

    repo.register("nop", Nop);

    let m = repo.from_path("nop:smok1").unwrap();

    println!("m={}", m.name())
}

#[test]
fn repo_resolves_by_scheme() {
    let (runner, _log) = scripted(&[]);
    let mut repo = DriverRepo::new();
    repo.register("vmware", vmware::factory().from_cmd(runner));
    let m = repo.from_path("vmware:/path/to/vm").unwrap();
    assert_eq!(m.name(), "/path/to/vm");
    match repo.from_path("nosuch:x") {
        Err(Error::SchemeNotFound(s)) => assert_eq!(s, "nosuch"),
        _ => panic!("expected a missing scheme"),
    }
    assert!(matches!(
        repo.from_path("/no/scheme"),
        Err(Error::SchemeNotFound(_))
    ));
}

#[test]
fn repo_later_registration_wins() {
    let mut repo = DriverRepo::new();
    repo.register("nop", Nop);
    repo.register("nop", Nop);
    assert_eq!(repo.from_path("nop:a").unwrap().name(), "a");
    assert_eq!(repo.apply("nop", |f| f.machine_for_uri("b")).unwrap().name(), "b");
    assert!(repo.apply("other", |f| f.machine_for_uri("b")).is_none());
}

#[test]
fn uri_parts() {
    let u = VmUri::parse("ssh+vmware://host:/vm");
    assert_eq!(u.schema, "ssh+vmware");
    assert_eq!(u.path, "//host:/vm");
    let u = VmUri::parse("/just/a/path");
    assert_eq!(u.schema, "file");
    assert_eq!(u.path, "/just/a/path");
}

#[test]
fn remote_host_parsing() {
    assert_eq!(parse_ssh("//host:/remote/path"), Some(("host", "/remote/path")));
    assert_eq!(parse_ssh("host/remote/path"), Some(("host", "remote/path")));
    assert_eq!(parse_ssh("//hostonly"), None);
    assert_eq!(parse_ssh("hostonly"), None);
}

#[test]
fn remote_driver_runs_through_ssh() {
    let log: Log = Rc::new(RefCell::new(Vec::new()));
    let spawner = FakeSpawn {
        stdout: b"Total snapshots: 1\nclean\n".to_vec(),
        log: log.clone(),
    };
    let factory = vmware::remote_driver(spawner);
    let m = factory.machine_for_uri("//host:/vm/a b.vmx").unwrap();
    assert_eq!(m.name(), "/vm/a b.vmx");
    assert_eq!(m.list_snapshots().unwrap(), strings(&["clean"]));
    assert_eq!(
        log.borrow()[0],
        (
            "ssh".to_string(),
            strings(&["host", "vmrun listSnapshots '/vm/a b.vmx'"])
        )
    );
    assert!(factory.machine_for_uri("nohost").is_none());
}

#[test]
fn local_driver_runs_directly() {
    let log: Log = Rc::new(RefCell::new(Vec::new()));
    let spawner = FakeSpawn {
        stdout: b"\"vm\" {1}\n".to_vec(),
        log: log.clone(),
    };
    virtual_box::init();
    let driver = virtual_box::local_driver(spawner);
    let ms = driver.list_running().unwrap();
    assert_eq!(ms[0].name(), "vm");
    assert_eq!(
        log.borrow()[0],
        ("vboxmanage".to_string(), strings(&["list", "runningvms"]))
    );
}

#[test]
fn test_cow() {
    let c: Cow<'static, str> = "vmrun".into();

    println!("test {}", &c);
}

#[test]
fn quoting_always_wraps() {
    assert_eq!(quote_shell_word("ala"), "'ala'");
    assert_eq!(quote_shell_word(""), "''");
    assert_eq!(quote_shell_word("a'b"), "'a'\\''b'");
}

#[test]
fn vmslist_parse_accepts_any_whitespace() {
    let (a, b) = vmslist_parse("\"a\"\r{1}").unwrap();
    assert_eq!(a, "a");
    assert_eq!(b, "{1}");
    assert!(vmslist_parse("\"a\" \u{0b}\u{0c}\u{2003}{1}").is_ok());
}

#[test]
fn runner_error_is_passed_on() {
    let log: Log = Rc::new(RefCell::new(Vec::new()));
    let driver = vmware::factory().from_cmd(Failing { log: log.clone() });
    assert!(matches!(driver.list_running(), Err(Error::Io(_))));
    let m = driver.from_path("/vm/a.vmx").unwrap();
    assert!(matches!(m.list_snapshots(), Err(Error::Io(_))));
    let driver = virtual_box::Driver::from_cmd(Failing { log: log.clone() });
    assert!(matches!(driver.list_running(), Err(Error::Io(_))));
    let mut m = driver.from_path("a").unwrap();
    assert!(matches!(m.stop(), Err(Error::Io(_))));
    assert_eq!(log.borrow().len(), 4);
}

#[test]
fn registry_holds_every_backend() {
    let log: Log = Rc::new(RefCell::new(Vec::new()));
    let spawner = FakeSpawn {
        stdout: b"Total snapshots: 1\nclean\n".to_vec(),
        log: log.clone(),
    };
    let repo = registry::driver(spawner);
    let m = repo.from_path("ssh+vmware://host:/vm/a.vmx").unwrap();
    assert_eq!(m.name(), "/vm/a.vmx");
    assert_eq!(m.list_snapshots().unwrap(), strings(&["clean"]));
    assert_eq!(
        log.borrow()[0],
        (
            "ssh".to_string(),
            strings(&["host", "vmrun listSnapshots '/vm/a.vmx'"])
        )
    );
    assert_eq!(repo.from_path("virtualbox:ubuntu-a").unwrap().name(), "ubuntu-a");
    assert!(matches!(
        repo.from_path("ssh+virtualbox:nohost"),
        Err(Error::InvalidUri(_))
    ));
    assert!(matches!(repo.from_path("qemu:x"), Err(Error::SchemeNotFound(_))));
}

#[test]
fn remote_machine_starts_over_ssh() {
    let log: Log = Rc::new(RefCell::new(Vec::new()));
    let spawner = FakeSpawn {
        stdout: Vec::new(),
        log: log.clone(),
    };
    let factory = vmware::remote_driver(spawner);
    let mut m = factory.machine_for_uri("//host:/remote/vm.vmx").unwrap();
    assert_eq!(m.name(), "/remote/vm.vmx");
    m.start().unwrap();
    assert_eq!(
        log.borrow()[0],
        (
            "ssh".to_string(),
            strings(&["host", "vmrun start '/remote/vm.vmx' nogui"])
        )
    );
}
