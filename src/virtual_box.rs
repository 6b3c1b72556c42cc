//! The backend whose management program prints quoted names with braced
//! UUIDs, and snapshots as `key="value"` properties.
use std::marker::PhantomData;
use std::rc::Rc;
use vstd::prelude::*;
use vstd::string::*;
use crate::command::{
    local, push_char, share, views, words2, words3, words4, CommandRunner, Context,
    FromCommandRunner, Local, Output, Spawn, Ssh, done_outcome, strings_result,
};
use crate::error::Error;
use crate::remote::{parse_ssh_spec, refused, RemoteFactory};
use crate::text::starts_with;
use crate::uri::DriverFactory;

verus! {

/// The character that an escape `\c` stands for: `n` is a newline, any
/// other character stands for itself.
pub open spec fn unescape(c: char) -> char {
    if c == 'n' {
        '\n'
    } else {
        c
    }
}

/// `name` in front of the name that a scan found.
pub open spec fn prepend(name: Seq<char>, r: Option<(Seq<char>, int)>) -> Option<(Seq<char>, int)> {
    match r {
        Some((n, e)) => Some((name + n, e)),
        None => None,
    }
}

/// Reads a quoted name from index `i`, just past its opening quote: the
/// decoded name and the index of the closing quote.
pub open spec fn scan_name(s: Seq<char>, i: int) -> Option<(Seq<char>, int)>
    decreases s.len() - i,
{
    if i < 0 || i >= s.len() {
        None
    } else if s[i] == '"' {
        Some((seq![], i))
    } else if s[i] == '\\' {
        if i + 1 >= s.len() {
            None
        } else {
            prepend(seq![unescape(s[i + 1])], scan_name(s, i + 2))
        }
    } else {
        prepend(seq![s[i]], scan_name(s, i + 1))
    }
}

/// Whether a character is white space: it has Unicode's White_Space
/// property.
pub open spec fn whitespace(c: char) -> bool {
    let u = c as u32;
    (0x09 <= u <= 0x0d) || u == 0x20 || u == 0x85 || u == 0xa0 || u == 0x1680 || (0x2000 <= u
        <= 0x200a) || u == 0x2028 || u == 0x2029 || u == 0x202f || u == 0x205f || u == 0x3000
}

/// The separator between a record's name and its UUID: any white space.
pub open spec fn is_blank(c: char) -> bool {
    whitespace(c)
}

/// An ASCII letter, an ASCII digit or `-`.
pub open spec fn is_word_char(c: char) -> bool {
    let u = c as u32;
    (48 <= u <= 57) || (65 <= u <= 90) || (97 <= u <= 122) || u == 45
}

/// The first index from `i` on that holds no blank.
pub open spec fn skip_blanks(s: Seq<char>, i: int) -> int
    decreases s.len() - i,
{
    if i < 0 || i >= s.len() || !is_blank(s[i]) {
        i
    } else {
        skip_blanks(s, i + 1)
    }
}

/// The first index from `i` on that holds no word character.
pub open spec fn skip_word(s: Seq<char>, i: int) -> int
    decreases s.len() - i,
{
    if i < 0 || i >= s.len() || !is_word_char(s[i]) {
        i
    } else {
        skip_word(s, i + 1)
    }
}

/// A machine record: a quoted name, blanks, then a UUID of word characters
/// in braces; the rest of the line is ignored. Gives the name and the
/// UUID with its braces.
pub open spec fn record_spec(s: Seq<char>) -> Option<(Seq<char>, Seq<char>)> {
    if s.len() == 0 || s[0] != '"' {
        None
    } else {
        match scan_name(s, 1) {
            None => None,
            Some((name, q)) => {
                let b = skip_blanks(s, q + 1);
                let e = skip_word(s, b + 1);
                if b == q + 1 || b >= s.len() || s[b] != '{' || e >= s.len() || s[e] != '}' {
                    None
                } else {
                    Some((name, s.subrange(b, e + 1)))
                }
            },
        }
    }
}

proof fn lemma_scan_name_bounds(s: Seq<char>, i: int)
    requires
        0 <= i,
        scan_name(s, i) is Some,
    ensures
        i <= scan_name(s, i)->Some_0.1 < s.len(),
    decreases s.len() - i,
{
    if i < s.len() && s[i] != '"' {
        if s[i] == '\\' {
            lemma_scan_name_bounds(s, i + 2);
        } else {
            lemma_scan_name_bounds(s, i + 1);
        }
    }
}

proof fn lemma_skip_blanks_from(s: Seq<char>, i: int)
    requires
        0 <= i,
    ensures
        skip_blanks(s, i) >= i,
    decreases s.len() - i,
{
    if i < s.len() && is_blank(s[i]) {
        lemma_skip_blanks_from(s, i + 1);
    }
}

/// A line without an opening brace holds no machine record.
pub proof fn lemma_record_needs_brace(s: Seq<char>)
    requires
        !s.contains('{'),
    ensures
        record_spec(s) is None,
{
    if let Some((name, q)) = scan_name(s, 1) {
        lemma_scan_name_bounds(s, 1);
        lemma_skip_blanks_from(s, q + 1);
        let b = skip_blanks(s, q + 1);
        if 0 <= b < s.len() {
            assert(s[b] != '{');
        }
    }
}

/// Relies on char::is_whitespace, which holds exactly of the characters
/// with Unicode's White_Space property.
#[verifier::external_body]
fn is_blank_char(c: char) -> (r: bool)
    ensures
        r == whitespace(c),
{
    c.is_whitespace()
}

fn is_word(c: char) -> (r: bool)
    ensures
        r == is_word_char(c),
{
    let u = c as u32;
    (48 <= u && u <= 57) || (65 <= u && u <= 90) || (97 <= u && u <= 122) || u == 45
}

fn invalid(line: &str) -> (r: Error)
    ensures
        r matches Error::InvalidResponse(l) && l@ == line@,
{
    Error::InvalidResponse(String::from_str(line))
}

/// Reads one line of `list runningvms`: the machine's name and its UUID in
/// braces.
pub fn vmslist_parse(line: &str) -> (r: Result<(String, String), Error>)
    ensures
        match r {
            Ok((name, uuid)) => record_spec(line@) == Some((name@, uuid@)),
            Err(e) => record_spec(line@) is None && (e matches Error::InvalidResponse(l) && l@
                == line@),
        },
{
    let ghost s = line@;
    let n = line.unicode_len();
    if n == 0 || line.get_char(0) != '"' {
        return Err(invalid(line));
    }
    let mut name = String::new();
    let mut i: usize = 1;
    while i < n && line.get_char(i) != '"'
        invariant
            n == s.len(),
            s == line@,
            1 <= i <= n,
            scan_name(s, 1) == prepend(name@, scan_name(s, i as int)),
        decreases n - i,
    {
        let c = line.get_char(i);
        let ghost n0 = name@;
        if c == '\\' {
            if i + 1 >= n {
                return Err(invalid(line));
            }
            let d = line.get_char(i + 1);
            let u = if d == 'n' {
                '\n'
            } else {
                d
            };
            push_char(&mut name, u);
            proof {
                assert(n0 + (seq![u] + seq![]) =~= name@ + seq![]);
                match scan_name(s, i + 2) {
                    Some((m, e)) => {
                        assert(n0 + (seq![u] + m) =~= name@ + m);
                    },
                    None => {},
                }
            }
            i += 2;
        } else {
            push_char(&mut name, c);
            proof {
                match scan_name(s, i + 1) {
                    Some((m, e)) => {
                        assert(n0 + (seq![c] + m) =~= name@ + m);
                    },
                    None => {},
                }
            }
            i += 1;
        }
    }
    if i >= n {
        return Err(invalid(line));
    }
    assert(name@ + seq![] =~= name@);
    let q = i;
    let mut j: usize = q + 1;
    while j < n && is_blank_char(line.get_char(j))
        invariant
            n == s.len(),
            s == line@,
            q + 1 <= j <= n,
            skip_blanks(s, q + 1) == skip_blanks(s, j as int),
        decreases n - j,
    {
        j += 1;
    }
    if j == q + 1 || j >= n || line.get_char(j) != '{' {
        return Err(invalid(line));
    }
    let mut k: usize = j + 1;
    while k < n && is_word(line.get_char(k))
        invariant
            n == s.len(),
            s == line@,
            j + 1 <= k <= n,
            skip_word(s, j + 1) == skip_word(s, k as int),
        decreases n - k,
    {
        k += 1;
    }
    if k >= n || line.get_char(k) != '}' {
        return Err(invalid(line));
    }
    let uuid = String::from_str(line.substring_char(j, k + 1));
    Ok((name, uuid))
}

/// A property line: a key of word characters, `=`, then a value in double
/// quotes that holds no double quote, and nothing after it.
pub open spec fn property_spec(s: Seq<char>) -> Option<(Seq<char>, Seq<char>)> {
    let k = skip_word(s, 0);
    if k >= 1 && s.len() >= k + 3 && s[k] == '=' && s[k + 1] == '"' && s.last() == '"' && (forall|
        j: int,
    |
        k + 2 <= j < s.len() - 1 ==> s[j] != '"') {
        Some((s.subrange(0, k), s.subrange(k + 2, s.len() - 1)))
    } else {
        None
    }
}

/// Reads a `key="value"` line into its key and value.
pub fn parse_property(line: &str) -> (r: Option<(String, String)>)
    ensures
        match r {
            Some((k, v)) => property_spec(line@) == Some((k@, v@)),
            None => property_spec(line@) is None,
        },
{
    let ghost s = line@;
    let n = line.unicode_len();
    let mut k: usize = 0;
    while k < n && is_word(line.get_char(k))
        invariant
            n == s.len(),
            s == line@,
            k <= n,
            skip_word(s, 0) == skip_word(s, k as int),
        decreases n - k,
    {
        k += 1;
    }
    assert(skip_word(s, 0) == k);
    if k < 1 || n - k < 3 || line.get_char(k) != '=' || line.get_char(k + 1) != '"' || line.get_char(
        n - 1,
    ) != '"' {
        return None;
    }
    let mut j: usize = k + 2;
    while j < n - 1
        invariant
            n == s.len(),
            s == line@,
            k + 2 <= j <= n - 1,
            skip_word(s, 0) == k,
            forall|x: int| k + 2 <= x < j ==> s[x] != '"',
        decreases n - 1 - j,
    {
        if line.get_char(j) == '"' {
            assert(s[j as int] == '"');
            return None;
        }
        j += 1;
    }
    let key = String::from_str(line.substring_char(0, k));
    let value = String::from_str(line.substring_char(k + 2, n - 1));
    Some((key, value))
}

/// The machine records of `list runningvms`, or the first line that is not one.
pub open spec fn records(lines: Seq<Seq<char>>) -> Result<Seq<(Seq<char>, Seq<char>)>, Seq<char>>
    decreases lines.len(),
{
    if lines.len() == 0 {
        Ok(seq![])
    } else {
        match records(lines.drop_last()) {
            Err(l) => Err(l),
            Ok(rs) => match record_spec(lines.last()) {
                Some(rec) => Ok(rs.push(rec)),
                None => Err(lines.last()),
            },
        }
    }
}

/// The snapshot names among the property lines: the value of each key that
/// starts with `SnapshotName`, in order; or the first line that is no
/// property.
pub open spec fn snapshot_names(lines: Seq<Seq<char>>) -> Result<Seq<Seq<char>>, Seq<char>>
    decreases lines.len(),
{
    if lines.len() == 0 {
        Ok(seq![])
    } else {
        match snapshot_names(lines.drop_last()) {
            Err(l) => Err(l),
            Ok(names) => match property_spec(lines.last()) {
                None => Err(lines.last()),
                Some((k, v)) => if "SnapshotName"@.is_prefix_of(k) {
                    Ok(names.push(v))
                } else {
                    Ok(names)
                },
            },
        }
    }
}

/// `r` follows from the runner's answer `o` to the snapshot listing: the
/// snapshot names of what it printed, or `InvalidResponse` with its first
/// line that is no property, or the runner's error unchanged.
pub open spec fn names_outcome(o: Result<Output, Error>, r: Result<Seq<Seq<char>>, Error>) -> bool {
    match o {
        Err(e) => r == Err::<Seq<Seq<char>>, Error>(e),
        Ok(out) => match snapshot_names(out@) {
            Ok(names) => r == Ok::<Seq<Seq<char>>, Error>(names),
            Err(l) => r matches Err(Error::InvalidResponse(x)) && x@ == l,
        },
    }
}

/// `r` follows from the runner's answer `o` to the machine listing: the
/// records of what it printed, or `InvalidResponse` with its first line that
/// is no record, or the runner's error unchanged.
pub open spec fn records_outcome(
    o: Result<Output, Error>,
    r: Result<Seq<(Seq<char>, Seq<char>)>, Error>,
) -> bool {
    match o {
        Err(e) => r == Err::<Seq<(Seq<char>, Seq<char>)>, Error>(e),
        Ok(out) => match records(out@) {
            Ok(rs) => r == Ok::<Seq<(Seq<char>, Seq<char>)>, Error>(rs),
            Err(l) => r matches Err(Error::InvalidResponse(x)) && x@ == l,
        },
    }
}

/// Two readings of the same answer to the snapshot listing agree: they
/// succeed together, with the same names, and fail together.
pub proof fn lemma_snapshot_names_repeatable(
    o: Result<Output, Error>,
    r1: Result<Seq<Seq<char>>, Error>,
    r2: Result<Seq<Seq<char>>, Error>,
)
    requires
        names_outcome(o, r1),
        names_outcome(o, r2),
    ensures
        r1 is Ok <==> r2 is Ok,
        r1 is Ok ==> r1 == r2,
        o is Err ==> r1 == r2,
{
}

pub open spec fn list_running_words() -> Seq<Seq<char>> {
    seq!["list"@, "runningvms"@]
}

pub open spec fn snapshots_words(id: Seq<char>) -> Seq<Seq<char>> {
    seq!["snapshot"@, id, "list"@, "--machinereadable"@]
}

pub open spec fn start_words(id: Seq<char>) -> Seq<Seq<char>> {
    seq!["startvm"@, id, "--type"@, "headless"@]
}

pub open spec fn stop_words(id: Seq<char>) -> Seq<Seq<char>> {
    seq!["controlvm"@, id, "poweroff"@]
}

pub open spec fn take_words(id: Seq<char>, name: Seq<char>) -> Seq<Seq<char>> {
    seq!["snapshot"@, id, "take"@, name]
}

pub open spec fn restore_words(id: Seq<char>, name: Seq<char>) -> Seq<Seq<char>> {
    seq!["snapshot"@, id, "restore"@, name]
}

/// The records of a result's pairs, or its error.
pub open spec fn pairs_result(r: Result<Vec<(String, String)>, Error>) -> Result<Seq<(Seq<char>, Seq<char>)>, Error> {
    match r {
        Ok(v) => Ok(pair_views(v@)),
        Err(e) => Err(e),
    }
}

/// The views of name and UUID pairs.
pub open spec fn pair_views(v: Seq<(String, String)>) -> Seq<(Seq<char>, Seq<char>)> {
    v.map_values(|p: (String, String)| (p.0@, p.1@))
}

/// Reads every line of `list runningvms` as a machine record.
pub fn parse_running(lines: &Vec<String>) -> (r: Result<Vec<(String, String)>, Error>)
    ensures
        r is Ok <==> records(views(lines@)) is Ok,
        r matches Ok(v) ==> records(views(lines@)) == Ok::<_, Seq<char>>(pair_views(v@)),
        r is Err ==> (r matches Err(Error::InvalidResponse(l)) && records(views(lines@)) == Err::<
            Seq<(Seq<char>, Seq<char>)>,
            Seq<char>,
        >(l@)),
{
    let mut v: Vec<(String, String)> = Vec::new();
    let mut i: usize = 0;
    assert(views(lines@).subrange(0, 0) =~= seq![]);
    assert(pair_views(v@) =~= seq![]);
    while i < lines.len()
        invariant
            i <= lines@.len(),
            records(views(lines@).subrange(0, i as int)) == Ok::<_, Seq<char>>(pair_views(v@)),
        decreases lines@.len() - i,
    {
        let ghost p = views(lines@).subrange(0, i + 1);
        proof {
            assert(p.drop_last() =~= views(lines@).subrange(0, i as int));
            assert(p.last() == lines@[i as int]@);
        }
        match vmslist_parse(lines[i].as_str()) {
            Ok(rec) => {
                let ghost v0 = v@;
                let ghost rv = (rec.0@, rec.1@);
                v.push(rec);
                proof {
                    assert(pair_views(v@) =~= pair_views(v0).push(rv));
                }
            },
            Err(e) => {
                proof {
                    lemma_records_err_stays(views(lines@), i as int + 1);
                }
                return Err(e);
            },
        }
        i += 1;
    }
    assert(views(lines@).subrange(0, lines@.len() as int) =~= views(lines@));
    Ok(v)
}

/// A failure in the first `i` lines is the failure of all of them.
proof fn lemma_records_err_stays(lines: Seq<Seq<char>>, i: int)
    requires
        0 <= i <= lines.len(),
        records(lines.subrange(0, i)) is Err,
    ensures
        records(lines) == records(lines.subrange(0, i)),
    decreases lines.len() - i,
{
    if i < lines.len() {
        let p = lines.subrange(0, i + 1);
        assert(p.drop_last() =~= lines.subrange(0, i));
        lemma_records_err_stays(lines, i + 1);
    } else {
        assert(lines.subrange(0, i) =~= lines);
    }
}

/// A failure in the first `i` lines is the failure of all of them.
proof fn lemma_names_err_stays(lines: Seq<Seq<char>>, i: int)
    requires
        0 <= i <= lines.len(),
        snapshot_names(lines.subrange(0, i)) is Err,
    ensures
        snapshot_names(lines) == snapshot_names(lines.subrange(0, i)),
    decreases lines.len() - i,
{
    if i < lines.len() {
        let p = lines.subrange(0, i + 1);
        assert(p.drop_last() =~= lines.subrange(0, i));
        lemma_names_err_stays(lines, i + 1);
    } else {
        assert(lines.subrange(0, i) =~= lines);
    }
}

/// Reads the output of `snapshot <id> list --machinereadable`: the snapshot
/// names, in order.
pub fn parse_snapshots(lines: &Vec<String>) -> (r: Result<Vec<String>, Error>)
    ensures
        r is Ok <==> snapshot_names(views(lines@)) is Ok,
        r matches Ok(v) ==> snapshot_names(views(lines@)) == Ok::<_, Seq<char>>(views(v@)),
        r is Err ==> (r matches Err(Error::InvalidResponse(l)) && snapshot_names(views(lines@))
            == Err::<Seq<Seq<char>>, Seq<char>>(l@)),
{
    let mut v: Vec<String> = Vec::new();
    let mut i: usize = 0;
    assert(views(lines@).subrange(0, 0) =~= seq![]);
    assert(views(v@) =~= seq![]);
    while i < lines.len()
        invariant
            i <= lines@.len(),
            snapshot_names(views(lines@).subrange(0, i as int)) == Ok::<_, Seq<char>>(views(v@)),
        decreases lines@.len() - i,
    {
        let ghost p = views(lines@).subrange(0, i + 1);
        proof {
            assert(p.drop_last() =~= views(lines@).subrange(0, i as int));
            assert(p.last() == lines@[i as int]@);
        }
        match parse_property(lines[i].as_str()) {
            Some((k, val)) => {
                if starts_with(k.as_str(), "SnapshotName") {
                    let ghost v0 = v@;
                    let ghost vv = val@;
                    v.push(val);
                    proof {
                        assert(views(v@) =~= views(v0).push(vv));
                    }
                }
            },
            None => {
                proof {
                    lemma_names_err_stays(views(lines@), i as int + 1);
                }
                return Err(invalid(lines[i].as_str()));
            },
        }
        i += 1;
    }
    assert(views(lines@).subrange(0, lines@.len() as int) =~= views(lines@));
    Ok(v)
}

/// A driver for this backend over one command runner.
pub struct Driver<C> {
    inner: Rc<Context<C>>,
}

/// One machine of this backend: its name or path, and the UUID that a
/// listing gave it.
pub struct MachineRef<C> {
    driver_ref: Rc<Context<C>>,
    path: String,
    uuid: Option<String>,
}

impl<C> Driver<C> {
    /// The execution context that every machine of this driver shares.
    pub closed spec fn context(&self) -> Context<C> {
        *self.inner
    }
}

impl<C> MachineRef<C> {
    /// The execution context that this machine runs its commands in.
    pub closed spec fn context(&self) -> Context<C> {
        *self.driver_ref
    }

    /// The name or path that the machine was given.
    pub closed spec fn path(&self) -> Seq<char> {
        self.path@
    }

    /// The UUID that a listing gave the machine, if any.
    pub closed spec fn uuid(&self) -> Option<Seq<char>> {
        match self.uuid {
            Some(u) => Some(u@),
            None => None,
        }
    }

    /// What commands name the machine by: its UUID where it has one, else
    /// its path.
    pub open spec fn id(&self) -> Seq<char> {
        match self.uuid() {
            Some(u) => u,
            None => self.path(),
        }
    }
}

/// The names and identities of a result's machines, or its error.
pub open spec fn machines_result<C>(r: Result<Vec<MachineRef<C>>, Error>) -> Result<Seq<(Seq<char>, Seq<char>)>, Error> {
    match r {
        Ok(ms) => Ok(identities(ms@)),
        Err(e) => Err(e),
    }
}

/// The names and UUIDs of a sequence of machines.
pub open spec fn identities<C>(ms: Seq<MachineRef<C>>) -> Seq<(Seq<char>, Seq<char>)> {
    ms.map_values(|m: MachineRef<C>| (m.path(), m.id()))
}

impl<C: CommandRunner> Driver<C> {
    /// A driver that runs `vboxmanage` through `cmd`.
    pub fn from_cmd(cmd: C) -> (r: Driver<C>)
        ensures
            r.context().program@ == "vboxmanage"@,
            r.context().runner == cmd,
    {
        Driver { inner: Rc::new(Context { program: String::from_str("vboxmanage"), runner: cmd }) }
    }

    fn machine(&self, path: String, uuid: Option<String>) -> (r: MachineRef<C>)
        ensures
            r.path() == path@,
            r.uuid() == (match uuid {
                Some(u) => Some(u@),
                None => None::<Seq<char>>,
            }),
            r.context() == self.context(),
    {
        MachineRef { driver_ref: share(&self.inner), path, uuid }
    }

    /// The machine named by `path`, with no UUID.
    pub fn from_path(&self, path: &str) -> (r: Result<MachineRef<C>, Error>)
        ensures
            r matches Ok(m) && m.path() == path@ && m.uuid() is None && m.context()
                == self.context(),
    {
        Ok(self.machine(String::from_str(path), None))
    }

    /// The machines that `list runningvms` reports, in the order printed,
    /// each with its UUID.
    pub fn list_running(&self) -> (r: Result<Vec<MachineRef<C>>, Error>)
        ensures
            exists|o: Result<Output, Error>|
                self.context().runner.ran(self.context().program@, list_running_words(), o)
                    && #[trigger] records_outcome(o, machines_result(r)),
            r matches Ok(ms) ==> forall|i: int|
                0 <= i < ms@.len() ==> (#[trigger] ms@[i]).context() == self.context() && ms@[i].uuid() is Some,
    {
        let answer = self.inner.run(&words2("list", "runningvms"));
        let ghost o = answer;
        let out = match answer {
            Ok(out) => out,
            Err(e) => {
                let r = Err(e);
                assert(records_outcome(o, machines_result(r)));
                return r;
            },
        };
        let recs = match parse_running(out.lines()) {
            Ok(v) => v,
            Err(e) => {
                let r = Err(e);
                assert(records_outcome(o, machines_result(r)));
                return r;
            },
        };
        let ghost rv = pair_views(recs@);
        let mut recs = recs;
        let mut ms: Vec<MachineRef<C>> = Vec::new();
        let mut i: usize = 0;
        let n = recs.len();
        assert(identities(ms@) =~= rv.subrange(0, 0));
        while i < n
            invariant
                n == recs@.len(),
                i <= n,
                rv.len() == n,
                identities(ms@) == rv.subrange(0, i as int),
                forall|j: int| i <= j < n ==> (#[trigger] pair_views(recs@)[j]) == rv[j],
                forall|j: int|
                    0 <= j < ms@.len() ==> (#[trigger] ms@[j]).context() == self.context() && ms@[j].uuid() is Some,
            decreases n - i,
        {
            let ghost r0 = recs@;
            let mut rec = (String::new(), String::new());
            std::mem::swap(&mut rec, &mut recs[i]);
            proof {
                assert(pair_views(r0)[i as int] == rv[i as int]);
                assert(rec == r0[i as int]);
                assert forall|j: int| i + 1 <= j < n implies (#[trigger] pair_views(recs@)[j]) == rv[j] by {
                    assert(recs@[j] == r0[j]);
                    assert(pair_views(r0)[j] == rv[j]);
                }
            }
            let (name, uuid) = rec;
            let ghost nu = (name@, uuid@);
            let m = self.machine(name, Some(uuid));
            let ghost ms0 = ms@;
            ms.push(m);
            proof {
                assert(nu == rv[i as int]);
                assert(ms@ == ms0.push(m));
                assert((m.path(), m.id()) == nu);
                assert(identities(ms@) =~= identities(ms0).push(nu));
                assert(identities(ms@) =~= rv.subrange(0, i + 1));
            }
            i += 1;
        }
        proof {
            assert(rv.subrange(0, n as int) =~= rv);
            assert(records(out@) == Ok::<_, Seq<char>>(identities(ms@)));
        }
        let r = Ok(ms);
        assert(records_outcome(o, machines_result(r)));
        r
    }
}

impl<C: CommandRunner> MachineRef<C> {
    /// The name or path that the machine was given.
    pub fn name(&self) -> (r: &str)
        ensures
            r@ == self.path(),
    {
        self.path.as_str()
    }

    /// What commands name the machine by: its UUID, else its path.
    pub fn vmid(&self) -> (r: &str)
        ensures
            r@ == self.id(),
    {
        match &self.uuid {
            Some(u) => u.as_str(),
            None => self.path.as_str(),
        }
    }

    /// The arguments that list this machine's snapshots as properties.
    pub fn snapshots_args(&self) -> (r: Vec<String>)
        ensures
            views(r@) == snapshots_words(self.id()),
    {
        words4("snapshot", self.vmid(), "list", "--machinereadable")
    }

    /// The arguments that start this machine without a window.
    pub fn start_args(&self) -> (r: Vec<String>)
        ensures
            views(r@) == start_words(self.id()),
    {
        words4("startvm", self.vmid(), "--type", "headless")
    }

    /// The arguments that power this machine off at once.
    pub fn stop_args(&self) -> (r: Vec<String>)
        ensures
            views(r@) == stop_words(self.id()),
    {
        words3("controlvm", self.vmid(), "poweroff")
    }

    /// The arguments that take a snapshot named `snapshot_name`.
    pub fn snapshot_args(&self, snapshot_name: &str) -> (r: Vec<String>)
        ensures
            views(r@) == take_words(self.id(), snapshot_name@),
    {
        words4("snapshot", self.vmid(), "take", snapshot_name)
    }

    /// The arguments that restore the snapshot named `snapshot_name`.
    pub fn revert_args(&self, snapshot_name: &str) -> (r: Vec<String>)
        ensures
            views(r@) == restore_words(self.id(), snapshot_name@),
    {
        words4("snapshot", self.vmid(), "restore", snapshot_name)
    }

    /// The snapshot names among the machine's properties, in order: the
    /// runner lists them, and its answer is read by `snapshot_names`.
    pub fn list_snapshots(&self) -> (r: Result<Vec<String>, Error>)
        ensures
            exists|o: Result<Output, Error>|
                self.context().runner.ran(self.context().program@, snapshots_words(self.id()), o)
                    && #[trigger] names_outcome(o, strings_result(r)),
    {
        let answer = self.driver_ref.run(&self.snapshots_args());
        let ghost o = answer;
        let r = match answer {
            Ok(out) => parse_snapshots(out.lines()),
            Err(e) => Err(e),
        };
        assert(names_outcome(o, strings_result(r)));
        r
    }

    /// Runs one command of this machine and passes its outcome on.
    fn run_done(&self, args: &Vec<String>) -> (r: Result<(), Error>)
        ensures
            exists|o: Result<Output, Error>|
                self.context().runner.ran(self.context().program@, views(args@), o)
                    && #[trigger] done_outcome(o, r),
    {
        let answer = self.driver_ref.run(args);
        let ghost o = answer;
        let r = match answer {
            Ok(_) => Ok(()),
            Err(e) => Err(e),
        };
        assert(done_outcome(o, r));
        r
    }

    /// Powers the machine off: the runner runs `controlvm <id> poweroff`, and
    /// its success or error is the result.
    pub fn stop(&mut self) -> (r: Result<(), Error>)
        ensures
            final(self).id() == old(self).id(),
            final(self).context() == old(self).context(),
            exists|o: Result<Output, Error>|
                old(self).context().runner.ran(old(self).context().program@, stop_words(old(self).id()), o)
                    && #[trigger] done_outcome(o, r),
    {
        self.run_done(&self.stop_args())
    }

    /// Starts the machine without a window: the runner runs `startvm <id>
    /// --type headless`, and its success or error is the result.
    pub fn start(&mut self) -> (r: Result<(), Error>)
        ensures
            final(self).id() == old(self).id(),
            final(self).context() == old(self).context(),
            exists|o: Result<Output, Error>|
                old(self).context().runner.ran(old(self).context().program@, start_words(old(self).id()), o)
                    && #[trigger] done_outcome(o, r),
    {
        self.run_done(&self.start_args())
    }

    /// Restores a snapshot; this backend keeps a running machine running, so
    /// nothing follows. The restore's success or error is the result.
    pub fn revert_to(&mut self, snapshot_name: &str) -> (r: Result<(), Error>)
        ensures
            final(self).id() == old(self).id(),
            final(self).context() == old(self).context(),
            exists|o: Result<Output, Error>|
                old(self).context().runner.ran(old(self).context().program@, restore_words(old(self).id(), snapshot_name@), o)
                    && #[trigger] done_outcome(o, r),
    {
        self.run_done(&self.revert_args(snapshot_name))
    }

    /// Takes a snapshot named `snapshot_name`; its success or error is the
    /// result.
    pub fn create_snapshot(&mut self, snapshot_name: &str) -> (r: Result<(), Error>)
        ensures
            final(self).id() == old(self).id(),
            final(self).context() == old(self).context(),
            exists|o: Result<Output, Error>|
                old(self).context().runner.ran(old(self).context().program@, take_words(old(self).id(), snapshot_name@), o)
                    && #[trigger] done_outcome(o, r),
    {
        self.run_done(&self.snapshot_args(snapshot_name))
    }

}

impl<C: CommandRunner> crate::Driver for Driver<C> {
    type Machine = MachineRef<C>;

    open spec fn found(&self, path: Seq<char>, r: Result<MachineRef<C>, Error>) -> bool {
        r matches Ok(m) && m.path() == path && m.uuid() is None && m.context() == self.context()
    }

    fn list_running(&self) -> Result<Vec<MachineRef<C>>, Error> {
        Driver::list_running(self)
    }

    fn from_path(&self, path: &str) -> Result<MachineRef<C>, Error> {
        Driver::from_path(self, path)
    }
}

impl<C: CommandRunner> crate::Machine for MachineRef<C> {
    open spec fn named(&self, n: Seq<char>) -> bool {
        n == self.path()
    }

    fn name(&self) -> &str {
        MachineRef::name(self)
    }

    fn list_snapshots(&self) -> Result<Vec<String>, Error> {
        MachineRef::list_snapshots(self)
    }

    fn stop(&mut self) -> Result<(), Error> {
        MachineRef::stop(self)
    }

    fn start(&mut self) -> Result<(), Error> {
        MachineRef::start(self)
    }

    fn revert_to(&mut self, snapshot_name: &str) -> Result<(), Error> {
        MachineRef::revert_to(self, snapshot_name)
    }

    fn create_snapshot(&mut self, snapshot_name: &str) -> Result<(), Error> {
        MachineRef::create_snapshot(self, snapshot_name)
    }
}

impl<C: CommandRunner> DriverFactory for Driver<C> {
    type Machine = MachineRef<C>;

    open spec fn gives(&self, uri: Seq<char>, r: Option<MachineRef<C>>) -> bool {
        r matches Some(m) && m.path() == uri && m.context() == self.context() && m.uuid() is None
    }

    fn machine_for_uri(&self, uri: &str) -> Option<MachineRef<C>> {
        Some(self.machine(String::from_str(uri), None))
    }
}

/// Makes drivers for this backend from command runners.
pub struct Factory<C> {
    marker: PhantomData<C>,
}

/// A factory of drivers for this backend.
pub fn factory<C: CommandRunner>() -> Factory<C> {
    Factory { marker: PhantomData }
}

impl<C: CommandRunner> FromCommandRunner for Factory<C> {
    type Command = C;

    type Output = Driver<C>;

    open spec fn made(&self, cmd: C, d: Driver<C>) -> bool {
        d.context().program@ == "vboxmanage"@ && d.context().runner == cmd
    }

    fn from_cmd(&self, cmd: C) -> Driver<C> {
        Driver::from_cmd(cmd)
    }
}

/// Sets up this backend; it needs no preparation.
pub fn init() {
}

/// A driver that runs `vboxmanage` on this host.
pub fn local_driver<P: Spawn>(spawner: P) -> (r: Driver<Local<P>>)
    ensures
        r.context().program@ == "vboxmanage"@,
        r.context().runner.spawner == spawner,
{
    Driver::from_cmd(local(spawner))
}

/// A factory of machines on remote hosts, whose driver runs `vboxmanage` there
/// through `ssh`.
pub fn remote_driver<P: Spawn + Clone>(spawner: P) -> (r: RemoteFactory<Factory<Ssh<P>>, P>)
    ensures
        r.spawner() == spawner,
{
    RemoteFactory::new(factory(), spawner)
}

/// A remote factory of this backend answers a body that names a host and a
/// path with the machine at that path, whose `vboxmanage` runs through `ssh` to
/// that host with a clone of the factory's spawner.
pub proof fn lemma_remote_machine<P: Spawn + Clone>(
    f: RemoteFactory<Factory<Ssh<P>>, P>,
    uri: Seq<char>,
    r: Option<MachineRef<Ssh<P>>>,
    h: Seq<char>,
    p: Seq<char>,
)
    requires
        f.remote_gives(uri, r),
        parse_ssh_spec(uri) == Some((h, p)),
    ensures
        r matches Some(m) && m.path() == p && m.uuid() is None && m.context().program@ == "vboxmanage"@
            && m.context().runner.host@ == h && cloned(f.spawner(), m.context().runner.spawner),
{
    let (c, d) = choose|c: Ssh<P>, d: Driver<Ssh<P>>|
        #[trigger] f.factory().made(c, d) && c.host@ == h && cloned(f.spawner(), c.spawner)
            && match r {
            Some(m) => crate::Driver::found(&d, p, Ok::<MachineRef<Ssh<P>>, Error>(m)),
            None => refused(d, p),
        };
    if r is None {
        let e = choose|e: Error| #[trigger] crate::Driver::found(&d, p, Err::<MachineRef<Ssh<P>>, Error>(e));
        assert(false);
    }
}

} // verus!
