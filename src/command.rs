//! Running a program and capturing what it printed, on this host or on a
//! remote one through a remote shell.
use vstd::prelude::*;
use vstd::string::*;
use vstd::utf8::encode_utf8;
use std::rc::Rc;
use crate::error::{Error, ProcessOutput};

verus! {

/// The views of a sequence of strings.
pub open spec fn views(v: Seq<String>) -> Seq<Seq<char>> {
    v.map_values(|s: String| s@)
}

/// The views of a sequence of byte vectors.
pub open spec fn byte_views(v: Seq<Vec<u8>>) -> Seq<Seq<u8>> {
    v.map_values(|b: Vec<u8>| b@)
}

/// The lines with one empty line at their end removed.
pub open spec fn drop_trailing_empty(v: Seq<Seq<char>>) -> Seq<Seq<char>> {
    if v.len() > 0 && v.last().len() == 0 {
        v.drop_last()
    } else {
        v
    }
}

/// The pieces of `b` between newline bytes, in order; there is always at least one.
pub open spec fn split_lines(b: Seq<u8>) -> Seq<Seq<u8>>
    decreases b.len(),
{
    if b.len() == 0 {
        seq![seq![]]
    } else {
        let p = split_lines(b.drop_last());
        if b.last() == 10u8 {
            p.push(seq![])
        } else {
            p.update(p.len() - 1, p.last().push(b.last()))
        }
    }
}

/// Some text is encoded in UTF-8 by these bytes.
pub open spec fn decodable(b: Seq<u8>) -> bool {
    exists|cs: Seq<char>| encode_utf8(cs) == b
}

pub open spec fn all_decodable(segs: Seq<Seq<u8>>) -> bool {
    forall|i: int| 0 <= i < segs.len() ==> decodable(#[trigger] segs[i])
}

/// `ls` is the text that `segs` encode, piece by piece.
pub open spec fn decodes(ls: Seq<Seq<char>>, segs: Seq<Seq<u8>>) -> bool {
    &&& ls.len() == segs.len()
    &&& forall|i: int| 0 <= i < ls.len() ==> encode_utf8(#[trigger] ls[i]) == segs[i]
}

/// `lines` are the lines of the output `b`: its newline-separated pieces,
/// decoded, without the empty piece that a final newline leaves.
pub open spec fn stdout_lines(b: Seq<u8>, lines: Seq<Seq<char>>) -> bool {
    exists|ls: Seq<Seq<char>>| decodes(ls, split_lines(b)) && lines == drop_trailing_empty(ls)
}

/// The lines that a command printed on its standard output.
pub struct Output {
    inner: Vec<String>,
}

impl View for Output {
    type V = Seq<Seq<char>>;

    closed spec fn view(&self) -> Seq<Seq<char>> {
        views(self.inner@)
    }
}

impl Output {
    /// Takes the newline-separated pieces of an output; a last empty piece,
    /// left by a final newline, is dropped.
    pub fn new(v: Vec<String>) -> (r: Output)
        ensures
            r@ == drop_trailing_empty(views(v@)),
    {
        let mut v = v;
        let ghost v0 = v@;
        let n = v.len();
        if n > 0 && v[n - 1].as_str().unicode_len() == 0 {
            let _ = v.pop();
            proof {
                assert(views(v@) =~= views(v0).drop_last()) by {
                    assert(v@ =~= v0.drop_last());
                }
            }
        }
        Output { inner: v }
    }

    /// The lines, in order.
    pub fn lines(&self) -> (r: &Vec<String>)
        ensures
            views(r@) == self@,
    {
        &self.inner
    }

    /// Hands out the lines, in order.
    pub fn into_lines(self) -> (r: Vec<String>)
        ensures
            views(r@) == self@,
    {
        self.inner
    }

    pub fn len(&self) -> (r: usize)
        ensures
            r == self@.len(),
    {
        self.inner.len()
    }
}

/// Whether a character is alphabetic or numeric, as Unicode classifies it.
pub uninterp spec fn alphanumeric(c: char) -> bool;

/// Relies on char::is_alphanumeric, which classifies one character: ASCII
/// letters and digits are alphanumeric, space and the single quote are not.
#[verifier::external_body]
fn is_alphanumeric(c: char) -> (r: bool)
    ensures
        r == alphanumeric(c),
        ascii_alphanumeric(c) ==> r,
        (c == ' ' || c == '\'') ==> !r,
{
    c.is_alphanumeric()
}

/// Relies on String::push, which appends one character.
#[verifier::external_body]
pub(crate) fn push_char(s: &mut String, c: char)
    ensures
        final(s)@ == old(s)@.push(c),
{
    s.push(c)
}

/// Relies on std::str::from_utf8, which accepts exactly the bytes that
/// encode some text in UTF-8 and then gives that text.
#[verifier::external_body]
fn utf8_to_string(b: &[u8]) -> (r: Option<String>)
    ensures
        r matches Some(s) ==> encode_utf8(s@) == b@,
        r is None ==> !decodable(b@),
{
    std::str::from_utf8(b).ok().map(String::from)
}

pub open spec fn all_alphanumeric(s: Seq<char>) -> bool {
    forall|i: int| 0 <= i < s.len() ==> alphanumeric(#[trigger] s[i])
}

/// `s` with each single quote written as `'\''`.
pub open spec fn quote_body(s: Seq<char>) -> Seq<char>
    decreases s.len(),
{
    if s.len() == 0 {
        seq![]
    } else {
        quote_body(s.drop_last()) + if s.last() == '\'' {
            seq!['\'', '\\', '\'', '\'']
        } else {
            seq![s.last()]
        }
    }
}

/// A word as a POSIX shell reads it back: unchanged when it is all
/// alphanumeric, else in single quotes.
pub open spec fn escape_spec(s: Seq<char>) -> Seq<char> {
    if all_alphanumeric(s) {
        s
    } else {
        seq!['\''] + quote_body(s) + seq!['\'']
    }
}

/// A word made only of alphanumeric characters is passed to the shell as it
/// is.
pub proof fn lemma_escape_plain(s: Seq<char>)
    requires
        all_alphanumeric(s),
    ensures
        escape_spec(s) == s,
{
}

/// A word holding any other character, such as a space or a single quote,
/// is wrapped in single quotes, each single quote inside written as `'\''`.
pub proof fn lemma_escape_quoted(s: Seq<char>, i: int)
    requires
        0 <= i < s.len(),
        !alphanumeric(s[i]),
    ensures
        escape_spec(s) == seq!['\''] + quote_body(s) + seq!['\''],
        escape_spec(s).len() >= 2,
        escape_spec(s)[0] == '\'',
        escape_spec(s).last() == '\'',
{
}

/// An ASCII letter or digit.
pub open spec fn ascii_alphanumeric(c: char) -> bool {
    let u = c as u32;
    (48 <= u <= 57) || (65 <= u <= 90) || (97 <= u <= 122)
}

/// Quotes a word for a POSIX shell command line.
pub fn escape_shell_chars(s: &str) -> (r: String)
    ensures
        r@ == escape_spec(s@),
        (forall|i: int| 0 <= i < s@.len() ==> ascii_alphanumeric(#[trigger] s@[i])) ==> r@ == s@,
        (s@.contains(' ') || s@.contains('\'')) ==> r@ == seq!['\''] + quote_body(s@) + seq!['\''],
{
    let n = s.unicode_len();
    let mut plain = true;
    let mut i: usize = 0;
    while i < n
        invariant
            n == s@.len(),
            i <= n,
            plain == (forall|j: int| 0 <= j < i ==> alphanumeric(#[trigger] s@[j])),
            forall|j: int| 0 <= j < i ==> ascii_alphanumeric(#[trigger] s@[j]) ==> alphanumeric(s@[j]),
            forall|j: int| 0 <= j < i ==> (#[trigger] s@[j] == ' ' || s@[j] == '\'') ==> !alphanumeric(s@[j]),
        decreases n - i,
    {
        let c = s.get_char(i);
        if !is_alphanumeric(c) {
            plain = false;
        }
        i += 1;
    }
    if plain {
        return String::from_str(s);
    }
    quote_shell_word(s)
}

/// Wraps a word in single quotes for a POSIX shell, each single quote
/// inside written as `'\''`.
pub fn quote_shell_word(s: &str) -> (r: String)
    ensures
        r@ == seq!['\''] + quote_body(s@) + seq!['\''],
{
    let n = s.unicode_len();
    let mut r = String::new();
    push_char(&mut r, '\'');
    let mut i: usize = 0;
    while i < n
        invariant
            n == s@.len(),
            i <= n,
            r@ == seq!['\''] + quote_body(s@.subrange(0, i as int)),
        decreases n - i,
    {
        let c = s.get_char(i);
        if c == '\'' {
            push_char(&mut r, '\'');
            push_char(&mut r, '\\');
            push_char(&mut r, '\'');
            push_char(&mut r, '\'');
        } else {
            push_char(&mut r, c);
        }
        proof {
            let p = s@.subrange(0, i + 1);
            assert(p.drop_last() =~= s@.subrange(0, i as int));
            assert(r@ =~= seq!['\''] + quote_body(p));
        }
        i += 1;
    }
    push_char(&mut r, '\'');
    assert(s@.subrange(0, n as int) =~= s@);
    r
}

/// The command line that runs `cmd` with `args` in a POSIX shell.
pub open spec fn shell_line_spec(cmd: Seq<char>, args: Seq<Seq<char>>) -> Seq<char>
    decreases args.len(),
{
    if args.len() == 0 {
        escape_spec(cmd)
    } else {
        shell_line_spec(cmd, args.drop_last()) + seq![' '] + escape_spec(args.last())
    }
}

/// Joins the escaped program and arguments with single spaces.
pub fn shell_command_line(cmd: &str, args: &Vec<String>) -> (r: String)
    ensures
        r@ == shell_line_spec(cmd@, views(args@)),
{
    let mut r = escape_shell_chars(cmd);
    let mut i: usize = 0;
    while i < args.len()
        invariant
            i <= args@.len(),
            r@ == shell_line_spec(cmd@, views(args@.subrange(0, i as int))),
        decreases args@.len() - i,
    {
        push_char(&mut r, ' ');
        let e = escape_shell_chars(args[i].as_str());
        r.append(e.as_str());
        proof {
            let p = views(args@.subrange(0, i + 1));
            assert(p.drop_last() =~= views(args@.subrange(0, i as int)));
            assert(p.last() == args@[i as int]@);
            assert(r@ =~= shell_line_spec(cmd@, p));
        }
        i += 1;
    }
    assert(args@.subrange(0, args@.len() as int) =~= args@);
    r
}

/// The arguments for the remote shell program: the host, then the one
/// command line that the remote shell runs.
pub fn ssh_args(host: &str, cmd: &str, args: &Vec<String>) -> (r: Vec<String>)
    ensures
        views(r@) == seq![host@, shell_line_spec(cmd@, views(args@))],
{
    let mut r: Vec<String> = Vec::new();
    r.push(String::from_str(host));
    r.push(shell_command_line(cmd, args));
    assert(views(r@) =~= seq![host@, shell_line_spec(cmd@, views(args@))]);
    r
}

/// Cuts an output at each newline byte.
pub fn split_stdout(b: &Vec<u8>) -> (r: Vec<Vec<u8>>)
    ensures
        byte_views(r@) == split_lines(b@),
{
    let mut done: Vec<Vec<u8>> = Vec::new();
    let mut cur: Vec<u8> = Vec::new();
    let mut i: usize = 0;
    while i < b.len()
        invariant
            i <= b@.len(),
            byte_views(done@).push(cur@) == split_lines(b@.subrange(0, i as int)),
        decreases b@.len() - i,
    {
        let x = b[i];
        let ghost before = byte_views(done@).push(cur@);
        proof {
            let p = b@.subrange(0, i + 1);
            assert(p.drop_last() =~= b@.subrange(0, i as int));
            assert(p.last() == x);
        }
        if x == 10u8 {
            let mut full: Vec<u8> = Vec::new();
            std::mem::swap(&mut full, &mut cur);
            done.push(full);
            proof {
                assert(byte_views(done@).push(cur@) =~= before.push(seq![]));
            }
        } else {
            cur.push(x);
            proof {
                assert(byte_views(done@).push(cur@) =~= before.update(
                    before.len() - 1,
                    before.last().push(x),
                ));
            }
        }
        i += 1;
    }
    done.push(cur);
    assert(b@.subrange(0, b@.len() as int) =~= b@);
    assert(byte_views(done@) =~= split_lines(b@));
    done
}

/// Decodes an output into its lines, or fails with `Utf8` where a line is
/// not valid UTF-8.
pub fn decode_stdout(b: &Vec<u8>) -> (r: Result<Output, Error>)
    ensures
        r is Ok <==> all_decodable(split_lines(b@)),
        r matches Ok(o) ==> stdout_lines(b@, o@),
        r is Err ==> r matches Err(Error::Utf8),
{
    let segs = split_stdout(b);
    let ghost sv = split_lines(b@);
    let mut lines: Vec<String> = Vec::new();
    let mut k: usize = 0;
    while k < segs.len()
        invariant
            byte_views(segs@) == sv,
            sv == split_lines(b@),
            k <= segs@.len(),
            decodes(views(lines@), sv.subrange(0, k as int)),
            forall|j: int| 0 <= j < k ==> decodable(#[trigger] sv[j]),
        decreases segs@.len() - k,
    {
        match utf8_to_string(segs[k].as_slice()) {
            Some(s) => {
                proof {
                    assert(sv[k as int] == segs@[k as int]@);
                }
                let ghost l0 = lines@;
                let ghost sv0 = s@;
                lines.push(s);
                proof {
                    assert(views(lines@) =~= views(l0).push(sv0));
                    assert(decodes(views(lines@), sv.subrange(0, k + 1)));
                    assert(decodable(sv[k as int]));
                }
            },
            None => {
                proof {
                    assert(sv[k as int] == segs@[k as int]@);
                    assert(!decodable(sv[k as int]));
                    assert(!all_decodable(sv));
                }
                return Err(Error::Utf8);
            },
        }
        k += 1;
    }
    assert(sv.subrange(0, k as int) =~= sv);
    let o = Output::new(lines);
    proof {
        assert(decodes(views(lines@), sv));
    }
    Ok(o)
}

/// The lines of a result, or its error.
pub open spec fn strings_result(r: Result<Vec<String>, Error>) -> Result<Seq<Seq<char>>, Error> {
    match r {
        Ok(v) => Ok(views(v@)),
        Err(e) => Err(e),
    }
}

/// `r` passes on the runner's answer `o`: success where the command
/// succeeded, else its error unchanged.
pub open spec fn done_outcome(o: Result<Output, Error>, r: Result<(), Error>) -> bool {
    match o {
        Ok(_) => r is Ok,
        Err(e) => r == Err::<(), Error>(e),
    }
}

/// The exit code that a failure reports: the process's own, or 0 where it
/// had none.
pub open spec fn exit_code(code: Option<i32>) -> i32 {
    match code {
        Some(x) => x,
        None => 0i32,
    }
}

/// `r` is what a finished process amounts to: its lines when it succeeded
/// (or `Utf8` where they are not text), else `Exec` with its exit code and
/// what it printed.
pub open spec fn process_outcome(
    success: bool,
    code: Option<i32>,
    stdout: Seq<u8>,
    stderr: Seq<u8>,
    r: Result<Output, Error>,
) -> bool {
    if success {
        &&& (r is Ok <==> all_decodable(split_lines(stdout)))
        &&& (r matches Ok(o) ==> stdout_lines(stdout, o@))
        &&& (r is Err ==> r matches Err(Error::Utf8))
    } else {
        r matches Err(Error::Exec(c, e, o)) && c == exit_code(code) && e.c@ == stderr && o.c@
            == stdout
    }
}

/// `r` is what a spawn's answer `f` amounts to: a process that ran is read
/// as `process_outcome` says, and a failure to spawn is passed on as it is.
pub open spec fn finished_outcome(f: Result<Finished, Error>, r: Result<Output, Error>) -> bool {
    match f {
        Ok(fin) => process_outcome(fin.success, fin.code, fin.stdout@, fin.stderr@, r),
        Err(e) => r == Err::<Output, Error>(e),
    }
}

/// What a finished process amounts to: its lines when it succeeded, else
/// `Exec` with its exit code (0 where it had none) and what it printed.
pub fn process_result(success: bool, code: Option<i32>, stdout: Vec<u8>, stderr: Vec<u8>) -> (r:
    Result<Output, Error>)
    ensures
        process_outcome(success, code, stdout@, stderr@, r),
{
    if success {
        decode_stdout(&stdout)
    } else {
        let c = match code {
            Some(x) => x,
            None => 0i32,
        };
        Err(Error::Exec(c, ProcessOutput::new(stderr), ProcessOutput::new(stdout)))
    }
}

/// Runs a program with its arguments and captures what it printed.
pub trait CommandRunner {
    /// `r` is an answer that running `cmd` with `args` may give. A runner
    /// that states nothing of its answers keeps this default, which allows
    /// any.
    open spec fn ran(&self, cmd: Seq<char>, args: Seq<Seq<char>>, r: Result<Output, Error>) -> bool {
        true
    }

    fn run_with_output(&self, cmd: &str, args: &Vec<String>) -> (r: Result<Output, Error>)
        ensures
            self.ran(cmd@, views(args@), r),
    ;
}

/// How a process ended: whether it succeeded, its exit code where it had
/// one, and the bytes it wrote to stdout and stderr.
pub struct Finished {
    pub success: bool,
    pub code: Option<i32>,
    pub stdout: Vec<u8>,
    pub stderr: Vec<u8>,
}

/// Starts a program with separate arguments and waits for it to end.
pub trait Spawn {
    /// `r` is an answer that starting `program` with `args` may give. A
    /// starter that states nothing of its answers keeps this default, which
    /// allows any.
    open spec fn spawned(&self, program: Seq<char>, args: Seq<Seq<char>>, r: Result<Finished, Error>) -> bool {
        true
    }

    fn spawn(&self, program: &str, args: &Vec<String>) -> (r: Result<Finished, Error>)
        ensures
            self.spawned(program@, views(args@), r),
    ;
}

/// Runs programs on this host.
pub struct Local<P> {
    pub spawner: P,
}

/// Runs programs on a remote host through `ssh`.
pub struct Ssh<P> {
    pub host: String,
    pub spawner: P,
}

/// A runner for this host.
pub fn local<P: Spawn>(spawner: P) -> (r: Local<P>)
    ensures
        r.spawner == spawner,
{
    Local { spawner }
}

/// A runner for `host`, reached through `ssh`.
pub fn ssh<P: Spawn>(host: &str, spawner: P) -> (r: Ssh<P>)
    ensures
        r.host@ == host@,
        r.spawner == spawner,
{
    Ssh { host: String::from_str(host), spawner }
}

impl<P: Spawn> CommandRunner for Local<P> {
    /// The program itself is started, with the same arguments, and its
    /// answer read by `finished_outcome`.
    open spec fn ran(&self, cmd: Seq<char>, args: Seq<Seq<char>>, r: Result<Output, Error>) -> bool {
        exists|f: Result<Finished, Error>|
            #[trigger] self.spawner.spawned(cmd, args, f) && finished_outcome(f, r)
    }

    fn run_with_output(&self, cmd: &str, args: &Vec<String>) -> (r: Result<Output, Error>) {
        let answer = self.spawner.spawn(cmd, args);
        let ghost f = answer;
        let r = match answer {
            Ok(fin) => process_result(fin.success, fin.code, fin.stdout, fin.stderr),
            Err(e) => Err(e),
        };
        assert(self.spawner.spawned(cmd@, views(args@), f) && finished_outcome(f, r));
        r
    }
}

impl<P: Spawn> CommandRunner for Ssh<P> {
    /// `ssh` is started with the host and the one shell command line of the
    /// program and its arguments, and its answer read by `finished_outcome`.
    open spec fn ran(&self, cmd: Seq<char>, args: Seq<Seq<char>>, r: Result<Output, Error>) -> bool {
        exists|f: Result<Finished, Error>|
            self.spawner.spawned("ssh"@, seq![self.host@, shell_line_spec(cmd, args)], f)
                && #[trigger] finished_outcome(f, r)
    }

    fn run_with_output(&self, cmd: &str, args: &Vec<String>) -> (r: Result<Output, Error>) {
        let remote = ssh_args(self.host.as_str(), cmd, args);
        let answer = self.spawner.spawn("ssh", &remote);
        let ghost f = answer;
        let r = match answer {
            Ok(fin) => process_result(fin.success, fin.code, fin.stdout, fin.stderr),
            Err(e) => Err(e),
        };
        assert(self.spawner.spawned("ssh"@, seq![self.host@, shell_line_spec(cmd@, views(args@))], f)
            && finished_outcome(f, r));
        r
    }
}

/// Binds a command runner to a backend, giving that backend's driver.
pub trait FromCommandRunner {
    type Command: CommandRunner;

    type Output;

    /// `d` is a driver that binding `cmd` may give. A factory that states
    /// nothing of its drivers keeps this default, which allows any.
    open spec fn made(&self, cmd: Self::Command, d: Self::Output) -> bool {
        true
    }

    fn from_cmd(&self, cmd: Self::Command) -> (d: Self::Output)
        ensures
            self.made(cmd, d),
    ;
}

/// The management program of a backend together with the runner that
/// starts it: one per driver, shared by every machine handle it gives.
pub struct Context<C> {
    pub program: String,
    pub runner: C,
}

impl<C: CommandRunner> Context<C> {
    /// Runs the management program with `args`.
    pub fn run(&self, args: &Vec<String>) -> (r: Result<Output, Error>)
        ensures
            self.runner.ran(self.program@, views(args@), r),
    {
        self.runner.run_with_output(self.program.as_str(), args)
    }
}

/// Relies on Rc::clone, which gives a second handle to the same value.
#[verifier::external_body]
pub(crate) fn share<T>(p: &Rc<T>) -> (r: Rc<T>)
    ensures
        r == *p,
{
    Rc::clone(p)
}

/// The two words as owned strings.
pub(crate) fn words2(a: &str, b: &str) -> (r: Vec<String>)
    ensures
        views(r@) == seq![a@, b@],
{
    let mut r: Vec<String> = Vec::new();
    r.push(String::from_str(a));
    r.push(String::from_str(b));
    assert(views(r@) =~= seq![a@, b@]);
    r
}

/// The three words as owned strings.
pub(crate) fn words3(a: &str, b: &str, c: &str) -> (r: Vec<String>)
    ensures
        views(r@) == seq![a@, b@, c@],
{
    let mut r: Vec<String> = Vec::new();
    r.push(String::from_str(a));
    r.push(String::from_str(b));
    r.push(String::from_str(c));
    assert(views(r@) =~= seq![a@, b@, c@]);
    r
}

/// The four words as owned strings.
pub(crate) fn words4(a: &str, b: &str, c: &str, d: &str) -> (r: Vec<String>)
    ensures
        views(r@) == seq![a@, b@, c@, d@],
{
    let mut r: Vec<String> = Vec::new();
    r.push(String::from_str(a));
    r.push(String::from_str(b));
    r.push(String::from_str(c));
    r.push(String::from_str(d));
    assert(views(r@) =~= seq![a@, b@, c@, d@]);
    r
}

} // verus!
