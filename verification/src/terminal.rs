//! The embedded shell session: a pseudo-terminal running a child
//! shell, a terminal-emulation engine interpreting its output, and a
//! channel that carries output chunks from the reader to the render
//! loop.  The OS calls stand behind trusted wrappers; everything that
//! decides or computes is verified.

use vstd::prelude::*;
use vstd::seq_lib::*;
use crate::keys::{KeyCode, KeyModifiers, encode_key_event, encode_key_event_spec};

verus! {

/// How many lines of scrollback the emulation engine keeps.
pub const SCROLLBACK_LEN: usize = 20000;

/// The terminal-emulation engine.  Its parser type is generic over a
/// callbacks trait the verifier cannot take as a bound, so the value
/// is held inside this opaque wrapper; the named spec functions below
/// describe what it holds.
#[verifier::external_body]
pub struct Emulator {
    parser: vt100::Parser,
}

/// Declares the engine's screen type so the renderer can borrow it.
#[verifier::external_type_specification]
#[verifier::external_body]
pub struct ExScreen(vt100::Screen);

/// Declares the command description handed to the pty's slave side.
#[verifier::external_type_specification]
#[verifier::external_body]
pub struct ExCommandBuilder(portable_pty::CommandBuilder);

/// Declares the consuming half of the output channel.
#[verifier::external_type_specification]
#[verifier::external_body]
#[verifier::reject_recursive_types(T)]
pub struct ExReceiver<T>(std::sync::mpsc::Receiver<T>);

/// Owns the OS endpoints of a live session: the pty master, the
/// writer feeding the child's input, and the child process handle.
/// The verifier never looks inside; every use goes through a trusted
/// wrapper.
#[verifier::external_body]
pub struct PtyIo {
    master: Box<dyn portable_pty::MasterPty + Send>,
    writer: Box<dyn std::io::Write + Send>,
    child: Box<dyn portable_pty::Child + Send + Sync>,
}

/// The producing half of the output pipeline: a cloned reader on the
/// pty master and the sender of the chunk channel.  The host runs its
/// step loop on a thread of its own.
#[verifier::external_body]
pub struct PtyReader {
    reader: Box<dyn std::io::Read + Send>,
    tx: std::sync::mpsc::Sender<Vec<u8>>,
}

/// The whole byte stream a parser has interpreted since its creation.
pub uninterp spec fn parser_feed(p: Emulator) -> Seq<u8>;

/// The parser's current scrollback offset: how many lines back from
/// the live edge the view sits.
pub uninterp spec fn parser_scroll_offset(p: Emulator) -> nat;

/// How many scrollback lines the parser has buffered, the bound the
/// offset is clamped to.
pub uninterp spec fn parser_scroll_limit(p: Emulator) -> nat;

/// The text of the currently visible rows, without styling.
pub uninterp spec fn parser_visible_rows(p: Emulator) -> Seq<Seq<char>>;

/// Relies on vt100::Parser::new: a fresh parser has interpreted no
/// bytes, sits at scroll offset zero, and has buffered no scrollback.
/// The engine's grid subtracts one from the row count, so a zero
/// dimension is excluded.
#[verifier::external_body]
fn parser_new(rows: u16, cols: u16, scrollback_len: usize) -> (p: Emulator)
    requires
        rows >= 1,
        cols >= 1,
    ensures
        parser_feed(p) == Seq::<u8>::empty(),
        parser_scroll_offset(p) == 0,
        parser_scroll_limit(p) == 0,
{
    Emulator { parser: vt100::Parser::new(rows, cols, scrollback_len) }
}

/// Relies on vt100::Parser::process: the given bytes are appended to
/// the stream the parser has interpreted.
#[verifier::external_body]
fn parser_process(p: &mut Emulator, bytes: &[u8])
    ensures
        parser_feed(*final(p)) == parser_feed(*old(p)) + bytes@,
{
    p.parser.process(bytes);
}

/// Relies on vt100::Screen::set_size: resizing changes neither the
/// interpreted stream nor the scrollback position.  The engine's grid
/// subtracts one from the row count, so a zero dimension is excluded.
#[verifier::external_body]
fn parser_set_size(p: &mut Emulator, rows: u16, cols: u16)
    requires
        rows >= 1,
        cols >= 1,
    ensures
        parser_feed(*final(p)) == parser_feed(*old(p)),
        parser_scroll_offset(*final(p)) == parser_scroll_offset(*old(p)),
        parser_scroll_limit(*final(p)) == parser_scroll_limit(*old(p)),
{
    p.parser.screen_mut().set_size(rows, cols);
}

/// Relies on vt100::Screen::set_scrollback: the offset becomes the
/// requested value clamped to the buffered scrollback, and nothing
/// else changes.
#[verifier::external_body]
fn parser_set_scrollback(p: &mut Emulator, n: usize)
    ensures
        parser_feed(*final(p)) == parser_feed(*old(p)),
        parser_scroll_limit(*final(p)) == parser_scroll_limit(*old(p)),
        parser_scroll_offset(*final(p)) == (if n as nat <= parser_scroll_limit(*old(p)) {
            n as nat
        } else {
            parser_scroll_limit(*old(p))
        }),
{
    p.parser.screen_mut().set_scrollback(n);
}

/// Relies on vt100::Screen::scrollback: returns the current offset,
/// which the engine keeps clamped to the buffered scrollback.
#[verifier::external_body]
fn parser_get_scrollback(p: &Emulator) -> (r: usize)
    ensures
        r as nat == parser_scroll_offset(*p),
        r as nat <= parser_scroll_limit(*p),
{
    p.parser.screen().scrollback()
}

/// Relies on vt100::Screen::rows: the plain text of the visible rows,
/// in order, full width, without styling.
#[verifier::external_body]
fn parser_rows(p: &Emulator) -> (r: Vec<String>)
    ensures
        r@.map_values(|s: String| s@) == parser_visible_rows(*p),
{
    let (_, cols) = p.parser.screen().size();
    p.parser.screen().rows(0, cols).collect()
}

/// Relies on vt100::Parser::screen: hands out the engine's screen for
/// rendering.
#[verifier::external_body]
fn parser_screen(p: &Emulator) -> (r: &vt100::Screen)
{
    p.parser.screen()
}

/// The argument vector a command description holds: the program
/// first, then its arguments, in order.
pub uninterp spec fn cmd_argv(c: portable_pty::CommandBuilder) -> Seq<Seq<char>>;

/// The working directory a command description holds, if one was set.
pub uninterp spec fn cmd_dir(c: portable_pty::CommandBuilder) -> Option<Seq<char>>;

/// Relies on portable_pty::CommandBuilder::new: begins a command
/// description whose argument vector is just the program, with no
/// working directory set.
#[verifier::external_body]
fn cmd_new(program: &str) -> (r: portable_pty::CommandBuilder)
    ensures
        cmd_argv(r) == seq![program@],
        cmd_dir(r) is None,
{
    portable_pty::CommandBuilder::new(program)
}

/// Relies on portable_pty::CommandBuilder::arg: appends one argument
/// to the vector.  An empty argument vector is excluded: on it the
/// call refuses to append.
#[verifier::external_body]
fn cmd_arg(cmd: &mut portable_pty::CommandBuilder, arg: &str)
    requires
        cmd_argv(*old(cmd)).len() >= 1,
    ensures
        cmd_argv(*final(cmd)) == cmd_argv(*old(cmd)).push(arg@),
        cmd_dir(*final(cmd)) == cmd_dir(*old(cmd)),
{
    cmd.arg(arg);
}

/// Relies on portable_pty::CommandBuilder::cwd: sets the working
/// directory the child starts in.
#[verifier::external_body]
fn cmd_cwd(cmd: &mut portable_pty::CommandBuilder, dir: &str)
    ensures
        cmd_argv(*final(cmd)) == cmd_argv(*old(cmd)),
        cmd_dir(*final(cmd)) == Some(dir@),
{
    cmd.cwd(dir);
}

/// Relies on portable_pty: opens a pty of the given size, spawns the
/// command on its slave side, and takes a cloned reader and the
/// writer from the master, plus a fresh chunk channel.
#[verifier::external_body]
fn spawn_shell(cmd: portable_pty::CommandBuilder, rows: u16, cols: u16) -> (r: Result<
    (PtyIo, PtyReader, std::sync::mpsc::Receiver<Vec<u8>>),
    String,
>)
{
    let sys = portable_pty::native_pty_system();
    let size = portable_pty::PtySize { rows, cols, pixel_width: 0, pixel_height: 0 };
    let pair = sys.openpty(size).map_err(|e| e.to_string())?;
    let child = pair.slave.spawn_command(cmd).map_err(|e| e.to_string())?;
    let reader = pair.master.try_clone_reader().map_err(|e| e.to_string())?;
    let writer = pair.master.take_writer().map_err(|e| e.to_string())?;
    let (tx, rx) = std::sync::mpsc::channel();
    Ok((PtyIo { master: pair.master, writer, child }, PtyReader { reader, tx }, rx))
}

/// Relies on portable_pty::MasterPty::resize: resizes the OS pty.
#[verifier::external_body]
fn pty_resize(io: &mut PtyIo, rows: u16, cols: u16) -> (r: Result<(), String>)
{
    let size = portable_pty::PtySize { rows, cols, pixel_width: 0, pixel_height: 0 };
    io.master.resize(size).map_err(|e| e.to_string())
}

/// Relies on std::io::Write::write_all on the pty writer: hands the
/// bytes to the child's input.
#[verifier::external_body]
fn pty_write_all(io: &mut PtyIo, bytes: &[u8]) -> (r: Result<(), String>)
{
    io.writer.write_all(bytes).map_err(|e| e.to_string())
}

/// Relies on std::io::Write::flush on the pty writer; a flush failure
/// is deliberately dropped.
#[verifier::external_body]
fn pty_flush_best_effort(io: &mut PtyIo)
{
    let _ = io.writer.flush();
}

/// Relies on portable_pty::ChildKiller::kill; the failure of a kill
/// on an already dead child is dropped.
#[verifier::external_body]
fn pty_kill(io: &mut PtyIo)
{
    let _ = io.child.kill();
}

/// What one liveness poll of the child reported.
pub enum ChildPoll {
    Running,
    Exited(String),
    CheckFailed(String),
}

/// Relies on portable_pty::Child::try_wait: a non-blocking check that
/// reports the exit status once the child has terminated.
#[verifier::external_body]
fn child_try_wait(io: &mut PtyIo) -> (r: ChildPoll)
{
    match io.child.try_wait() {
        Ok(None) => ChildPoll::Running,
        Ok(Some(status)) => ChildPoll::Exited(status.to_string()),
        Err(e) => ChildPoll::CheckFailed(e.to_string()),
    }
}

/// What one read from the pty produced.
pub enum ReadOutcome {
    Data(Vec<u8>),
    Interrupted,
    Closed,
}

/// Relies on std::io::Read::read with a fixed 8 KiB buffer: data on a
/// successful non-empty read, `Interrupted` for an interrupted
/// syscall, `Closed` on end of stream or any other error.
#[verifier::external_body]
fn read_chunk(r: &mut PtyReader) -> (res: ReadOutcome)
{
    let mut buf = [0u8; 8192];
    match r.reader.read(&mut buf) {
        Ok(0) => ReadOutcome::Closed,
        Ok(n) => ReadOutcome::Data(buf[..n].to_vec()),
        Err(e) if e.kind() == std::io::ErrorKind::Interrupted => ReadOutcome::Interrupted,
        Err(_) => ReadOutcome::Closed,
    }
}

/// Relies on std::sync::mpsc::Sender::send: queues the chunk for the
/// consumer; fails only when the receiving side is gone.
#[verifier::external_body]
fn send_chunk(r: &mut PtyReader, chunk: Vec<u8>) -> (ok: bool)
{
    r.tx.send(chunk).is_ok()
}

/// Relies on std::sync::mpsc::Receiver::try_recv: takes one queued
/// chunk without ever blocking, or reports that none is waiting.
#[verifier::external_body]
fn try_recv_chunk(rx: &std::sync::mpsc::Receiver<Vec<u8>>) -> (r: Option<Vec<u8>>)
{
    rx.try_recv().ok()
}

impl PtyReader {
    /// One step of the output reader: read from the pty and forward
    /// the chunk.  Returns whether the loop should go on: an
    /// interrupted read is retried, end of stream or a vanished
    /// consumer ends it.  The host drives this on its own thread.
    pub fn run_step(&mut self) -> bool {
        match read_chunk(self) {
            ReadOutcome::Data(chunk) => send_chunk(self, chunk),
            ReadOutcome::Interrupted => true,
            ReadOutcome::Closed => false,
        }
    }
}

/// A live terminal session: the OS endpoints, the receiving half of
/// the output channel, the emulation engine, the stored size, and
/// whether the child was seen to exit.
pub struct TerminalSession {
    io: PtyIo,
    output_rx: std::sync::mpsc::Receiver<Vec<u8>>,
    parser: Emulator,
    rows: u16,
    cols: u16,
    exited: bool,
}

impl TerminalSession {
    /// The byte stream the session has interpreted so far.
    pub closed spec fn feed(self) -> Seq<u8> {
        parser_feed(self.parser)
    }

    /// The emulation engine's state, for framing what stays untouched.
    pub closed spec fn engine(self) -> Emulator {
        self.parser
    }

    /// The stored terminal size, as (rows, cols).
    pub closed spec fn size(self) -> (u16, u16) {
        (self.rows, self.cols)
    }

    /// The current scrollback offset.
    pub closed spec fn scroll_offset(self) -> nat {
        parser_scroll_offset(self.parser)
    }

    /// How far back the view can be scrolled.
    pub closed spec fn scroll_limit(self) -> nat {
        parser_scroll_limit(self.parser)
    }

    /// Whether a poll has seen the child terminate.
    pub closed spec fn has_exited(self) -> bool {
        self.exited
    }

    /// The plain text of the visible rows.
    pub closed spec fn visible_rows(self) -> Seq<Seq<char>> {
        parser_visible_rows(self.parser)
    }

    /// Starts a session: spawns the given program on a fresh pty of
    /// the given size and wires up the output channel.  A zero
    /// dimension is refused rather than handed to the engine.  The
    /// returned reader must be driven by the host for output to
    /// arrive.
    pub fn start(program: &str, args: &Vec<String>, cwd: &str, rows: u16, cols: u16) -> (r:
        Result<(TerminalSession, PtyReader), String>)
        ensures
            rows == 0 || cols == 0 ==> r is Err,
            match r {
                Ok(pair) => {
                    &&& pair.0.size() == (rows, cols)
                    &&& !pair.0.has_exited()
                    &&& pair.0.feed() == Seq::<u8>::empty()
                    &&& pair.0.scroll_offset() == 0
                    &&& pair.0.scroll_limit() == 0
                },
                Err(_) => true,
            },
    {
        if rows == 0 || cols == 0 {
            return Err("cannot open a terminal with a zero dimension".to_owned());
        }

        let mut cmd = cmd_new(program);
        let mut i: usize = 0;
        let n = args.len();
        proof {
            assert(seq![program@] + args@.map_values(|a: String| a@).take(0) =~= seq![program@]);
        }
        while i < n
            invariant
                i <= n,
                n == args@.len(),
                cmd_argv(cmd) == seq![program@] + args@.map_values(
                    |a: String| a@,
                ).take(i as int),
                cmd_dir(cmd) is None,
            decreases n - i,
        {
            proof {
                assert(args@.map_values(|a: String| a@)[i as int] == args@[i as int]@);
                assert((seq![program@] + args@.map_values(|a: String| a@).take(i as int)).push(
                    args@[i as int]@,
                ) =~= seq![program@] + args@.map_values(|a: String| a@).take(i + 1));
            }
            cmd_arg(&mut cmd, args[i].as_str());
            i += 1;
        }
        cmd_cwd(&mut cmd, cwd);
        proof {
            assert(args@.map_values(|a: String| a@).take(n as int) =~= args@.map_values(
                |a: String| a@,
            ));
        }
        assert(cmd_argv(cmd) == seq![program@] + args@.map_values(|a: String| a@));
        assert(cmd_dir(cmd) == Some(cwd@));

        match spawn_shell(cmd, rows, cols) {
            Ok((io, reader, rx)) => {
                let parser = parser_new(rows, cols, SCROLLBACK_LEN);
                let session = TerminalSession {
                    io,
                    output_rx: rx,
                    parser,
                    rows,
                    cols,
                    exited: false,
                };
                Ok((session, reader))
            },
            Err(e) => Err(e),
        }
    }

    /// Drains every chunk currently queued on the output channel into
    /// the engine, in arrival order, without ever waiting, and says
    /// whether anything was processed.  When the channel is empty the
    /// session is returned exactly as it was.
    pub fn pump_output(&mut self) -> (updated: bool)
        ensures
            final(self).size() == old(self).size(),
            final(self).has_exited() == old(self).has_exited(),
            old(self).feed().is_prefix_of(final(self).feed()),
            !updated ==> *final(self) == *old(self),
            updated ==> final(self).feed().len() >= old(self).feed().len(),
    {
        let mut updated = false;
        // A channel of separately allocated chunks can never hold
        // usize::MAX entries at once, so this bound never cuts a
        // drain short.
        let mut fuel: usize = usize::MAX;
        while fuel > 0
            invariant
                self.rows == old(self).rows,
                self.cols == old(self).cols,
                self.exited == old(self).exited,
                old(self).feed().is_prefix_of(self.feed()),
                !updated ==> *self == *old(self),
                updated ==> self.feed().len() >= old(self).feed().len(),
            decreases fuel,
        {
            match try_recv_chunk(&self.output_rx) {
                Some(chunk) => {
                    proof {
                        lemma_seq_concat_prefix(
                            old(self).feed(),
                            self.feed(),
                            chunk@,
                        );
                    }
                    parser_process(&mut self.parser, chunk.as_slice());
                    updated = true;
                },
                None => {
                    break ;
                },
            }
            fuel -= 1;
        }
        updated
    }

    /// Resizes the pty and the engine together: a zero dimension or
    /// an unchanged size is a no-op, and a failure of the OS resize
    /// leaves the stored size and the engine untouched.
    pub fn resize(&mut self, rows: u16, cols: u16) -> (r: Result<(), String>)
        ensures
            rows == 0 || cols == 0 ==> *final(self) == *old(self) && r is Ok,
            (rows, cols) == old(self).size() ==> *final(self) == *old(self) && r is Ok,
            final(self).has_exited() == old(self).has_exited(),
            final(self).feed() == old(self).feed(),
            final(self).scroll_offset() == old(self).scroll_offset(),
            final(self).scroll_limit() == old(self).scroll_limit(),
            match r {
                Ok(_) => (rows != 0 && cols != 0) ==> final(self).size() == (rows, cols),
                Err(_) => final(self).size() == old(self).size() && final(self).engine()
                    == old(self).engine(),
            },
    {
        if rows == 0 || cols == 0 {
            return Ok(());
        }
        if rows == self.rows && cols == self.cols {
            return Ok(());
        }

        match pty_resize(&mut self.io, rows, cols) {
            Ok(_) => {},
            Err(e) => {
                return Err(e);
            },
        }
        parser_set_size(&mut self.parser, rows, cols);
        self.rows = rows;
        self.cols = cols;
        Ok(())
    }

    /// Encodes a key press and writes it to the child's input; a key
    /// the encoder swallows is dropped without a write, and a flush
    /// failure is ignored.
    pub fn send_key(&mut self, code: KeyCode, mods: KeyModifiers) -> (r: Result<(), String>)
        ensures
            final(self).engine() == old(self).engine(),
            final(self).size() == old(self).size(),
            final(self).has_exited() == old(self).has_exited(),
            encode_key_event_spec(code, mods) is None ==> r is Ok,
    {
        let bytes = match encode_key_event(code, mods) {
            Some(bytes) => bytes,
            None => {
                return Ok(());
            },
        };

        match pty_write_all(&mut self.io, bytes.as_slice()) {
            Ok(_) => {},
            Err(e) => {
                return Err(e);
            },
        }
        pty_flush_best_effort(&mut self.io);
        Ok(())
    }

    /// Writes raw text to the child's input; a flush failure is
    /// ignored.
    pub fn send_text(&mut self, text: &str) -> (r: Result<(), String>)
        ensures
            final(self).engine() == old(self).engine(),
            final(self).size() == old(self).size(),
            final(self).has_exited() == old(self).has_exited(),
    {
        match pty_write_all(&mut self.io, text.as_bytes()) {
            Ok(_) => {},
            Err(e) => {
                return Err(e);
            },
        }
        pty_flush_best_effort(&mut self.io);
        Ok(())
    }

    /// Scrolls the view to `n` lines back from the live edge, clamped
    /// to what is buffered.
    pub fn set_scrollback(&mut self, n: usize)
        ensures
            final(self).size() == old(self).size(),
            final(self).has_exited() == old(self).has_exited(),
            final(self).feed() == old(self).feed(),
            final(self).scroll_limit() == old(self).scroll_limit(),
            final(self).scroll_offset() == (if n as nat <= old(self).scroll_limit() {
                n as nat
            } else {
                old(self).scroll_limit()
            }),
    {
        parser_set_scrollback(&mut self.parser, n);
    }

    /// How many lines back from the live edge the view sits.
    pub fn scrollback(&self) -> (r: usize)
        ensures
            r as nat == self.scroll_offset(),
            self.scroll_offset() <= self.scroll_limit(),
    {
        parser_get_scrollback(&self.parser)
    }

    /// The plain text of the visible rows, for search and yanking.
    pub fn plain_rows(&self) -> (r: Vec<String>)
        ensures
            r@.map_values(|s: String| s@) == self.visible_rows(),
    {
        parser_rows(&self.parser)
    }

    /// The engine's screen, for the renderer.
    pub fn screen(&self) -> &vt100::Screen {
        parser_screen(&self.parser)
    }

    /// Whether an earlier poll saw the child terminate.
    pub fn is_exited(&self) -> (r: bool)
        ensures
            r == self.has_exited(),
    {
        self.exited
    }

    /// Polls the child without blocking.  The first poll after the
    /// child terminated reports its status exactly once and marks the
    /// session exited; every later poll reports nothing.
    pub fn poll_exit_message(&mut self) -> (r: Result<Option<String>, String>)
        ensures
            final(self).engine() == old(self).engine(),
            final(self).size() == old(self).size(),
            old(self).has_exited() ==> *final(self) == *old(self) && (r matches Ok(m)
                && m is None),
            !old(self).has_exited() ==> match r {
                Ok(Some(_)) => final(self).has_exited(),
                Ok(None) => !final(self).has_exited(),
                Err(_) => !final(self).has_exited(),
            },
    {
        if self.exited {
            return Ok(None);
        }

        match child_try_wait(&mut self.io) {
            ChildPoll::Running => Ok(None),
            ChildPoll::Exited(message) => {
                self.exited = true;
                Ok(Some(message))
            },
            ChildPoll::CheckFailed(e) => Err(e),
        }
    }

    /// Unconditionally terminates the child process.
    pub fn kill(&mut self)
        ensures
            final(self).engine() == old(self).engine(),
            final(self).size() == old(self).size(),
            final(self).has_exited() == old(self).has_exited(),
    {
        pty_kill(&mut self.io);
    }
}

impl Drop for TerminalSession {
    /// Dropping a session kills the child; the reader thread ends on
    /// its own once the pty closes.
    #[verifier::external_body]
    fn drop(&mut self)
        opens_invariants none
        no_unwind
    {
        pty_kill(&mut self.io);
    }
}

/// A prefix stays a prefix when more is appended.
proof fn lemma_seq_concat_prefix(a: Seq<u8>, b: Seq<u8>, c: Seq<u8>)
    requires
        a.is_prefix_of(b),
    ensures
        a.is_prefix_of(b + c),
{
    assert((b + c).subrange(0, a.len() as int) =~= b.subrange(0, a.len() as int));
}

} // verus!
