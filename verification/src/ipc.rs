//! The single-instance channel: a second start of the program forwards its request to the
//! running one as a short text frame over a local socket. This module holds the frames, their
//! reading and the runtime directory's layout; locking, sockets and threads are outside.

use crate::hotkey::{join_relative, ActionId};
use crate::text::push_text;
use vstd::prelude::*;

verus! {

/// A request forwarded to the running instance.
#[derive(Debug, Clone, Copy, PartialEq, Eq, Structural)]
pub enum Command {
    /// Bring the running instance forward.
    Activate,
    /// Run an action, such as a region capture.
    InvokeAction(ActionId),
    /// Quit.
    Shutdown,
}

/// `ACTIVATE\n`
pub open spec fn activate_frame() -> Seq<u8> {
    seq![65u8, 67, 84, 73, 86, 65, 84, 69, 10]
}

/// `CAPTURE\n`
pub open spec fn capture_frame() -> Seq<u8> {
    seq![67u8, 65, 80, 84, 85, 82, 69, 10]
}

/// `QUIT\n`
pub open spec fn quit_frame() -> Seq<u8> {
    seq![81u8, 85, 73, 84, 10]
}

fn activate_bytes() -> (v: Vec<u8>)
    ensures
        v@ == activate_frame(),
{
    let v: Vec<u8> = vec![65u8, 67, 84, 73, 86, 65, 84, 69, 10];
    assert(v@ =~= activate_frame());
    v
}

fn capture_bytes() -> (v: Vec<u8>)
    ensures
        v@ == capture_frame(),
{
    let v: Vec<u8> = vec![67u8, 65, 80, 84, 85, 82, 69, 10];
    assert(v@ =~= capture_frame());
    v
}

fn quit_bytes() -> (v: Vec<u8>)
    ensures
        v@ == quit_frame(),
{
    let v: Vec<u8> = vec![81u8, 85, 73, 84, 10];
    assert(v@ =~= quit_frame());
    v
}

/// The frame that forwards `command`; only activation, region capture and quitting travel
/// this way.
pub open spec fn frame_of(command: Command) -> Option<Seq<u8>> {
    match command {
        Command::Activate => Some(activate_frame()),
        Command::InvokeAction(ActionId::CaptureRegionAndPin) => Some(capture_frame()),
        Command::Shutdown => Some(quit_frame()),
        _ => None,
    }
}

pub const UNFORWARDABLE_MESSAGE: &'static str = "OS instance only forwards Activate / Capture / Quit";

/// The bytes to send for `command`, or the reason it cannot be forwarded.
pub fn ipc_frame(command: Command) -> (r: Result<Vec<u8>, String>)
    ensures
        match frame_of(command) {
            Some(f) => r matches Ok(v) && v@ == f,
            None => r matches Err(e) && e@ == UNFORWARDABLE_MESSAGE@,
        },
{
    match command {
        Command::Activate => Ok(activate_bytes()),
        Command::InvokeAction(ActionId::CaptureRegionAndPin) => Ok(capture_bytes()),
        Command::Shutdown => Ok(quit_bytes()),
        _ => Err(UNFORWARDABLE_MESSAGE.to_owned()),
    }
}

/// `frame` occurs in `buf` as a contiguous run.
pub open spec fn holds_frame(buf: Seq<u8>, frame: Seq<u8>) -> bool {
    exists|i: int|
        0 <= i && i + frame.len() <= buf.len() && #[trigger] buf.subrange(i, i + frame.len())
            == frame
}

fn contains_frame(buf: &Vec<u8>, frame: &Vec<u8>) -> (b: bool)
    requires
        frame@.len() > 0,
    ensures
        b == holds_frame(buf@, frame@),
{
    if frame.len() > buf.len() {
        return false;
    }
    let last = buf.len() - frame.len();
    let mut i: usize = 0;
    loop
        invariant
            i <= last,
            last == buf@.len() - frame@.len(),
            frame@.len() <= buf@.len(),
            buf@.len() <= usize::MAX,
            forall|k: int| 0 <= k < i ==> #[trigger] buf@.subrange(k, k + frame@.len()) != frame@,
        decreases last - i,
    {
        let mut j: usize = 0;
        let mut same = true;
        while j < frame.len()
            invariant
                i <= last,
                last == buf@.len() - frame@.len(),
                frame@.len() <= buf@.len(),
                buf@.len() <= usize::MAX,
                j <= frame@.len(),
                same == (forall|m: int| 0 <= m < j ==> buf@[i + m] == frame@[m]),
            decreases frame@.len() - j,
        {
            if buf[i + j] != frame[j] {
                same = false;
            }
            j += 1;
        }
        if same {
            assert(buf@.subrange(i as int, i + frame@.len()) =~= frame@);
            return true;
        }
        assert(buf@.subrange(i as int, i + frame@.len()) != frame@) by {
            let m = choose|m: int| 0 <= m < frame@.len() && buf@[i + m] != frame@[m];
            assert(buf@.subrange(i as int, i + frame@.len())[m] != frame@[m]);
        }
        if i == last {
            assert forall|k: int| 0 <= k && k + frame@.len() <= buf@.len() implies #[trigger] buf@.subrange(
                k,
                k + frame@.len(),
            ) != frame@ by {
                assert(k <= last);
            }
            return false;
        }
        i += 1;
    }
}

/// The request that the bytes received so far carry: a capture frame anywhere wins, then a
/// quit frame, then an activation frame.
pub open spec fn command_in(buf: Seq<u8>) -> Option<Command> {
    if holds_frame(buf, capture_frame()) {
        Some(Command::InvokeAction(ActionId::CaptureRegionAndPin))
    } else if holds_frame(buf, quit_frame()) {
        Some(Command::Shutdown)
    } else if holds_frame(buf, activate_frame()) {
        Some(Command::Activate)
    } else {
        None
    }
}

proof fn lemma_frame_in_itself(f: Seq<u8>)
    ensures
        holds_frame(f, f),
{
    let i = 0int;
    assert(f.subrange(i, i + f.len()) =~= f);
}

proof fn lemma_activate_lacks_capture()
    ensures
        !holds_frame(activate_frame(), capture_frame()),
{
    let act = activate_frame();
    let cap = capture_frame();
    assert forall|i: int| 0 <= i && i + cap.len() <= act.len() implies #[trigger] act.subrange(
        i,
        i + cap.len(),
    ) != cap by {
        if i == 0 {
            assert(act.subrange(i, i + cap.len())[0] == act[0]);
            assert(act[0] != cap[0]);
        } else {
            assert(i == 1);
            assert(act.subrange(i, i + cap.len())[1] == act[2]);
            assert(act[2] != cap[1]);
        }
    }
}

proof fn lemma_activate_lacks_quit()
    ensures
        !holds_frame(activate_frame(), quit_frame()),
{
    let act = activate_frame();
    let quit = quit_frame();
    assert forall|i: int| 0 <= i && i + quit.len() <= act.len() implies #[trigger] act.subrange(
        i,
        i + quit.len(),
    ) != quit by {
        assert(act.subrange(i, i + quit.len())[0] == act[i]);
        assert(0 <= i <= 4);
        assert(act[i] != quit[0]);
    }
}

proof fn lemma_quit_lacks_capture()
    ensures
        !holds_frame(quit_frame(), capture_frame()),
{
    assert(quit_frame().len() < capture_frame().len());
}

/// Every request that travels between instances is read back as itself.
pub proof fn forwarded_frames_read_back(command: Command)
    requires
        frame_of(command) is Some,
    ensures
        command_in(frame_of(command).unwrap()) == Some(command),
{
    if command is Activate {
        let f = activate_frame();
        lemma_frame_in_itself(f);
        lemma_activate_lacks_capture();
        lemma_activate_lacks_quit();
        assert(frame_of(command) == Some(f));
    } else if command is Shutdown {
        let f = quit_frame();
        lemma_frame_in_itself(f);
        lemma_quit_lacks_capture();
        assert(frame_of(command) == Some(f));
    } else {
        let f = capture_frame();
        lemma_frame_in_itself(f);
        assert(command == Command::InvokeAction(ActionId::CaptureRegionAndPin));
        assert(frame_of(command) == Some(f));
    }
}

/// Reads the request out of the bytes received so far.
pub fn parse_ipc_frame(buf: &Vec<u8>) -> (c: Option<Command>)
    ensures
        c == command_in(buf@),
{
    if contains_frame(buf, &capture_bytes()) {
        return Some(Command::InvokeAction(ActionId::CaptureRegionAndPin));
    }
    if contains_frame(buf, &quit_bytes()) {
        return Some(Command::Shutdown);
    }
    if contains_frame(buf, &activate_bytes()) {
        return Some(Command::Activate);
    }
    None
}

/// The most bytes a connection may send before it is dropped without a request.
pub const MAX_FRAME_BYTES: usize = 256;

/// What the listener does after a chunk of bytes arrived on a connection.
#[derive(Debug, Clone, Copy, PartialEq, Eq, Structural)]
pub enum FrameProgress {
    /// A request was read; deliver it and close the connection.
    Deliver(Command),
    /// Nothing yet; read more.
    KeepReading,
    /// Too much without a request; close the connection.
    GiveUp,
}

/// Appends a received chunk and decides: deliver the request it completes, give up once more
/// than `MAX_FRAME_BYTES` arrived without one, or read on.
pub fn accept_chunk(collected: &mut Vec<u8>, chunk: &[u8]) -> (p: FrameProgress)
    ensures
        final(collected)@ == old(collected)@ + chunk@,
        match command_in(final(collected)@) {
            Some(c) => p == FrameProgress::Deliver(c),
            None => p == (if final(collected)@.len() > MAX_FRAME_BYTES {
                FrameProgress::GiveUp
            } else {
                FrameProgress::KeepReading
            }),
        },
{
    let mut i: usize = 0;
    let ghost start = collected@;
    while i < chunk.len()
        invariant
            i <= chunk@.len(),
            collected@ == start + chunk@.subrange(0, i as int),
        decreases chunk@.len() - i,
    {
        collected.push(chunk[i]);
        assert(collected@ =~= start + chunk@.subrange(0, i + 1));
        i += 1;
    }
    assert(chunk@.subrange(0, chunk@.len() as int) =~= chunk@);
    match parse_ipc_frame(collected) {
        Some(c) => FrameProgress::Deliver(c),
        None => if collected.len() > MAX_FRAME_BYTES {
            FrameProgress::GiveUp
        } else {
            FrameProgress::KeepReading
        },
    }
}

/// The runtime directory: `pinora` under `XDG_RUNTIME_DIR` where it is set, else
/// `pinora-<user>` under the temporary directory (`user` where `USER` is not set).
pub open spec fn runtime_dir(xdg: Option<Seq<char>>, user: Option<Seq<char>>, temp: Seq<char>) -> Seq<
    char,
> {
    match xdg {
        Some(x) => join_relative(x, "pinora"@),
        None => join_relative(
            temp,
            "pinora-"@ + match user {
                Some(u) => u,
                None => "user"@,
            },
        ),
    }
}

pub open spec fn opt_text(o: Option<&str>) -> Option<Seq<char>> {
    match o {
        Some(t) => Some(t@),
        None => None,
    }
}

fn join(base: &str, rel: &str) -> (p: String)
    ensures
        p@ == join_relative(base@, rel@),
{
    let mut p = String::new();
    push_text(&mut p, base);
    let n = base.unicode_len();
    if n > 0 && base.get_char(n - 1) != '/' {
        push_text(&mut p, "/");
        proof {
            reveal_strlit("/");
        }
    }
    push_text(&mut p, rel);
    assert(p@ =~= join_relative(base@, rel@));
    p
}

/// The runtime directory, from `XDG_RUNTIME_DIR`, `USER` and the temporary directory.
pub fn default_runtime_dir(xdg_runtime_dir: Option<&str>, user: Option<&str>, temp_dir: &str) -> (d:
    String)
    ensures
        d@ == runtime_dir(opt_text(xdg_runtime_dir), opt_text(user), temp_dir@),
{
    match xdg_runtime_dir {
        Some(x) => join(x, "pinora"),
        None => {
            let mut name = String::new();
            push_text(&mut name, "pinora-");
            match user {
                Some(u) => push_text(&mut name, u),
                None => push_text(&mut name, "user"),
            }
            join(temp_dir, name.as_str())
        },
    }
}

/// The lock file and the socket inside the runtime directory.
pub fn instance_paths(dir: &str) -> (paths: (String, String))
    ensures
        paths.0@ == join_relative(dir@, "instance.lock"@),
        paths.1@ == join_relative(dir@, "activate.sock"@),
{
    (join(dir, "instance.lock"), join(dir, "activate.sock"))
}

} // verus!
