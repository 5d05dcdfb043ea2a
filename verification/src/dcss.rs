//! The crawl door's input rules: which keys it takes for itself, and which
//! terminal reports it keeps away from the game.
use vstd::prelude::*;

verus! {

/// Whether the crawl door shows its launcher or a running game.
#[derive(Clone, Copy, Debug, PartialEq, Eq, Structural)]
pub enum Mode {
    Launcher,
    Running,
}

/// Ticks of launcher input swallowed after a game exits, so a stray key
/// from the game's last prompts cannot reach the app's own quit.
pub const EXIT_GRACE_TICKS: u8 = 10;

/// The launcher's own state: whether the door may launch at all, whether a
/// game is running, and how many ticks of input grace are left after one
/// exits.
#[derive(Clone, Copy, Debug, PartialEq, Eq, Structural)]
pub struct Launcher {
    pub enabled: bool,
    pub mode: Mode,
    pub exit_grace: u8,
}

impl Launcher {
    /// A launcher with nothing running yet.
    pub fn new(enabled: bool) -> (l: Launcher)
        ensures
            l == (Launcher { enabled, mode: Mode::Launcher, exit_grace: 0 }),
    {
        Launcher { enabled, mode: Mode::Launcher, exit_grace: 0 }
    }

    pub fn is_running(&self) -> (r: bool)
        ensures
            r == (self.mode == Mode::Running),
    {
        match self.mode {
            Mode::Running => true,
            Mode::Launcher => false,
        }
    }

    /// Whether the launcher is still swallowing the keys a finished game
    /// left behind.
    pub fn in_exit_grace(&self) -> (r: bool)
        ensures
            r == (self.exit_grace > 0),
    {
        self.exit_grace > 0
    }

    /// Whether a launch may go ahead: the door is enabled and no game
    /// process is up.
    pub fn may_connect(&self, has_process: bool) -> (r: bool)
        ensures
            r == (self.enabled && !has_process),
    {
        self.enabled && !has_process
    }

    /// A game process is up: the launcher gives way to it.
    pub fn started(&mut self)
        ensures
            *final(self) == (Launcher { mode: Mode::Running, exit_grace: 0, ..*old(self) }),
    {
        self.mode = Mode::Running;
        self.exit_grace = 0;
    }

    /// One app tick. A running game whose process has closed (a save, a
    /// death, a quit or a crash alike) drops back to the launcher and opens
    /// the input grace; otherwise the grace counts down. Returns whether the
    /// process should be dropped now.
    pub fn tick(&mut self, closed: bool) -> (drop_process: bool)
        ensures
            old(self).mode == Mode::Running && closed ==> drop_process && *final(self) == (Launcher {
                mode: Mode::Launcher,
                exit_grace: EXIT_GRACE_TICKS,
                ..*old(self)
            }),
            old(self).mode == Mode::Running && !closed ==> !drop_process && *final(self) == *old(self),
            old(self).mode == Mode::Launcher ==> !drop_process && *final(self) == (Launcher {
                exit_grace: if old(self).exit_grace > 0 {
                    (old(self).exit_grace - 1) as u8
                } else {
                    0
                },
                ..*old(self)
            }),
    {
        if self.mode == Mode::Running {
            if closed {
                self.mode = Mode::Launcher;
                self.exit_grace = EXIT_GRACE_TICKS;
                return true;
            }
            return false;
        }
        if self.exit_grace > 0 {
            self.exit_grace = self.exit_grace - 1;
        }
        false
    }
}

/// F1 as the common terminals send it: `ESC O P`, or `ESC [ 1 1 ~`.
pub open spec fn f1_key(data: Seq<u8>) -> bool {
    data == seq![0x1bu8, 0x4fu8, 0x50u8] || data == seq![0x1bu8, 0x5bu8, 0x31u8, 0x31u8, 0x7eu8]
}

/// Whether a chunk of input is exactly the F1 key.
pub fn is_f1(data: &[u8]) -> (r: bool)
    ensures
        r == f1_key(data@),
{
    let ss3 = data.len() == 3 && data[0] == 0x1b && data[1] == 0x4f && data[2] == 0x50;
    let csi = data.len() == 5 && data[0] == 0x1b && data[1] == 0x5b && data[2] == 0x31 && data[3] == 0x31
        && data[4] == 0x7e;
    proof {
        if ss3 {
            assert(data@ =~= seq![0x1bu8, 0x4fu8, 0x50u8]);
        }
        if csi {
            assert(data@ =~= seq![0x1bu8, 0x5bu8, 0x31u8, 0x31u8, 0x7eu8]);
        }
    }
    ss3 || csi
}

/// The first place at or after `k` where a mouse report ends: an `M` or an
/// `m`.
pub open spec fn report_end(rest: Seq<u8>, k: int) -> Option<int>
    decreases rest.len() - k,
{
    if k < 0 || k >= rest.len() {
        None
    } else if rest[k] == 0x4d || rest[k] == 0x6d {
        Some(k)
    } else {
        report_end(rest, k + 1)
    }
}

/// How many bytes of terminal noise open `s`: an SGR mouse report
/// `ESC [ < ... M|m`, a legacy mouse report `ESC [ M b x y`, or a
/// bracketed-paste marker `ESC [ 200~` / `ESC [ 201~`. Nothing for anything
/// else, a report cut short included.
pub open spec fn noise_len(s: Seq<u8>) -> int {
    if s.len() >= 2 && s[0] == 0x1b && s[1] == 0x5b {
        let rest = s.skip(2);
        if rest.len() > 0 && rest[0] == 0x3c && report_end(rest, 0) is Some {
            2 + report_end(rest, 0)->Some_0 + 1
        } else if rest.len() >= 4 && rest[0] == 0x4d {
            6
        } else if rest.len() >= 4 && rest[0] == 0x32 && rest[1] == 0x30 && (rest[2] == 0x30 || rest[2]
            == 0x31) && rest[3] == 0x7e {
            6
        } else {
            0
        }
    } else {
        0
    }
}

/// The input with every piece of terminal noise taken out, read from the
/// front; everything else passes through in order.
pub open spec fn stripped(s: Seq<u8>) -> Seq<u8>
    decreases s.len(),
{
    if s.len() == 0 {
        Seq::empty()
    } else if 0 < noise_len(s) <= s.len() {
        stripped(s.skip(noise_len(s)))
    } else {
        seq![s[0]] + stripped(s.skip(1))
    }
}

/// How many bytes of noise open the input at `i`.
fn noise_at(data: &[u8], i: usize) -> (n: usize)
    requires
        i < data@.len(),
    ensures
        n == noise_len(data@.skip(i as int)),
        n <= data@.len() - i,
{
    let ghost s = data@.skip(i as int);
    if i < data.len() - 1 && data[i] == 0x1b && data[i + 1] == 0x5b {
        let start = i + 2;
        let ghost rest = s.skip(2);
        assert(rest =~= data@.skip(start as int));
        assert(s[0] == data@[i as int] && s[1] == data@[i + 1]);
        if start < data.len() && data[start] == 0x3c {
            let mut j = start;
            while j < data.len()
                invariant
                    start <= j <= data@.len(),
                    start == i + 2,
                    s == data@.skip(i as int),
                    s.len() >= 2 && s[0] == 0x1b && s[1] == 0x5b,
                    rest == s.skip(2),
                    rest == data@.skip(start as int),
                    rest.len() > 0 && rest[0] == 0x3c,
                    report_end(rest, 0) == report_end(rest, j - start),
                decreases data@.len() - j,
            {
                if data[j] == 0x4d || data[j] == 0x6d {
                    assert(rest[j - start] == data@[j as int]);
                    assert(rest[0] == data@[start as int]);
                    assert(report_end(rest, j - start) == Some((j - start) as int));
                    return j - i + 1;
                }
                assert(rest[j - start] == data@[j as int]);
                j = j + 1;
            }
            assert(report_end(rest, j - start) is None);
        }
        if data.len() - start > 3 && data[start] == 0x4d {
            return 6;
        }
        if data.len() - start > 3 && data[start] == 0x32 && data[start + 1] == 0x30 && (data[start + 2]
            == 0x30 || data[start + 2] == 0x31) && data[start + 3] == 0x7e {
            return 6;
        }
    }
    0
}

/// Drop the terminal reports crawl must never see: SGR and legacy mouse
/// reports and bracketed-paste markers. Everything else, real keys and arrow
/// escapes included, passes through verbatim; a report cut off at the end of
/// the chunk passes through too rather than swallowing a following key.
pub fn strip_input_noise(data: &[u8]) -> (r: Vec<u8>)
    ensures
        r@ == stripped(data@),
{
    let mut out: Vec<u8> = Vec::new();
    let mut i: usize = 0;
    proof {
        assert(data@.skip(0) =~= data@);
        assert(out@ + stripped(data@) =~= stripped(data@));
    }
    while i < data.len()
        invariant
            i <= data@.len(),
            stripped(data@) == out@ + stripped(data@.skip(i as int)),
        decreases data@.len() - i,
    {
        let n = noise_at(data, i);
        let ghost s = data@.skip(i as int);
        if n > 0 {
            proof {
                assert(s.skip(n as int) =~= data@.skip(i + n));
            }
            i = i + n;
        } else {
            proof {
                assert(s.skip(1) =~= data@.skip(i + 1));
                assert(s[0] == data@[i as int]);
                let tail = stripped(data@.skip(i + 1));
                assert(out@.push(data@[i as int]) + tail =~= out@ + (seq![s[0]] + tail));
            }
            out.push(data[i]);
            i = i + 1;
        }
    }
    proof {
        assert(data@.skip(i as int) =~= Seq::<u8>::empty());
        assert(out@ + Seq::<u8>::empty() =~= out@);
    }
    out
}

} // verus!
