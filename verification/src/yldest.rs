//! The recording state machine: the lifecycle of the on-disk record log.
//!
//! The session is a pure state machine. The loop that runs it does the
//! file work: each step hands back at most one effect — create the log
//! file and write its header, or append a chunk of serialized records —
//! and the loop performs it. Records are buffered in memory and flushed
//! once the buffer exceeds a size threshold, and completely when the
//! recording stops.

use crate::data::{yld_line_spec, Yld};
use crate::text::dec_str;
use vstd::prelude::*;

verus! {

/// The epoch, in seconds since the Unix epoch, that auto-generated file
/// names count from, keeping them short, monotone and collision-free
/// across runs.
pub const NAME_EPOCH_SECS: u64 = 1699743807;

/// The recording lifecycle: idle with a remembered directory, the log
/// file open but writing held, or records being written.
#[derive(Debug, Clone)]
pub enum YldestState {
    Idle { dir: Option<String> },
    Connected { path: String },
    Recording { path: String },
}

/// What a consumer may ask of the recorder: set up a new log — with a
/// directory to change to and a file name, either optional — then start,
/// pause or stop writing.
#[derive(Clone)]
pub enum YldestCmd {
    New { change_dir: Option<String>, file_name: Option<String> },
    Record,
    Pause,
    Stop,
}

/// The file work one step asks of the loop: create the log file at the
/// path and write the header line, or append the data to the open file.
#[derive(Debug)]
pub enum StoreEffect {
    Create { path: String },
    Write { data: String },
}

/// The views of an optional string.
pub open spec fn opt_view(o: Option<String>) -> Option<Seq<char>> {
    match o {
        Option::Some(s) => Option::Some(s@),
        Option::None => Option::None,
    }
}

/// A directory and a file name joined into one path.
pub open spec fn join_path_spec(dir: Seq<char>, name: Seq<char>) -> Seq<char> {
    dir + "/"@ + name
}

/// The auto-generated log file name for a clock reading: the seconds
/// since the naming epoch — clocks before it count as the epoch — with
/// the log suffix.
pub open spec fn auto_name_spec(now_secs: u64) -> Seq<char> {
    dec_str(
        if now_secs >= NAME_EPOCH_SECS {
            (now_secs - NAME_EPOCH_SECS) as nat
        } else {
            0
        },
    ) + ".yld"@
}

/// The auto-generated log file name for a clock reading.
pub fn auto_file_name(now_secs: u64) -> (r: String)
    ensures
        r@ == auto_name_spec(now_secs),
{
    let id: u64 = if now_secs >= NAME_EPOCH_SECS {
        now_secs - NAME_EPOCH_SECS
    } else {
        0
    };
    let mut out = crate::text::fmt_u64(id);
    out.append(".yld");
    proof {
        assert(out@ =~= auto_name_spec(now_secs));
    }
    out
}

/// How a `New` command resolves to a concrete log path: an explicit
/// directory joined with an explicit name; an explicit name joined with
/// the remembered directory; a directory alone, or a remembered one, with
/// an auto-generated name. Nothing when no directory is known anywhere.
/// The second component is the directory to remember from now on, where
/// one was named.
pub open spec fn resolve_path_spec(
    change_dir: Option<Seq<char>>,
    file_name: Option<Seq<char>>,
    dir: Option<Seq<char>>,
    now_secs: u64,
) -> Option<(Seq<char>, Option<Seq<char>>)> {
    match (change_dir, file_name, dir) {
        (Option::None, _, Option::None) => Option::None,
        (Option::Some(chdir), Option::Some(name), _) => Option::Some(
            (join_path_spec(chdir, name), Option::Some(chdir)),
        ),
        (Option::None, Option::Some(name), Option::Some(d)) => Option::Some(
            (join_path_spec(d, name), Option::None),
        ),
        (Option::Some(d), Option::None, _) => Option::Some(
            (auto_name_spec(now_secs), Option::Some(d)),
        ),
        (Option::None, Option::None, Option::Some(d)) => Option::Some(
            (auto_name_spec(now_secs), Option::Some(d)),
        ),
    }
}

/// A directory and a file name joined into one path.
fn join_path(dir: &str, name: &str) -> (r: String)
    ensures
        r@ == join_path_spec(dir@, name@),
{
    let mut out = String::from_str(dir);
    out.append("/");
    out.append(name);
    proof {
        assert(out@ =~= join_path_spec(dir@, name@));
    }
    out
}

/// Resolves a `New` command to the log path and, where one was named, the
/// directory to remember.
pub fn resolve_new_path(
    change_dir: &Option<String>,
    file_name: &Option<String>,
    dir: &Option<String>,
    now_secs: u64,
) -> (r: Option<(String, Option<String>)>)
    ensures
        ({
            let spec_r = resolve_path_spec(
                opt_view(*change_dir),
                opt_view(*file_name),
                opt_view(*dir),
                now_secs,
            );
            &&& r is Some <==> spec_r is Some
            &&& (r matches Some((p, upd)) ==> (spec_r matches Some((ps, upds)) && p@ == ps
                && opt_view(upd) == upds))
        }),
{
    match (change_dir, file_name, dir) {
        (Option::None, _, Option::None) => None,
        (Option::Some(chdir), Option::Some(name), _) => {
            let path = join_path(chdir.as_str(), name.as_str());
            Some((path, Some(chdir.clone())))
        },
        (Option::None, Option::Some(name), Option::Some(d)) => {
            let path = join_path(d.as_str(), name.as_str());
            Some((path, None))
        },
        (Option::Some(d), Option::None, _) => {
            let path = auto_file_name(now_secs);
            Some((path, Some(d.clone())))
        },
        (Option::None, Option::None, Option::Some(d)) => {
            let path = auto_file_name(now_secs);
            Some((path, Some(d.clone())))
        },
    }
}

fn clone_opt_string(o: &Option<String>) -> (r: Option<String>)
    ensures
        r == *o,
{
    match o {
        Option::Some(s) => Some(s.clone()),
        Option::None => None,
    }
}

/// The recording session: its lifecycle state, the in-memory write
/// buffer, and the remembered directory for later `New` commands.
pub struct RecordingSession {
    pub state: YldestState,
    pub write_buffer: String,
    pub dir: Option<String>,
}

/// Flushing threshold: the buffer is written out once it grows past this
/// many characters.
pub const FLUSH_THRESHOLD: usize = 1000;

impl RecordingSession {
    /// A fresh idle session remembering `default_dir`.
    pub fn new(default_dir: Option<String>) -> (r: Self)
        ensures
            r.state matches YldestState::Idle { dir } && dir == default_dir,
            r.dir == default_dir,
            r.write_buffer@.len() == 0,
    {
        let dir_copy = clone_opt_string(&default_dir);
        RecordingSession {
            state: YldestState::Idle { dir: default_dir },
            write_buffer: String::new(),
            dir: dir_copy,
        }
    }

    /// Empties the buffer into a `Write` effect when it has grown past
    /// the flushing threshold.
    fn flush_if_full(&mut self) -> (eff: Option<StoreEffect>)
        ensures
            final(self).state == old(self).state,
            final(self).dir == old(self).dir,
            old(self).write_buffer@.len() > FLUSH_THRESHOLD ==> (eff matches Some(
                StoreEffect::Write { data },
            ) && data@ == old(self).write_buffer@ && final(self).write_buffer@.len() == 0),
            old(self).write_buffer@.len() <= FLUSH_THRESHOLD ==> eff is None && *final(self)
                == *old(self),
    {
        if self.write_buffer.as_str().unicode_len() > FLUSH_THRESHOLD {
            let mut data = String::new();
            core::mem::swap(&mut data, &mut self.write_buffer);
            Some(StoreEffect::Write { data })
        } else {
            None
        }
    }

    /// Runs one step of the recording state machine on the command and
    /// the record, if any, that this iteration found waiting.
    ///
    /// From `Idle`, `New` resolves a path, remembers a named directory,
    /// asks for the file — the `Create` effect, which also writes the
    /// header — and starts recording at once. While `Recording`, an
    /// arriving record is appended to the buffer, which a step flushes
    /// once it exceeds the threshold; `Pause` moves to `Connected` with
    /// the file open and the buffer kept, and records arriving there are
    /// dropped until `Record` resumes; `Stop` flushes what remains and
    /// returns to `Idle` with the directory remembered. Every other
    /// state–command pair changes nothing.
    pub fn step(&mut self, cmd: Option<YldestCmd>, record: Option<Yld>, now_secs: u64) -> (eff:
        Option<StoreEffect>)
        ensures
            old(self).state matches YldestState::Idle { dir } ==> (cmd matches Some(
                YldestCmd::New { change_dir, file_name },
            ) ==> match resolve_path_spec(
                opt_view(change_dir),
                opt_view(file_name),
                opt_view(dir),
                now_secs,
            ) {
                Option::None => *final(self) == *old(self) && eff is None,
                Option::Some((p, upd)) => {
                    &&& final(self).state matches YldestState::Recording { path } && path@ == p
                    &&& final(self).write_buffer == old(self).write_buffer
                    &&& (match upd {
                        Option::Some(u) => opt_view(final(self).dir) == Option::Some(u),
                        Option::None => final(self).dir == old(self).dir,
                    })
                    &&& (eff matches Some(StoreEffect::Create { path }) && path@ == p)
                },
            }),
            old(self).state matches YldestState::Connected { path } ==> (cmd matches Some(
                YldestCmd::Record,
            ) ==> (final(self).state matches YldestState::Recording { path: p2 } && p2 == path
                && final(self).write_buffer == old(self).write_buffer && final(self).dir == old(
                self,
            ).dir && eff is None)),
            old(self).state matches YldestState::Recording { path } ==> ({
                let appended = match record {
                    Option::Some(r) => old(self).write_buffer@ + yld_line_spec(r),
                    Option::None => old(self).write_buffer@,
                };
                &&& (cmd matches Some(YldestCmd::Stop) ==> (final(self).state matches
                    YldestState::Idle { dir } && dir == old(self).dir && final(self).dir == old(
                    self,
                ).dir && final(self).write_buffer@.len() == 0 && (appended.len() > 0 ==> (eff
                    matches Some(StoreEffect::Write { data }) && data@ == appended)) && (
                appended.len() == 0 ==> eff is None)))
                &&& (cmd matches Some(YldestCmd::Pause) ==> (final(self).state matches
                    YldestState::Connected { path: p2 } && p2 == path && final(self).dir == old(
                    self,
                ).dir && flushed_by_threshold(appended, final(self).write_buffer@, eff)))
                &&& (!(cmd matches Some(YldestCmd::Stop)) && !(cmd matches Some(YldestCmd::Pause))
                    ==> (final(self).state matches YldestState::Recording { path: p2 } && p2 == path
                    && final(self).dir == old(self).dir && flushed_by_threshold(
                    appended,
                    final(self).write_buffer@,
                    eff,
                )))
            }),
            !(old(self).state matches YldestState::Idle { .. } && cmd matches Some(
                YldestCmd::New { .. },
            )) && !(old(self).state matches YldestState::Connected { .. } && cmd matches Some(
                YldestCmd::Record,
            )) && !(old(self).state matches YldestState::Recording { .. }) ==> (*final(self)
                == *old(self) && eff is None),
    {
        let mut state = YldestState::Idle { dir: None };
        core::mem::swap(&mut state, &mut self.state);
        match state {
            YldestState::Idle { dir } => {
                match cmd {
                    Some(YldestCmd::New { change_dir, file_name }) => {
                        match resolve_new_path(&change_dir, &file_name, &dir, now_secs) {
                            None => {
                                self.state = YldestState::Idle { dir };
                                None
                            },
                            Some((path, upd)) => {
                                match upd {
                                    Some(u) => {
                                        self.dir = Some(u);
                                    },
                                    None => {},
                                }
                                let eff_path = path.clone();
                                self.state = YldestState::Recording { path };
                                Some(StoreEffect::Create { path: eff_path })
                            },
                        }
                    },
                    _ => {
                        self.state = YldestState::Idle { dir };
                        None
                    },
                }
            },
            YldestState::Connected { path } => {
                match cmd {
                    Some(YldestCmd::Record) => {
                        self.state = YldestState::Recording { path };
                        None
                    },
                    _ => {
                        self.state = YldestState::Connected { path };
                        None
                    },
                }
            },
            YldestState::Recording { path } => {
                if let Some(r) = record {
                    let line = r.to_csv_line();
                    self.write_buffer.append(line.as_str());
                }
                match cmd {
                    Some(YldestCmd::Stop) => {
                        let mut data = String::new();
                        core::mem::swap(&mut data, &mut self.write_buffer);
                        self.state = YldestState::Idle { dir: clone_opt_string(&self.dir) };
                        if data.as_str().unicode_len() > 0 {
                            Some(StoreEffect::Write { data })
                        } else {
                            None
                        }
                    },
                    Some(YldestCmd::Pause) => {
                        let eff = self.flush_if_full();
                        self.state = YldestState::Connected { path };
                        eff
                    },
                    _ => {
                        let eff = self.flush_if_full();
                        self.state = YldestState::Recording { path };
                        eff
                    },
                }
            },
        }
    }

    /// Returns to `Idle` after the loop could not create the log file the
    /// last `Create` effect asked for; the remembered directory stays, and
    /// the consumer must issue `New` again.
    pub fn create_failed(&mut self)
        requires
            old(self).state matches YldestState::Recording { .. } || old(self).state matches
                YldestState::Connected { .. },
        ensures
            final(self).state matches YldestState::Idle { dir } && dir == old(self).dir,
            final(self).dir == old(self).dir,
            final(self).write_buffer == old(self).write_buffer,
    {
        self.state = YldestState::Idle { dir: clone_opt_string(&self.dir) };
    }
}

/// Whether `eff` and the buffer left behind are what flushing `appended`
/// at the size threshold yields: past the threshold everything is written
/// out, otherwise everything stays buffered.
pub open spec fn flushed_by_threshold(
    appended: Seq<char>,
    left: Seq<char>,
    eff: Option<StoreEffect>,
) -> bool {
    &&& (appended.len() > FLUSH_THRESHOLD ==> (eff matches Some(StoreEffect::Write { data })
        && data@ == appended && left.len() == 0))
    &&& (appended.len() <= FLUSH_THRESHOLD ==> eff is None && left == appended)
}

} // verus!
