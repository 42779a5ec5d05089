//! The plain record-log state machine: an earlier, unbuffered recorder
//! that writes every record as it arrives and can pause and resume.
//!
//! Like the recording session, it is a pure transition function: each
//! step returns the next state and at most one file effect, and the loop
//! that runs it does the file work. When the loop cannot create the file
//! a `New` command asked for, it keeps the old state and the consumer
//! must ask again.

use crate::data::{yld_head_spec, yld_line_spec, Yld};
use crate::yldest::StoreEffect;
use vstd::prelude::*;

verus! {

/// The plain recorder's lifecycle: idle, writing, or paused with the
/// file kept.
#[derive(Clone, Debug)]
pub enum YldStoreState {
    Idle,
    Recording { path: String },
    Pausing { path: String },
}

/// What a consumer may ask of the plain recorder.
#[derive(Clone)]
pub enum Cmd {
    New { path: String },
    Pause,
    Resume,
    Stop,
}

/// Runs one step of the plain recorder.
///
/// `New` from idle asks for the file — the `Create` effect, which also
/// writes the header — and starts recording at once. While recording,
/// each arriving record becomes one `Write` of its log line, `Pause`
/// holds writing with the file kept, and `Stop` returns to idle.
/// `Resume` writes the header line anew, as this recorder always has,
/// and continues. Every other state–command pair changes nothing.
pub fn yld_store_step(state: YldStoreState, cmd: Option<Cmd>, record: Option<Yld>) -> (r: (
    YldStoreState,
    Option<StoreEffect>,
))
    ensures
        state matches YldStoreState::Idle ==> (match cmd {
            Option::Some(Cmd::New { path }) => r.0 matches YldStoreState::Recording { path: p2 }
                && p2 == path && (r.1 matches Some(StoreEffect::Create { path: p3 }) && p3 == path),
            _ => r.0 == state && r.1 is None,
        }),
        state matches YldStoreState::Recording { path } ==> ({
            &&& (record matches Some(m) ==> (r.1 matches Some(StoreEffect::Write { data })
                && data@ == yld_line_spec(m)))
            &&& (record is None ==> r.1 is None)
            &&& (cmd matches Some(Cmd::Pause) ==> (r.0 matches YldStoreState::Pausing { path: p2 }
                && p2 == path))
            &&& (cmd matches Some(Cmd::Stop) ==> r.0 matches YldStoreState::Idle)
            &&& (!(cmd matches Some(Cmd::Pause)) && !(cmd matches Some(Cmd::Stop)) ==> r.0
                == state)
        }),
        state matches YldStoreState::Pausing { path } ==> (match cmd {
            Option::Some(Cmd::Resume) => r.0 matches YldStoreState::Recording { path: p2 } && p2
                == path && (r.1 matches Some(StoreEffect::Write { data }) && data@
                == yld_head_spec()),
            _ => r.0 == state && r.1 is None,
        }),
{
    match state {
        YldStoreState::Idle => {
            match cmd {
                Some(Cmd::New { path }) => {
                    let eff_path = path.clone();
                    (
                        YldStoreState::Recording { path },
                        Some(StoreEffect::Create { path: eff_path }),
                    )
                },
                _ => (YldStoreState::Idle, None),
            }
        },
        YldStoreState::Recording { path } => {
            let eff: Option<StoreEffect> = match record {
                Some(m) => {
                    let line = m.to_csv_line();
                    Some(StoreEffect::Write { data: line })
                },
                None => None,
            };
            let next = match cmd {
                Some(Cmd::Pause) => YldStoreState::Pausing { path },
                Some(Cmd::Stop) => YldStoreState::Idle,
                _ => YldStoreState::Recording { path },
            };
            (next, eff)
        },
        YldStoreState::Pausing { path } => {
            match cmd {
                Some(Cmd::Resume) => {
                    let header = crate::data::yld_header();
                    (
                        YldStoreState::Recording { path },
                        Some(StoreEffect::Write { data: header }),
                    )
                },
                _ => (YldStoreState::Pausing { path }, None),
            }
        },
    }
}

} // verus!
