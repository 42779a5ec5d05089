//! The measurement device: its board catalog and the connection state
//! machine that owns the serial link.
//!
//! The state machine is a pure transition function. The loop that runs it
//! performs the serial work — enumerating ports, opening one, reading a
//! line — and feeds the outcome back in; every decision lives here and is
//! verified.

use crate::data::{Yld, Ytf};
use crate::text::{dec_str, views_of};
use crate::window::{window_insert_capped, Banks, WindowBuffer};
use vstd::prelude::*;

verus! {

/// A board, identified by its serial line rate.
#[derive(PartialEq, Debug, Clone)]
pub struct Board(pub usize);

/// One sensor bank: motion keys, an analog-digital converter array, an
/// accelerometer array, or an air sensor, with its channel count and,
/// where it samples periodically, its sample rate in hertz.
#[derive(PartialEq, Debug, Copy, Clone)]
pub enum Sensory {
    Moi(u8),
    Adc(u8, usize),
    Yxz(u8, usize),
    Air(u8),
}

/// The label text of a bank: its kind and its numbers, as `Debug` prints
/// them.
pub open spec fn sensory_label_spec(s: Sensory) -> Seq<char> {
    match s {
        Sensory::Moi(n) => "Moi("@ + dec_str(n as nat) + ")"@,
        Sensory::Adc(n, hz) => "Adc("@ + dec_str(n as nat) + ", "@ + dec_str(hz as nat) + ")"@,
        Sensory::Yxz(n, hz) => "Yxz("@ + dec_str(n as nat) + ", "@ + dec_str(hz as nat) + ")"@,
        Sensory::Air(n) => "Air("@ + dec_str(n as nat) + ")"@,
    }
}

/// The number of samples a spectral estimate needs for a bank sampling at
/// `hz`: twice the next power of two at or above the rate; nothing at ten
/// hertz or below.
pub open spec fn fft_size_for_rate(hz: nat) -> Option<usize> {
    if hz <= 10 {
        None
    } else if hz <= 32 {
        Some(64usize)
    } else if hz <= 64 {
        Some(128usize)
    } else if hz <= 128 {
        Some(256usize)
    } else if hz <= 256 {
        Some(512usize)
    } else if hz <= 512 {
        Some(1024usize)
    } else {
        Some(2048usize)
    }
}

impl Sensory {
    /// The bank's label text.
    pub fn label(self) -> (r: String)
        ensures
            r@ == sensory_label_spec(self),
    {
        match self {
            Sensory::Moi(n) => {
                let mut out = String::from_str("Moi(");
                let num = crate::text::fmt_u64(n as u64);
                out.append(num.as_str());
                out.append(")");
                proof {
                    assert(out@ =~= sensory_label_spec(self));
                }
                out
            },
            Sensory::Adc(n, hz) => {
                let mut out = String::from_str("Adc(");
                let num = crate::text::fmt_u64(n as u64);
                out.append(num.as_str());
                out.append(", ");
                let rate = crate::text::fmt_u64(hz as u64);
                out.append(rate.as_str());
                out.append(")");
                proof {
                    assert(out@ =~= sensory_label_spec(self));
                }
                out
            },
            Sensory::Yxz(n, hz) => {
                let mut out = String::from_str("Yxz(");
                let num = crate::text::fmt_u64(n as u64);
                out.append(num.as_str());
                out.append(", ");
                let rate = crate::text::fmt_u64(hz as u64);
                out.append(rate.as_str());
                out.append(")");
                proof {
                    assert(out@ =~= sensory_label_spec(self));
                }
                out
            },
            Sensory::Air(n) => {
                let mut out = String::from_str("Air(");
                let num = crate::text::fmt_u64(n as u64);
                out.append(num.as_str());
                out.append(")");
                proof {
                    assert(out@ =~= sensory_label_spec(self));
                }
                out
            },
        }
    }

    /// The spectral window size for this bank: set for the periodically
    /// sampling kinds from their rate, nothing for keys and air.
    pub fn fft_size(self) -> (r: Option<usize>)
        ensures
            r == match self {
                Sensory::Adc(_, hz) => fft_size_for_rate(hz as nat),
                Sensory::Yxz(_, hz) => fft_size_for_rate(hz as nat),
                _ => None::<usize>,
            },
    {
        match self {
            Sensory::Adc(_, hz) | Sensory::Yxz(_, hz) => {
                if hz <= 10 {
                    None
                } else if hz <= 32 {
                    Some(64)
                } else if hz <= 64 {
                    Some(128)
                } else if hz <= 128 {
                    Some(256)
                } else if hz <= 256 {
                    Some(512)
                } else if hz <= 512 {
                    Some(1024)
                } else {
                    Some(2048)
                }
            },
            _ => None,
        }
    }
}

/// The device generations this studio can read.
#[derive(PartialEq, Eq, Structural, Debug, Copy, Clone)]
pub enum YLabVersion {
    Zet,
    Pro,
    Go,
    GoMotion(u8),
    GoStress,
    Mini,
}

/// The serial line rate of a version.
pub open spec fn baud_spec(v: YLabVersion) -> u32 {
    match v {
        YLabVersion::Pro => 2_000_000u32,
        YLabVersion::Zet => 2_000_000u32,
        YLabVersion::Go => 1_000_000u32,
        YLabVersion::GoMotion(_) => 1_000_000u32,
        YLabVersion::GoStress => 1_000_000u32,
        YLabVersion::Mini => 125_200u32,
    }
}

/// The spectral window size of a version, a power of two.
pub open spec fn fft_size_spec(v: YLabVersion) -> usize {
    match v {
        YLabVersion::Pro => 512usize,
        YLabVersion::Zet => 256usize,
        YLabVersion::Go => 256usize,
        YLabVersion::GoMotion(_) => 128usize,
        YLabVersion::GoStress => 256usize,
        YLabVersion::Mini => 128usize,
    }
}

/// The bank labels of a version, in bank order.
pub open spec fn bank_labels_spec(v: YLabVersion) -> Seq<Seq<char>> {
    match v {
        YLabVersion::Pro => seq!["MOI"@, "ADC"@],
        YLabVersion::Zet => seq!["MOI"@, "ADC1"@, "ADC2"@, "Mo1"@, "Mo2"@],
        YLabVersion::Go => seq!["MOI"@, "ADC"@],
        YLabVersion::GoMotion(n) => if n == 1 {
            seq!["MOI"@, "Analog"@, "Yxz"@]
        } else if n == 4 {
            seq!["MOI"@, "Analog"@, "Yxz_0"@, "Yxz_1"@, "Yxz_2"@, "Yxz_3"@]
        } else {
            seq![
                "MOI"@,
                "ADC"@,
                "Yxz_0"@,
                "Yxz_1"@,
                "Yxz_2"@,
                "Yxz_3"@,
                "Yxz_4"@,
                "Yxz_5"@,
                "Yxz_6"@,
                "Yxz_7"@,
            ]
        },
        YLabVersion::GoStress => seq!["MOI"@, "ADC"@, "Air"@],
        YLabVersion::Mini => seq!["ADC"@],
    }
}

/// The display name of a version.
pub open spec fn version_label_spec(v: YLabVersion) -> Seq<char> {
    match v {
        YLabVersion::Pro => "Pro"@,
        YLabVersion::Zet => "Zet"@,
        YLabVersion::Go => "Go"@,
        YLabVersion::GoMotion(n) => "Go Motion "@ + dec_str(n as nat),
        YLabVersion::GoStress => "Go Stress"@,
        YLabVersion::Mini => "Mini"@,
    }
}

impl YLabVersion {
    /// The motion variants this catalog knows; the others have no bank
    /// layout yet.
    pub open spec fn wf(&self) -> bool {
        match *self {
            YLabVersion::GoMotion(n) => n == 1 || n == 4 || n == 7,
            _ => true,
        }
    }

    /// The serial line rate.
    pub fn baud(&self) -> (r: u32)
        ensures
            r == baud_spec(*self),
    {
        match *self {
            YLabVersion::Pro => 2_000_000,
            YLabVersion::Zet => 2_000_000,
            YLabVersion::Go => 1_000_000,
            YLabVersion::GoMotion(_) => 1_000_000,
            YLabVersion::GoStress => 1_000_000,
            YLabVersion::Mini => 125_200,
        }
    }

    /// The spectral window size, a power of two.
    pub fn fft_size(&self) -> (r: usize)
        ensures
            r == fft_size_spec(*self),
    {
        match *self {
            YLabVersion::Pro => 512,
            YLabVersion::Zet => 256,
            YLabVersion::Go => 256,
            YLabVersion::GoMotion(_) => 128,
            YLabVersion::GoStress => 256,
            YLabVersion::Mini => 128,
        }
    }

    /// The live-history length, equal to the spectral window size.
    pub fn history_size(&self) -> (r: usize)
        ensures
            r == fft_size_spec(*self),
    {
        match *self {
            YLabVersion::Pro => 512,
            YLabVersion::Zet => 256,
            YLabVersion::Go => 256,
            YLabVersion::GoMotion(_) => 128,
            YLabVersion::GoStress => 256,
            YLabVersion::Mini => 128,
        }
    }

    /// The bank labels, in bank order.
    pub fn bank_labels(&self) -> (r: Vec<&'static str>)
        requires
            self.wf(),
        ensures
            r@.len() == bank_labels_spec(*self).len(),
            forall|i: int| 0 <= i < r@.len() ==> (#[trigger] r@[i])@ == bank_labels_spec(*self)[i],
    {
        match *self {
            YLabVersion::Pro => vec!["MOI", "ADC"],
            YLabVersion::Zet => vec!["MOI", "ADC1", "ADC2", "Mo1", "Mo2"],
            YLabVersion::Go => vec!["MOI", "ADC"],
            YLabVersion::GoMotion(n) => {
                if n == 1 {
                    vec!["MOI", "Analog", "Yxz"]
                } else if n == 4 {
                    vec!["MOI", "Analog", "Yxz_0", "Yxz_1", "Yxz_2", "Yxz_3"]
                } else {
                    vec![
                        "MOI",
                        "ADC",
                        "Yxz_0",
                        "Yxz_1",
                        "Yxz_2",
                        "Yxz_3",
                        "Yxz_4",
                        "Yxz_5",
                        "Yxz_6",
                        "Yxz_7",
                    ]
                }
            },
            YLabVersion::GoStress => vec!["MOI", "ADC", "Air"],
            YLabVersion::Mini => vec!["ADC"],
        }
    }

    /// How many banks the version has.
    pub fn n_banks(&self) -> (r: u8)
        requires
            self.wf(),
        ensures
            r == bank_labels_spec(*self).len(),
    {
        let labels = self.bank_labels();
        labels.len() as u8
    }

    /// The display name.
    pub fn label(&self) -> (r: String)
        ensures
            r@ == version_label_spec(*self),
    {
        match *self {
            YLabVersion::Pro => String::from_str("Pro"),
            YLabVersion::Zet => String::from_str("Zet"),
            YLabVersion::Go => String::from_str("Go"),
            YLabVersion::GoMotion(n) => {
                let mut out = String::from_str("Go Motion ");
                let num = crate::text::fmt_u64(n as u64);
                out.append(num.as_str());
                proof {
                    assert(out@ =~= version_label_spec(*self));
                }
                out
            },
            YLabVersion::GoStress => String::from_str("Go Stress"),
            YLabVersion::Mini => String::from_str("Mini"),
        }
    }
}

/// The serial port names discovery found, once it has run.
pub type AvailablePorts = Option<Vec<String>>;

/// The connection lifecycle: no port held, a port opened, or a port being
/// read line by line.
#[derive(PartialEq, Debug, Clone)]
pub enum YLabState {
    Disconnected { ports: AvailablePorts },
    Connected { version: YLabVersion, port_name: String },
    Reading { version: YLabVersion, port_name: String },
}

/// What a consumer may ask of the connection.
#[derive(PartialEq, Debug, Clone)]
pub enum YLabCmd {
    Disconnect,
    Connect { version: YLabVersion, port_name: String },
    Read {},
    Stop {},
}

/// What the serial work of one loop iteration came to: nothing to report,
/// a port enumeration (`None` when enumeration itself failed), or the end
/// of an attempt to open a port.
#[derive(Debug, Clone)]
pub enum SerialOutcome {
    Nothing,
    PortsEnumerated { ports: Option<Vec<String>> },
    OpenFinished { success: bool },
}

/// The serial work the loop must perform for one iteration: enumerate
/// ports, open the named port at the given rate, read one line, or rest.
#[derive(Debug, Clone)]
pub enum SerialAction {
    Rest,
    EnumeratePorts,
    OpenPort { port_name: String, baud: u32 },
    ReadLine,
}

/// The transition table of the connection state machine.
///
/// Discovery refreshes the port list; a connect command with an open port
/// list moves to `Connected` when the port opens; `Connected` falls
/// through to `Reading` unless told to disconnect; `Disconnect` returns
/// to `Disconnected` with the port list cleared. Every other pair leaves
/// the state unchanged.
pub open spec fn ylab_step_spec(
    state: YLabState,
    cmd: Option<YLabCmd>,
    outcome: SerialOutcome,
) -> YLabState {
    match (state, cmd) {
        (YLabState::Disconnected { ports }, Option::None) => match outcome {
            SerialOutcome::PortsEnumerated { ports: found } => match found {
                Option::Some(names) => YLabState::Disconnected { ports: Option::Some(names) },
                Option::None => YLabState::Disconnected { ports },
            },
            _ => YLabState::Disconnected { ports },
        },
        (
            YLabState::Disconnected { ports: Option::Some(names) },
            Option::Some(YLabCmd::Connect { version, port_name }),
        ) => match outcome {
            SerialOutcome::OpenFinished { success: true } => YLabState::Connected {
                version,
                port_name,
            },
            _ => YLabState::Disconnected { ports: Option::Some(names) },
        },
        (YLabState::Connected { .. }, Option::Some(YLabCmd::Disconnect)) => YLabState::Disconnected {
            ports: Option::None,
        },
        (YLabState::Connected { version, port_name }, _) => YLabState::Reading {
            version,
            port_name,
        },
        (YLabState::Reading { .. }, Option::Some(YLabCmd::Disconnect)) => YLabState::Disconnected {
            ports: Option::None,
        },
        (state, _) => state,
    }
}

/// Whether the transition table has a row for this state and command.
pub open spec fn ylab_in_table(state: YLabState, cmd: Option<YLabCmd>) -> bool {
    match (state, cmd) {
        (YLabState::Disconnected { .. }, Option::None) => true,
        (
            YLabState::Disconnected { ports: Option::Some(_) },
            Option::Some(YLabCmd::Connect { .. }),
        ) => true,
        (YLabState::Connected { .. }, _) => true,
        (YLabState::Reading { .. }, Option::None) => true,
        (YLabState::Reading { .. }, Option::Some(YLabCmd::Disconnect)) => true,
        _ => false,
    }
}

/// Totality of the connection machine: a state–command pair outside the
/// transition table changes nothing, whatever the serial work reported.
pub proof fn lemma_ylab_step_total(state: YLabState, cmd: Option<YLabCmd>, outcome: SerialOutcome)
    requires
        !ylab_in_table(state, cmd),
    ensures
        ylab_step_spec(state, cmd, outcome) == state,
{
}

/// Runs one step of the connection state machine.
pub fn ylab_step(state: YLabState, cmd: Option<YLabCmd>, outcome: SerialOutcome) -> (next:
    YLabState)
    ensures
        next == ylab_step_spec(state, cmd, outcome),
{
    match (state, cmd) {
        (YLabState::Disconnected { ports }, Option::None) => match outcome {
            SerialOutcome::PortsEnumerated { ports: found } => match found {
                Option::Some(names) => YLabState::Disconnected { ports: Option::Some(names) },
                Option::None => YLabState::Disconnected { ports },
            },
            _ => YLabState::Disconnected { ports },
        },
        (
            YLabState::Disconnected { ports: Option::Some(names) },
            Option::Some(YLabCmd::Connect { version, port_name }),
        ) => match outcome {
            SerialOutcome::OpenFinished { success: true } => YLabState::Connected {
                version,
                port_name,
            },
            _ => YLabState::Disconnected { ports: Option::Some(names) },
        },
        (YLabState::Connected { .. }, Option::Some(YLabCmd::Disconnect)) => YLabState::Disconnected {
            ports: Option::None,
        },
        (YLabState::Connected { version, port_name }, _) => YLabState::Reading {
            version,
            port_name,
        },
        (YLabState::Reading { .. }, Option::Some(YLabCmd::Disconnect)) => YLabState::Disconnected {
            ports: Option::None,
        },
        (state, _) => state,
    }
}

/// The serial work one iteration calls for, given the state and the
/// command at hand.
pub fn ylab_action(state: &YLabState, cmd: &Option<YLabCmd>) -> (a: SerialAction)
    ensures
        (a matches SerialAction::EnumeratePorts) <==> (state matches YLabState::Disconnected {
            ..
        } && cmd is None),
        (a matches SerialAction::ReadLine) <==> (state matches YLabState::Reading { .. }
            && cmd is None),
        (a matches SerialAction::OpenPort { .. }) <==> (state matches YLabState::Disconnected {
            ports: Option::Some(_),
        } && cmd matches Option::Some(YLabCmd::Connect { .. })),
        (a matches SerialAction::OpenPort { port_name, baud } ==> cmd matches Option::Some(
            YLabCmd::Connect { version, port_name: p },
        ) && port_name@ == p@ && baud == baud_spec(*version)),
    {
    match (state, cmd) {
        (YLabState::Disconnected { .. }, Option::None) => SerialAction::EnumeratePorts,
        (
            YLabState::Disconnected { ports: Option::Some(_) },
            Option::Some(YLabCmd::Connect { version, port_name }),
        ) => SerialAction::OpenPort { port_name: port_name.clone(), baud: version.baud() },
        (YLabState::Reading { .. }, Option::None) => SerialAction::ReadLine,
        _ => SerialAction::Rest,
    }
}

/// Whether `p` is a prefix of `s`.
pub open spec fn has_prefix(s: Seq<char>, p: Seq<char>) -> bool {
    s.len() >= p.len() && s.subrange(0, p.len() as int) == p
}

/// Whether the text of `s` starts with the text of `p`.
pub fn str_has_prefix(s: &str, p: &str) -> (r: bool)
    ensures
        r == has_prefix(s@, p@),
{
    let n = s.unicode_len();
    let m = p.unicode_len();
    if n < m {
        assert(!has_prefix(s@, p@));
        return false;
    }
    let mut i: usize = 0;
    while i < m
        invariant
            0 <= i <= m <= n,
            n == s@.len(),
            m == p@.len(),
            forall|k: int| 0 <= k < i ==> s@[k] == p@[k],
        decreases m - i,
    {
        if s.get_char(i) != p.get_char(i) {
            assert(s@.subrange(0, m as int)[i as int] != p@[i as int]);
            return false;
        }
        i = i + 1;
    }
    proof {
        assert(s@.subrange(0, m as int) =~= p@);
    }
    true
}

/// The port names with the given prefix, in order.
pub open spec fn keep_with_prefix(names: Seq<Seq<char>>, p: Seq<char>) -> Seq<Seq<char>>
    decreases names.len(),
{
    if names.len() == 0 {
        Seq::empty()
    } else {
        let pre = keep_with_prefix(names.drop_last(), p);
        if has_prefix(names.last(), p) {
            pre.push(names.last())
        } else {
            pre
        }
    }
}

/// Keeps the port names that start with `prefix`, in order — discovery
/// lists every serial device, and only the instrument-style nodes are of
/// interest.
pub fn filter_ports(names: &Vec<String>, prefix: &str) -> (r: Vec<String>)
    ensures
        views_of(r@) =~~= keep_with_prefix(views_of(names@), prefix@),
{
    let n = names.len();
    let mut out: Vec<String> = Vec::new();
    let mut i: usize = 0;
    proof {
        assert(views_of(names@).take(0) =~~= Seq::<Seq<char>>::empty());
        assert(keep_with_prefix(views_of(names@).take(0), prefix@) =~~= Seq::<Seq<char>>::empty());
        assert(views_of(out@) =~~= Seq::<Seq<char>>::empty());
    }
    while i < n
        invariant
            0 <= i <= n,
            n == names@.len(),
            views_of(out@) =~~= keep_with_prefix(views_of(names@).take(i as int), prefix@),
        decreases n - i,
    {
        proof {
            let v = views_of(names@);
            assert(v.take(i + 1).drop_last() =~= v.take(i as int));
            assert(v.take(i + 1).last() == v[i as int]);
        }
        if str_has_prefix(names[i].as_str(), prefix) {
            let name = names[i].clone();
            out.push(name);
            proof {
                assert(views_of(out@) =~~= views_of(out@.drop_last()).push(names@[i as int]@));
            }
        }
        i = i + 1;
    }
    proof {
        assert(views_of(names@).take(n as int) =~= views_of(names@));
    }
    out
}

/// What feeding one frame through the pipeline yields: the eight channel
/// records of the frame, stamped with the receipt time, and the frame
/// inserted into its bank's window when the version has that bank.
pub open spec fn ingested(
    version: YLabVersion,
    sample: Ytf,
    now_ms: u64,
    records: Seq<Yld>,
    banks0: Seq<WindowBuffer>,
    banks1: Seq<WindowBuffer>,
) -> bool {
    &&& records.len() == 8
    &&& forall|k: int|
        0 <= k < 8 ==> #[trigger] records[k] == (Yld {
            time: now_ms,
            dev: sample.dev,
            sensory: sample.sensory,
            chan: k as u8,
            value: sample.read@[k],
        })
    &&& banks1.len() == banks0.len()
    &&& (forall|i: int| 0 <= i < banks1.len() ==> (#[trigger] banks1[i]).wf())
    &&& (sample.sensory >= bank_labels_spec(version).len() ==> banks1 == banks0)
    &&& (sample.sensory < bank_labels_spec(version).len() ==> {
        let idx = sample.sensory as int;
        let bank = banks0[idx];
        &&& banks1 =~= banks0.update(
            idx,
            WindowBuffer {
                entries: banks1[idx].entries,
                span: bank.span,
                max_len: bank.max_len,
            },
        )
        &&& banks1[idx].entries@ == window_insert_capped(
            bank.entries@,
            bank.span,
            bank.max_len,
            now_ms,
            sample,
        )
        &&& banks1[idx].span == bank.span
        &&& banks1[idx].max_len == bank.max_len
    })
}

/// Feeds one parsed frame through the pipeline: inserts it into its
/// bank's window when the bank exists for this version, and expands it
/// into its eight channel records, stamped with the receipt time.
pub fn ingest_frame(version: &YLabVersion, sample: &Ytf, now_ms: u64, banks: &mut Banks) -> (records:
    Vec<Yld>)
    requires
        version.wf(),
        old(banks)@.len() >= bank_labels_spec(*version).len(),
        forall|i: int| 0 <= i < old(banks)@.len() ==> (#[trigger] old(banks)@[i]).wf(),
    ensures
        ingested(*version, *sample, now_ms, records@, old(banks)@, final(banks)@),
{
    let n_banks = version.n_banks();
    if sample.sensory < n_banks {
        let idx = sample.sensory as usize;
        let mut bank = banks.remove(idx);
        bank.add(now_ms, *sample);
        banks.insert(idx, bank);
        proof {
            assert(final(banks)@ =~= old(banks)@.update(
                sample.sensory as int,
                final(banks)@[sample.sensory as int],
            ));
        }
    }
    sample.to_yld(now_ms)
}

/// Handles one wire line while the machine reads: a line that does not parse is
/// discarded and changes nothing; one that parses is fed through the
/// pipeline and yields the eight channel records of the one frame the
/// line describes.
pub fn handle_line(version: &YLabVersion, line: &String, now_ms: u64, banks: &mut Banks) -> (out:
    Option<Vec<Yld>>)
    requires
        version.wf(),
        old(banks)@.len() >= bank_labels_spec(*version).len(),
        forall|i: int| 0 <= i < old(banks)@.len() ==> (#[trigger] old(banks)@[i]).wf(),
    ensures
        out is Some <==> crate::data::parse_ok(line@),
        out is None ==> final(banks)@ == old(banks)@,
        out matches Some(records) ==> (forall|f: Ytf|
            crate::data::frame_matches(f, line@) ==> ingested(
                *version,
                f,
                now_ms,
                records@,
                old(banks)@,
                final(banks)@,
            )),
{
    match Ytf::from_csv_line(line) {
        Err(_) => None,
        Ok(sample) => {
            let records = ingest_frame(version, &sample, now_ms, banks);
            proof {
                assert forall|f: Ytf| crate::data::frame_matches(f, line@) implies ingested(
                    *version,
                    f,
                    now_ms,
                    records@,
                    old(banks)@,
                    final(banks)@,
                ) by {
                    crate::data::lemma_frame_matches_unique(f, sample, line@);
                }
            }
            Some(records)
        },
    }
}

} // verus!
