//! Delivering text into the focused window.
//!
//! By default the text goes through the clipboard: what was there is read, the
//! text is written, Ctrl+V is sent, and after a pause what was there comes
//! back. The other way is to type the text, one UTF-16 code unit at a time.

use crate::text;
use crate::ui::wide::{self, encode_utf16, wide};
use vstd::prelude::*;

pub mod run;

verus! {

#[derive(Debug, Clone, Copy, PartialEq, Eq, Structural)]
pub enum Strategy {
    /// Clipboard, Ctrl+V, clipboard back.
    Clipboard,
    /// Typing, for applications that block Ctrl+V.
    SendInput,
}

#[derive(Debug, Clone, Copy, PartialEq, Eq, Structural)]
pub struct Config {
    pub strategy: Strategy,
    /// Pause before the clipboard comes back, in milliseconds.
    pub paste_delay_ms: u64,
    /// How often to try to open the clipboard.
    pub open_attempts: u32,
    /// Pause between two tries, in milliseconds.
    pub open_retry_ms: u64,
}

impl Default for Config {
    fn default() -> (r: Self)
        ensures
            r == (Config {
                strategy: Strategy::Clipboard,
                paste_delay_ms: 80,
                open_attempts: 12,
                open_retry_ms: 12,
            }),
    {
        Config {
            strategy: Strategy::Clipboard,
            paste_delay_ms: 80,
            open_attempts: 12,
            open_retry_ms: 12,
        }
    }
}

/// A key event to inject.
#[derive(Debug, Clone, Copy, PartialEq, Eq, Structural)]
pub enum KeyInput {
    /// A key by its virtual-key code.
    Key { vk: u16, up: bool },
    /// A UTF-16 code unit.
    Unicode { unit: u16, up: bool },
}

/// Key events that are injected at once, at most.
pub const BATCH: usize = 64;

/// What is to be done to deliver a text.
#[derive(Debug)]
pub enum PastePlan {
    /// Nothing: there is no text.
    Nothing,
    /// Put these code units on the clipboard and send Ctrl+V.
    Clipboard { units: Vec<u16> },
    /// Inject these key events, batch by batch.
    Type { batches: Vec<Vec<KeyInput>> },
}

/// The key events that type code units: each goes down and up.
pub open spec fn typed(units: Seq<u16>) -> Seq<KeyInput>
    decreases units.len(),
{
    if units.len() == 0 {
        seq![]
    } else {
        typed(units.drop_last()) + seq![
            KeyInput::Unicode { unit: units.last(), up: false },
            KeyInput::Unicode { unit: units.last(), up: true },
        ]
    }
}

/// The batches one after the other.
pub open spec fn all_events(batches: Seq<Vec<KeyInput>>) -> Seq<KeyInput>
    decreases batches.len(),
{
    if batches.len() == 0 {
        seq![]
    } else {
        all_events(batches.drop_last()) + batches.last()@
    }
}

/// Whether every batch but the last is full, and none is empty.
pub open spec fn well_batched(batches: Seq<Vec<KeyInput>>) -> bool {
    forall|i: int|
        0 <= i < batches.len() ==> 0 < (#[trigger] batches[i])@.len() <= BATCH && (i < batches.len()
            - 1 ==> batches[i]@.len() == BATCH)
}

/// How to deliver a text.
pub fn paste(text: &str, config: &Config) -> (r: PastePlan)
    ensures
        text@.len() == 0 ==> r == PastePlan::Nothing,
        text@.len() > 0 ==> match config.strategy {
            Strategy::Clipboard => r matches PastePlan::Clipboard { units } && units@ == wide::utf16(
                text@,
            ).push(0),
            Strategy::SendInput => r matches PastePlan::Type { batches } && all_events(batches@)
                == typed(wide::utf16(text@)) && well_batched(batches@),
        },
{
    if text.is_empty() {
        return PastePlan::Nothing;
    }
    match config.strategy {
        Strategy::Clipboard => PastePlan::Clipboard { units: wide(text) },
        Strategy::SendInput => PastePlan::Type { batches: typing(text) },
    }
}

fn typing(text: &str) -> (r: Vec<Vec<KeyInput>>)
    ensures
        all_events(r@) == typed(wide::utf16(text@)),
        well_batched(r@),
{
    let units = encode_utf16(text);
    let ghost all = wide::utf16(text@);
    let mut batches: Vec<Vec<KeyInput>> = Vec::new();
    let mut batch: Vec<KeyInput> = Vec::new();
    let mut i: usize = 0;
    assert(all.take(0) =~= Seq::<u16>::empty());
    assert(all_events(batches@) + batch@ =~= typed(all.take(0)));
    while i < units.len()
        invariant
            units@ == all,
            i <= units@.len(),
            all_events(batches@) + batch@ == typed(all.take(i as int)),
            batch@.len() % 2 == 0,
            batch@.len() < BATCH,
            forall|k: int| 0 <= k < batches@.len() ==> (#[trigger] batches@[k])@.len() == BATCH,
        decreases units@.len() - i,
    {
        let ghost had = batch@;
        let ghost done = all_events(batches@);
        let ghost before = batches@;
        assert(all.take(i + 1).drop_last() =~= all.take(i as int));
        let unit: u16 = units[i];
        batch.push(KeyInput::Unicode { unit, up: false });
        batch.push(KeyInput::Unicode { unit, up: true });
        let ghost pair = seq![
            KeyInput::Unicode { unit, up: false },
            KeyInput::Unicode { unit, up: true },
        ];
        assert(batch@ =~= had + pair);
        assert(done + batch@ =~= (done + had) + pair);
        if batch.len() == BATCH {
            let ghost full = batch@;
            batches.push(batch);
            batch = Vec::new();
            assert(batches@.drop_last() =~= before);
            assert(all_events(batches@) + batch@ =~= done + full);
        }
        i += 1;
    }
    assert(all.take(all.len() as int) =~= all);
    if batch.len() > 0 {
        let ghost before = batches@;
        let ghost rest = batch@;
        batches.push(batch);
        assert(batches@.drop_last() =~= before);
    } else {
        assert(all_events(batches@) + batch@ =~= all_events(batches@));
    }
    batches
}

/// The events of Ctrl+V.
pub open spec fn ctrl_v_keys() -> Seq<KeyInput> {
    seq![
        KeyInput::Key { vk: 0x11, up: false },
        KeyInput::Key { vk: 0x56, up: false },
        KeyInput::Key { vk: 0x56, up: true },
        KeyInput::Key { vk: 0x11, up: true },
    ]
}

/// The events of Ctrl+V.
pub fn ctrl_v() -> (r: Vec<KeyInput>)
    ensures
        r@ == ctrl_v_keys(),
{
    let mut events: Vec<KeyInput> = Vec::new();
    events.push(KeyInput::Key { vk: 0x11, up: false });
    events.push(KeyInput::Key { vk: 0x56, up: false });
    events.push(KeyInput::Key { vk: 0x56, up: true });
    events.push(KeyInput::Key { vk: 0x11, up: true });
    events
}

/// What an injection of `wanted` events amounts to when `sent` of them went
/// through. A protected window swallows them.
pub open spec fn injection_fault(sent: u32, wanted: nat, by_clipboard: bool) -> Option<Seq<char>> {
    if sent == wanted {
        None
    } else {
        let counts = "SendInput injected "@ + text::decimal(sent as nat) + "/"@ + text::decimal(
            wanted,
        );
        Some(
            counts + (if by_clipboard {
                " events — UIPI / protected mode may be blocking us"@
            } else {
                " events"@
            }),
        )
    }
}

pub fn check_injection(sent: u32, wanted: usize, by_clipboard: bool) -> (r: Result<(), String>)
    ensures
        match injection_fault(sent, wanted as nat, by_clipboard) {
            Some(what) => r matches Err(got) && got@ == what,
            None => r is Ok,
        },
{
    if sent as u64 == wanted as u64 {
        return Ok(());
    }
    let counts = "SendInput injected ".to_owned().concat(
        text::decimal_of(sent as u64).as_str(),
    ).concat("/").concat(text::decimal_of(wanted as u64).as_str());
    if by_clipboard {
        Err(counts.concat(" events — UIPI / protected mode may be blocking us"))
    } else {
        Err(counts.concat(" events"))
    }
}

/// What happens to the clipboard after Ctrl+V.
#[derive(Debug)]
pub enum ClipboardRestore {
    /// Put these code units back.
    Write(Vec<u16>),
    /// There was no text before: leave none.
    Clear,
}

/// How to restore the clipboard. It is restored whether or not the keys went
/// through: the text does not stay there uninvited.
pub fn restore_clipboard(backup: Option<&str>) -> (r: ClipboardRestore)
    ensures
        match backup {
            Some(text) => r matches ClipboardRestore::Write(units) && units@ == wide::utf16(text@).push(0),
            None => r == ClipboardRestore::Clear,
        },
{
    match backup {
        Some(text) => ClipboardRestore::Write(wide(text)),
        None => ClipboardRestore::Clear,
    }
}

/// The code units to put on the clipboard when the user asks for the text.
pub fn copy_to_clipboard(text: &str) -> (r: Vec<u16>)
    ensures
        r@ == wide::utf16(text@).push(0),
{
    wide(text)
}

/// The complaint about a clipboard that stayed closed.
pub open spec fn busy_text(config: Config) -> Seq<char> {
    "could not open clipboard after "@ + text::decimal(config.open_attempts as nat) + " attempts"@
}

/// The complaint about a clipboard that stayed closed.
pub fn clipboard_busy(config: &Config) -> (r: String)
    ensures
        r@ == busy_text(*config),
{
    "could not open clipboard after ".to_owned().concat(
        text::decimal_of(config.open_attempts as u64).as_str(),
    ).concat(" attempts")
}

/// Typing a code unit takes two key events, down and up, and the units keep
/// their order.
pub proof fn law_typed_keys(units: Seq<u16>)
    ensures
        typed(units).len() == 2 * units.len(),
        forall|i: int|
            0 <= i < typed(units).len() ==> #[trigger] typed(units)[i] == (KeyInput::Unicode {
                unit: units[i / 2],
                up: i % 2 == 1,
            }),
    decreases units.len(),
{
    if units.len() > 0 {
        law_typed_keys(units.drop_last());
    }
}

/// Batches hold at most 64 events and never none, and only the last one may have
/// room left. Put together they keep all events, in order.
pub proof fn law_batches_keep_all_events(
    a: Seq<Vec<KeyInput>>,
    b: Seq<Vec<KeyInput>>,
    batch: Vec<KeyInput>,
)
    ensures
        well_batched(a) ==> forall|i: int|
            0 <= i < a.len() ==> 0 < (#[trigger] a[i])@.len() <= 64 && (a[i]@.len() < 64 ==> i
                == a.len() - 1),
        all_events(seq![batch]) == batch@,
        all_events(a + b) == all_events(a) + all_events(b),
    decreases b.len(),
{
    assert((seq![batch]).drop_last() =~= Seq::<Vec<KeyInput>>::empty());
    assert(all_events(seq![]) =~= Seq::<KeyInput>::empty());
    assert(all_events(seq![batch]) =~= batch@);
    if b.len() == 0 {
        assert(a + b =~= a);
        assert(all_events(a) + Seq::<KeyInput>::empty() =~= all_events(a));
    } else {
        law_batches_keep_all_events(a, b.drop_last(), batch);
        assert((a + b).drop_last() =~= a + b.drop_last());
        assert(all_events(a) + all_events(b.drop_last()) + b.last()@ =~= all_events(a) + (
        all_events(b.drop_last()) + b.last()@));
    }
}

/// An injection is faulty exactly if not all events went through, and the fault
/// gives both counts; a paste adds what may be in the way.
pub proof fn law_faults_give_both_counts(sent: u32, wanted: nat, by_clipboard: bool)
    ensures
        injection_fault(sent, wanted, by_clipboard) is None <==> sent == wanted,
        injection_fault(sent, wanted, by_clipboard) matches Some(what) ==> what
            == "SendInput injected "@ + text::decimal(sent as nat) + "/"@ + text::decimal(wanted)
            + (if by_clipboard {
            " events — UIPI / protected mode may be blocking us"@
        } else {
            " events"@
        }),
{
}

/// The complaint about a closed clipboard says how often it was tried.
pub proof fn law_the_complaint_counts_the_tries(config: Config)
    ensures
        busy_text(config) == "could not open clipboard after "@ + text::decimal(
            config.open_attempts as nat,
        ) + " attempts"@,
{
}

} // verus!
