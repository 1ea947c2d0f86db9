//! Which GPU to use, and how the device it gives is shared and recovered.

use crate::sort::{sort_stably, stable_sorted, Keyed, SortKey};
use crate::text::{decode_utf16, utf16_text, Trimming};
use vstd::prelude::*;

verus! {

/// The renderer's device, as others may borrow it: its address (0 before there
/// is one), and a number that changes whenever the device does.
#[derive(Clone, Copy, Debug, PartialEq, Eq, Structural)]
pub struct SharedDevice {
    pub address: usize,
    pub generation: u64,
}

impl SharedDevice {
    /// What is shared before there is a device.
    pub fn new() -> (result: Self)
        ensures
            result.address == 0,
            result.generation == 0,
    {
        SharedDevice { address: 0, generation: 0 }
    }
}

/// The address of the renderer's device and its generation. The device is
/// borrowed: whoever keeps it takes a reference, and asks for the generation
/// again every frame.
pub fn renderer_d3d11_device(shared: &SharedDevice) -> (result: (usize, u64))
    ensures
        result == (shared.address, shared.generation),
{
    (shared.address, shared.generation)
}

/// Shares a new device.
pub fn publish_device(shared: &mut SharedDevice, device: usize)
    ensures
        final(shared).address == device,
        final(shared).generation == (if old(shared).generation == u64::MAX {
            0
        } else {
            old(shared).generation + 1
        }),
        final(shared).generation != old(shared).generation,
{
    shared.address = device;
    shared.generation = shared.generation.wrapping_add(1);
}

/// How often the renderer tries to get a lost device back.
pub const RECOVERY_ATTEMPTS: u64 = 5;

/// What to do next to get a lost device back.
#[derive(Clone, Copy, Debug, PartialEq, Eq, Structural)]
pub enum RecoveryStep {
    /// Wait for so many milliseconds, and try.
    Try { delay_ms: u64 },
    /// The last attempt worked.
    Recovered,
    /// No attempt worked.
    GiveUp,
}

/// What to do after so many attempts, of which the last one worked or not.
pub open spec fn recovery_step(attempts: u64, last_worked: bool) -> RecoveryStep {
    if attempts > 0 && last_worked {
        RecoveryStep::Recovered
    } else if attempts >= RECOVERY_ATTEMPTS {
        RecoveryStep::GiveUp
    } else if attempts == 0 {
        RecoveryStep::Try { delay_ms: 0 }
    } else {
        RecoveryStep::Try { delay_ms: (100 + attempts * 10) as u64 }
    }
}

/// What to do after so many attempts to get a lost device back, of which the
/// last one worked or not.
pub fn try_to_recover_from_device_lost(attempts: u64, last_worked: bool) -> (result: RecoveryStep)
    ensures
        result == recovery_step(attempts, last_worked),
{
    if attempts > 0 && last_worked {
        RecoveryStep::Recovered
    } else if attempts >= RECOVERY_ATTEMPTS {
        RecoveryStep::GiveUp
    } else if attempts == 0 {
        RecoveryStep::Try { delay_ms: 0 }
    } else {
        RecoveryStep::Try { delay_ms: 100 + attempts * 10 }
    }
}

/// How many attempts are made, if attempt number `i` (from 0) works or not as
/// `works` says.
pub open spec fn attempts_made(works: spec_fn(u64) -> bool, attempts: u64) -> u64
    decreases RECOVERY_ATTEMPTS - attempts,
{
    match recovery_step(attempts, attempts > 0 && works((attempts - 1) as u64)) {
        RecoveryStep::Try { delay_ms } => attempts_made(works, (attempts + 1) as u64),
        _ => attempts,
    }
}

/// Law: recovery stops at the first attempt that works, and after
/// [`RECOVERY_ATTEMPTS`] attempts at the latest.
pub proof fn lemma_recovery_stops(works: spec_fn(u64) -> bool)
    ensures
        1 <= attempts_made(works, 0) <= RECOVERY_ATTEMPTS,
        forall|i: u64| i + 1 < attempts_made(works, 0) ==> !(#[trigger] works(i)),
        attempts_made(works, 0) < RECOVERY_ATTEMPTS ==> works((attempts_made(works, 0) - 1) as u64),
{
    reveal_with_fuel(attempts_made, 7);
}

/// `DXGI_ADAPTER_FLAG_SOFTWARE`.
pub const ADAPTER_FLAG_SOFTWARE: u32 = 2;

/// One adapter of the machine, and what the choice among adapters is made on.
#[derive(Debug)]
pub struct Candidate {
    /// The adapter's place in the machine's own order.
    pub index: usize,
    pub name: String,
    /// The name in lower case.
    pub lowered: String,
    /// The memory that belongs to the adapter alone, in bytes. A virtual
    /// display adapter has none.
    pub dedicated_vram: u64,
    pub software: bool,
}

/// An adapter's place, and what it is ranked by.
#[derive(Clone, Copy, Debug, PartialEq, Eq, Structural)]
pub struct RankedAdapter {
    pub index: usize,
    pub software: bool,
    pub dedicated_vram: u64,
}

impl Keyed for RankedAdapter {
    /// Hardware goes before software, and more memory before less.
    open spec fn key(&self) -> (int, int) {
        (
            if self.software {
                1
            } else {
                0
            },
            u64::MAX - self.dedicated_vram,
        )
    }
}

impl SortKey for RankedAdapter {
    fn sort_key(&self) -> (result: (u64, u64)) {
        (
            if self.software {
                1
            } else {
                0
            },
            u64::MAX - self.dedicated_vram,
        )
    }
}

/// A text in lower case.
pub uninterp spec fn lowercase(text: Seq<char>) -> Seq<char>;

/// The text in lower case: the standard library's `str::to_lowercase`. The
/// result depends on the text alone.
#[verifier::external_body]
fn to_lowercase(text: &str) -> (result: String)
    ensures
        result@ == lowercase(text@),
{
    text.to_lowercase()
}

/// Whether one text occurs in another.
pub open spec fn has_part(text: Seq<char>, part: Seq<char>) -> bool {
    exists|i: int|
        0 <= i && i + part.len() <= text.len() && #[trigger] text.subrange(i, i + part.len())
            == part
}

/// Whether one text occurs in another: the standard library's `str::contains`
/// with a text as the pattern.
#[verifier::external_body]
fn contains(text: &str, part: &str) -> (result: bool)
    ensures
        result == has_part(text@, part@),
{
    text.contains(part)
}

/// Whether an adapter's flags say that it is software: whether bit 1 is set.
pub open spec fn flagged_software(flags: u32) -> bool {
    (flags / 2) % 2 == 1
}

/// The name of an adapter, from its description: a text in UTF-16 that NUL
/// characters fill up.
pub fn adapter_name(description: &[u16]) -> (result: String)
    ensures
        result@ == Trimming::Nul.rest(utf16_text(description@)),
{
    let text = decode_utf16(description);
    Trimming::Nul.trim(text.as_str())
}

/// Whether an adapter's flags say that it is software.
pub fn is_software(flags: u32) -> (result: bool)
    ensures
        result == flagged_software(flags),
{
    assert((flags & 2 != 0) == ((flags / 2) % 2 == 1)) by (bit_vector);
    flags & ADAPTER_FLAG_SOFTWARE != 0
}

impl Candidate {
    /// An adapter by what the system says of it.
    pub fn new(index: usize, description: &[u16], dedicated_vram: u64, flags: u32) -> (result: Self)
        ensures
            result.index == index,
            result.name@ == Trimming::Nul.rest(utf16_text(description@)),
            result.lowered@ == lowercase(result.name@),
            result.dedicated_vram == dedicated_vram,
            result.software == flagged_software(flags),
    {
        let name = adapter_name(description);
        let lowered = to_lowercase(name.as_str());
        Candidate { index, name, lowered, dedicated_vram, software: is_software(flags) }
    }

    /// What the adapter is ranked by.
    pub open spec fn ranked(self) -> RankedAdapter {
        RankedAdapter {
            index: self.index,
            software: self.software,
            dedicated_vram: self.dedicated_vram,
        }
    }
}

/// How the order of the adapters came about.
#[derive(Clone, Copy, Debug, PartialEq, Eq, Structural)]
pub enum AdapterChoice {
    /// No name was asked for.
    Automatic,
    /// The adapters with the name that was asked for.
    Named,
    /// No adapter has the name that was asked for.
    NoneNamed,
}

/// The adapters among the first `count` that are to be ranked: all, or those
/// whose names hold a text.
pub open spec fn ranked_adapters(
    candidates: Seq<Candidate>,
    wanted: Seq<char>,
    all: bool,
    count: nat,
) -> Seq<RankedAdapter>
    decreases count,
{
    if count == 0 {
        Seq::empty()
    } else {
        let before = ranked_adapters(candidates, wanted, all, (count - 1) as nat);
        let last = candidates[count - 1];
        if all || has_part(last.lowered@, wanted) {
            before.push(last.ranked())
        } else {
            before
        }
    }
}

/// How the order of the adapters comes about, if a name is asked for.
pub open spec fn adapter_choice(candidates: Seq<Candidate>, wanted: Seq<char>) -> AdapterChoice {
    if wanted.len() == 0 {
        AdapterChoice::Automatic
    } else if exists|i: int|
        0 <= i < candidates.len() && has_part(#[trigger] candidates[i].lowered@, wanted) {
        AdapterChoice::Named
    } else {
        AdapterChoice::NoneNamed
    }
}

/// The adapters in the order in which they are tried. `wanted` is a part of the
/// name that was asked for, in lower case; where no adapter has it, all are
/// tried. Hardware goes first, then more dedicated memory; ties keep the
/// machine's own order.
pub fn order_adapters_for(candidates: &Vec<Candidate>, wanted: &str) -> (result: (
    Vec<RankedAdapter>,
    AdapterChoice,
))
    ensures
        result.1 == adapter_choice(candidates@, wanted@),
        stable_sorted(
            ranked_adapters(
                candidates@,
                wanted@,
                !(result.1 is Named),
                candidates@.len(),
            ),
            result.0@,
        ),
{
    let asked = !wanted.is_empty();
    let mut named = false;
    let mut index: usize = 0;
    while asked && !named && index < candidates.len()
        invariant
            index <= candidates.len(),
            asked == (wanted@.len() > 0),
            named ==> asked && adapter_choice(candidates@, wanted@) is Named,
            !named ==> forall|i: int|
                0 <= i < index ==> !has_part(#[trigger] candidates@[i].lowered@, wanted@),
        decreases candidates.len() - index,
    {
        if contains(candidates[index].lowered.as_str(), wanted) {
            named = true;
        }
        index = index + 1;
    }
    let choice = if !asked {
        AdapterChoice::Automatic
    } else if named {
        AdapterChoice::Named
    } else {
        AdapterChoice::NoneNamed
    };
    let mut ranked: Vec<RankedAdapter> = Vec::new();
    let mut index: usize = 0;
    while index < candidates.len()
        invariant
            index <= candidates.len(),
            ranked@ == ranked_adapters(candidates@, wanted@, !named, index as nat),
        decreases candidates.len() - index,
    {
        let candidate = &candidates[index];
        if !named || contains(candidate.lowered.as_str(), wanted) {
            ranked.push(
                RankedAdapter {
                    index: candidate.index,
                    software: candidate.software,
                    dedicated_vram: candidate.dedicated_vram,
                },
            );
        }
        index = index + 1;
    }
    sort_stably(&mut ranked);
    (ranked, choice)
}

/// The adapters in the order in which they are tried. `asked` is what the user
/// asked for, whose case and outer white space do not count.
pub fn order_adapters(candidates: &Vec<Candidate>, asked: &str) -> (result: (
    Vec<RankedAdapter>,
    AdapterChoice,
))
    ensures
        result.1 == adapter_choice(candidates@, Trimming::White.rest(lowercase(asked@))),
        stable_sorted(
            ranked_adapters(
                candidates@,
                Trimming::White.rest(lowercase(asked@)),
                !(result.1 is Named),
                candidates@.len(),
            ),
            result.0@,
        ),
{
    let lowered = to_lowercase(asked);
    let wanted = Trimming::White.trim(lowered.as_str());
    order_adapters_for(candidates, wanted.as_str())
}

/// Law: an adapter is tried exactly if it has the name that was asked for, or
/// if no adapter has it or none was asked for.
pub proof fn lemma_adapters_tried(
    candidates: Seq<Candidate>,
    wanted: Seq<char>,
    all: bool,
    count: nat,
    ranked: RankedAdapter,
)
    requires
        count <= candidates.len(),
    ensures
        ranked_adapters(candidates, wanted, all, count).contains(ranked) <==> exists|i: int|
            0 <= i < count && (#[trigger] candidates[i]).ranked() == ranked && (all || has_part(
                candidates[i].lowered@,
                wanted,
            )),
    decreases count,
{
    if count > 0 {
        let less = (count - 1) as nat;
        lemma_adapters_tried(candidates, wanted, all, less, ranked);
        let before = ranked_adapters(candidates, wanted, all, less);
        let after = ranked_adapters(candidates, wanted, all, count);
        let last = candidates[count - 1];
        if before.contains(ranked) {
            let n = choose|n: int| 0 <= n < before.len() && before[n] == ranked;
            assert(after[n] == ranked);
        }
        if last.ranked() == ranked && (all || has_part(last.lowered@, wanted)) {
            assert(after[before.len() as int] == ranked);
        }
        if after.contains(ranked) && !before.contains(ranked) {
            let n = choose|n: int| 0 <= n < after.len() && after[n] == ranked;
            assert(n == before.len());
        }
    }
}

/// Law: an adapter that is tried before another is hardware or the other is
/// software, and between two alike it has at least as much dedicated memory.
pub proof fn lemma_adapters_ranked(
    before: Seq<RankedAdapter>,
    after: Seq<RankedAdapter>,
    i: int,
    j: int,
)
    requires
        stable_sorted(before, after),
        0 <= i < j < after.len(),
    ensures
        after[i].software ==> after[j].software,
        after[i].software == after[j].software ==> after[i].dedicated_vram
            >= after[j].dedicated_vram,
{
    let from = choose|from: Seq<int>| crate::sort::sorts_as(before, after, from);
    assert(crate::sort::key_before(after[i].key(), after[j].key()) || (after[i].key()
        == after[j].key() && from[i] < from[j]));
}

/// What to do next to get a device from one of the adapters.
#[derive(Clone, Copy, Debug, PartialEq, Eq, Structural)]
pub enum AdapterStep {
    /// Try the adapter at this place of the order.
    Try(usize),
    /// Use the adapter at this place of the order.
    Use(usize),
    /// No adapter gives a device.
    NoneWorks,
}

/// What to do after so many of `count` adapters were tried, the last of which
/// gave a device or not.
pub open spec fn adapter_step(count: usize, tried: usize, last_worked: bool) -> AdapterStep {
    if tried > 0 && last_worked {
        AdapterStep::Use((tried - 1) as usize)
    } else if tried < count {
        AdapterStep::Try(tried)
    } else {
        AdapterStep::NoneWorks
    }
}

/// What to do after so many of `count` adapters were tried, the last of which
/// gave a device or not: the first that gives one is used.
pub fn get_adapter(count: usize, tried: usize, last_worked: bool) -> (result: AdapterStep)
    ensures
        result == adapter_step(count, tried, last_worked),
{
    if tried > 0 && last_worked {
        AdapterStep::Use(tried - 1)
    } else if tried < count {
        AdapterStep::Try(tried)
    } else {
        AdapterStep::NoneWorks
    }
}

/// The adapter that is used, by its place in the order, if so many were tried and
/// the one at place `i` gives a device or not as `works` says; `None` if no
/// adapter is used.
pub open spec fn adapter_used(
    works: spec_fn(usize) -> bool,
    count: usize,
    tried: usize,
) -> Option<usize>
    decreases count - tried,
{
    match adapter_step(count, tried, tried > 0 && works((tried - 1) as usize)) {
        AdapterStep::Try(place) => adapter_used(works, count, (tried + 1) as usize),
        AdapterStep::Use(place) => Some(place),
        AdapterStep::NoneWorks => None,
    }
}

/// With so many adapters tried, none of which but the last may work.
proof fn lemma_adapter_used_from(works: spec_fn(usize) -> bool, count: usize, tried: usize)
    requires
        tried <= count,
        forall|i: usize| i + 1 < tried ==> !(#[trigger] works(i)),
    ensures
        match adapter_used(works, count, tried) {
            Some(place) => place < count && works(place) && forall|i: usize|
                i < place ==> !(#[trigger] works(i)),
            None => forall|i: usize| i < count ==> !(#[trigger] works(i)),
        },
    decreases count - tried,
{
    if !(tried > 0 && works((tried - 1) as usize)) && tried < count {
        lemma_adapter_used_from(works, count, (tried + 1) as usize);
    }
}

/// Law: the adapter that is used is the first of the order that gives a device,
/// and none is used exactly if every one of them fails.
pub proof fn lemma_first_working_adapter_is_used(works: spec_fn(usize) -> bool, count: usize)
    ensures
        adapter_used(works, count, 0) matches Some(place) ==> {
            &&& place < count
            &&& works(place)
            &&& forall|i: usize| i < place ==> !(#[trigger] works(i))
        },
        adapter_used(works, count, 0) is None <==> (forall|i: usize|
            i < count ==> !(#[trigger] works(i))),
{
    lemma_adapter_used_from(works, count, 0);
}

/// `D3D11_CREATE_DEVICE_BGRA_SUPPORT`, without which the renderer cannot draw,
/// and `D3D11_CREATE_DEVICE_VIDEO_SUPPORT`, without which no video can be
/// decoded onto the device; with `D3D11_CREATE_DEVICE_DEBUG` where the debug
/// layer is there.
pub fn device_flags(debug_layer_available: bool) -> (result: u32)
    ensures
        result == (if debug_layer_available {
            0x20 + 0x800 + 0x2
        } else {
            0x20 + 0x800
        }),
{
    if debug_layer_available {
        0x822
    } else {
        0x820
    }
}

/// `DXGI_CREATE_FACTORY_DEBUG` where the debug layer is there.
pub fn factory_flags(debug_layer_available: bool) -> (result: u32)
    ensures
        result == (if debug_layer_available {
            1u32
        } else {
            0u32
        }),
{
    if debug_layer_available {
        1
    } else {
        0
    }
}

/// The name of a feature level that a device may have.
pub fn feature_level_name(level: u32) -> (result: Option<&'static str>)
    ensures
        level == 0xB100 ==> result is Some && result->0@ == "Direct3D 11.1"@,
        level == 0xB000 ==> result is Some && result->0@ == "Direct3D 11.0"@,
        level == 0xA100 ==> result is Some && result->0@ == "Direct3D 10.1"@,
        level != 0xB100 && level != 0xB000 && level != 0xA100 ==> result is None,
{
    if level == 0xB100 {
        Some("Direct3D 11.1")
    } else if level == 0xB000 {
        Some("Direct3D 11.0")
    } else if level == 0xA100 {
        Some("Direct3D 10.1")
    } else {
        None
    }
}

/// Law: the first attempt to get a device back is made at once, and after every one
/// that fails the next waits for ten milliseconds more, from a tenth of a second on.
pub proof fn lemma_recovery_waits_longer(attempts: u64)
    requires
        0 < attempts < 5,
    ensures
        recovery_step(0, false) == (RecoveryStep::Try { delay_ms: 0 }),
        recovery_step(0, true) == (RecoveryStep::Try { delay_ms: 0 }),
        recovery_step(attempts, false) == (RecoveryStep::Try {
            delay_ms: (100 + 10 * attempts) as u64,
        }),
        recovery_step(attempts, true) is Recovered,
        recovery_step(5, true) is Recovered,
        recovery_step(5, false) is GiveUp,
{
}

/// Law: an adapter is software exactly if that bit of its flags is set.
pub proof fn lemma_software_is_a_flag(flags: u32)
    ensures
        flagged_software(flags) <==> flags & ADAPTER_FLAG_SOFTWARE != 0,
        flagged_software(flags | 2),
        !flagged_software(flags & 0xFFFF_FFFD),
{
    assert((flags & 2 != 0) == ((flags / 2) % 2 == 1) && ((flags | 2) / 2) % 2 == 1 && ((flags
        & 0xFFFF_FFFD) / 2) % 2 == 0) by (bit_vector);
}

/// Law: who is tried. If a name was asked for and some adapter has it, those that have
/// it and no others; and else all of them. Each is known by its place in the machine's
/// own order.
pub proof fn lemma_who_is_tried(
    candidates: Seq<Candidate>,
    wanted: Seq<char>,
    order: Seq<RankedAdapter>,
    i: int,
    tried: int,
)
    requires
        stable_sorted(
            ranked_adapters(
                candidates,
                wanted,
                !(adapter_choice(candidates, wanted) is Named),
                candidates.len(),
            ),
            order,
        ),
        0 <= i < candidates.len(),
        0 <= tried < order.len(),
    ensures
        ({
            let named = wanted.len() > 0 && exists|n: int|
                0 <= n < candidates.len() && has_part(#[trigger] candidates[n].lowered@, wanted);
            &&& !named || has_part(candidates[i].lowered@, wanted) ==> exists|n: int|
                0 <= n < order.len() && (#[trigger] order[n]).index == candidates[i].index
                    && order[n].software == candidates[i].software && order[n].dedicated_vram
                    == candidates[i].dedicated_vram
            &&& exists|n: int|
                0 <= n < candidates.len() && order[tried].index == (
                #[trigger] candidates[n]).index && order[tried].software == candidates[n].software
                    && order[tried].dedicated_vram == candidates[n].dedicated_vram && (!named
                    || has_part(candidates[n].lowered@, wanted))
        }),
{
    let all = !(adapter_choice(candidates, wanted) is Named);
    let ranked = ranked_adapters(candidates, wanted, all, candidates.len());
    crate::sort::lemma_sorting_keeps_items(ranked, order);
    let mine = candidates[i].ranked();
    lemma_adapters_tried(candidates, wanted, all, candidates.len(), mine);
    lemma_adapters_tried(candidates, wanted, all, candidates.len(), order[tried]);
    if all || has_part(candidates[i].lowered@, wanted) {
        assert(ranked.contains(mine));
        assert(order.contains(mine));
        let n = choose|n: int| 0 <= n < order.len() && order[n] == mine;
        assert(order[n].index == candidates[i].index);
    }
    assert(order.contains(order[tried]));
    let n = choose|n: int|
        0 <= n < candidates.len() && (#[trigger] candidates[n]).ranked() == order[tried] && (all
            || has_part(candidates[n].lowered@, wanted));
    assert(candidates[n].ranked() == order[tried]);
}

} // verus!
