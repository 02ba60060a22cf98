//! From report descriptors to device profiles.
use std::collections::HashMap;
use std::collections::HashSet;
use vstd::prelude::*;
use vstd::std_specs::iter::IteratorSpec;
use vstd::string::StringExecFns;

use crate::double::Double;
use crate::rawinput::caps::{AxisRange, ProfileCaps, ProfileKind};
use crate::rawinput::hid::{
    is_vendor_page, PAGE_CONSUMER, PAGE_DIGITIZER, PAGE_GENERIC_DESKTOP, PAGE_VENDOR_FIRST,
    TLC_DIGITIZER, TLC_PEN, USAGE_ALTITUDE, USAGE_AZIMUTH, USAGE_BARREL_PRESSURE,
    USAGE_BARREL_SWITCH, USAGE_CONSUMER_CONTROL, USAGE_ERASER, USAGE_INVERT, USAGE_IN_RANGE,
    USAGE_TIP_PRESSURE, USAGE_TIP_SWITCH, USAGE_TWIST, USAGE_X, USAGE_X_TILT, USAGE_Y,
    USAGE_Y_TILT,
};
use crate::text::{decimal, decimal_text, hex_text, hexadecimal};

verus! {

/// Most keys of a pad that are kept.
pub const MAX_PAD_BUTTONS: usize = 64;

/// The usages that one entry of a descriptor speaks of.
#[derive(Clone, Copy, Debug, PartialEq, Eq, Structural)]
pub enum UsageSpan {
    One(u16),
    Range { first: u16, last: u16 },
}

impl UsageSpan {
    /// The smallest usage.
    pub open spec fn first_spec(self) -> u16 {
        match self {
            UsageSpan::One(usage) => usage,
            UsageSpan::Range { first, last } => first,
        }
    }

    /// The largest usage.
    pub open spec fn last_spec(self) -> u16 {
        match self {
            UsageSpan::One(usage) => usage,
            UsageSpan::Range { first, last } => last,
        }
    }

    /// Is `usage` among them?
    pub open spec fn holds(self, usage: u16) -> bool {
        self.first_spec() <= usage <= self.last_spec()
    }

    /// The smallest usage.
    pub fn first(&self) -> (r: u16)
        ensures
            r == self.first_spec(),
    {
        match self {
            UsageSpan::One(usage) => *usage,
            UsageSpan::Range { first, last } => *first,
        }
    }

    /// The largest usage.
    pub fn last(&self) -> (r: u16)
        ensures
            r == self.last_spec(),
    {
        match self {
            UsageSpan::One(usage) => *usage,
            UsageSpan::Range { first, last } => *last,
        }
    }

    /// Is `usage` among them?
    pub fn covers(&self, usage: u16) -> (r: bool)
        ensures
            r == self.holds(usage),
    {
        self.first() <= usage && usage <= self.last()
    }
}

/// A value field of a descriptor.
#[derive(Clone, Copy, Debug, PartialEq, Eq, Structural)]
pub struct ValueCap {
    pub usage_page: u16,
    pub usages: UsageSpan,
    pub logical_min: i32,
    pub logical_max: i32,
    pub physical_min: i32,
    pub physical_max: i32,
    /// Power of ten of the physical range, as its low four bits.
    pub units_exp: u32,
    pub bit_size: u16,
    /// Logical values per physical unit; zero if unknown.
    pub resolution: Double,
}

/// The switches of a descriptor that stand together.
#[derive(Clone, Copy, Debug, PartialEq, Eq, Structural)]
pub struct ButtonCap {
    pub usage_page: u16,
    pub usages: UsageSpan,
}

/// How many logical values there are to how many physical units, times a
/// power of ten.
#[derive(Clone, Copy, Debug, PartialEq, Eq, Structural)]
pub struct ResolutionParts {
    pub logical_span: i64,
    pub physical_span: i64,
    pub exponent: i32,
}

/// The power of ten that the low four bits of a unit exponent mean in two's
/// complement.
pub open spec fn exponent_of(raw: u32) -> int {
    if raw % 16 < 8 {
        (raw % 16) as int
    } else {
        raw % 16 - 16
    }
}

/// The power of ten that the low four bits of a unit exponent mean.
pub fn unit_exponent(raw: u32) -> (r: i32)
    ensures
        r == exponent_of(raw),
        -8 <= r <= 7,
{
    let nibble: i32 = (raw % 16) as i32;
    if nibble > 7 {
        nibble - 16
    } else {
        nibble
    }
}

/// The parts of the resolution of a field; none without a physical range.
pub fn resolution_from_cap(cap: &ValueCap) -> (r: Option<ResolutionParts>)
    ensures
        r is None <==> cap.physical_max == cap.physical_min,
        r matches Some(parts) ==> {
            &&& parts.logical_span == cap.logical_max - cap.logical_min
            &&& parts.physical_span == cap.physical_max - cap.physical_min
            &&& parts.exponent == exponent_of(cap.units_exp)
        },
{
    if cap.physical_max == cap.physical_min {
        return None;
    }
    Some(
        ResolutionParts {
            logical_span: cap.logical_max as i64 - cap.logical_min as i64,
            physical_span: cap.physical_max as i64 - cap.physical_min as i64,
            exponent: unit_exponent(cap.units_exp),
        },
    )
}

/// The range of a value field.
pub open spec fn range_of(cap: ValueCap) -> AxisRange {
    AxisRange {
        min: cap.logical_min,
        max: cap.logical_max,
        resolution: cap.resolution,
        bit_size: cap.bit_size,
    }
}

/// `caps` with one more value field. A field goes by its first usage, a
/// later one for the same usage takes the place of an earlier one, and a
/// field of no interest changes nothing. Proximity may come as a value.
pub open spec fn with_value(caps: ProfileCaps, cap: ValueCap) -> ProfileCaps {
    let page = cap.usage_page;
    let usage = cap.usages.first_spec();
    let range = Some(range_of(cap));
    if page == PAGE_GENERIC_DESKTOP {
        if usage == USAGE_X {
            ProfileCaps { x: range, ..caps }
        } else if usage == USAGE_Y {
            ProfileCaps { y: range, ..caps }
        } else {
            caps
        }
    } else if page == PAGE_DIGITIZER {
        if usage == USAGE_TIP_PRESSURE {
            ProfileCaps { pressure: range, ..caps }
        } else if usage == USAGE_BARREL_PRESSURE {
            ProfileCaps { tangent_pressure: range, ..caps }
        } else if usage == USAGE_X_TILT {
            ProfileCaps { x_tilt: range, ..caps }
        } else if usage == USAGE_Y_TILT {
            ProfileCaps { y_tilt: range, ..caps }
        } else if usage == USAGE_AZIMUTH {
            ProfileCaps { azimuth: range, ..caps }
        } else if usage == USAGE_ALTITUDE {
            ProfileCaps { altitude: range, ..caps }
        } else if usage == USAGE_TWIST {
            ProfileCaps { twist: range, ..caps }
        } else if usage == USAGE_IN_RANGE {
            ProfileCaps { has_in_range: true, ..caps }
        } else {
            caps
        }
    } else {
        caps
    }
}

/// Adds one value field to `caps`.
pub fn apply_value_cap(caps: &mut ProfileCaps, cap: &ValueCap)
    ensures
        *final(caps) == with_value(*old(caps), *cap),
{
    let usage: u16 = cap.usages.first();
    let range: AxisRange = AxisRange {
        min: cap.logical_min,
        max: cap.logical_max,
        resolution: cap.resolution,
        bit_size: cap.bit_size,
    };
    if cap.usage_page == PAGE_GENERIC_DESKTOP {
        if usage == USAGE_X {
            caps.x = Some(range);
        } else if usage == USAGE_Y {
            caps.y = Some(range);
        }
    } else if cap.usage_page == PAGE_DIGITIZER {
        if usage == USAGE_TIP_PRESSURE {
            caps.pressure = Some(range);
        } else if usage == USAGE_BARREL_PRESSURE {
            caps.tangent_pressure = Some(range);
        } else if usage == USAGE_X_TILT {
            caps.x_tilt = Some(range);
        } else if usage == USAGE_Y_TILT {
            caps.y_tilt = Some(range);
        } else if usage == USAGE_AZIMUTH {
            caps.azimuth = Some(range);
        } else if usage == USAGE_ALTITUDE {
            caps.altitude = Some(range);
        } else if usage == USAGE_TWIST {
            caps.twist = Some(range);
        } else if usage == USAGE_IN_RANGE {
            caps.has_in_range = true;
        }
    }
}

/// `caps` with the switches of one more entry, if they are a digitizer's.
pub open spec fn with_buttons(caps: ProfileCaps, cap: ButtonCap) -> ProfileCaps {
    if cap.usage_page == PAGE_DIGITIZER {
        ProfileCaps {
            has_in_range: caps.has_in_range || cap.usages.holds(USAGE_IN_RANGE),
            has_tip: caps.has_tip || cap.usages.holds(USAGE_TIP_SWITCH),
            has_barrel: caps.has_barrel || cap.usages.holds(USAGE_BARREL_SWITCH),
            has_eraser: caps.has_eraser || cap.usages.holds(USAGE_ERASER),
            has_invert: caps.has_invert || cap.usages.holds(USAGE_INVERT),
            ..caps
        }
    } else {
        caps
    }
}

/// Adds the switches of one entry to `caps`.
pub fn apply_button_cap(caps: &mut ProfileCaps, cap: &ButtonCap)
    ensures
        *final(caps) == with_buttons(*old(caps), *cap),
{
    if cap.usage_page != PAGE_DIGITIZER {
        return;
    }
    if cap.usages.covers(USAGE_IN_RANGE) {
        caps.has_in_range = true;
    }
    if cap.usages.covers(USAGE_TIP_SWITCH) {
        caps.has_tip = true;
    }
    if cap.usages.covers(USAGE_BARREL_SWITCH) {
        caps.has_barrel = true;
    }
    if cap.usages.covers(USAGE_ERASER) {
        caps.has_eraser = true;
    }
    if cap.usages.covers(USAGE_INVERT) {
        caps.has_invert = true;
    }
}

/// `caps` with the first `n` value fields.
pub open spec fn with_values(caps: ProfileCaps, values: Seq<ValueCap>, n: nat) -> ProfileCaps
    decreases n,
{
    if n == 0 {
        caps
    } else {
        with_value(with_values(caps, values, (n - 1) as nat), values[n - 1])
    }
}

/// `caps` with the switches of the first `n` entries.
pub open spec fn with_all_buttons(caps: ProfileCaps, buttons: Seq<ButtonCap>, n: nat) -> ProfileCaps
    decreases n,
{
    if n == 0 {
        caps
    } else {
        with_buttons(with_all_buttons(caps, buttons, (n - 1) as nat), buttons[n - 1])
    }
}

/// Do the value fields and switches of a descriptor add up to `caps`?
pub open spec fn parses_to(
    values: Seq<ValueCap>,
    buttons: Seq<ButtonCap>,
    caps: ProfileCaps,
) -> bool {
    exists|start: ProfileCaps| #[trigger]
        start.blank() && caps == with_all_buttons(
            with_values(start, values, values.len()),
            buttons,
            buttons.len(),
        )
}

/// The usages that the value fields and switches of a descriptor add up to.
pub fn parse_caps(values: &[ValueCap], buttons: &[ButtonCap]) -> (r: ProfileCaps)
    ensures
        parses_to(values@, buttons@, r),
{
    let mut caps: ProfileCaps = ProfileCaps::default();
    let ghost start = caps;
    let mut at: usize = 0;
    while at < values.len()
        invariant
            at <= values.len(),
            caps == with_values(start, values@, at as nat),
        decreases values.len() - at,
    {
        apply_value_cap(&mut caps, &values[at]);
        at += 1;
    }
    let ghost valued = caps;
    at = 0;
    while at < buttons.len()
        invariant
            at <= buttons.len(),
            caps == with_all_buttons(valued, buttons@, at as nat),
        decreases buttons.len() - at,
    {
        apply_button_cap(&mut caps, &buttons[at]);
        at += 1;
    }
    assert(start.blank());
    caps
}

/// A switch is known exactly if some entry of the digitizer page covers it,
/// in whatever order the entries come.
pub proof fn switches_are_known_if_covered(
    caps: ProfileCaps,
    buttons: Seq<ButtonCap>,
    n: nat,
)
    requires
        n <= buttons.len(),
        caps.has_no_usages(),
    ensures
        with_all_buttons(caps, buttons, n).has_tip <==> exists|i: int|
            0 <= i < n && (#[trigger] buttons[i]).usage_page == PAGE_DIGITIZER
                && buttons[i].usages.holds(USAGE_TIP_SWITCH),
        with_all_buttons(caps, buttons, n).has_eraser <==> exists|i: int|
            0 <= i < n && (#[trigger] buttons[i]).usage_page == PAGE_DIGITIZER
                && buttons[i].usages.holds(USAGE_ERASER),
        with_all_buttons(caps, buttons, n).has_barrel <==> exists|i: int|
            0 <= i < n && (#[trigger] buttons[i]).usage_page == PAGE_DIGITIZER
                && buttons[i].usages.holds(USAGE_BARREL_SWITCH),
        with_all_buttons(caps, buttons, n).has_invert <==> exists|i: int|
            0 <= i < n && (#[trigger] buttons[i]).usage_page == PAGE_DIGITIZER
                && buttons[i].usages.holds(USAGE_INVERT),
    decreases n,
{
    if n > 0 {
        switches_are_known_if_covered(caps, buttons, (n - 1) as nat);
        assert(buttons[n - 1] == buttons[n - 1]);
    }
}

/// The usages of one entry, one by one, with their page.
pub open spec fn spread(cap: ButtonCap) -> Seq<(u16, u16)> {
    Seq::new(
        if cap.usages.first_spec() <= cap.usages.last_spec() {
            (cap.usages.last_spec() - cap.usages.first_spec() + 1) as nat
        } else {
            0
        },
        |i: int| (cap.usage_page, (cap.usages.first_spec() + i) as u16),
    )
}

/// The usages of the first `n` entries, one by one.
pub open spec fn spread_all(caps: Seq<ButtonCap>, n: nat) -> Seq<(u16, u16)>
    decreases n,
{
    if n == 0 {
        Seq::empty()
    } else {
        spread_all(caps, (n - 1) as nat) + spread(caps[n - 1])
    }
}

/// The usages that are kept: the first ones.
pub open spec fn kept(usages: Seq<(u16, u16)>) -> Seq<(u16, u16)> {
    if usages.len() <= MAX_PAD_BUTTONS {
        usages
    } else {
        usages.take(MAX_PAD_BUTTONS as int)
    }
}

proof fn lemma_spread_grows(caps: Seq<ButtonCap>, m: nat, n: nat)
    requires
        m <= n,
    ensures
        spread_all(caps, m).is_prefix_of(spread_all(caps, n)),
    decreases n,
{
    if m < n {
        lemma_spread_grows(caps, m, (n - 1) as nat);
        let before = spread_all(caps, (n - 1) as nat);
        assert(before =~= spread_all(caps, n).take(before.len() as int));
        assert(spread_all(caps, m) =~= spread_all(caps, n).take(spread_all(caps, m).len() as int));
    }
}

/// The usages that are kept, in the order of the descriptor.
fn expand_usages(caps: &[ButtonCap]) -> (r: Vec<(u16, u16)>)
    ensures
        r@ == kept(spread_all(caps@, caps@.len())),
{
    let mut usages: Vec<(u16, u16)> = Vec::new();
    let mut at: usize = 0;
    let ghost all = spread_all(caps@, caps@.len());
    while at < caps.len()
        invariant
            at <= caps.len(),
            usages@ == spread_all(caps@, at as nat),
            usages.len() < MAX_PAD_BUTTONS,
            all == spread_all(caps@, caps@.len()),
        decreases caps.len() - at,
    {
        let cap: ButtonCap = caps[at];
        let last: u32 = cap.usages.last() as u32;
        let mut usage: u32 = cap.usages.first() as u32;
        let ghost whole = spread_all(caps@, (at + 1) as nat);
        let ghost before = usages@;
        proof {
            lemma_spread_grows(caps@, (at + 1) as nat, caps@.len());
            assert(whole == before + spread(cap));
        }
        while usage <= last
            invariant
                cap == caps@[at as int],
                last == cap.usages.last_spec(),
                cap.usages.first_spec() <= usage,
                usage <= last + 1 || usage == cap.usages.first_spec(),
                whole == before + spread(cap),
                whole.is_prefix_of(all),
                all == spread_all(caps@, caps@.len()),
                usages@.len() == before.len() + (usage - cap.usages.first_spec()),
                usages@.is_prefix_of(whole),
                usages.len() < MAX_PAD_BUTTONS,
            decreases last + 1 - usage,
        {
            assert(spread(cap)[usage - cap.usages.first_spec()] == (cap.usage_page, usage as u16));
            assert(whole[usages@.len() as int] == (cap.usage_page, usage as u16));
            usages.push((cap.usage_page, usage as u16));
            assert(usages@ =~= whole.take(usages@.len() as int));
            if usages.len() >= MAX_PAD_BUTTONS {
                assert(usages@ =~= all.take(MAX_PAD_BUTTONS as int));
                return usages;
            }
            usage += 1;
        }
        assert(usages@ =~= whole);
        at += 1;
    }
    usages
}

/// Does usage `a` come before usage `b`, by page first?
pub open spec fn precedes(a: (u16, u16), b: (u16, u16)) -> bool {
    a.0 < b.0 || (a.0 == b.0 && a.1 < b.1)
}

/// Do the usages ascend, none of them twice?
pub open spec fn usages_ascend(usages: Seq<(u16, u16)>) -> bool {
    forall|i: int, j: int| 0 <= i < j < usages.len() ==> precedes(usages[i], usages[j])
}

/// Puts a usage in its place, unless it is there already.
fn insert_usage(usages: &mut Vec<(u16, u16)>, usage: (u16, u16))
    requires
        usages_ascend(old(usages)@),
    ensures
        usages_ascend(final(usages)@),
        forall|u: (u16, u16)| #[trigger]
            final(usages)@.contains(u) <==> old(usages)@.contains(u) || u == usage,
{
    let mut at: usize = 0;
    let ghost before = usages@;
    while at < usages.len()
        invariant
            at <= usages.len(),
            usages@ == before,
            before == old(usages)@,
            usages_ascend(before),
            forall|i: int| 0 <= i < at ==> precedes(before[i], usage),
        decreases usages.len() - at,
    {
        let here: (u16, u16) = usages[at];
        if here.0 == usage.0 && here.1 == usage.1 {
            assert(before[at as int] == usage);
            return;
        }
        if usage.0 < here.0 || (usage.0 == here.0 && usage.1 < here.1) {
            usages.insert(at, usage);
            proof {
                lemma_inserted(before, at as int, usage);
            }
            return;
        }
        at += 1;
    }
    usages.push(usage);
    proof {
        assert(usages@ =~= before.insert(at as int, usage));
        lemma_inserted(before, at as int, usage);
    }
}

proof fn lemma_inserted(before: Seq<(u16, u16)>, at: int, usage: (u16, u16))
    requires
        0 <= at <= before.len(),
        usages_ascend(before),
        forall|i: int| 0 <= i < at ==> precedes(before[i], usage),
        at < before.len() ==> precedes(usage, before[at]),
    ensures
        usages_ascend(before.insert(at, usage)),
        forall|u: (u16, u16)| #[trigger]
            before.insert(at, usage).contains(u) <==> before.contains(u) || u == usage,
{
    let after = before.insert(at, usage);
    assert forall|i: int, j: int| 0 <= i < j < after.len() implies precedes(after[i], after[j]) by {
        let x = if i < at {
            before[i]
        } else {
            before[i - 1]
        };
        let y = if j < at {
            before[j]
        } else {
            before[j - 1]
        };
        if i == at {
            assert(precedes(usage, before[at]));
            if j - 1 > at {
                assert(precedes(before[at], before[j - 1]));
            }
        } else if j == at {
            assert(precedes(before[i], usage));
        } else {
            assert(after[i] == x);
            assert(after[j] == y);
        }
    }
    assert forall|u: (u16, u16)| #[trigger] after.contains(u) <==> before.contains(u) || u
        == usage by {
        assert(after[at] == usage);
        if before.contains(u) {
            let i = choose|i: int| 0 <= i < before.len() && before[i] == u;
            if i < at {
                assert(after[i] == u);
            } else {
                assert(after[i + 1] == u);
            }
        }
        if after.contains(u) {
            let i = choose|i: int| 0 <= i < after.len() && after[i] == u;
            if i < at {
                assert(before[i] == u);
            } else if i > at {
                assert(before[i - 1] == u);
            }
        }
    }
}

/// The keys of a pad in ascending order: the first usages of its descriptor,
/// ranges spread out, each once.
pub fn parse_pad_buttons(caps: &[ButtonCap]) -> (r: Vec<(u16, u16)>)
    ensures
        usages_ascend(r@),
        forall|u: (u16, u16)| #[trigger]
            r@.contains(u) <==> kept(spread_all(caps@, caps@.len())).contains(u),
{
    let found: Vec<(u16, u16)> = expand_usages(caps);
    let mut buttons: Vec<(u16, u16)> = Vec::new();
    let mut at: usize = 0;
    while at < found.len()
        invariant
            at <= found.len(),
            usages_ascend(buttons@),
            forall|u: (u16, u16)| #[trigger]
                buttons@.contains(u) <==> found@.take(at as int).contains(u),
        decreases found.len() - at,
    {
        let ghost before = found@.take(at as int);
        let usage: (u16, u16) = found[at];
        insert_usage(&mut buttons, usage);
        at += 1;
        proof {
            let after = found@.take(at as int);
            assert(after =~= before.push(usage));
            assert forall|u: (u16, u16)| #[trigger]
                buttons@.contains(u) <==> after.contains(u) by {
                assert(after[before.len() as int] == usage);
                if before.contains(u) {
                    let i = choose|i: int| 0 <= i < before.len() && before[i] == u;
                    assert(after[i] == u);
                }
                if after.contains(u) && u != usage {
                    let i = choose|i: int| 0 <= i < after.len() && after[i] == u;
                    assert(before[i] == u);
                }
            }
        }
    }
    assert(found@.take(found@.len() as int) =~= found@);
    buttons
}

/// Two lists of keys in ascending order with the same keys are the same list,
/// so that a key keeps its index from session to session.
pub proof fn pad_button_order_is_unique(a: Seq<(u16, u16)>, b: Seq<(u16, u16)>)
    requires
        usages_ascend(a),
        usages_ascend(b),
        forall|u: (u16, u16)| #[trigger] a.contains(u) <==> b.contains(u),
    ensures
        a == b,
    decreases a.len(),
{
    if a.len() == 0 {
        if b.len() > 0 {
            assert(b.contains(b[0]));
            assert(a.contains(b[0]));
        }
        assert(a =~= b);
    } else {
        assert(a.contains(a.last()));
        assert(b.contains(a.last()));
        assert(b.contains(b.last()));
        assert(a.contains(b.last()));
        let i = choose|i: int| 0 <= i < b.len() && b[i] == a.last();
        let j = choose|j: int| 0 <= j < a.len() && a[j] == b.last();
        assert(a.last() == b.last()) by {
            if i < b.len() - 1 {
                assert(precedes(b[i], b[b.len() - 1]));
                if j < a.len() - 1 {
                    assert(precedes(a[j], a[a.len() - 1]));
                }
            }
        }
        let x = a.drop_last();
        let y = b.drop_last();
        assert forall|u: (u16, u16)| #[trigger] x.contains(u) <==> y.contains(u) by {
            if x.contains(u) {
                let k = choose|k: int| 0 <= k < x.len() && x[k] == u;
                assert(a[k] == u);
                assert(a.contains(u));
                assert(precedes(a[k], a[a.len() - 1]));
                let l = choose|l: int| 0 <= l < b.len() && b[l] == u;
                assert(l < b.len() - 1);
                assert(y[l] == u);
            }
            if y.contains(u) {
                let k = choose|k: int| 0 <= k < y.len() && y[k] == u;
                assert(b[k] == u);
                assert(b.contains(u));
                assert(a.contains(u));
                assert(precedes(b[k], b[b.len() - 1]));
                let l = choose|l: int| 0 <= l < a.len() && a[l] == u;
                assert(l < a.len() - 1);
                assert(x[l] == u);
            }
        }
        pad_button_order_is_unique(x, y);
        assert(a =~= x.push(a.last()));
        assert(b =~= y.push(b.last()));
    }
}

/// What the system says of a HID device.
#[derive(Clone, Copy, Debug, PartialEq, Eq, Structural)]
pub struct DeviceInfo {
    /// Top-level collection.
    pub usage_page: u16,
    pub usage: u16,
    pub vendor_id: u32,
    pub product_id: u32,
    pub version: u32,
}

/// A device that reports: its handle, the parsed descriptor that the system
/// decodes reports with, and what was learned from it.
#[derive(Debug)]
pub struct DeviceProfile {
    pub handle: isize,
    pub preparsed: Vec<u8>,
    pub caps: ProfileCaps,
}

/// Profiles by the handle of their device.
pub type ProfileMap = HashMap<isize, DeviceProfile>;

/// Is this the collection of a tablet surface or pen?
pub open spec fn digitizes(info: DeviceInfo) -> bool {
    info.usage_page == PAGE_DIGITIZER && (info.usage == TLC_DIGITIZER || info.usage == TLC_PEN)
}

/// Is this a collection that may hold the keys of a pad?
pub open spec fn may_be_pad(info: DeviceInfo) -> bool {
    (info.usage_page == PAGE_CONSUMER && info.usage == USAGE_CONSUMER_CONTROL) || info.usage_page
        >= PAGE_VENDOR_FIRST
}

/// The vendor, as USB numbers it.
pub open spec fn vendor_of(info: DeviceInfo) -> u16 {
    (info.vendor_id % 0x1_0000) as u16
}

/// The text that stands for a driver version.
pub open spec fn version_text(info: DeviceInfo) -> Seq<char> {
    "hid vid:"@ + hex_text(info.vendor_id as nat, 4) + " pid:"@ + hex_text(
        info.product_id as nat,
        4,
    ) + " ver:"@ + decimal_text(info.version as nat)
}

/// The text that stands for a driver version.
fn version_of(info: &DeviceInfo) -> (r: String)
    ensures
        r@ == version_text(*info),
{
    let mut text = "hid vid:".to_owned();
    text.append(hexadecimal(info.vendor_id, 4).as_str());
    text.append(" pid:");
    text.append(hexadecimal(info.product_id, 4).as_str());
    text.append(" ver:");
    text.append(decimal(info.version as u64).as_str());
    text
}

/// The name, or the fallback for a nameless device.
pub open spec fn name_or(name: Option<String>, fallback: Seq<char>) -> Seq<char> {
    match name {
        Some(name) => name@,
        None => fallback,
    }
}

/// Do two profiles agree on the usages of a pen?
pub open spec fn same_usages(a: ProfileCaps, b: ProfileCaps) -> bool {
    &&& a.x == b.x
    &&& a.y == b.y
    &&& a.pressure == b.pressure
    &&& a.tangent_pressure == b.tangent_pressure
    &&& a.x_tilt == b.x_tilt
    &&& a.y_tilt == b.y_tilt
    &&& a.azimuth == b.azimuth
    &&& a.altitude == b.altitude
    &&& a.twist == b.twist
    &&& a.has_in_range == b.has_in_range
    &&& a.has_tip == b.has_tip
    &&& a.has_barrel == b.has_barrel
    &&& a.has_eraser == b.has_eraser
    &&& a.has_invert == b.has_invert
}

/// The profile of a tablet surface or pen, from what the system told of the
/// device; none for other devices or if anything but the name is missing.
pub fn build_profile(
    handle: isize,
    info: Option<DeviceInfo>,
    name: Option<String>,
    preparsed: Option<Vec<u8>>,
    parsed: Option<ProfileCaps>,
) -> (r: Option<DeviceProfile>)
    ensures
        r is Some <==> info is Some && digitizes(info->0) && preparsed is Some && parsed is Some,
        r matches Some(profile) ==> {
            &&& profile.handle == handle
            &&& profile.preparsed == preparsed->0
            &&& profile.caps.device_name@ == name_or(name, "HID digitizer"@)
            &&& profile.caps.driver_version@ == version_text(info->0)
            &&& profile.caps.vendor_id == vendor_of(info->0)
            &&& profile.caps.kind == (parsed->0).kind
            &&& profile.caps.pad_buttons == (parsed->0).pad_buttons
            &&& same_usages(profile.caps, parsed->0)
        },
{
    let info: DeviceInfo = match info {
        Some(info) => info,
        None => {
            return None;
        },
    };
    if info.usage_page != PAGE_DIGITIZER || (info.usage != TLC_DIGITIZER && info.usage != TLC_PEN) {
        return None;
    }
    let device_name: String = match name {
        Some(name) => name,
        None => "HID digitizer".to_owned(),
    };
    match (preparsed, parsed) {
        (Some(preparsed), Some(parsed)) => {
            let mut caps: ProfileCaps = parsed;
            caps.device_name = device_name;
            caps.vendor_id = (info.vendor_id % 0x1_0000) as u16;
            caps.driver_version = version_of(&info);
            Some(DeviceProfile { handle, preparsed, caps })
        },
        _ => None,
    }
}

/// The profile of the keys beside a tablet. Only devices of a vendor that
/// also made one of the tablets count, and only if they have keys.
pub fn build_pad_profile(
    handle: isize,
    info: Option<DeviceInfo>,
    digitizer_vids: &HashSet<u16>,
    name: Option<String>,
    preparsed: Option<Vec<u8>>,
    buttons: Option<Vec<(u16, u16)>>,
) -> (r: Option<DeviceProfile>)
    ensures
        r is Some <==> info is Some && may_be_pad(info->0) && digitizer_vids@.contains(
            vendor_of(info->0),
        ) && preparsed is Some && buttons is Some && (buttons->0)@.len() > 0,
        r matches Some(profile) ==> {
            &&& profile.handle == handle
            &&& profile.preparsed == preparsed->0
            &&& profile.caps.device_name@ == name_or(name, "HID tablet pad"@)
            &&& profile.caps.driver_version@ == version_text(info->0)
            &&& profile.caps.vendor_id == vendor_of(info->0)
            &&& profile.caps.kind == ProfileKind::Pad
            &&& profile.caps.pad_buttons == buttons->0
            &&& profile.caps.has_no_usages()
        },
{
    broadcast use vstd::std_specs::hash::group_hash_axioms;

    let info: DeviceInfo = match info {
        Some(info) => info,
        None => {
            return None;
        },
    };
    let consumer: bool = info.usage_page == PAGE_CONSUMER && info.usage == USAGE_CONSUMER_CONTROL;
    if !consumer && !is_vendor_page(info.usage_page) {
        return None;
    }
    let vendor_id: u16 = (info.vendor_id % 0x1_0000) as u16;
    if !digitizer_vids.contains(&vendor_id) {
        return None;
    }
    let device_name: String = match name {
        Some(name) => name,
        None => "HID tablet pad".to_owned(),
    };
    match (preparsed, buttons) {
        (Some(preparsed), Some(pad_buttons)) => {
            if pad_buttons.len() == 0 {
                return None;
            }
            let mut caps: ProfileCaps = ProfileCaps::default();
            caps.kind = ProfileKind::Pad;
            caps.pad_buttons = pad_buttons;
            caps.device_name = device_name;
            caps.vendor_id = vendor_id;
            caps.driver_version = version_of(&info);
            Some(DeviceProfile { handle, preparsed, caps })
        },
        _ => None,
    }
}

/// Does a profile vouch for its vendor?
pub open spec fn vouches(profile: DeviceProfile, vendor_id: u16) -> bool {
    profile.caps.kind == ProfileKind::Pen && profile.caps.vendor_id == vendor_id && vendor_id != 0
}

/// Does some profile vouch for the vendor?
pub open spec fn some_pen_of(profiles: Map<isize, DeviceProfile>, vendor_id: u16) -> bool {
    exists|handle: isize| #[trigger] profiles.contains_key(handle) && vouches(profiles[handle], vendor_id)
}

/// Is this the profile of some handle?
spec fn keyed(profiles: Map<isize, DeviceProfile>, profile: DeviceProfile) -> bool {
    exists|handle: isize| #[trigger]
        profiles.contains_key(handle) && profiles[handle] == profile
}

/// The values of a map are those of its keys.
proof fn lemma_values_are_keyed(profiles: Map<isize, DeviceProfile>, values: Seq<&DeviceProfile>)
    requires
        values.unref().to_set() == profiles.values(),
    ensures
        forall|i: int| 0 <= i < values.len() ==> keyed(profiles, *#[trigger] values[i]),
        forall|handle: isize| #[trigger]
            profiles.contains_key(handle) ==> exists|i: int|
                0 <= i < values.len() && *#[trigger] values[i] == profiles[handle],
{
    let plain = values.unref();
    assert forall|i: int| 0 <= i < values.len() implies keyed(
        profiles,
        *#[trigger] values[i],
    ) by {
        assert(plain[i] == *values[i]);
        assert(plain.contains(plain[i]));
        assert(plain.to_set().contains(plain[i]));
        assert(profiles.values().contains(*values[i]));
    }
    assert forall|handle: isize| #[trigger] profiles.contains_key(handle) implies exists|i: int|
        0 <= i < values.len() && *#[trigger] values[i] == profiles[handle] by {
        assert(profiles.values().contains(profiles[handle]));
        assert(plain.to_set().contains(profiles[handle]));
        let i = choose|i: int| 0 <= i < plain.len() && plain[i] == profiles[handle];
        assert(*values[i] == profiles[handle]);
    }
}

/// The vendors of the tablets among `profiles`.
pub fn digitizer_vendor_ids(profiles: &ProfileMap) -> (r: HashSet<u16>)
    ensures
        forall|vendor_id: u16| #[trigger]
            r@.contains(vendor_id) <==> exists|handle: isize| #[trigger]
                profiles@.contains_key(handle) && vouches(profiles@[handle], vendor_id),
        forall|vendor_id: u16| #[trigger] r@.contains(vendor_id) <==> some_pen_of(profiles@, vendor_id),
{
    broadcast use vstd::std_specs::hash::group_hash_axioms;

    let mut vendors: HashSet<u16> = HashSet::new();
    let values = profiles.values();
    let ghost all = values.remaining();
    for profile in it: values
        invariant
            it.seq() == all,
            forall|vendor_id: u16| #[trigger]
                vendors@.contains(vendor_id) <==> exists|i: int|
                    0 <= i < it.index() && vouches(*#[trigger] all[i], vendor_id),
    {
        let vendor_id: u16 = profile.caps.vendor_id;
        let pen: bool = match profile.caps.kind {
            ProfileKind::Pen => true,
            ProfileKind::Pad => false,
        };
        if pen && vendor_id != 0 {
            vendors.insert(vendor_id);
        }
    }
    proof {
        lemma_values_are_keyed(profiles@, all);
    }
    vendors
}

/// The vendors of the tablets are those of the pens among the profiles, but for
/// the vendor 0.
pub proof fn vendors_are_those_of_the_pens(profiles: ProfileMap, r: HashSet<u16>, handle: isize, vendor_id: u16)
    requires
        call_ensures(digitizer_vendor_ids, (&profiles,), r),
    ensures
        profiles@.contains_key(handle) && profiles@[handle].caps.kind == ProfileKind::Pen && profiles@[handle].caps.vendor_id
            != 0 ==> r@.contains(profiles@[handle].caps.vendor_id),
        r@.contains(vendor_id) ==> vendor_id != 0 && exists|h: isize| #[trigger]
            profiles@.contains_key(h) && profiles@[h].caps.kind == ProfileKind::Pen && profiles@[h].caps.vendor_id
                == vendor_id,
{
    if profiles@.contains_key(handle) && profiles@[handle].caps.kind == ProfileKind::Pen && profiles@[handle].caps.vendor_id
        != 0 {
        assert(vouches(profiles@[handle], profiles@[handle].caps.vendor_id));
        assert(some_pen_of(profiles@, profiles@[handle].caps.vendor_id));
    }
}

/// A span covers its usages from the first to the last; a single usage is both.
pub proof fn spans_cover_from_first_to_last(span: UsageSpan, first: u16, last: u16, usage: u16, r: bool)
    requires
        call_ensures(UsageSpan::first, (&span,), first),
        call_ensures(UsageSpan::last, (&span,), last),
        call_ensures(UsageSpan::covers, (&span, usage), r),
    ensures
        r <==> first <= usage <= last,
        span matches UsageSpan::One(only) ==> first == only && last == only,
        span matches UsageSpan::Range { first: lo, last: hi } ==> first == lo && last == hi,
{
}

} // verus!
