//! Lights split into segments: each segment shows the colors of its own
//! source, and the strip is on when any segment is on.
//!
//! Colors are carried as they are and never computed with, so the color type
//! is left open.
use vstd::prelude::*;
use crate::text::{contains_str, copy_string, string_of, strings_view};

verus! {

broadcast use vstd::string::group_string_axioms;

/// The colors of a light.
#[derive(Debug)]
pub enum Colors<C> {
    /// One color for the whole light.
    Single(C),
    /// A sequence of colors, repeated along the light.
    Sequence(Vec<C>),
}

/// A light's power and colors.
#[derive(Debug)]
pub enum PowerColor<C> {
    /// On, with these colors.
    On(Colors<C>),
    /// Off.
    Off,
}

/// Where a segment lies on the strip.
#[derive(Clone, Copy, Debug, PartialEq, Eq, Structural)]
pub struct SplitLightConfig {
    /// Its first light.
    pub begin: usize,
    /// How many lights it has.
    pub number: usize,
}

/// How a strip is split into segments.
#[derive(Debug)]
pub struct MergeLightConfig {
    /// The number of lights of the strip.
    pub number_of_lights: usize,
    /// The segments, by priority.
    pub splits: Vec<SplitLightConfig>,
}

/// The colors of a power color, in a form a proof can read.
pub enum ColorsV<C> {
    Single(C),
    Sequence(Seq<C>),
    Dark,
}

/// The colors a power color shows.
pub open spec fn colors_of<C>(pc: &PowerColor<C>) -> ColorsV<C> {
    match pc {
        PowerColor::On(Colors::Single(c)) => ColorsV::Single(*c),
        PowerColor::On(Colors::Sequence(v)) => ColorsV::Sequence(v@),
        PowerColor::Off => ColorsV::Dark,
    }
}

/// The `k`-th color a power color puts on its segment, if it has one: a
/// single color everywhere, a sequence repeated, and nothing when off or
/// when the sequence is empty.
pub open spec fn nth_color<C>(c: ColorsV<C>, k: int) -> Option<C> {
    match c {
        ColorsV::Single(x) => Some(x),
        ColorsV::Sequence(s) => if s.len() == 0 { None } else { Some(s[k % (s.len() as int)]) },
        ColorsV::Dark => None,
    }
}

/// The strip after a segment's colors are copied to it: the lights from
/// `offset`, at most `number` of them, take the segment's colors in turn.
pub open spec fn spec_copy_colors<C>(c: ColorsV<C>, colors: Seq<C>, offset: int, number: int) -> Seq<C> {
    Seq::new(colors.len(), |i: int|
        if offset <= i < offset + number && nth_color(c, i - offset) is Some {
            nth_color(c, i - offset)->0
        } else {
            colors[i]
        })
}

/// Copy a segment's colors onto the strip: see `spec_copy_colors`.
pub fn copy_colors_to_pos<C: Copy>(add_colors: &PowerColor<C>, colors: &mut Vec<C>, offset: usize, number: usize)
    ensures
        final(colors)@ == spec_copy_colors(colors_of(add_colors), old(colors)@, offset as int, number as int),
{
    let ghost c = colors_of(add_colors);
    let ghost orig = colors@;
    let len = colors.len();
    let mut k: usize = 0;
    while k < number && offset < len && k < len - offset
        invariant
            len == colors@.len(),
            orig.len() == len,
            c == colors_of(add_colors),
            k <= number,
            forall|i: int| 0 <= i < len ==> #[trigger] colors@[i] == (
                if offset <= i < offset + k && nth_color(c, i - offset) is Some {
                    nth_color(c, i - offset)->0
                } else {
                    orig[i]
                }),
        decreases number - k,
    {
        let pos = offset + k;
        match add_colors {
            PowerColor::On(Colors::Single(color)) => {
                colors.set(pos, *color);
            },
            PowerColor::On(Colors::Sequence(seq)) => {
                if seq.len() > 0 {
                    let color = seq[k % seq.len()];
                    colors.set(pos, color);
                }
            },
            PowerColor::Off => {},
        }
        k = k + 1;
    }
    proof {
        assert forall|i: int| 0 <= i < len implies #[trigger] colors@[i]
            == spec_copy_colors(c, orig, offset as int, number as int)[i] by {
            if offset <= i < offset + number && !(offset <= i < offset + k) {
                assert(i >= len);
            }
        }
        assert(colors@ =~= spec_copy_colors(c, orig, offset as int, number as int));
    }
}

/// Is the power color on?
pub open spec fn is_on<C>(pc: &PowerColor<C>) -> bool {
    pc matches PowerColor::On(_)
}

/// The strip's colors from the first `k` segments: 32 lights of `blank`,
/// each segment's colors copied in turn.
pub open spec fn spec_merge_prefix<C>(buffers: Seq<PowerColor<C>>, splits: Seq<SplitLightConfig>, blank: C, k: int) -> Seq<C>
    decreases k,
{
    if k <= 0 {
        Seq::new(32, |i: int| blank)
    } else {
        spec_copy_colors(colors_of(&buffers[k - 1]), spec_merge_prefix(buffers, splits, blank, k - 1),
            splits[k - 1].begin as int, splits[k - 1].number as int)
    }
}

/// Law: the merged strip has 32 lights, and a light that no segment covers
/// stays blank, whatever the segments show.
pub proof fn law_uncovered_light_blank<C>(buffers: Seq<PowerColor<C>>, splits: Seq<SplitLightConfig>, blank: C, k: int, i: int)
    requires
        0 <= i < 32,
        forall|j: int| 0 <= j < k ==> !((#[trigger] splits[j]).begin <= i < splits[j].begin + splits[j].number),
    ensures
        spec_merge_prefix(buffers, splits, blank, k).len() == 32,
        spec_merge_prefix(buffers, splits, blank, k)[i] == blank,
    decreases k,
{
    if k > 0 {
        law_uncovered_light_blank(buffers, splits, blank, k - 1, i);
        assert(!(splits[k - 1].begin <= i < splits[k - 1].begin + splits[k - 1].number));
    }
}

/// Is any of the first `k` segments on?
pub open spec fn any_on<C>(buffers: Seq<PowerColor<C>>, k: int) -> bool {
    exists|i: int| 0 <= i < k && is_on(&#[trigger] buffers[i])
}

/// The segments of a strip, each showing the last power color of its source.
#[derive(Debug)]
pub struct MergedLight<C> {
    /// The last power color of each segment's source, by priority.
    pub buffers: Vec<PowerColor<C>>,
}

/// Why a power color could not be taken.
#[derive(Clone, Copy, Debug, PartialEq, Eq, Structural)]
pub enum MergeError {
    /// No segment has this priority.
    PriorityOutOfRange(usize),
}

impl<C: Copy> MergedLight<C> {
    /// All segments off, one per split.
    pub fn new(config: &MergeLightConfig) -> (m: MergedLight<C>)
        ensures
            m.buffers@.len() == config.splits@.len(),
            forall|i: int| 0 <= i < m.buffers@.len() ==> m.buffers@[i] is Off,
    {
        let mut buffers: Vec<PowerColor<C>> = Vec::new();
        let mut i: usize = 0;
        while i < config.splits.len()
            invariant
                i <= config.splits@.len(),
                buffers@.len() == i,
                forall|j: int| 0 <= j < i ==> buffers@[j] is Off,
            decreases config.splits@.len() - i,
        {
            buffers.push(PowerColor::Off);
            i = i + 1;
        }
        MergedLight { buffers }
    }

    /// Take the power color of the segment `priority` and compute the strip:
    /// 32 lights of `blank` with each segment's colors copied in priority
    /// order, on when any segment is on. A priority past the segments is refused.
    pub fn update(&mut self, config: &MergeLightConfig, priority: usize, pc: PowerColor<C>, blank: C)
        -> (r: Result<PowerColor<C>, MergeError>)
        requires
            old(self).buffers@.len() == config.splits@.len(),
        ensures
            final(self).buffers@.len() == old(self).buffers@.len(),
            priority >= old(self).buffers@.len() ==> r == Err::<PowerColor<C>, MergeError>(MergeError::PriorityOutOfRange(priority))
                && final(self).buffers@ == old(self).buffers@,
            priority < old(self).buffers@.len() ==> final(self).buffers@ == old(self).buffers@.update(priority as int, pc),
            priority < old(self).buffers@.len() ==> match r {
                Ok(out) => if any_on(final(self).buffers@, final(self).buffers@.len() as int) {
                    colors_of(&out) == ColorsV::Sequence(spec_merge_prefix(final(self).buffers@, config.splits@, blank,
                        final(self).buffers@.len() as int))
                } else {
                    out is Off
                },
                Err(_) => false,
            },
    {
        let len = self.buffers.len();
        if priority >= len {
            return Err(MergeError::PriorityOutOfRange(priority));
        }
        self.buffers.set(priority, pc);
        let mut colors: Vec<C> = Vec::new();
        let mut n: usize = 0;
        while n < 32
            invariant
                n <= 32,
                colors@ == Seq::new(n as nat, |i: int| blank),
            decreases 32 - n,
        {
            colors.push(blank);
            n = n + 1;
            assert(colors@ =~= Seq::new(n as nat, |i: int| blank));
        }
        let mut on = false;
        let mut i: usize = 0;
        while i < self.buffers.len()
            invariant
                i <= self.buffers@.len(),
                self.buffers@.len() == config.splits@.len(),
                colors@ == spec_merge_prefix(self.buffers@, config.splits@, blank, i as int),
                on == any_on(self.buffers@, i as int),
            decreases self.buffers@.len() - i,
        {
            let split = config.splits[i];
            copy_colors_to_pos(&self.buffers[i], &mut colors, split.begin, split.number);
            if let PowerColor::On(_) = &self.buffers[i] {
                on = true;
            }
            proof {
                if any_on(self.buffers@, i as int + 1) && !any_on(self.buffers@, i as int) {
                    let j = choose|j: int| 0 <= j < i + 1 && is_on(&#[trigger] self.buffers@[j]);
                    assert(j == i);
                }
                if any_on(self.buffers@, i as int) {
                    let j = choose|j: int| 0 <= j < i && is_on(&#[trigger] self.buffers@[j]);
                    assert(0 <= j < i + 1 && is_on(&self.buffers@[j]));
                }
            }
            i = i + 1;
        }
        if on {
            Ok(PowerColor::On(Colors::Sequence(colors)))
        } else {
            Ok(PowerColor::Off)
        }
    }
}


impl<C: Copy> PowerColor<C> {
    /// A copy of the power color.
    pub fn duplicate(&self) -> (p: PowerColor<C>)
        ensures
            colors_of(&p) == colors_of(self),
    {
        match self {
            PowerColor::Off => PowerColor::Off,
            PowerColor::On(Colors::Single(c)) => PowerColor::On(Colors::Single(*c)),
            PowerColor::On(Colors::Sequence(v)) => {
                let mut w: Vec<C> = Vec::new();
                let mut i: usize = 0;
                while i < v.len()
                    invariant
                        i <= v@.len(),
                        w@ == v@.take(i as int),
                    decreases v@.len() - i,
                {
                    w.push(v[i]);
                    i = i + 1;
                    assert(w@ =~= v@.take(i as int));
                }
                assert(v@.take(i as int) =~= v@);
                PowerColor::On(Colors::Sequence(w))
            },
        }
    }
}

/// A command to a light.
#[derive(Debug)]
pub enum LightCommand {
    /// Turn on with the named scene.
    TurnOn(String),
    /// Turn off.
    TurnOff,
    /// Flash the light twice.
    Flash,
}

/// What a light command does.
#[derive(Debug)]
pub enum LightPlan<C> {
    /// Switch to the named scene: remember it, report it, turn the light off
    /// and follow the scene's colors from then on.
    SetScene(String),
    /// Show these power colors in turn, half a second each.
    Show(Vec<PowerColor<C>>),
    /// The scene is not known; nothing changes.
    UnknownScene(String),
}

/// What a light command does: a scene that is known is switched to (turning
/// off is the scene `off`); a flash shows the flash color, the current colors
/// (off when none), the flash color and the current colors again.
pub fn light_command_plan<C: Copy>(command: &LightCommand, scenes: &Vec<String>, last_value: &Option<PowerColor<C>>, flash_color: &PowerColor<C>)
    -> (p: LightPlan<C>)
    ensures
        match command {
            LightCommand::TurnOn(name) => if strings_view(scenes@).contains(name@) {
                p matches LightPlan::SetScene(n) && n@ == name@
            } else {
                p matches LightPlan::UnknownScene(n) && n@ == name@
            },
            LightCommand::TurnOff => if strings_view(scenes@).contains("off"@) {
                p matches LightPlan::SetScene(n) && n@ == "off"@
            } else {
                p matches LightPlan::UnknownScene(n) && n@ == "off"@
            },
            LightCommand::Flash => p matches LightPlan::Show(v) && v@.len() == 4
                && colors_of(&v@[0]) == colors_of(flash_color)
                && colors_of(&v@[2]) == colors_of(flash_color)
                && colors_of(&v@[1]) == match last_value { Some(pc) => colors_of(pc), None => ColorsV::Dark }
                && colors_of(&v@[3]) == match last_value { Some(pc) => colors_of(pc), None => ColorsV::Dark },
        },
{
    match command {
        LightCommand::TurnOn(name) => {
            if contains_str(scenes, name) {
                LightPlan::SetScene(copy_string(name))
            } else {
                LightPlan::UnknownScene(copy_string(name))
            }
        },
        LightCommand::TurnOff => {
            let off = string_of("off");
            if contains_str(scenes, &off) {
                LightPlan::SetScene(off)
            } else {
                LightPlan::UnknownScene(off)
            }
        },
        LightCommand::Flash => {
            let current = match last_value {
                Some(pc) => pc.duplicate(),
                None => PowerColor::Off,
            };
            let mut v: Vec<PowerColor<C>> = Vec::new();
            v.push(flash_color.duplicate());
            v.push(current.duplicate());
            v.push(flash_color.duplicate());
            v.push(current);
            LightPlan::Show(v)
        },
    }
}

/// The number of colors in a frame of the rainbow scene.
pub const RAINBOW_COLORS: u16 = 10;

/// The hue, in degrees, of the `j`-th color of frame `step` of the rainbow
/// scene: the colors are spread evenly around the circle, and each frame
/// turns it by one color.
pub open spec fn spec_rainbow_hue(step: int, j: int) -> int {
    ((step + j) * 36) % 360
}

/// The hues of frame `step` of the rainbow scene: see `spec_rainbow_hue`.
pub fn rainbow_hues(step: u16) -> (hues: Vec<u16>)
    ensures
        hues@.len() == 10,
        forall|j: int| 0 <= j < 10 ==> #[trigger] hues@[j] == spec_rainbow_hue(step as int, j),
{
    let mut hues: Vec<u16> = Vec::new();
    let mut j: u16 = 0;
    while j < RAINBOW_COLORS
        invariant
            j <= 10,
            hues@.len() == j,
            forall|k: int| 0 <= k < j ==> #[trigger] hues@[k] == spec_rainbow_hue(step as int, k),
        decreases 10 - j,
    {
        let turn: u32 = ((step as u32) + (j as u32)) * 36;
        hues.push((turn % 360) as u16);
        j = j + 1;
    }
    hues
}

/// The frame after `step` of the rainbow scene, going round after the last.
pub fn next_rainbow_step(step: u16) -> (next: u16)
    ensures
        next == (step as int + 1) % 10,
{
    ((step as u32 + 1) % 10) as u16
}

/// Frame `phase` of the busy scene, which blinks: `on` then `off` along the
/// light in one frame, and the other way round in the next.
pub fn busy_frame<C: Copy>(phase: bool, on: C, off: C) -> (pc: PowerColor<C>)
    ensures
        colors_of(&pc) == (if phase { ColorsV::Sequence(seq![off, on]) } else { ColorsV::Sequence(seq![on, off]) }),
{
    let mut v: Vec<C> = Vec::new();
    if phase {
        v.push(off);
        v.push(on);
    } else {
        v.push(on);
        v.push(off);
    }
    assert(v@ =~= (if phase { seq![off, on] } else { seq![on, off] }));
    PowerColor::On(Colors::Sequence(v))
}

} // verus!
