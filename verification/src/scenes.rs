//! Scenes: a packing of circles made once for a render layer, frozen or kept
//! for animation.

use crate::circles::{all_in_limits, Circle};
use crate::color_generator::{ColorGenerator, Hsl};
use crate::dynamic_textures::{RenderToTextureDescriptor, Rgba, StartColor};
use crate::packing::{color_chain, is_packing, pack, pack_columns, AllCircles, START_RADIUS};
use rand::rngs::ThreadRng;
use vstd::prelude::*;

verus! {

/// The width of the area that a scene packs, in pixels.
pub const WINDOW_WIDTH: u32 = 1280;

/// The kinds of scene that a descriptor can name.
#[derive(Clone, Copy, Debug, PartialEq, Eq, Structural)]
pub enum SceneKind {
    /// Packed once, then only its colours move from shape to shape.
    Circles1,
    /// Packed once and kept, so that each frame can be derived from it.
    Circles2,
}

/// The kind that a descriptor's `functype` names, if it names one.
pub open spec fn spec_scene_kind(functype: Seq<char>) -> Option<SceneKind> {
    if functype == "Circles1"@ {
        Some(SceneKind::Circles1)
    } else if functype == "Circles2"@ {
        Some(SceneKind::Circles2)
    } else {
        None
    }
}

/// The kind that a descriptor's `functype` names, if it names one.
pub fn scene_kind(functype: &str) -> (kind: Option<SceneKind>)
    ensures
        kind == spec_scene_kind(functype@),
{
    let name = functype.to_owned();
    if name == "Circles1".to_owned() {
        Some(SceneKind::Circles1)
    } else if name == "Circles2".to_owned() {
        Some(SceneKind::Circles2)
    } else {
        None
    }
}

/// The colour that a walk from `start` begins with.
pub open spec fn start_hsl(start: StartColor) -> Hsl {
    Hsl { hue: start.hue, saturation: start.saturation, lightness: start.lightness }
}

/// A scene that is packed once and then frozen.
pub struct Circles1 {
    pub layer: u8,
    pub start_color: StartColor,
    pub background_color: Rgba,
    /// Whether the scene has been packed.
    pub done_setup: bool,
}

impl Circles1 {
    /// A scene for the layer, with the colours of the descriptor, not yet
    /// packed.
    pub fn new(layer: u8, desc: &RenderToTextureDescriptor) -> (scene: Circles1)
        ensures
            scene.layer == layer,
            scene.start_color == desc.start_color,
            scene.background_color == desc.background_color,
            !scene.done_setup,
    {
        Circles1 {
            layer,
            start_color: desc.start_color,
            background_color: desc.background_color,
            done_setup: false,
        }
    }
}

/// Packs the scene, unless that has been done, and returns the circles to
/// draw on its layer: none for a scene that had been packed before. The walk
/// of colours starts from the scene's start colour, and the area is
/// `WINDOW_WIDTH` wide, so the first circle has the start radius.
pub fn circles1_add_circles_to_layer(circles1: &mut Circles1, rng: &mut ThreadRng) -> (circs: Vec<
    Circle,
>)
    ensures
        final(circles1).done_setup,
        final(circles1).layer == old(circles1).layer,
        final(circles1).start_color == old(circles1).start_color,
        final(circles1).background_color == old(circles1).background_color,
        old(circles1).done_setup ==> circs@.len() == 0,
        !old(circles1).done_setup ==> {
            &&& is_packing(circs@, WINDOW_WIDTH)
            &&& color_chain(circs@, start_hsl(old(circles1).start_color))
            &&& circs@.len() > 0
            &&& circs@[0].r == START_RADIUS
        },
{
    if circles1.done_setup {
        return Vec::new();
    }
    let (mut generator, _) = ColorGenerator::new(
        circles1.start_color.hue,
        circles1.start_color.saturation,
        circles1.start_color.lightness,
        rng.clone(),
    );
    let circs = pack(WINDOW_WIDTH, &mut generator, rng);
    circles1.done_setup = true;
    circs
}

/// A scene that is packed once and kept: each frame is derived from the
/// circles as they were packed.
pub struct Circles2 {
    pub layer: u8,
    pub start_color: StartColor,
    pub background_color: Rgba,
    /// The circles as they were packed.
    pub allcircs: AllCircles,
    /// Whether the scene has been packed.
    pub done_setup: bool,
}

impl Circles2 {
    /// A scene for the layer, with the colours of the descriptor, not yet
    /// packed.
    pub fn new(layer: u8, desc: &RenderToTextureDescriptor) -> (scene: Circles2)
        ensures
            scene.layer == layer,
            scene.start_color == desc.start_color,
            scene.background_color == desc.background_color,
            scene.allcircs.wf(),
            scene.allcircs@.len() == 0,
            !scene.done_setup,
    {
        Circles2 {
            layer,
            start_color: desc.start_color,
            background_color: desc.background_color,
            allcircs: AllCircles::new(),
            done_setup: false,
        }
    }
}

/// Packs the scene, unless that has been done: its circles are then the
/// packing, which starts from the scene's start colour and fills an area
/// `WINDOW_WIDTH` wide, so that the first circle has the start radius. A scene
/// that had been packed before is left as it is.
pub fn circles2_add_circles_to_layer(circles2: &mut Circles2, rng: &mut ThreadRng)
    ensures
        final(circles2).done_setup,
        final(circles2).layer == old(circles2).layer,
        final(circles2).start_color == old(circles2).start_color,
        final(circles2).background_color == old(circles2).background_color,
        old(circles2).done_setup ==> final(circles2).allcircs == old(circles2).allcircs,
        !old(circles2).done_setup ==> {
            &&& final(circles2).allcircs.wf()
            &&& all_in_limits(final(circles2).allcircs@)
            &&& is_packing(final(circles2).allcircs@, WINDOW_WIDTH)
            &&& color_chain(final(circles2).allcircs@, start_hsl(old(circles2).start_color))
            &&& final(circles2).allcircs@.len() > 0
            &&& final(circles2).allcircs@[0].r == START_RADIUS
        },
{
    if circles2.done_setup {
        return ;
    }
    let (mut generator, _) = ColorGenerator::new(
        circles2.start_color.hue,
        circles2.start_color.saturation,
        circles2.start_color.lightness,
        rng.clone(),
    );
    circles2.allcircs = pack_columns(WINDOW_WIDTH, &mut generator, rng);
    circles2.done_setup = true;
}

/// A scene of either kind.
pub enum Scene {
    Circles1(Circles1),
    Circles2(Circles2),
}

/// A scene of the given kind for the layer, with the colours of the
/// descriptor, not yet packed.
pub fn new_scene(kind: SceneKind, layer: u8, desc: &RenderToTextureDescriptor) -> (scene: Scene)
    ensures
        match kind {
            SceneKind::Circles1 => scene matches Scene::Circles1(s) && s.layer == layer
                && s.start_color == desc.start_color && s.background_color
                == desc.background_color && !s.done_setup,
            SceneKind::Circles2 => scene matches Scene::Circles2(s) && s.layer == layer
                && s.start_color == desc.start_color && s.background_color
                == desc.background_color && !s.done_setup && s.allcircs.wf() && s.allcircs@.len()
                == 0,
        },
{
    match kind {
        SceneKind::Circles1 => Scene::Circles1(Circles1::new(layer, desc)),
        SceneKind::Circles2 => Scene::Circles2(Circles2::new(layer, desc)),
    }
}

/// The colours after one turn of the ring: the first shape has the colour
/// that the last one had, and every other shape the colour of the shape
/// before it.
pub open spec fn rotated<T>(colors: Seq<T>) -> Seq<T> {
    Seq::new(
        colors.len(),
        |i: int|
            if i == 0 {
                colors[colors.len() - 1]
            } else {
                colors[i - 1]
            },
    )
}

/// The colours after `turns` turns of the ring.
pub open spec fn rotated_times<T>(colors: Seq<T>, turns: nat) -> Seq<T>
    decreases turns,
{
    if turns == 0 {
        colors
    } else {
        rotated(rotated_times(colors, (turns - 1) as nat))
    }
}

/// Turns the ring of colours by one place.
pub fn rotate_colors<T: Copy>(colors: &mut Vec<T>)
    ensures
        final(colors)@ == rotated(old(colors)@),
{
    let n = colors.len();
    if n == 0 {
        return ;
    }
    let mut prev_color = colors[n - 1];
    let mut i: usize = 0;
    while i < n
        invariant
            i <= n,
            n == colors@.len(),
            n == old(colors)@.len(),
            prev_color == (if i == 0 {
                old(colors)@[n - 1]
            } else {
                old(colors)@[i - 1]
            }),
            forall|k: int| 0 <= k < i ==> colors@[k] == rotated(old(colors)@)[k],
            forall|k: int| i <= k < n ==> colors@[k] == old(colors)@[k],
        decreases n - i,
    {
        let here = colors[i];
        colors.set(i, prev_color);
        prev_color = here;
        i += 1;
    }
}

/// Moves the colours of the shapes of a scene that has been packed around
/// their ring by one place. The colours of a scene that has not been packed
/// are left alone.
pub fn circles1_update_colors<T: Copy>(circles1: &Circles1, colors: &mut Vec<T>)
    ensures
        final(colors)@ == (if circles1.done_setup {
            rotated(old(colors)@)
        } else {
            old(colors)@
        }),
{
    if circles1.done_setup {
        rotate_colors(colors);
    }
}

/// After as many turns as it has places, but not more, the ring shows at
/// place `i` what was `turns` places before it, going round.
proof fn lemma_rotated_times_index<T>(colors: Seq<T>, turns: nat, i: int)
    requires
        turns <= colors.len(),
        0 <= i < colors.len(),
    ensures
        rotated_times(colors, turns).len() == colors.len(),
        rotated_times(colors, turns)[i] == (if i < turns {
            colors[colors.len() - turns + i]
        } else {
            colors[i - turns]
        }),
    decreases turns,
{
    if turns > 0 {
        let before = rotated_times(colors, (turns - 1) as nat);
        lemma_rotated_times_index(colors, (turns - 1) as nat, i);
        if i == 0 {
            lemma_rotated_times_index(colors, (turns - 1) as nat, colors.len() - 1);
        } else {
            lemma_rotated_times_index(colors, (turns - 1) as nat, i - 1);
        }
    }
}

/// Turning the ring once for each of its places brings every colour back to
/// where it was.
pub proof fn lemma_full_rotation_restores<T>(colors: Seq<T>)
    ensures
        rotated_times(colors, colors.len()) == colors,
{
    if colors.len() == 0 {
        assert(rotated_times(colors, 0) == colors);
    } else {
        assert forall|i: int| 0 <= i < colors.len() implies rotated_times(colors, colors.len())[i]
            == colors[i] by {
            lemma_rotated_times_index(colors, colors.len(), i);
        }
        lemma_rotated_times_index(colors, colors.len(), 0);
        assert(rotated_times(colors, colors.len()) =~= colors);
    }
}

} // verus!
