//! Textures that scenes are rendered to: who asked for which, on which render
//! layer each is drawn, and under which name it is found again.

use crate::name_table::{
    no_entries, table_entries, table_get, table_insert, table_new, NameTable,
};
use vstd::prelude::*;

verus! {

/// The renderer tells this many layers apart, so this many scenes can be kept
/// from each other. Layers are numbered from 1.
pub const MAX_RENDER_LAYERS: u8 = 32;

/// The layer that is given out when `issued` layers are out: the next one, or
/// none when all are out.
pub open spec fn next_layer(issued: u8) -> Option<u8> {
    if issued < MAX_RENDER_LAYERS {
        Some((issued + 1) as u8)
    } else {
        None
    }
}

/// How many layers are out after one was asked for when `issued` were out.
pub open spec fn issued_after(issued: u8) -> u8 {
    if issued < MAX_RENDER_LAYERS {
        (issued + 1) as u8
    } else {
        issued
    }
}

/// How many layers are out after `calls` were asked for, starting with none
/// out.
pub open spec fn issued_after_calls(calls: nat) -> u8
    decreases calls,
{
    if calls == 0 {
        0
    } else {
        issued_after(issued_after_calls((calls - 1) as nat))
    }
}

/// What the call gets that is made after `calls` earlier ones, starting with
/// no layer out.
pub open spec fn grant_of_call(calls: nat) -> Option<u8> {
    next_layer(issued_after_calls(calls))
}

/// Starting with no layer out, each of the first `MAX_RENDER_LAYERS` calls
/// gets the layer of its own number, counted from 1, and every later call gets
/// nothing.
pub proof fn lemma_layers_run_out(calls: nat)
    ensures
        issued_after_calls(calls) == (if calls < MAX_RENDER_LAYERS {
            calls
        } else {
            MAX_RENDER_LAYERS as nat
        }),
        grant_of_call(calls) == (if calls < MAX_RENDER_LAYERS {
            Some((calls + 1) as u8)
        } else {
            None
        }),
    decreases calls,
{
    if calls > 0 {
        lemma_layers_run_out((calls - 1) as nat);
    }
}

/// No layer is given out twice: two different calls that both get a layer get
/// different ones.
pub proof fn lemma_layers_never_repeat(first: nat, second: nat)
    requires
        first != second,
        grant_of_call(first) is Some,
    ensures
        grant_of_call(first) != grant_of_call(second),
{
    lemma_layers_run_out(first);
    lemma_layers_run_out(second);
}

/// The colour that the walk of a scene starts from: hue in millionths of a
/// degree, saturation and lightness in millionths of one.
#[derive(Default, Clone, Copy, Debug, PartialEq, Eq, Structural)]
pub struct StartColor {
    pub hue: i32,
    pub saturation: i32,
    pub lightness: i32,
}

/// A colour for display, each channel in millionths of full intensity.
#[derive(Default, Clone, Copy, Debug, PartialEq, Eq, Structural)]
pub struct Rgba {
    pub red: u32,
    pub green: u32,
    pub blue: u32,
    pub alpha: u32,
}

/// The texture that a scene is rendered to, by the id that the renderer gave
/// it.
#[derive(Clone, Copy, Debug, PartialEq, Eq, Structural)]
pub struct TextureHandle {
    pub id: u64,
}

/// What is asked for: a scene of the named kind, rendered to a square texture
/// of the given size that is found again under the given name.
#[derive(Clone, Copy, Debug)]
pub struct RenderToTextureDescriptor {
    pub name: &'static str,
    pub functype: &'static str,
    pub size: u32,
    pub start_color: StartColor,
    pub background_color: Rgba,
}

/// A request for a texture. One without a description asks for nothing.
#[derive(Default, Clone, Copy, Debug)]
pub struct AddDynamicTextureEvent {
    pub description: Option<RenderToTextureDescriptor>,
}

/// A texture on record: its render layer, its handle and what was asked for.
#[derive(Clone, Copy, Debug)]
pub struct TextureRecord {
    pub layer: u8,
    pub handle: TextureHandle,
    pub descriptor: RenderToTextureDescriptor,
}

/// The textures on record, the names they are found under, and the render
/// layers given out so far.
pub struct DynamicTextures {
    list: Vec<TextureRecord>,
    map: NameTable,
    highest_render_layer: u8,
}

impl DynamicTextures {
    /// No more layers are out than there are.
    pub open spec fn wf(self) -> bool {
        self.issued() <= MAX_RENDER_LAYERS
    }

    /// How many render layers have been given out. They are the layers from 1
    /// to this number.
    pub closed spec fn issued(self) -> u8 {
        self.highest_render_layer
    }

    /// What each name resolves to: the id of its texture and its render layer.
    pub closed spec fn entries(self) -> Map<Seq<char>, (u64, u8)> {
        table_entries(self.map)
    }

    /// The textures on record, oldest first.
    pub closed spec fn records(self) -> Seq<TextureRecord> {
        self.list@
    }

    /// No texture on record, no layer given out.
    pub fn new() -> (textures: DynamicTextures)
        ensures
            textures.wf(),
            textures.issued() == 0,
            textures.entries() == no_entries(),
            textures.records() == Seq::<TextureRecord>::empty(),
    {
        DynamicTextures { list: Vec::new(), map: table_new(), highest_render_layer: 0 }
    }

    /// The texture recorded under the name and its render layer, if there is
    /// one.
    pub fn get_texture_handle(&self, name: &str) -> (found: Option<(TextureHandle, u8)>)
        ensures
            found == (if self.entries().dom().contains(name@) {
                Some((TextureHandle { id: self.entries()[name@].0 }, self.entries()[name@].1))
            } else {
                None
            }),
    {
        match table_get(&self.map, name) {
            Some((id, layer)) => Some((TextureHandle { id }, layer)),
            None => None,
        }
    }

    /// Puts a texture on record, and under the name of its descriptor. A name
    /// that was on record before resolves to the new texture from now on.
    pub fn add_dynamic_texture(
        &mut self,
        descriptor: &RenderToTextureDescriptor,
        layer: u8,
        h: TextureHandle,
    )
        ensures
            final(self).issued() == old(self).issued(),
            final(self).entries() == old(self).entries().insert(descriptor.name@, (h.id, layer)),
            final(self).records() == old(self).records().push(
                TextureRecord { layer, handle: h, descriptor: *descriptor },
            ),
    {
        self.list.push(TextureRecord { layer, handle: h, descriptor: *descriptor });
        table_insert(&mut self.map, descriptor.name.to_owned(), (h.id, layer));
    }

    /// Gives out the next render layer, or nothing once all
    /// `MAX_RENDER_LAYERS` are out. A layer is never given out twice: each is
    /// one above the last.
    pub fn get_available_render_layer(&mut self) -> (layer: Option<u8>)
        ensures
            old(self).wf() ==> final(self).wf(),
            layer == next_layer(old(self).issued()),
            final(self).issued() == issued_after(old(self).issued()),
            final(self).entries() == old(self).entries(),
            final(self).records() == old(self).records(),
    {
        if self.highest_render_layer < MAX_RENDER_LAYERS {
            self.highest_render_layer += 1;
            Some(self.highest_render_layer)
        } else {
            None
        }
    }
}

impl Default for DynamicTextures {
    /// No texture on record, no layer given out.
    fn default() -> (textures: DynamicTextures)
        ensures
            textures.wf(),
            textures.issued() == 0,
            textures.entries() == no_entries(),
            textures.records() == Seq::<TextureRecord>::empty(),
    {
        DynamicTextures::new()
    }
}

/// A render layer given to a request.
#[derive(Clone, Copy, Debug)]
pub struct LayerGrant {
    pub layer: u8,
    pub descriptor: RenderToTextureDescriptor,
}

/// The names of the requests that the grants were given to.
pub open spec fn granted_names(grants: Seq<LayerGrant>) -> Set<Seq<char>> {
    Set::new(
        |name: Seq<char>|
            exists|k: int| 0 <= k < grants.len() && (#[trigger] grants[k]).descriptor.name@ == name,
    )
}

/// The grants that a batch of requests gets, oldest first, when the names in
/// `taken` are spoken for and `issued` layers are out. A request is passed over
/// if it has no description, if its name is spoken for, or if no layer is left.
/// Each of the others gets the next layer, and its name is spoken for from
/// then on.
pub open spec fn grants_for(
    events: Seq<AddDynamicTextureEvent>,
    taken: Set<Seq<char>>,
    issued: int,
) -> Seq<LayerGrant>
    decreases events.len(),
{
    if events.len() == 0 {
        Seq::empty()
    } else {
        let rest = events.drop_first();
        match events[0].description {
            Some(d) => if !taken.contains(d.name@) && issued < MAX_RENDER_LAYERS {
                seq![LayerGrant { layer: (issued + 1) as u8, descriptor: d }] + grants_for(
                    rest,
                    taken.insert(d.name@),
                    issued + 1,
                )
            } else {
                grants_for(rest, taken, issued)
            },
            None => grants_for(rest, taken, issued),
        }
    }
}

/// Whether the two names are the same.
pub fn same_name(a: &str, b: &str) -> (same: bool)
    ensures
        same == (a@ == b@),
{
    a.to_owned() == b.to_owned()
}

/// Whether one of the grants was given to a request of this name.
pub fn is_granted(grants: &Vec<LayerGrant>, name: &str) -> (granted: bool)
    ensures
        granted == granted_names(grants@).contains(name@),
{
    let mut k: usize = 0;
    while k < grants.len()
        invariant
            k <= grants.len(),
            forall|j: int| 0 <= j < k ==> (#[trigger] grants@[j]).descriptor.name@ != name@,
        decreases grants.len() - k,
    {
        if same_name(grants[k].descriptor.name, name) {
            return true;
        }
        k += 1;
    }
    false
}

/// Goes through a batch of requests and gives each a render layer of its own,
/// as far as the layers go. A request whose name is on record, or was asked
/// for earlier in the batch, gets none: a name is served once. Nor does a
/// request that comes when all layers are out: it is dropped, not kept for
/// later.
///
/// The textures themselves are made by the caller, one for each grant, and
/// put on record with `add_dynamic_texture`.
pub fn add_dynamic_texture_event_handler(
    events: &[AddDynamicTextureEvent],
    dyntex: &mut DynamicTextures,
) -> (grants: Vec<LayerGrant>)
    ensures
        grants@ == grants_for(
            events@,
            old(dyntex).entries().dom(),
            old(dyntex).issued() as int,
        ),
        final(dyntex).issued() == old(dyntex).issued() + grants@.len(),
        final(dyntex).entries() == old(dyntex).entries(),
        final(dyntex).records() == old(dyntex).records(),
        old(dyntex).wf() ==> final(dyntex).wf(),
{
    let mut grants: Vec<LayerGrant> = Vec::new();
    let ghost taken = dyntex.entries().dom();
    let ghost issued = dyntex.issued() as int;
    let mut i: usize = 0;
    assert(events@.skip(0) == events@);
    assert(taken.union(granted_names(grants@)) == taken);
    while i < events.len()
        invariant
            i <= events@.len(),
            taken == old(dyntex).entries().dom(),
            issued == old(dyntex).issued(),
            dyntex.entries() == old(dyntex).entries(),
            dyntex.records() == old(dyntex).records(),
            dyntex.issued() == issued + grants@.len(),
            old(dyntex).wf() ==> dyntex.wf(),
            grants_for(events@, taken, issued) == grants@ + grants_for(
                events@.skip(i as int),
                taken.union(granted_names(grants@)),
                dyntex.issued() as int,
            ),
        decreases events@.len() - i,
    {
        let ghost before = grants@;
        let ghost rest = events@.skip(i as int);
        let ghost spoken = taken.union(granted_names(before));
        assert(rest[0] == events@[i as int]);
        assert(rest.drop_first() == events@.skip(i + 1));
        match events[i].description {
            Some(desc) => {
                let on_record = dyntex.get_texture_handle(desc.name).is_some();
                let asked_before = is_granted(&grants, desc.name);
                assert(spoken.contains(desc.name@) == (on_record || asked_before));
                if !on_record && !asked_before {
                    match dyntex.get_available_render_layer() {
                        Some(layer) => {
                            let grant = LayerGrant { layer, descriptor: desc };
                            grants.push(grant);
                            assert(grants@ == before.push(grant));
                            assert(granted_names(grants@) == granted_names(before).insert(
                                desc.name@,
                            )) by {
                                assert forall|name: Seq<char>|
                                    granted_names(grants@).contains(name) implies granted_names(
                                    before,
                                ).insert(desc.name@).contains(name) by {
                                    let k = choose|k: int|
                                        0 <= k < grants@.len() && (
                                        #[trigger] grants@[k]).descriptor.name@ == name;
                                    if k < before.len() {
                                        assert(before[k].descriptor.name@ == name);
                                    }
                                }
                                assert forall|name: Seq<char>|
                                    granted_names(before).insert(desc.name@).contains(
                                        name,
                                    ) implies granted_names(grants@).contains(name) by {
                                    if name == desc.name@ {
                                        assert(grants@[before.len() as int].descriptor.name@
                                            == name);
                                    } else {
                                        let k = choose|k: int|
                                            0 <= k < before.len() && (
                                            #[trigger] before[k]).descriptor.name@ == name;
                                        assert(grants@[k].descriptor.name@ == name);
                                    }
                                }
                            }
                            assert(taken.union(granted_names(grants@)) == spoken.insert(
                                desc.name@,
                            ));
                            assert(before + (seq![grant] + grants_for(
                                events@.skip(i + 1),
                                spoken.insert(desc.name@),
                                dyntex.issued() as int,
                            )) == grants@ + grants_for(
                                events@.skip(i + 1),
                                spoken.insert(desc.name@),
                                dyntex.issued() as int,
                            ));
                        },
                        None => {},
                    }
                }
            },
            None => {},
        }
        i += 1;
    }
    assert(events@.skip(events@.len() as int).len() == 0);
    grants
}

/// What holds of the grants of a batch: they are no more than the layers that
/// were left; they carry the layers that follow those that were out, in
/// order; none goes to a name that was spoken for; and no two go to the same
/// name.
pub proof fn lemma_grants_for(events: Seq<AddDynamicTextureEvent>, taken: Set<Seq<char>>, issued: int)
    requires
        0 <= issued <= MAX_RENDER_LAYERS,
    ensures
        grants_for(events, taken, issued).len() <= events.len(),
        issued + grants_for(events, taken, issued).len() <= MAX_RENDER_LAYERS,
        forall|k: int|
            0 <= k < grants_for(events, taken, issued).len() ==> (#[trigger] grants_for(
                events,
                taken,
                issued,
            )[k]).layer == issued + k + 1,
        forall|k: int|
            0 <= k < grants_for(events, taken, issued).len() ==> !taken.contains(
                (#[trigger] grants_for(events, taken, issued)[k]).descriptor.name@,
            ),
        forall|j: int, k: int|
            0 <= j < k < grants_for(events, taken, issued).len() ==> (#[trigger] grants_for(
                events,
                taken,
                issued,
            )[j]).descriptor.name@ != (#[trigger] grants_for(
                events,
                taken,
                issued,
            )[k]).descriptor.name@,
    decreases events.len(),
{
    if events.len() > 0 {
        let rest = events.drop_first();
        let all = grants_for(events, taken, issued);
        match events[0].description {
            Some(d) => {
                if !taken.contains(d.name@) && issued < MAX_RENDER_LAYERS {
                    let later = grants_for(rest, taken.insert(d.name@), issued + 1);
                    lemma_grants_for(rest, taken.insert(d.name@), issued + 1);
                    let head = LayerGrant { layer: (issued + 1) as u8, descriptor: d };
                    assert(all == seq![head] + later);
                    assert(all[0] == head);
                    assert forall|k: int| 0 < k < all.len() implies all[k] == later[k - 1] by {}
                    assert forall|k: int| 0 <= k < all.len() implies (#[trigger] all[k]).layer
                        == issued + k + 1 by {
                        if k > 0 {
                            assert(all[k] == later[k - 1]);
                        }
                    }
                    assert forall|k: int| 0 <= k < all.len() implies !taken.contains(
                        (#[trigger] all[k]).descriptor.name@,
                    ) by {
                        if k > 0 {
                            assert(all[k] == later[k - 1]);
                        }
                    }
                    assert forall|j: int, k: int| 0 <= j < k < all.len() implies (
                    #[trigger] all[j]).descriptor.name@ != (#[trigger] all[k]).descriptor.name@ by {
                        assert(all[k] == later[k - 1]);
                        if j > 0 {
                            assert(all[j] == later[j - 1]);
                        }
                    }
                } else {
                    lemma_grants_for(rest, taken, issued);
                }
            },
            None => {
                lemma_grants_for(rest, taken, issued);
            },
        }
    }
}

/// Whether the texture of a sprite has been asked for, and whether the sprite
/// has been made.
#[derive(Default, Clone, Copy, Debug, PartialEq, Eq, Structural)]
pub struct SpriteSetup {
    pub added_textures: bool,
    pub added_sprite: bool,
}

/// What to do about a sprite that shows a texture.
#[derive(Clone, Copy, Debug, PartialEq, Eq, Structural)]
pub enum SetupAction {
    /// The texture is there and the sprite is not: make the sprite.
    SpawnSprite(TextureHandle),
    /// The texture is not there and nobody has asked for it: ask.
    RequestTexture,
    /// Nothing to do.
    Nothing,
}

impl SpriteSetup {
    /// What is done when the texture was looked up with the result `found`.
    pub open spec fn action(self, found: Option<(TextureHandle, u8)>) -> SetupAction {
        match found {
            Some((handle, _)) => if !self.added_sprite {
                SetupAction::SpawnSprite(handle)
            } else {
                SetupAction::Nothing
            },
            None => if !self.added_textures {
                SetupAction::RequestTexture
            } else {
                SetupAction::Nothing
            },
        }
    }

    /// The state after that was done.
    pub open spec fn after(self, found: Option<(TextureHandle, u8)>) -> SpriteSetup {
        match found {
            Some(_) => SpriteSetup { added_textures: self.added_textures, added_sprite: true },
            None => SpriteSetup { added_textures: true, added_sprite: self.added_sprite },
        }
    }
}

/// Decides what to do about a sprite, given what the lookup of its texture
/// found: the sprite is made once, when the texture is there; until then the
/// texture is asked for, once.
pub fn draw_textured_rect_setup(found: Option<(TextureHandle, u8)>, setup: &mut SpriteSetup) -> (action:
    SetupAction)
    ensures
        action == old(setup).action(found),
        *final(setup) == old(setup).after(found),
{
    match found {
        Some((handle, _)) => {
            if !setup.added_sprite {
                setup.added_sprite = true;
                SetupAction::SpawnSprite(handle)
            } else {
                SetupAction::Nothing
            }
        },
        None => {
            if !setup.added_textures {
                setup.added_textures = true;
                SetupAction::RequestTexture
            } else {
                SetupAction::Nothing
            }
        },
    }
}

} // verus!
