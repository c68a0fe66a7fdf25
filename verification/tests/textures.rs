use circle_scenes::dynamic_textures::{
    add_dynamic_texture_event_handler, draw_textured_rect_setup, is_granted, same_name,
    AddDynamicTextureEvent, DynamicTextures, LayerGrant, RenderToTextureDescriptor, Rgba,
    SetupAction, SpriteSetup, StartColor, TextureHandle,
};

const MAROON: Rgba = Rgba { red: 500_000, green: 0, blue: 0, alpha: 1_000_000 };

fn descriptor(name: &'static str) -> RenderToTextureDescriptor {
    RenderToTextureDescriptor {
        name,
        functype: "Circles2",
        size: 256,
        start_color: StartColor { hue: 100_000, saturation: 800_000, lightness: 700_000 },
        background_color: MAROON,
    }
}

fn request(name: &'static str) -> AddDynamicTextureEvent {
    AddDynamicTextureEvent { description: Some(descriptor(name)) }
}

fn numbered(i: u32) -> &'static str {
    Box::leak(format!("scene_{}", i).into_boxed_str())
}

fn serve(dyntex: &mut DynamicTextures, events: &[AddDynamicTextureEvent]) -> Vec<LayerGrant> {
    let grants = add_dynamic_texture_event_handler(events, dyntex);
    for grant in &grants {
        let handle = TextureHandle { id: 1000 + grant.layer as u64 };
        dyntex.add_dynamic_texture(&grant.descriptor, grant.layer, handle);
    }
    grants
}

#[test]
fn layers_are_given_out_from_one_to_thirty_two() {
    let mut dyntex = DynamicTextures::new();
    for expected in 1..=32u8 {
        assert_eq!(dyntex.get_available_render_layer(), Some(expected));
    }
    assert_eq!(dyntex.get_available_render_layer(), None);
    assert_eq!(dyntex.get_available_render_layer(), None);
}

#[test]
fn a_name_not_on_record_is_not_found() {
    let dyntex = DynamicTextures::new();
    assert_eq!(dyntex.get_texture_handle("red_256"), None);
}

#[test]
fn a_texture_on_record_is_found_under_its_name() {
    let mut dyntex = DynamicTextures::new();
    let layer = dyntex.get_available_render_layer().unwrap();
    dyntex.add_dynamic_texture(&descriptor("red_256"), layer, TextureHandle { id: 77 });
    assert_eq!(dyntex.get_texture_handle("red_256"), Some((TextureHandle { id: 77 }, 1)));
    assert_eq!(dyntex.get_texture_handle("green_512"), None);
    assert_eq!(dyntex.get_texture_handle("red_25"), None);
    assert_eq!(dyntex.get_texture_handle(""), None);
}

#[test]
fn a_name_put_on_record_again_resolves_to_the_later_texture() {
    let mut dyntex = DynamicTextures::new();
    dyntex.add_dynamic_texture(&descriptor("red_256"), 1, TextureHandle { id: 77 });
    dyntex.add_dynamic_texture(&descriptor("green_512"), 2, TextureHandle { id: 78 });
    dyntex.add_dynamic_texture(&descriptor("red_256"), 3, TextureHandle { id: 79 });
    assert_eq!(dyntex.get_texture_handle("red_256"), Some((TextureHandle { id: 79 }, 3)));
    assert_eq!(dyntex.get_texture_handle("green_512"), Some((TextureHandle { id: 78 }, 2)));
}

#[test]
fn thirty_three_scenes_leave_the_last_without_a_texture() {
    let mut dyntex = DynamicTextures::new();
    for i in 1..=33u32 {
        let grants = serve(&mut dyntex, &[request(numbered(i))]);
        assert_eq!(grants.len(), if i <= 32 { 1 } else { 0 });
    }
    let mut seen = Vec::new();
    for i in 1..=32u32 {
        let (handle, layer) = dyntex.get_texture_handle(numbered(i)).unwrap();
        assert_eq!(layer as u32, i);
        assert_eq!(handle, TextureHandle { id: 1000 + i as u64 });
        assert!(!seen.contains(&layer));
        seen.push(layer);
    }
    assert_eq!(dyntex.get_texture_handle(numbered(33)), None);
}

#[test]
fn thirty_three_scenes_in_one_batch_get_thirty_two_layers() {
    let mut dyntex = DynamicTextures::new();
    let events: Vec<AddDynamicTextureEvent> = (1..=33u32).map(|i| request(numbered(i))).collect();
    let grants = serve(&mut dyntex, &events);
    assert_eq!(grants.len(), 32);
    for (k, grant) in grants.iter().enumerate() {
        assert_eq!(grant.layer as usize, k + 1);
        assert_eq!(grant.descriptor.name, numbered(k as u32 + 1));
    }
    assert_eq!(dyntex.get_texture_handle(numbered(33)), None);
    assert_eq!(dyntex.get_available_render_layer(), None);
}

#[test]
fn an_event_without_a_description_gets_nothing() {
    let mut dyntex = DynamicTextures::new();
    let events = [AddDynamicTextureEvent::default(), request("red_256"), AddDynamicTextureEvent { description: None }];
    let grants = serve(&mut dyntex, &events);
    assert_eq!(grants.len(), 1);
    assert_eq!(grants[0].layer, 1);
    assert_eq!(grants[0].descriptor.name, "red_256");
    assert_eq!(grants[0].descriptor.size, 256);
    assert_eq!(dyntex.get_available_render_layer(), Some(2));
}

#[test]
fn a_name_asked_for_twice_in_a_batch_is_served_once() {
    let mut dyntex = DynamicTextures::new();
    let events = [request("red_256"), request("red_256"), request("green_512")];
    let grants = serve(&mut dyntex, &events);
    assert_eq!(grants.len(), 2);
    assert_eq!((grants[0].layer, grants[0].descriptor.name), (1, "red_256"));
    assert_eq!((grants[1].layer, grants[1].descriptor.name), (2, "green_512"));
}

#[test]
fn a_name_on_record_is_not_served_again() {
    let mut dyntex = DynamicTextures::new();
    serve(&mut dyntex, &[request("red_256")]);
    let grants = serve(&mut dyntex, &[request("red_256"), request("green_512")]);
    assert_eq!(grants.len(), 1);
    assert_eq!((grants[0].layer, grants[0].descriptor.name), (2, "green_512"));
    assert_eq!(dyntex.get_texture_handle("red_256"), Some((TextureHandle { id: 1001 }, 1)));
}

#[test]
fn the_handler_leaves_the_record_to_the_caller() {
    let mut dyntex = DynamicTextures::new();
    let grants = add_dynamic_texture_event_handler(&[request("red_256")], &mut dyntex);
    assert_eq!(grants.len(), 1);
    assert_eq!(dyntex.get_texture_handle("red_256"), None);
}

#[test]
fn same_name_compares_the_characters() {
    assert!(same_name("red_256", "red_256"));
    assert!(!same_name("red_256", "red_25"));
    assert!(!same_name("red_256", "Red_256"));
    assert!(same_name("", ""));
}

#[test]
fn is_granted_looks_at_every_grant() {
    let grants = vec![
        LayerGrant { layer: 1, descriptor: descriptor("red_256") },
        LayerGrant { layer: 2, descriptor: descriptor("green_512") },
    ];
    assert!(is_granted(&grants, "red_256"));
    assert!(is_granted(&grants, "green_512"));
    assert!(!is_granted(&grants, "blue"));
    assert!(!is_granted(&Vec::new(), "red_256"));
}

#[test]
fn the_texture_is_asked_for_once_and_the_sprite_made_once() {
    let mut setup = SpriteSetup::default();
    assert_eq!(draw_textured_rect_setup(None, &mut setup), SetupAction::RequestTexture);
    assert_eq!(setup, SpriteSetup { added_textures: true, added_sprite: false });
    assert_eq!(draw_textured_rect_setup(None, &mut setup), SetupAction::Nothing);
    let found = Some((TextureHandle { id: 5 }, 1));
    assert_eq!(draw_textured_rect_setup(found, &mut setup), SetupAction::SpawnSprite(TextureHandle { id: 5 }));
    assert_eq!(setup, SpriteSetup { added_textures: true, added_sprite: true });
    assert_eq!(draw_textured_rect_setup(found, &mut setup), SetupAction::Nothing);
    assert_eq!(draw_textured_rect_setup(None, &mut setup), SetupAction::Nothing);
}

#[test]
fn a_texture_that_is_there_is_not_asked_for() {
    let mut setup = SpriteSetup::default();
    let found = Some((TextureHandle { id: 9 }, 4));
    assert_eq!(draw_textured_rect_setup(found, &mut setup), SetupAction::SpawnSprite(TextureHandle { id: 9 }));
    assert_eq!(setup, SpriteSetup { added_textures: false, added_sprite: true });
}
