use rocket_engine::assets::pack_argb;
use rocket_engine::render::{HEIGHT, WIDTH};
use rocket_engine::{
    AssetsLoader, AtlasSprite, InputSystem, Position, RenderSystem, Sprite, SpriteAtlas, Texture,
    TextureSprite, Velocity, World, UNIT,
};

#[test]
fn sprite_colours_and_channels() {
    assert_eq!(Sprite::green(3).color, 0xFF00FF00);
    assert_eq!(Sprite::blue(3).color, 0xFF0000FF);
    assert_eq!(Sprite::white(3).color, 0xFFFFFFFF);
    assert_eq!(Sprite::yellow(3).color, 0xFFFFFF00);
    assert_eq!(Sprite::new(0x80123456, 9).get_argb(), (0x80, 0x12, 0x34, 0x56));
    assert_eq!(Sprite::red(5).size, 5);
}

#[test]
fn vectors_and_tuples() {
    assert_eq!(Position::new(3, -4).as_tuple(), (3, -4));
    assert_eq!(Velocity::zero().as_tuple(), (0, 0));
    assert_eq!(Velocity::new(-1, 2).as_tuple(), (-1, 2));
}

#[test]
fn texture_pixels_and_bounds() {
    let mut t = Texture::new(2, 3, vec![1, 2, 3, 4, 5, 6]);
    assert_eq!(t.dimensions(), (2, 3));
    assert_eq!(t.pixel_count(), 6);
    assert_eq!(t.get_pixel(1, 2), 6);
    assert_eq!(t.get_pixel(2, 0), 0);
    assert_eq!(t.get_pixel(0, 3), 0);
    t.set_pixel(0, 1, 99);
    t.set_pixel(5, 5, 77);
    assert_eq!(t.get_pixel(0, 1), 99);
    assert_eq!(t.get_pixel(1, 1), 4);
}

#[test]
fn atlas_regions_by_name() {
    let mut atlas = SpriteAtlas::new(Texture::new(1, 1, vec![0]));
    atlas.add_sprite("a".to_string(), 1, 2, 3, 4);
    atlas.add_sprite("b".to_string(), 0, 0, 1, 1);
    atlas.add_sprite("a".to_string(), 5, 6, 7, 8);
    assert_eq!(atlas.sprite_count(), 2);
    assert_eq!(atlas.sprite_names(), vec!["a".to_string(), "b".to_string()]);
    assert_eq!(atlas.get_sprite("a").unwrap().bounds(), (5, 6, 7, 8));
    assert!(atlas.get_sprite("c").is_none());
}

#[test]
fn atlas_sprite_contains_point() {
    let s = AtlasSprite::new(10, 20, 5, 5);
    assert!(s.contains_point(10, 20));
    assert!(s.contains_point(14, 24));
    assert!(!s.contains_point(15, 20));
    assert!(!s.contains_point(9, 22));
}

#[test]
fn texture_sprite_scaling() {
    let t = TextureSprite::with_scale("player", 2500);
    assert_eq!(t.get_scaled_size(32, 10), (80, 25));
    let half = TextureSprite::new("x".to_string(), 500);
    assert_eq!(half.get_scaled_size(33, 1), (16, 0));
}

#[test]
fn sample_atlas_layout_and_colours() {
    let atlas = AssetsLoader::create_sample_atlas();
    assert_eq!(atlas.sprite_count(), 4);
    assert_eq!(atlas.get_sprite("enemy2").unwrap().bounds(), (64, 0, 32, 32));
    let tex = atlas.texture();
    assert_eq!(tex.dimensions(), (128, 128));
    assert_eq!(tex.get_pixel(0, 0), 0xFFFF0000);
    assert_eq!(tex.get_pixel(40, 31), 0xFF00FF00);
    assert_eq!(tex.get_pixel(70, 5), 0xFF0000FF);
    assert_eq!(tex.get_pixel(127, 0), 0xFFFFFF00);
    assert_eq!(tex.get_pixel(0, 32), 0xFF000000);
}

#[test]
fn rgba_bytes_become_argb_pixels() {
    assert_eq!(pack_argb(0x11, 0x22, 0x33, 0x44), 0x44112233);
    let bytes = vec![1, 2, 3, 4, 5, 6, 7, 8];
    let t = AssetsLoader::texture_from_rgba(2, 1, &bytes).unwrap();
    assert_eq!(t.get_pixel(0, 0), 0x04010203);
    assert_eq!(t.get_pixel(1, 0), 0x08050607);
    assert!(AssetsLoader::texture_from_rgba(3, 1, &bytes).is_none());
    let atlas = AssetsLoader::load_atlas(t);
    assert_eq!(atlas.get_sprite("powerup").unwrap().bounds(), (96, 0, 32, 32));
}

#[test]
fn input_stage_keeps_the_player() {
    let mut input = InputSystem::new(3);
    assert_eq!(input.get_player_entity(), 3);
    input.set_player_entity(8);
    assert_eq!(input.get_player_entity(), 8);
}

#[test]
fn render_frame_draws_sprites_squares_and_textures() {
    let mut world = World::new();
    world.set_sprite_atlas(AssetsLoader::create_sample_atlas());
    let a = world.create_entity();
    world.add_position(a, Position::new(10 * UNIT, 10 * UNIT));
    world.add_sprite(a, Sprite::new(0x00123456, 2));
    let b = world.create_entity();
    world.add_position(b, Position::new(100 * UNIT, 100 * UNIT));
    let c = world.create_entity();
    world.add_position(c, Position::new(300 * UNIT, 200 * UNIT));
    world.add_texture_sprite(c, TextureSprite::with_scale("enemy1", 500));
    let mut buffer = vec![7u32; WIDTH * HEIGHT];
    RenderSystem::render_frame(&mut buffer, &world);
    assert_eq!(buffer[10 * WIDTH + 10], 0xFF123456);
    assert_eq!(buffer[11 * WIDTH + 11], 0xFF123456);
    assert_eq!(buffer[12 * WIDTH + 10], 0xFF000000);
    assert_eq!(buffer[100 * WIDTH + 100], 0xFFFF0000);
    assert_eq!(buffer[119 * WIDTH + 119], 0xFFFF0000);
    assert_eq!(buffer[120 * WIDTH + 119], 0xFF000000);
    assert_eq!(buffer[200 * WIDTH + 300], 0xFF00FF00);
    assert_eq!(buffer[215 * WIDTH + 315], 0xFF00FF00);
    assert_eq!(buffer[216 * WIDTH + 300], 0xFF000000);
    assert_eq!(buffer[0], 0xFF000000);
}

#[test]
fn render_clips_at_the_frame_edge() {
    let mut buffer = vec![0u32; WIDTH * HEIGHT];
    RenderSystem::draw_default_square(&mut buffer, 790 * UNIT, -5 * UNIT);
    assert_eq!(buffer[0 * WIDTH + 799], 0xFFFF0000);
    assert_eq!(buffer[19 * WIDTH + 790], 0xFFFF0000);
    assert_eq!(buffer[20 * WIDTH + 790], 0);
    assert_eq!(buffer[0 * WIDTH + 789], 0);
}
