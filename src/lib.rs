//! A small 2D entity-component-system runtime: component tables keyed by
//! entity, a physics bridge that keeps those tables in step with an outside
//! rigid-body solver, materialised queries, and an ordered stage scheduler.
use vstd::prelude::*;

pub mod components;
pub mod texture;
pub mod assets;
pub mod physics;
pub mod world;
pub mod query;
pub mod scheduler;
pub mod systems;
pub mod scene;
pub mod render;
pub mod editor;

pub use components::{Entity, Position, Sprite, TextureSprite, Velocity, UNIT};
pub use texture::{AtlasSprite, SpriteAtlas, Texture};
pub use assets::AssetsLoader;
pub use physics::{BodyHandle, BodyReport, PhysicsBodyType, PhysicsCommand};
pub use world::World;
pub use query::{
    MovementQuery, PositionQuery, PositionVelocityQuery, RenderableMovementQuery, RenderableQuery,
    SingleQuery, SpriteQuery, VelocityQuery,
};
pub use scheduler::{QuerySystem, QuerySystemAdapter, Scheduler, System};
pub use systems::{InputSystem, MovementSystem, QueryDemoSystem, VelocitySyncSystem};
pub use render::RenderSystem;
pub use scene::{EntityData, PhysicsBodyData, Scene, SceneLoader};
pub use editor::{ComponentEditorState, ComponentType, EntityHierarchy, GameState};

verus! {

/// Default frame width, in pixels.
pub const DEFAULT_WIDTH: usize = 800;

/// Default frame height, in pixels.
pub const DEFAULT_HEIGHT: usize = 600;

} // verus!
