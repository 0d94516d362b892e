//! The data that the renderer works on.

pub mod frame;
pub mod object;
pub mod renderer;

pub use frame::Frame;
pub use object::Location;
pub use object::MalformedSprite;
pub use object::Representation;
pub use object::Sprite;
pub use renderer::Renderer;
pub use renderer::RendererView;
