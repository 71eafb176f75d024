//! A shell/terminal text core: an editable character-device buffer with
//! cursor and line tracking, a channel multiplexer over such buffers, an
//! incremental tokenizer for the `runmd` markup language that also maintains
//! a key/value attribute graph, and a theme that maps semantic tokens to
//! colored text runs.

mod char_device;
mod color;
mod graph;
mod numbers;
mod plain;
mod registry;
mod runmd;
mod text;
mod theme;

pub use char_device::CharDevice;
pub use color::ColorTheme;
pub use color::Rgba;
pub use graph::Attribute;
pub use graph::Block;
pub use graph::StateGraph;
pub use graph::Value;
pub use plain::Plain;
pub use registry::DeviceRegistry;
pub use runmd::AttributeGraphElements;
pub use runmd::AttributeGraphEvents;
pub use runmd::v1_lexer::classify_event;
pub use runmd::Runmd;
pub use theme::DefaultTheme;
pub use theme::Grammer;
pub use theme::SourceSpan;
pub use theme::StyledRun;
pub use theme::Theme;
pub use theme::ThemeColor;
pub use theme::ThemeToken;
pub use theme::Token;
